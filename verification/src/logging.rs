//! Reading the logging settings: level and syslog facility names.

use vstd::prelude::*;

use crate::text::same_text;

verus! {

/// How much is logged, from least to most.
#[derive(Debug, Clone, Copy, PartialEq, Eq, Structural)]
pub enum LogLevel {
    Error,
    Warn,
    Info,
    Debug,
    Trace,
}

/// The syslog facility messages are sent to.
#[derive(Debug, Clone, Copy, PartialEq, Eq, Structural)]
pub enum SyslogFacility {
    Auth,
    Local0,
    Local1,
    Local2,
    Local3,
    Local4,
    Local5,
    Local6,
    Local7,
    Daemon,
}

/// Names the text of std's `str::to_lowercase` for `s`.
pub uninterp spec fn lowercase_text(s: Seq<char>) -> Seq<char>;

/// Lowercases a text (std's `str::to_lowercase`, Unicode rules). Trusted:
/// the result is `lowercase_text` of the text.
#[verifier::external_body]
fn lowercase(s: &str) -> (r: String)
    ensures
        r@ == lowercase_text(s@),
{
    s.to_lowercase()
}

/// The level a lowercased name selects; unknown names select `Info`.
pub open spec fn level_named(name: Seq<char>) -> LogLevel {
    if name == "error"@ {
        LogLevel::Error
    } else if name == "warn"@ || name == "warning"@ {
        LogLevel::Warn
    } else if name == "info"@ {
        LogLevel::Info
    } else if name == "debug"@ {
        LogLevel::Debug
    } else if name == "trace"@ {
        LogLevel::Trace
    } else {
        LogLevel::Info
    }
}

/// The facility a lowercased name selects; unknown names select `Auth`.
pub open spec fn facility_named(name: Seq<char>) -> SyslogFacility {
    if name == "auth"@ || name == "authpriv"@ {
        SyslogFacility::Auth
    } else if name == "local0"@ {
        SyslogFacility::Local0
    } else if name == "local1"@ {
        SyslogFacility::Local1
    } else if name == "local2"@ {
        SyslogFacility::Local2
    } else if name == "local3"@ {
        SyslogFacility::Local3
    } else if name == "local4"@ {
        SyslogFacility::Local4
    } else if name == "local5"@ {
        SyslogFacility::Local5
    } else if name == "local6"@ {
        SyslogFacility::Local6
    } else if name == "local7"@ {
        SyslogFacility::Local7
    } else if name == "daemon"@ {
        SyslogFacility::Daemon
    } else {
        SyslogFacility::Auth
    }
}

/// The log level a configured name selects, case-insensitively.
pub fn parse_level(s: &str) -> (r: LogLevel)
    ensures
        r == level_named(lowercase_text(s@)),
{
    let name = lowercase(s);
    let n = name.as_str();
    if same_text(n, "error") {
        LogLevel::Error
    } else if same_text(n, "warn") || same_text(n, "warning") {
        LogLevel::Warn
    } else if same_text(n, "info") {
        LogLevel::Info
    } else if same_text(n, "debug") {
        LogLevel::Debug
    } else if same_text(n, "trace") {
        LogLevel::Trace
    } else {
        LogLevel::Info
    }
}

/// The syslog facility a configured name selects, case-insensitively.
pub fn parse_facility(s: &str) -> (r: SyslogFacility)
    ensures
        r == facility_named(lowercase_text(s@)),
{
    let name = lowercase(s);
    let n = name.as_str();
    if same_text(n, "auth") || same_text(n, "authpriv") {
        SyslogFacility::Auth
    } else if same_text(n, "local0") {
        SyslogFacility::Local0
    } else if same_text(n, "local1") {
        SyslogFacility::Local1
    } else if same_text(n, "local2") {
        SyslogFacility::Local2
    } else if same_text(n, "local3") {
        SyslogFacility::Local3
    } else if same_text(n, "local4") {
        SyslogFacility::Local4
    } else if same_text(n, "local5") {
        SyslogFacility::Local5
    } else if same_text(n, "local6") {
        SyslogFacility::Local6
    } else if same_text(n, "local7") {
        SyslogFacility::Local7
    } else if same_text(n, "daemon") {
        SyslogFacility::Daemon
    } else {
        SyslogFacility::Auth
    }
}

/// Each documented level name selects its own level, and only it: `error`
/// selects Error, `warn` and `warning` Warn, `debug` Debug, `trace` Trace,
/// and `info`, like any name not documented, Info.
pub proof fn law_level_names(name: Seq<char>)
    ensures
        (level_named(name) == LogLevel::Error) <==> name == "error"@,
        (level_named(name) == LogLevel::Warn) <==> (name == "warn"@ || name == "warning"@),
        (level_named(name) == LogLevel::Debug) <==> name == "debug"@,
        (level_named(name) == LogLevel::Trace) <==> name == "trace"@,
        (level_named(name) == LogLevel::Info) <==> !(name == "error"@ || name == "warn"@ || name
            == "warning"@ || name == "debug"@ || name == "trace"@),
        name == "info"@ ==> level_named(name) == LogLevel::Info,
{
    reveal_strlit("error");
    reveal_strlit("warn");
    reveal_strlit("warning");
    reveal_strlit("info");
    reveal_strlit("debug");
    reveal_strlit("trace");
    assert("error"@[0] != "debug"@[0] && "error"@[0] != "trace"@[0] && "debug"@[0] != "trace"@[0]);
    assert("warn"@[0] != "info"@[0]);
    assert("error"@ != "debug"@ && "error"@ != "trace"@ && "debug"@ != "trace"@);
    assert("warn"@ != "info"@ && "warning"@ != "info"@);
    assert("error"@ != "warn"@ && "error"@ != "warning"@ && "warn"@ != "debug"@);
}

/// Each documented facility name selects its own facility, and only it:
/// `auth` and `authpriv` select Auth (as does any name not documented),
/// `local0` to `local7` the local facilities, `daemon` Daemon.
pub proof fn law_facility_names(name: Seq<char>)
    ensures
        (facility_named(name) == SyslogFacility::Local0) <==> name == "local0"@,
        (facility_named(name) == SyslogFacility::Local1) <==> name == "local1"@,
        (facility_named(name) == SyslogFacility::Local2) <==> name == "local2"@,
        (facility_named(name) == SyslogFacility::Local3) <==> name == "local3"@,
        (facility_named(name) == SyslogFacility::Local4) <==> name == "local4"@,
        (facility_named(name) == SyslogFacility::Local5) <==> name == "local5"@,
        (facility_named(name) == SyslogFacility::Local6) <==> name == "local6"@,
        (facility_named(name) == SyslogFacility::Local7) <==> name == "local7"@,
        (facility_named(name) == SyslogFacility::Daemon) <==> name == "daemon"@,
        (name == "auth"@ || name == "authpriv"@) ==> facility_named(name) == SyslogFacility::Auth,
{
    reveal_strlit("auth");
    reveal_strlit("authpriv");
    reveal_strlit("local0");
    reveal_strlit("local1");
    reveal_strlit("local2");
    reveal_strlit("local3");
    reveal_strlit("local4");
    reveal_strlit("local5");
    reveal_strlit("local6");
    reveal_strlit("local7");
    reveal_strlit("daemon");
    let l = seq!["local0"@, "local1"@, "local2"@, "local3"@, "local4"@, "local5"@, "local6"@, "local7"@];
    assert forall|i: int, j: int| 0 <= i < j < 8 implies #[trigger] l[i] != #[trigger] l[j] by {
        assert(l[i][5] != l[j][5]);
    }
    assert(l[0] == "local0"@);
    assert(l[1] == "local1"@);
    assert(l[2] == "local2"@);
    assert(l[3] == "local3"@);
    assert(l[4] == "local4"@);
    assert(l[5] == "local5"@);
    assert(l[6] == "local6"@);
    assert(l[7] == "local7"@);
    assert("local0"@[0] != "daemon"@[0]);
    assert("local0"@ != "daemon"@);
    assert("local1"@[0] != "daemon"@[0]);
    assert("local1"@ != "daemon"@);
    assert("local2"@[0] != "daemon"@[0]);
    assert("local2"@ != "daemon"@);
    assert("local3"@[0] != "daemon"@[0]);
    assert("local3"@ != "daemon"@);
    assert("local4"@[0] != "daemon"@[0]);
    assert("local4"@ != "daemon"@);
    assert("local5"@[0] != "daemon"@[0]);
    assert("local5"@ != "daemon"@);
    assert("local6"@[0] != "daemon"@[0]);
    assert("local6"@ != "daemon"@);
    assert("local7"@[0] != "daemon"@[0]);
    assert("local7"@ != "daemon"@);
    assert("daemon"@.len() != "auth"@.len() && "daemon"@.len() != "authpriv"@.len());
    assert("daemon"@ != "auth"@ && "daemon"@ != "authpriv"@);
    assert forall|i: int| 0 <= i < 8 implies #[trigger] l[i] != "daemon"@ && l[i] != "auth"@ && l[i]
        != "authpriv"@ by {
        assert(l[i][0] != "daemon"@[0]);
    }
}

} // verus!
