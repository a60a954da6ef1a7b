//! STS temporary credentials as the client hands them over, the checks on
//! them, and the expiry check against the clock.

use chrono::{DateTime, NaiveDateTime, Utc};
use vstd::arithmetic::div_mod::{lemma_fundamental_div_mod_converse, lemma_mod_multiples_vanish};
use vstd::prelude::*;
use zeroize::Zeroize;

use crate::text::{decimal, push_decimal, push_signed_decimal, signed_decimal};
use crate::validation::unit_result_view;

verus! {

/// A set of STS temporary credentials.
#[derive(Debug)]
pub struct StsCredentials {
    pub access_key_id: String,
    pub secret_access_key: String,
    pub session_token: String,
    pub expiration: Option<String>,
}

/// Names what `DateTime::parse_from_rfc3339(text)` gives when it parses:
/// the instant, in UTC, as seconds since the Unix epoch and the subsecond
/// nanoseconds (`timestamp()` and `timestamp_subsec_nanos()`); `None` when
/// chrono refuses the text.
pub uninterp spec fn rfc3339_instant(text: Seq<char>) -> Option<(i64, u32)>;

/// Names what `NaiveDateTime::parse_from_str(text, format)` gives, taken as
/// a UTC instant (seconds since the epoch and subsecond nanoseconds), or the
/// `Display` text of chrono's parse error.
pub uninterp spec fn naive_utc_instant(text: Seq<char>, format: Seq<char>) -> Result<
    (i64, u32),
    Seq<char>,
>;

/// Names the text of chrono's `to_rfc3339()` for the UTC date-time whose
/// timestamp is `secs` and whose subsecond nanoseconds are `nanos`.
pub uninterp spec fn utc_rfc3339_text(secs: i64, nanos: u32) -> Seq<char>;

/// A parsed instant without its rendering, and an error as characters.
pub open spec fn instant_result_view(r: Result<(i64, u32, String), String>) -> Result<(i64, u32), Seq<char>> {
    match r {
        Ok(p) => Ok((p.0, p.1)),
        Err(e) => Err(e@),
    }
}

/// A parsed instant with its rendering as characters, and an error as
/// characters.
pub open spec fn parsed_expiration_view(r: Result<(i64, u32, String), String>) -> Result<(i64, u32, Seq<char>), Seq<char>> {
    match r {
        Ok(p) => Ok((p.0, p.1, p.2@)),
        Err(e) => Err(e@),
    }
}

/// Parses an RFC 3339 timestamp with chrono (`DateTime::parse_from_rfc3339`),
/// converts it to UTC and renders it back with `to_rfc3339()`. Trusted: the
/// result is `rfc3339_instant` of the text, with the rendering that
/// `utc_rfc3339_text` names; the grammar itself is chrono's.
#[verifier::external_body]
fn parse_rfc3339(text: &str) -> (r: Option<(i64, u32, String)>)
    ensures
        r is None ==> rfc3339_instant(text@) is None,
        r matches Some(p) ==> rfc3339_instant(text@) == Some((p.0, p.1)) && p.2@
            == utc_rfc3339_text(p.0, p.1),
{
    match DateTime::parse_from_rfc3339(text) {
        Ok(parsed) => {
            let utc = parsed.with_timezone(&Utc);
            Some((utc.timestamp(), utc.timestamp_subsec_nanos(), utc.to_rfc3339()))
        },
        Err(_) => None,
    }
}

/// Parses a timestamp with chrono (`NaiveDateTime::parse_from_str` with the
/// given format), takes it as UTC (`and_utc`) and renders it with
/// `to_rfc3339()`. Trusted: the result is `naive_utc_instant` of the text
/// and format, with the rendering that `utc_rfc3339_text` names, or the
/// text of chrono's error.
#[verifier::external_body]
fn parse_naive_utc(text: &str, format: &str) -> (r: Result<(i64, u32, String), String>)
    ensures
        instant_result_view(r) == naive_utc_instant(text@, format@),
        r matches Ok(p) ==> p.2@ == utc_rfc3339_text(p.0, p.1),
{
    match NaiveDateTime::parse_from_str(text, format) {
        Ok(naive) => {
            let utc = naive.and_utc();
            Ok((utc.timestamp(), utc.timestamp_subsec_nanos(), utc.to_rfc3339()))
        },
        Err(e) => Err(e.to_string()),
    }
}

/// Wipes a string: its bytes are overwritten with zeros and it is left
/// empty (zeroize's `Zeroize` for `String`). Trusted: the string is empty
/// afterwards.
#[verifier::external_body]
fn wipe(s: &mut String)
    ensures
        final(s)@ == Seq::<char>::empty(),
{
    s.zeroize();
}

/// The format of expiry timestamps that RFC 3339 parsing refuses but that
/// are still accepted: `YYYY-MM-DDTHH:MM:SSZ`.
pub open spec fn fallback_format() -> Seq<char> {
    "%Y-%m-%dT%H:%M:%SZ"@
}

/// The message for an expiry timestamp that cannot be read.
pub open spec fn invalid_timestamp_message(text: Seq<char>, detail: Seq<char>) -> Seq<char> {
    "invalid expiration timestamp '"@ + text + "': "@ + detail
}

/// The instant an expiry text denotes, with its RFC 3339 rendering, or why
/// it cannot be read: RFC 3339 first, then the fallback format; the
/// fallback's error is wrapped twice, once by each stage.
pub open spec fn expiration_parse(text: Seq<char>) -> Result<(i64, u32, Seq<char>), Seq<char>> {
    match rfc3339_instant(text) {
        Some(t) => Ok((t.0, t.1, utc_rfc3339_text(t.0, t.1))),
        None => match naive_utc_instant(text, fallback_format()) {
            Ok(t) => Ok((t.0, t.1, utc_rfc3339_text(t.0, t.1))),
            Err(e) => Err(invalid_timestamp_message(text, invalid_timestamp_message(text, e))),
        },
    }
}

/// The whole seconds from `earlier` to `later`, both given as
/// (seconds since the epoch, subsecond nanoseconds), as chrono's
/// `signed_duration_since(..).num_seconds()` counts them: a leap second
/// (nanoseconds of a billion or more) counts once when the times of day
/// straddle it, and the count is truncated toward zero.
pub open spec fn whole_seconds_between(later: (i64, u32), earlier: (i64, u32)) -> int {
    let day = 86400int;
    let sod_later = (later.0 as int) % day;
    let sod_earlier = (earlier.0 as int) % day;
    let leap = if sod_later > sod_earlier && earlier.1 >= 1_000_000_000 {
        1int
    } else if sod_later < sod_earlier && later.1 >= 1_000_000_000 {
        -1int
    } else {
        0int
    };
    let frac = later.1 - earlier.1;
    let secs = later.0 - earlier.0 + leap + frac / 1_000_000_000int;
    let nanos = frac % 1_000_000_000int;
    if secs < 0 && nanos > 0 {
        secs + 1
    } else {
        secs
    }
}

/// Whether credentials with this expiry may be used at `now` with the given
/// grace period, and if not, why: no expiry always passes; an unreadable
/// expiry fails with the parse message; an expiry in the past fails; one
/// less than `grace` seconds away fails.
pub open spec fn expiration_verdict(expiration: Option<Seq<char>>, grace: u64, now: (i64, u32)) -> Result<
    (),
    Seq<char>,
> {
    match expiration {
        None => Ok(()),
        Some(text) => match expiration_parse(text) {
            Err(e) => Err(e),
            Ok(p) => {
                let remaining = whole_seconds_between((p.0, p.1), now);
                if remaining < 0 {
                    Err("credentials expired at "@ + p.2)
                } else if remaining < grace {
                    Err(
                        "credentials expire in "@ + signed_decimal(remaining) + "s (grace period: "@
                            + decimal(grace as nat) + "s)"@,
                    )
                } else {
                    Ok(())
                }
            },
        },
    }
}

/// An optional string taken as characters.
pub open spec fn opt_text(o: Option<String>) -> Option<Seq<char>> {
    match o {
        Some(s) => Some(s@),
        None => None,
    }
}

/// Why a parsed set of credentials is refused, if it is: an empty access
/// key id, secret key or session token, checked in that order.
pub open spec fn credentials_rejection(c: StsCredentials) -> Option<Seq<char>> {
    if c.access_key_id@.len() == 0 {
        Some("AccessKeyId is empty"@)
    } else if c.secret_access_key@.len() == 0 {
        Some("SecretAccessKey is empty"@)
    } else if c.session_token@.len() == 0 {
        Some("SessionToken is empty"@)
    } else {
        None
    }
}

/// Credentials without an expiry pass the expiry check for every grace
/// period and at every instant.
pub proof fn law_no_expiry_always_passes(grace: u64, now: (i64, u32))
    ensures
        expiration_verdict(None, grace, now) is Ok,
{
}

/// An expiry passes exactly when it can be read and at least `grace` whole
/// seconds remain until it.
pub proof fn law_pass_iff_grace_left(text: Seq<char>, grace: u64, now: (i64, u32))
    ensures
        expiration_verdict(Some(text), grace, now) is Ok <==> {
            &&& expiration_parse(text) is Ok
            &&& whole_seconds_between(
                (expiration_parse(text)->Ok_0.0, expiration_parse(text)->Ok_0.1),
                now,
            ) >= grace
        },
{
}

/// Shortening the grace period never turns a pass into a refusal.
pub proof fn law_shorter_grace_still_passes(
    expiration: Option<Seq<char>>,
    shorter: u64,
    longer: u64,
    now: (i64, u32),
)
    requires
        shorter <= longer,
        expiration_verdict(expiration, longer, now) is Ok,
    ensures
        expiration_verdict(expiration, shorter, now) is Ok,
{
}

/// Euclidean remainder of `t` by a day's seconds.
fn second_of_day(t: i64) -> (r: i128)
    ensures
        r == t as int % 86400,
        0 <= r < 86400,
{
    let k: u128 = 106751991167301;
    let shifted: u128 = ((t as i128) + (k as i128) * 86400) as u128;
    let r = (shifted % 86400) as i128;
    proof {
        lemma_mod_multiples_vanish(k as int, t as int, 86400);
        assert(86400 * (k as int) + t as int == shifted as int);
    }
    r
}

/// The whole seconds from `earlier` to `later` (see `whole_seconds_between`).
pub fn seconds_between(later: (i64, u32), earlier: (i64, u32)) -> (r: i128)
    ensures
        r == whole_seconds_between(later, earlier),
{
    let sod_later = second_of_day(later.0);
    let sod_earlier = second_of_day(earlier.0);
    let leap: i128 = if sod_later > sod_earlier && earlier.1 >= 1_000_000_000 {
        1
    } else if sod_later < sod_earlier && later.1 >= 1_000_000_000 {
        -1
    } else {
        0
    };
    let frac: i128 = later.1 as i128 - earlier.1 as i128;
    let mut q: i128 = 0;
    let mut rem: i128 = frac;
    while rem < 0
        invariant
            frac == q * 1_000_000_000 + rem,
            -4_294_967_296 < frac < 4_294_967_296,
            frac <= rem,
            rem < 1_000_000_000 || rem == frac,
            -5 <= q <= 0,
        decreases 1_000_000_000 - rem,
    {
        rem = rem + 1_000_000_000;
        q = q - 1;
    }
    while rem >= 1_000_000_000
        invariant
            frac == q * 1_000_000_000 + rem,
            -4_294_967_296 < frac < 4_294_967_296,
            0 <= rem < 4_294_967_296,
            -5 <= q <= 5,
            q <= 0 || rem >= 0,
        decreases rem,
    {
        rem = rem - 1_000_000_000;
        q = q + 1;
    }
    proof {
        lemma_fundamental_div_mod_converse(frac as int, 1_000_000_000, q as int, rem as int);
    }
    let secs: i128 = later.0 as i128 - earlier.0 as i128 + leap + q;
    if secs < 0 && rem > 0 {
        secs + 1
    } else {
        secs
    }
}

/// Reads an expiry timestamp (see `expiration_parse`).
pub fn parse_expiration(text: &str) -> (r: Result<(i64, u32, String), String>)
    ensures
        parsed_expiration_view(r) == expiration_parse(text@),
{
    if let Some(p) = parse_rfc3339(text) {
        return Ok(p);
    }
    match parse_naive_utc(text, "%Y-%m-%dT%H:%M:%SZ") {
        Ok(p) => Ok(p),
        Err(e) => {
            let mut inner = "invalid expiration timestamp '".to_owned();
            inner.append(text);
            inner.append("': ");
            inner.append(e.as_str());
            let mut outer = "invalid expiration timestamp '".to_owned();
            outer.append(text);
            outer.append("': ");
            outer.append(inner.as_str());
            Err(outer)
        },
    }
}

impl StsCredentials {
    /// Accepts credentials that the JSON parser produced, or reports why
    /// not. A parse failure comes back with the parser's message after
    /// `invalid credential JSON: `; parsed credentials are refused when the
    /// access key id, the secret key or the session token is empty.
    pub fn from_parsed(parsed: Result<StsCredentials, String>) -> (r: Result<StsCredentials, String>)
        ensures
            parsed matches Err(e) ==> r matches Err(m) && m@ == "invalid credential JSON: "@ + e@,
            parsed matches Ok(c) ==> {
                &&& (r is Ok <==> credentials_rejection(c) is None)
                &&& (r matches Ok(c2) ==> c2 == c)
                &&& (r matches Err(m) ==> credentials_rejection(c) == Some(m@))
            },
    {
        match parsed {
            Err(e) => {
                let mut m = "invalid credential JSON: ".to_owned();
                m.append(e.as_str());
                Err(m)
            },
            Ok(mut creds) => {
                if creds.access_key_id.as_str().is_empty() {
                    creds.zeroize();
                    return Err("AccessKeyId is empty".to_owned());
                }
                if creds.secret_access_key.as_str().is_empty() {
                    creds.zeroize();
                    return Err("SecretAccessKey is empty".to_owned());
                }
                if creds.session_token.as_str().is_empty() {
                    creds.zeroize();
                    return Err("SessionToken is empty".to_owned());
                }
                Ok(creds)
            },
        }
    }

    /// Checks the expiry against the instant `now` with a grace period of
    /// `grace_period_secs` seconds (see `expiration_verdict`).
    pub fn check_expiration_at(&self, grace_period_secs: u64, now: (i64, u32)) -> (r: Result<
        (),
        String,
    >)
        ensures
            unit_result_view(r) == expiration_verdict(
                opt_text(self.expiration),
                grace_period_secs,
                now,
            ),
    {
        let text = match &self.expiration {
            Some(t) => t,
            None => return Ok(()),
        };
        let (secs, nanos, shown) = parse_expiration(text.as_str())?;
        let remaining = seconds_between((secs, nanos), now);
        if remaining < 0 {
            let mut m = "credentials expired at ".to_owned();
            m.append(shown.as_str());
            return Err(m);
        }
        if remaining < grace_period_secs as i128 {
            let mut m = "credentials expire in ".to_owned();
            push_signed_decimal(&mut m, remaining);
            m.append("s (grace period: ");
            push_decimal(&mut m, grace_period_secs as u128);
            m.append("s)");
            return Err(m);
        }
        Ok(())
    }

    /// Checks the expiry against the current time with a grace period of
    /// `grace_period_secs` seconds. The outcome is `expiration_verdict` at
    /// whatever instant the clock gave; without an expiry it always passes,
    /// and an unreadable expiry always fails with the parse message.
    pub fn check_expiration(&self, grace_period_secs: u64) -> (r: Result<(), String>)
        ensures
            exists|now: (i64, u32)|
                unit_result_view(r) == #[trigger] expiration_verdict(
                    opt_text(self.expiration),
                    grace_period_secs,
                    now,
                ),
            self.expiration is None ==> r is Ok,
            self.expiration matches Some(t) ==> (expiration_parse(t@) matches Err(e) ==> (r matches Err(
                m,
            ) && m@ == e)),
    {
        let now = crate::clock::current_instant();
        let r = self.check_expiration_at(grace_period_secs, now);
        assert(unit_result_view(r) == expiration_verdict(
            opt_text(self.expiration),
            grace_period_secs,
            now,
        ));
        proof {
            if let Some(t) = &self.expiration {
                if let Err(e) = expiration_parse(t@) {
                    assert(unit_result_view(r) == Err::<(), Seq<char>>(e));
                }
            }
        }
        r
    }

    /// Wipes the access key id, the secret key and the session token,
    /// leaving them empty; the expiry, which is no secret, stays.
    pub fn zeroize(&mut self)
        ensures
            final(self).access_key_id@ == Seq::<char>::empty(),
            final(self).secret_access_key@ == Seq::<char>::empty(),
            final(self).session_token@ == Seq::<char>::empty(),
            final(self).expiration == old(self).expiration,
    {
        wipe(&mut self.access_key_id);
        wipe(&mut self.secret_access_key);
        wipe(&mut self.session_token);
    }
}

} // verus!
