//! Verified core of a PAM module that authenticates database users with AWS
//! STS temporary credentials: the client's credentials are checked, STS
//! tells whose they are, and the configuration says whether that identity
//! may log in as the requested user.
//!
//! Authentication runs in two steps around the STS call, which the caller
//! performs: `start_authentication` decides from the loaded configuration
//! and the parsed credentials whether STS must be asked at all, and
//! `finish_authentication` decides from STS's answer.

pub mod clock;
pub mod config;
pub mod credentials;
pub mod logging;
pub mod pam;
pub mod signing;
pub mod sts;
pub mod text;
pub mod validation;

use vstd::prelude::*;

use crate::config::{endpoint_for, Config};
use crate::credentials::{
    credentials_rejection, expiration_parse, expiration_verdict, opt_text, whole_seconds_between,
    StsCredentials,
};
use crate::text::{decimal, signed_decimal};
use crate::sts::{identity_result_view, CallerIdentity, StsClient};
use crate::validation::{identity_verdict, role_name_of, validate_identity};

verus! {

/// The outcome of an authentication attempt.
#[derive(Debug)]
pub enum AuthResult {
    Success,
    InvalidCredentials(String),
    Error(String),
}

/// An authentication outcome with its message taken as characters.
pub enum AuthVerdict {
    Success,
    InvalidCredentials(Seq<char>),
    Error(Seq<char>),
}

impl View for AuthResult {
    type V = AuthVerdict;

    open spec fn view(&self) -> AuthVerdict {
        match self {
            AuthResult::Success => AuthVerdict::Success,
            AuthResult::InvalidCredentials(m) => AuthVerdict::InvalidCredentials(m@),
            AuthResult::Error(m) => AuthVerdict::Error(m@),
        }
    }
}

/// What authentication does next: it is decided, or STS must be asked who
/// owns the credentials.
pub enum AuthStep {
    Done(AuthResult),
    AskSts { client: StsClient, credentials: StsCredentials, config: Config },
}

/// The grace period, in seconds, that a configuration asks for: 30 unless
/// it names one.
pub open spec fn grace_period_of(config: Config) -> u64 {
    match config.aws.grace_period_secs {
        Some(g) => g,
        None => 30,
    }
}

/// Whether parsed credentials are accepted.
pub open spec fn credentials_accepted(parsed: Result<StsCredentials, String>) -> bool {
    parsed matches Ok(c) && credentials_rejection(c) is None
}

/// The outcome once STS has answered: a failed STS exchange refuses the
/// credentials; otherwise the identity must pass `identity_verdict` under
/// the configuration.
pub open spec fn finish_verdict(
    user: Seq<char>,
    config: Config,
    identity: Result<(Seq<char>, Seq<char>, Seq<char>), Seq<char>>,
) -> AuthVerdict {
    match identity {
        Err(e) => AuthVerdict::InvalidCredentials("STS validation failed: "@ + e),
        Ok(id) => match identity_verdict(
            user,
            id.0,
            id.1,
            config.aws.allowed_account_ids.deep_view(),
            config.role_mapping@,
        ) {
            Ok(_) => AuthVerdict::Success,
            Err(e) => AuthVerdict::InvalidCredentials(e),
        },
    }
}

/// What the step before STS decides, without what it hands on: an error, a
/// refusal with its message, or asking STS.
pub enum StartVerdict {
    Error(Seq<char>),
    Refused(Seq<char>),
    AskSts,
}

/// The decision before STS at the instant `now`: a configuration that
/// could not be loaded is an error; credentials that are not accepted are
/// refused as malformed; credentials whose expiry fails the check with the
/// configured grace period are refused with that check's message;
/// otherwise STS is asked.
pub open spec fn start_verdict(
    config_loaded: Result<Config, String>,
    credentials_parsed: Result<StsCredentials, String>,
    now: (i64, u32),
) -> StartVerdict {
    match config_loaded {
        Err(_) => StartVerdict::Error("configuration load failure"@),
        Ok(c) => if !credentials_accepted(credentials_parsed) {
            StartVerdict::Refused("malformed credential JSON"@)
        } else {
            match expiration_verdict(
                opt_text(credentials_parsed->Ok_0.expiration),
                grace_period_of(c),
                now,
            ) {
                Err(e) => StartVerdict::Refused(e),
                Ok(_) => StartVerdict::AskSts,
            }
        },
    }
}

/// The decision a step stands for (`None` for a finished success, which
/// the step before STS never gives).
pub open spec fn step_verdict(step: AuthStep) -> Option<StartVerdict> {
    match step {
        AuthStep::Done(AuthResult::Success) => None,
        AuthStep::Done(AuthResult::Error(m)) => Some(StartVerdict::Error(m@)),
        AuthStep::Done(AuthResult::InvalidCredentials(m)) => Some(StartVerdict::Refused(m@)),
        AuthStep::AskSts { .. } => Some(StartVerdict::AskSts),
    }
}

/// The outcome of a whole authentication attempt: the decision before STS,
/// and when STS is asked, the decision on its answer (`finish_verdict`).
/// It depends on this attempt's inputs alone: the configuration loaded,
/// the credentials parsed from the password, the clock reading, the user
/// and STS's answer.
pub open spec fn auth_outcome(
    config_loaded: Result<Config, String>,
    credentials_parsed: Result<StsCredentials, String>,
    now: (i64, u32),
    user: Seq<char>,
    identity: Result<(Seq<char>, Seq<char>, Seq<char>), Seq<char>>,
) -> AuthVerdict {
    match start_verdict(config_loaded, credentials_parsed, now) {
        StartVerdict::Error(m) => AuthVerdict::Error(m),
        StartVerdict::Refused(m) => AuthVerdict::InvalidCredentials(m),
        StartVerdict::AskSts => finish_verdict(user, config_loaded->Ok_0, identity),
    }
}

/// Decides, before STS is asked, at the instant `now`. A configuration that
/// could not be loaded is an error; credentials that cannot be parsed or
/// are empty, or whose expiry fails the check with the configured grace
/// period, are refused; otherwise STS must be asked, with a client for the
/// configured endpoint.
pub fn start_authentication_at(
    config_loaded: Result<Config, String>,
    credentials_parsed: Result<StsCredentials, String>,
    now: (i64, u32),
) -> (step: AuthStep)
    ensures
        !(step matches AuthStep::Done(AuthResult::Success)),
        step_verdict(step) == Some(start_verdict(config_loaded, credentials_parsed, now)),
        config_loaded is Err ==> (step matches AuthStep::Done(AuthResult::Error(m)) && m@
            == "configuration load failure"@),
        config_loaded is Ok && !credentials_accepted(credentials_parsed) ==> (
        step matches AuthStep::Done(AuthResult::InvalidCredentials(m)) && m@
            == "malformed credential JSON"@),
        config_loaded is Ok && credentials_accepted(credentials_parsed) ==> {
            let c = config_loaded->Ok_0;
            let creds = credentials_parsed->Ok_0;
            match expiration_verdict(opt_text(creds.expiration), grace_period_of(c), now) {
                Err(e) => (step matches AuthStep::Done(AuthResult::InvalidCredentials(m)) && m@ == e),
                Ok(_) => (step matches AuthStep::AskSts { client, credentials, config } && {
                    &&& config == c
                    &&& credentials == creds
                    &&& client.endpoint_text() == endpoint_for(c.aws)
                    &&& client.region_text() == c.aws.region@
                    &&& client.timeout() == c.aws.timeout_secs
                }),
            }
        },
{
    let config = match config_loaded {
        Ok(c) => c,
        Err(_) => return AuthStep::Done(AuthResult::Error("configuration load failure".to_owned())),
    };
    let credentials = match StsCredentials::from_parsed(credentials_parsed) {
        Ok(c) => c,
        Err(_) => return AuthStep::Done(
            AuthResult::InvalidCredentials("malformed credential JSON".to_owned()),
        ),
    };
    let grace = match config.aws.grace_period_secs {
        Some(g) => g,
        None => 30,
    };
    if let Err(e) = credentials.check_expiration_at(grace, now) {
        let mut credentials = credentials;
        credentials.zeroize();
        return AuthStep::Done(AuthResult::InvalidCredentials(e));
    }
    let client = StsClient::new(&config.aws);
    AuthStep::AskSts { client, credentials, config }
}

/// Decides, before STS is asked, at the current time (see
/// `start_authentication_at`; the expiry is checked against whatever the
/// clock gives).
pub fn start_authentication(
    config_loaded: Result<Config, String>,
    credentials_parsed: Result<StsCredentials, String>,
) -> (step: AuthStep)
    ensures
        !(step matches AuthStep::Done(AuthResult::Success)),
        exists|now: (i64, u32)|
            step_verdict(step) == Some(#[trigger] start_verdict(config_loaded, credentials_parsed, now)),
        config_loaded is Err ==> (step matches AuthStep::Done(AuthResult::Error(m)) && m@
            == "configuration load failure"@),
        config_loaded is Ok && !credentials_accepted(credentials_parsed) ==> (
        step matches AuthStep::Done(AuthResult::InvalidCredentials(m)) && m@
            == "malformed credential JSON"@),
        config_loaded is Ok && credentials_accepted(credentials_parsed) ==> {
            let c = config_loaded->Ok_0;
            let creds = credentials_parsed->Ok_0;
            match step {
                AuthStep::Done(AuthResult::InvalidCredentials(m)) => exists|now: (i64, u32)|
                    #[trigger] expiration_verdict(opt_text(creds.expiration), grace_period_of(c), now)
                        == Err::<(), Seq<char>>(m@),
                AuthStep::AskSts { client, credentials, config } => {
                    &&& config == c
                    &&& credentials == creds
                    &&& client.endpoint_text() == endpoint_for(c.aws)
                    &&& client.region_text() == c.aws.region@
                    &&& client.timeout() == c.aws.timeout_secs
                    &&& exists|now: (i64, u32)|
                        #[trigger] expiration_verdict(opt_text(creds.expiration), grace_period_of(c), now)
                            is Ok
                },
                _ => false,
            }
        },
{
    let now = crate::clock::current_instant();
    start_authentication_at(config_loaded, credentials_parsed, now)
}

/// Decides once STS has answered (or failed to): see `finish_verdict`.
pub fn finish_authentication(
    username: &str,
    config: &Config,
    identity: Result<CallerIdentity, String>,
) -> (r: AuthResult)
    ensures
        r@ == finish_verdict(username@, *config, identity_result_view(identity)),
{
    match identity {
        Err(e) => {
            let mut m = "STS validation failed: ".to_owned();
            m.append(e.as_str());
            AuthResult::InvalidCredentials(m)
        },
        Ok(id) => match validate_identity(username, &id, config) {
            Ok(()) => AuthResult::Success,
            Err(e) => AuthResult::InvalidCredentials(e),
        },
    }
}

/// Authentication succeeds only for an identity that STS reported, whose
/// account is allowed, whose ARN names a role that the configuration maps,
/// and only as one of the users that role is mapped to.
pub proof fn law_success_requires_authorization(
    user: Seq<char>,
    config: Config,
    identity: Result<(Seq<char>, Seq<char>, Seq<char>), Seq<char>>,
)
    ensures
        finish_verdict(user, config, identity) is Success <==> {
            &&& identity is Ok
            &&& config.aws.allowed_account_ids.deep_view().contains(identity->Ok_0.0)
            &&& role_name_of(identity->Ok_0.1) is Ok
            &&& config.role_mapping@.contains_key(role_name_of(identity->Ok_0.1)->Ok_0)
            &&& config.role_mapping@[role_name_of(identity->Ok_0.1)->Ok_0].contains(user)
        },
{
}

/// Once STS has been asked, the outcome is never a configuration error:
/// only success or refused credentials.
pub proof fn law_sts_answer_never_configuration_error(
    user: Seq<char>,
    config: Config,
    identity: Result<(Seq<char>, Seq<char>, Seq<char>), Seq<char>>,
)
    ensures
        !(finish_verdict(user, config, identity) is Error),
{
}

/// An attempt succeeds exactly when the configuration loaded, the
/// credentials parsed from this attempt's password were accepted and pass
/// the expiry check at this attempt's clock reading, STS answered this
/// attempt with an identity, and the configuration authorizes that
/// identity as the user. Nothing else, and nothing from an earlier attempt,
/// enters the outcome.
pub proof fn law_success_needs_this_attempts_sts_answer(
    config_loaded: Result<Config, String>,
    credentials_parsed: Result<StsCredentials, String>,
    now: (i64, u32),
    user: Seq<char>,
    identity: Result<(Seq<char>, Seq<char>, Seq<char>), Seq<char>>,
)
    ensures
        auth_outcome(config_loaded, credentials_parsed, now, user, identity) is Success <==> {
            &&& config_loaded is Ok
            &&& credentials_accepted(credentials_parsed)
            &&& expiration_verdict(
                opt_text(credentials_parsed->Ok_0.expiration),
                grace_period_of(config_loaded->Ok_0),
                now,
            ) is Ok
            &&& identity is Ok
            &&& identity_verdict(
                user,
                identity->Ok_0.0,
                identity->Ok_0.1,
                config_loaded->Ok_0.aws.allowed_account_ids.deep_view(),
                config_loaded->Ok_0.role_mapping@,
            ) is Ok
        },
{
}

/// The secrets never reach the outcome: two attempts whose passwords give
/// credentials that are both accepted with the same expiry, or both not
/// accepted, end alike, however their access key ids, secret keys, session
/// tokens or parse errors differ.
pub proof fn law_secrets_do_not_reach_the_outcome(
    config_loaded: Result<Config, String>,
    first: Result<StsCredentials, String>,
    second: Result<StsCredentials, String>,
    now: (i64, u32),
    user: Seq<char>,
    identity: Result<(Seq<char>, Seq<char>, Seq<char>), Seq<char>>,
)
    requires
        credentials_accepted(first) == credentials_accepted(second),
        credentials_accepted(first) ==> first->Ok_0.expiration == second->Ok_0.expiration,
    ensures
        auth_outcome(config_loaded, first, now, user, identity) == auth_outcome(
            config_loaded,
            second,
            now,
            user,
            identity,
        ),
{
}

/// The expiry check before STS uses the grace period the configuration
/// names, and 30 seconds when it names none: credentials that can be read
/// and expire within that many whole seconds of the clock reading are
/// refused with the remaining and the grace seconds, expired ones are
/// refused as expired, and all others go on to STS.
pub proof fn law_configured_grace_period_decides(
    c: Config,
    parsed: Result<StsCredentials, String>,
    now: (i64, u32),
)
    requires
        credentials_accepted(parsed),
        parsed->Ok_0.expiration matches Some(t) && expiration_parse(t@) is Ok,
    ensures
        ({
            let p = expiration_parse(parsed->Ok_0.expiration->Some_0@)->Ok_0;
            let remaining = whole_seconds_between((p.0, p.1), now);
            let grace: int = match c.aws.grace_period_secs {
                Some(g) => g as int,
                None => 30,
            };
            &&& remaining < 0 ==> start_verdict(Ok(c), parsed, now) == StartVerdict::Refused(
                "credentials expired at "@ + p.2,
            )
            &&& 0 <= remaining < grace ==> start_verdict(Ok(c), parsed, now) == StartVerdict::Refused(
                "credentials expire in "@ + signed_decimal(remaining) + "s (grace period: "@
                    + decimal(grace as nat) + "s)"@,
            )
            &&& grace <= remaining ==> start_verdict(Ok(c), parsed, now) is AskSts
        }),
{
}

} // verus!
