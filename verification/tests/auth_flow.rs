use pam_aws_sts::config::{AwsConfig, Config, LoggingConfig, RoleMapping};
use pam_aws_sts::credentials::StsCredentials;
use pam_aws_sts::pam::{config_path_from_args, pam_status, PAM_AUTHINFO_UNAVAIL, PAM_AUTH_ERR, PAM_SUCCESS};
use pam_aws_sts::sts::{identity_from_reply, CallerIdentity};
use pam_aws_sts::{finish_authentication, start_authentication, AuthResult, AuthStep};

fn valid_config() -> Config {
    let mut role_mapping = RoleMapping::new();
    role_mapping.insert("YubiKeyKMSRole".to_string(), vec!["pg_admin".to_string()]);
    Config {
        aws: AwsConfig {
            region: "eu-central-1".to_string(),
            allowed_account_ids: vec!["111122223333".to_string()],
            sts_endpoint: None,
            timeout_secs: 2,
            grace_period_secs: Some(30),
        },
        role_mapping,
        logging: LoggingConfig { level: "debug".to_string(), facility: "auth".to_string() },
    }
}

fn creds(access: &str, secret: &str, token: &str, expiration: Option<&str>) -> StsCredentials {
    StsCredentials {
        access_key_id: access.to_string(),
        secret_access_key: secret.to_string(),
        session_token: token.to_string(),
        expiration: expiration.map(|e| e.to_string()),
    }
}

fn finished(step: AuthStep) -> AuthResult {
    match step {
        AuthStep::Done(r) => r,
        AuthStep::AskSts { .. } => panic!("expected a decision before STS"),
    }
}

#[test]
fn test_garbage_password_returns_invalid_credentials() {
    let r = finished(start_authentication(
        Ok(valid_config()),
        Err("expected ident at line 1 column 2".to_string()),
    ));
    assert!(matches!(r, AuthResult::InvalidCredentials(_)));
}

#[test]
fn test_empty_password_returns_invalid_credentials() {
    let r = finished(start_authentication(
        Ok(valid_config()),
        Err("EOF while parsing a value at line 1 column 0".to_string()),
    ));
    assert!(matches!(r, AuthResult::InvalidCredentials(_)));
}

#[test]
fn test_missing_fields_returns_invalid_credentials() {
    let r = finished(start_authentication(
        Ok(valid_config()),
        Err("missing field `SecretAccessKey` at line 1 column 25".to_string()),
    ));
    assert!(matches!(r, AuthResult::InvalidCredentials(_)));
}

#[test]
fn test_expired_credentials_rejected_before_sts_call() {
    let r = finished(start_authentication(
        Ok(valid_config()),
        Ok(creds("ASIAEXAMPLE", "secret", "token", Some("2020-01-01T00:00:00Z"))),
    ));
    assert!(matches!(r, AuthResult::InvalidCredentials(_)));
}

#[test]
fn test_missing_config_file_returns_error() {
    let r = finished(start_authentication(
        Err("config file not found: /nonexistent/path/config.toml".to_string()),
        Ok(creds("ASIAEXAMPLE", "secret", "token", Some("2099-12-31T23:59:59Z"))),
    ));
    assert!(matches!(r, AuthResult::Error(_)));
}

#[test]
fn test_invalid_config_returns_error() {
    let loaded = Config::from_parsed(Err("invalid table header".to_string()));
    let r = finished(start_authentication(
        loaded,
        Ok(creds("ASIAEXAMPLE", "secret", "token", None)),
    ));
    assert!(matches!(r, AuthResult::Error(_)));
}

#[test]
fn test_valid_creds_with_future_expiration_reaches_sts_call() {
    let step = start_authentication(
        Ok(valid_config()),
        Ok(creds(
            "ASIAEXAMPLE",
            "wJalrXUtnFEMI/K7MDENG/bPxRfiCYEXAMPLEKEY",
            "FwoGZXIvYXdzEBYaDH...",
            Some("2099-12-31T23:59:59Z"),
        )),
    );
    match step {
        AuthStep::AskSts { client, config, .. } => {
            assert_eq!(client.endpoint(), "https://sts.eu-central-1.amazonaws.com");
            let identity = identity_from_reply(Err(
                "STS request failed: sts.eu-central-1.amazonaws.com: Connection refused".to_string(),
            ));
            let result = finish_authentication("pg_admin", &config, identity);
            assert!(matches!(result, AuthResult::InvalidCredentials(_)));
            if let AuthResult::InvalidCredentials(msg) = result {
                assert!(msg.contains("STS validation failed"), "Expected STS failure, got: {}", msg);
            }
        }
        AuthStep::Done(r) => panic!("expected to reach STS, got {:?}", r),
    }
}

#[test]
fn test_config_with_mock_endpoint_reaches_sts() {
    let mut config = valid_config();
    config.aws.sts_endpoint = Some("http://127.0.0.1:1".to_string());
    config.aws.timeout_secs = 1;
    config.aws.grace_period_secs = None;
    let step = start_authentication(
        Ok(config),
        Ok(creds("ASIATEST", "testsecret", "testtoken", Some("2099-12-31T23:59:59Z"))),
    );
    match step {
        AuthStep::AskSts { client, config, .. } => {
            assert_eq!(client.endpoint(), "http://127.0.0.1:1");
            assert_eq!(client.timeout_secs(), 1);
            let identity = identity_from_reply(Err(
                "STS request failed: http://127.0.0.1:1/: Connection Failed".to_string(),
            ));
            let result = finish_authentication("pg_admin", &config, identity);
            assert!(matches!(result, AuthResult::InvalidCredentials(_)));
            if let AuthResult::InvalidCredentials(msg) = result {
                assert!(msg.contains("STS"), "Expected STS-related failure, got: {}", msg);
            }
        }
        AuthStep::Done(r) => panic!("expected to reach STS, got {:?}", r),
    }
}

#[test]
fn test_empty_role_mapping_config_rejected() {
    let mut config = valid_config();
    config.role_mapping = RoleMapping::new();
    config.aws.grace_period_secs = None;
    let loaded = Config::from_parsed(Ok(config));
    let r = finished(start_authentication(loaded, Ok(creds("ASIA123", "secret", "token", None))));
    assert!(matches!(r, AuthResult::Error(_)));
}

#[test]
fn exact_messages_before_sts() {
    match finished(start_authentication(Err("x".to_string()), Err("y".to_string()))) {
        AuthResult::Error(m) => assert_eq!(m, "configuration load failure"),
        other => panic!("{:?}", other),
    }
    match finished(start_authentication(Ok(valid_config()), Ok(creds("", "s", "t", None)))) {
        AuthResult::InvalidCredentials(m) => assert_eq!(m, "malformed credential JSON"),
        other => panic!("{:?}", other),
    }
    match finished(start_authentication(
        Ok(valid_config()),
        Ok(creds("a", "s", "t", Some("2020-01-01T00:00:00Z"))),
    )) {
        AuthResult::InvalidCredentials(m) => {
            assert_eq!(m, "credentials expired at 2020-01-01T00:00:00+00:00")
        }
        other => panic!("{:?}", other),
    }
}

#[test]
fn success_only_for_mapped_identity() {
    let config = valid_config();
    let ok = CallerIdentity {
        account: "111122223333".to_string(),
        arn: "arn:aws:sts::111122223333:assumed-role/YubiKeyKMSRole/s".to_string(),
        user_id: "U:s".to_string(),
    };
    assert!(matches!(
        finish_authentication("pg_admin", &config, Ok(ok.clone())),
        AuthResult::Success
    ));
    match finish_authentication("someone_else", &config, Ok(ok)) {
        AuthResult::InvalidCredentials(m) => assert!(m.contains("not authorized"), "{}", m),
        other => panic!("{:?}", other),
    }
    let stranger = CallerIdentity {
        account: "999".to_string(),
        arn: "arn:aws:sts::999:assumed-role/YubiKeyKMSRole/s".to_string(),
        user_id: "U:s".to_string(),
    };
    match finish_authentication("pg_admin", &config, Ok(stranger)) {
        AuthResult::InvalidCredentials(m) => {
            assert_eq!(m, "account '999' not in allowed_account_ids")
        }
        other => panic!("{:?}", other),
    }
    match finish_authentication("pg_admin", &config, Err("STS HTTP 403: denied".to_string())) {
        AuthResult::InvalidCredentials(m) => {
            assert_eq!(m, "STS validation failed: STS HTTP 403: denied")
        }
        other => panic!("{:?}", other),
    }
}

#[test]
fn default_config_path() {
    assert_eq!(config_path_from_args(&vec![]), "/etc/pam_aws_sts.toml");
}

#[test]
fn config_path_first_config_argument_wins() {
    let args = vec![
        Some("debug".to_string()),
        None,
        Some("config=/etc/a.toml".to_string()),
        Some("config=/etc/b.toml".to_string()),
    ];
    assert_eq!(config_path_from_args(&args), "/etc/a.toml");
    let args = vec![Some("configuration=/x".to_string()), None];
    assert_eq!(config_path_from_args(&args), "/etc/pam_aws_sts.toml");
}

#[test]
fn outcomes_map_to_pam_codes() {
    assert_eq!(pam_status(&AuthResult::Success), PAM_SUCCESS);
    assert_eq!(pam_status(&AuthResult::InvalidCredentials("x".to_string())), PAM_AUTH_ERR);
    assert_eq!(pam_status(&AuthResult::Error("x".to_string())), PAM_AUTHINFO_UNAVAIL);
    assert_eq!((PAM_SUCCESS, PAM_AUTH_ERR, PAM_AUTHINFO_UNAVAIL), (0, 7, 9));
}

fn outcome_at(
    parsed: Result<StsCredentials, String>,
    now: (i64, u32),
    user: &str,
    identity: Result<CallerIdentity, String>,
) -> String {
    match pam_aws_sts::start_authentication_at(Ok(valid_config()), parsed, now) {
        AuthStep::Done(r) => format!("{:?}", r),
        AuthStep::AskSts { config, .. } => format!("{:?}", finish_authentication(user, &config, identity)),
    }
}

#[test]
fn secrets_do_not_change_the_outcome() {
    let now = (1_700_000_000, 0);
    let expiry = Some("2020-01-01T00:00:00Z");
    let a = creds("ASIAONE", "secret-one", "token-one", expiry);
    let b = creds("ASIATWO", "secret-two", "token-two", expiry);
    let refused = outcome_at(Ok(a), now, "pg_admin", Err("unused".to_string()));
    assert_eq!(refused, outcome_at(Ok(b), now, "pg_admin", Err("unused".to_string())));
    assert!(!refused.contains("secret-one") && !refused.contains("token-one"));
    let e1 = outcome_at(Err("bad JSON near secret-one".to_string()), now, "u", Err(String::new()));
    let e2 = outcome_at(Err("bad JSON near token-two".to_string()), now, "u", Err(String::new()));
    assert_eq!(e1, e2);
    assert_eq!(e1, "InvalidCredentials(\"malformed credential JSON\")");
}

#[test]
fn success_needs_an_sts_answer_in_this_attempt() {
    let now = (1_700_000_000, 0);
    let c = creds("ASIAONE", "s", "t", None);
    let refused = outcome_at(Ok(c), now, "pg_admin", Err("connection refused".to_string()));
    assert_eq!(refused, "InvalidCredentials(\"STS validation failed: connection refused\")");
}
