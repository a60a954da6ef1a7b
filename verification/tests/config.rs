use pam_aws_sts::config::{
    default_facility, default_log_level, default_timeout, AwsConfig, Config, LoggingConfig,
    RoleMapping,
};

fn mapping(pairs: &[(&str, &[&str])]) -> RoleMapping {
    let mut m = RoleMapping::new();
    for (role, users) in pairs {
        m.insert(role.to_string(), users.iter().map(|u| u.to_string()).collect());
    }
    m
}

fn config(region: &str, accounts: &[&str], endpoint: Option<&str>, roles: RoleMapping) -> Config {
    Config {
        aws: AwsConfig {
            region: region.to_string(),
            allowed_account_ids: accounts.iter().map(|a| a.to_string()).collect(),
            sts_endpoint: endpoint.map(|e| e.to_string()),
            timeout_secs: default_timeout(),
            grace_period_secs: None,
        },
        role_mapping: roles,
        logging: LoggingConfig::default(),
    }
}

#[test]
fn sts_endpoint_default() {
    let config = Config::from_parsed(Ok(config(
        "eu-central-1",
        &["111122223333"],
        None,
        mapping(&[("YubiKeyKMSRole", &["pg_admin"])]),
    )))
    .unwrap();
    assert_eq!(
        config.sts_endpoint(),
        "https://sts.eu-central-1.amazonaws.com"
    );
}

#[test]
fn sts_endpoint_override() {
    let config = Config::from_parsed(Ok(config(
        "eu-central-1",
        &["111122223333"],
        Some("http://localhost:4566"),
        mapping(&[("SomeRole", &["user1"])]),
    )))
    .unwrap();
    assert_eq!(config.sts_endpoint(), "http://localhost:4566");
}

#[test]
fn missing_region_rejected() {
    let c = config("", &["111122223333"], None, mapping(&[("R", &["u"])]));
    assert!(Config::from_parsed(Ok(c))
        .unwrap_err()
        .contains("region must not be empty"));
}

#[test]
fn empty_allowed_accounts_rejected() {
    let c = config("us-east-1", &[], None, mapping(&[("R", &["u"])]));
    assert!(Config::from_parsed(Ok(c))
        .unwrap_err()
        .contains("allowed_account_ids"));
}

#[test]
fn empty_role_mapping_rejected() {
    let c = config("us-east-1", &["111122223333"], None, mapping(&[]));
    assert!(Config::from_parsed(Ok(c)).unwrap_err().contains("role_mapping"));
}

#[test]
fn parse_failure_message_is_prefixed() {
    let r = Config::from_parsed(Err("expected `=`".to_string()));
    assert_eq!(r.unwrap_err(), "TOML parse error: expected `=`");
}

#[test]
fn checks_run_in_order() {
    let c = config("", &[], None, mapping(&[]));
    assert_eq!(
        Config::from_parsed(Ok(c)).unwrap_err(),
        "aws.region must not be empty"
    );
    let c = config("r", &[], None, mapping(&[]));
    assert_eq!(
        Config::from_parsed(Ok(c)).unwrap_err(),
        "aws.allowed_account_ids must contain at least one account"
    );
    let c = config("r", &["1"], None, mapping(&[]));
    assert_eq!(
        Config::from_parsed(Ok(c)).unwrap_err(),
        "role_mapping must contain at least one mapping"
    );
}

#[test]
fn defaults() {
    assert_eq!(default_timeout(), 5);
    assert_eq!(default_log_level(), "info");
    assert_eq!(default_facility(), "auth");
    let l = LoggingConfig::default();
    assert_eq!(l.level, "info");
    assert_eq!(l.facility, "auth");
}

#[test]
fn multiple_roles_and_users() {
    let c = config(
        "eu-central-1",
        &["111122223333", "444455556666"],
        None,
        mapping(&[("AdminRole", &["admin", "superuser"]), ("ViewerRole", &["viewer"])]),
    );
    let config = Config::from_parsed(Ok(c)).unwrap();
    assert_eq!(config.aws.allowed_account_ids.len(), 2);
    assert_eq!(
        config.role_mapping.get("AdminRole").unwrap(),
        &vec!["admin".to_string(), "superuser".to_string()]
    );
    assert_eq!(
        config.role_mapping.get("ViewerRole").unwrap(),
        &vec!["viewer".to_string()]
    );
}

#[test]
fn role_mapping_insert_replaces() {
    let mut m = RoleMapping::new();
    assert!(m.is_empty());
    assert!(m.insert("R".to_string(), vec!["a".to_string()]).is_none());
    assert!(!m.is_empty());
    let prev = m.insert("R".to_string(), vec!["b".to_string()]).unwrap();
    assert_eq!(prev, vec!["a".to_string()]);
    assert_eq!(m.get("R").unwrap(), &vec!["b".to_string()]);
    assert!(m.get("S").is_none());
    assert!(m.insert("S".to_string(), vec![]).is_none());
    assert_eq!(m.get("S").unwrap(), &Vec::<String>::new());
    assert_eq!(m.get("R").unwrap(), &vec!["b".to_string()]);
}
