use pam_aws_sts::config::{AwsConfig, Config, LoggingConfig, RoleMapping};
use pam_aws_sts::sts::CallerIdentity;
use pam_aws_sts::validation::{extract_role_name, validate_identity};

fn cfg() -> Config {
    let mut role_mapping = RoleMapping::new();
    role_mapping.insert("AdminRole".to_string(), vec!["dbadmin".to_string()]);
    role_mapping.insert(
        "MultiRole".to_string(),
        vec!["analyst".to_string(), "viewer".to_string()],
    );
    Config {
        aws: AwsConfig {
            region: "us-east-1".to_string(),
            allowed_account_ids: vec!["111122223333".to_string()],
            sts_endpoint: None,
            timeout_secs: 5,
            grace_period_secs: None,
        },
        role_mapping,
        logging: LoggingConfig::default(),
    }
}

fn id(account: &str, arn: &str) -> CallerIdentity {
    CallerIdentity {
        account: account.into(),
        arn: arn.into(),
        user_id: "U:s".into(),
    }
}

#[test]
fn valid_assumed_role() {
    let c = cfg();
    let i = id(
        "111122223333",
        "arn:aws:sts::111122223333:assumed-role/AdminRole/sess",
    );
    assert!(validate_identity("dbadmin", &i, &c).is_ok());
}

#[test]
fn valid_iam_role() {
    let c = cfg();
    let i = id("111122223333", "arn:aws:iam::111122223333:role/AdminRole");
    assert!(validate_identity("dbadmin", &i, &c).is_ok());
}

#[test]
fn valid_role_with_path() {
    let c = cfg();
    let i = id(
        "111122223333",
        "arn:aws:iam::111122223333:role/org/team/AdminRole",
    );
    assert!(validate_identity("dbadmin", &i, &c).is_ok());
}

#[test]
fn wrong_account_rejected() {
    let c = cfg();
    let i = id(
        "999999999999",
        "arn:aws:sts::999999999999:assumed-role/AdminRole/s",
    );
    assert!(validate_identity("dbadmin", &i, &c)
        .unwrap_err()
        .contains("not in allowed_account_ids"));
}

#[test]
fn unmapped_role_rejected() {
    let c = cfg();
    let i = id(
        "111122223333",
        "arn:aws:sts::111122223333:assumed-role/UnknownRole/s",
    );
    assert!(validate_identity("dbadmin", &i, &c)
        .unwrap_err()
        .contains("no mapping"));
}

#[test]
fn wrong_pg_username_rejected() {
    let c = cfg();
    let i = id(
        "111122223333",
        "arn:aws:sts::111122223333:assumed-role/AdminRole/s",
    );
    assert!(validate_identity("viewer", &i, &c)
        .unwrap_err()
        .contains("not authorized"));
}

#[test]
fn multi_user_mapping_first() {
    let c = cfg();
    let i = id(
        "111122223333",
        "arn:aws:sts::111122223333:assumed-role/MultiRole/s",
    );
    assert!(validate_identity("analyst", &i, &c).is_ok());
}

#[test]
fn multi_user_mapping_second() {
    let c = cfg();
    let i = id(
        "111122223333",
        "arn:aws:sts::111122223333:assumed-role/MultiRole/s",
    );
    assert!(validate_identity("viewer", &i, &c).is_ok());
}

#[test]
fn multi_user_mapping_wrong() {
    let c = cfg();
    let i = id(
        "111122223333",
        "arn:aws:sts::111122223333:assumed-role/MultiRole/s",
    );
    assert!(validate_identity("dbadmin", &i, &c).is_err());
}

#[test]
fn extract_assumed_role() {
    assert_eq!(
        extract_role_name("arn:aws:sts::123:assumed-role/Foo/bar").unwrap(),
        "Foo"
    );
}

#[test]
fn extract_iam_role() {
    assert_eq!(
        extract_role_name("arn:aws:iam::123:role/Bar").unwrap(),
        "Bar"
    );
}

#[test]
fn extract_iam_role_with_path() {
    assert_eq!(
        extract_role_name("arn:aws:iam::123:role/a/b/c/Deep").unwrap(),
        "Deep"
    );
}

#[test]
fn extract_invalid_arn() {
    assert!(extract_role_name("garbage").is_err());
}

#[test]
fn extract_short_arn() {
    assert!(extract_role_name("arn:aws:sts::123").is_err());
}

#[test]
fn extract_user_arn_rejected() {
    assert!(extract_role_name("arn:aws:iam::123:user/Bob")
        .unwrap_err()
        .contains("unsupported"));
}

#[test]
fn extract_group_arn_rejected() {
    assert!(extract_role_name("arn:aws:iam::123:group/Admins").is_err());
}

#[test]
fn extract_federated_user_rejected() {
    assert!(extract_role_name("arn:aws:sts::123:federated-user/alice").is_err());
}

#[test]
fn error_messages_are_exact() {
    let c = cfg();
    let i = id("999", "arn:aws:sts::999:assumed-role/AdminRole/s");
    assert_eq!(
        validate_identity("dbadmin", &i, &c).unwrap_err(),
        "account '999' not in allowed_account_ids"
    );
    let i = id("111122223333", "arn:aws:sts::111122223333:assumed-role/Nope/s");
    assert_eq!(
        validate_identity("dbadmin", &i, &c).unwrap_err(),
        "role 'Nope' has no mapping in config"
    );
    let i = id("111122223333", "arn:aws:sts::111122223333:assumed-role/MultiRole/s");
    assert_eq!(
        validate_identity("dbadmin", &i, &c).unwrap_err(),
        "role 'MultiRole' not authorized for pg user 'dbadmin' (allowed: [\"analyst\", \"viewer\"])"
    );
    assert_eq!(
        extract_role_name("garbage").unwrap_err(),
        "invalid ARN: 'garbage'"
    );
    assert_eq!(
        extract_role_name("arn:aws:iam::123:user/Bob").unwrap_err(),
        "unsupported ARN resource type: 'user/Bob'"
    );
}

#[test]
fn bad_arn_error_passes_through() {
    let c = cfg();
    let i = id("111122223333", "short:arn");
    assert_eq!(
        validate_identity("dbadmin", &i, &c).unwrap_err(),
        "invalid ARN: 'short:arn'"
    );
}

#[test]
fn account_checked_before_arn() {
    let c = cfg();
    let i = id("000", "garbage");
    assert!(validate_identity("dbadmin", &i, &c)
        .unwrap_err()
        .contains("not in allowed_account_ids"));
}

#[test]
fn only_sixth_colon_piece_is_the_resource() {
    assert_eq!(
        extract_role_name("arn:aws:iam::123:role/Team:Extra").unwrap(),
        "Team"
    );
    assert_eq!(
        extract_role_name("arn:aws:sts::123:assumed-role/").unwrap(),
        ""
    );
    assert_eq!(
        extract_role_name("arn:aws:iam::123:role/path/").unwrap(),
        ""
    );
}

#[test]
fn role_name_is_one_segment() {
    for arn in [
        "arn:aws:sts::1:assumed-role/A/b/c",
        "arn:aws:iam::1:role/x/y/Z",
        "a:b:c:d:e:role/R:more:colons",
    ] {
        let role = extract_role_name(arn).unwrap();
        assert!(!role.contains('/') && !role.contains(':'));
    }
}

#[test]
fn role_read_back_from_built_arns() {
    assert_eq!(
        extract_role_name("arn:aws-cn:sts::444455556666:assumed-role/Deploy/ci-run/42").unwrap(),
        "Deploy"
    );
    assert_eq!(
        extract_role_name("arn:aws:iam::444455556666:role/service-role/Deploy").unwrap(),
        "Deploy"
    );
}
