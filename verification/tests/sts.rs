use pam_aws_sts::config::AwsConfig;
use pam_aws_sts::credentials::StsCredentials;
use pam_aws_sts::sts::caller_identity_request_body;
use pam_aws_sts::sts::{
    check_reply_status, identity_from_events, identity_from_reply,
    parse_get_caller_identity_response, truncate, StsClient, XmlEvent,
};

#[test]
fn parse_valid_response() {
    let xml = r#"<GetCallerIdentityResponse xmlns="https://sts.amazonaws.com/doc/2011-06-15/">
  <GetCallerIdentityResult>
    <Arn>arn:aws:sts::111122223333:assumed-role/MyRole/session</Arn>
    <UserId>AROAEXAMPLE:session</UserId>
    <Account>111122223333</Account>
  </GetCallerIdentityResult>
  <ResponseMetadata><RequestId>aaa-bbb</RequestId></ResponseMetadata>
</GetCallerIdentityResponse>"#;
    let id = parse_get_caller_identity_response(xml).unwrap();
    assert_eq!(id.account, "111122223333");
    assert_eq!(id.arn, "arn:aws:sts::111122223333:assumed-role/MyRole/session");
    assert_eq!(id.user_id, "AROAEXAMPLE:session");
}

#[test]
fn parse_missing_account() {
    let xml = r#"<GetCallerIdentityResponse><GetCallerIdentityResult>
    <Arn>arn:aws:sts::111122223333:assumed-role/R/s</Arn>
    <UserId>U:s</UserId>
  </GetCallerIdentityResult></GetCallerIdentityResponse>"#;
    assert!(parse_get_caller_identity_response(xml).unwrap_err().contains("missing Account"));
}

#[test]
fn parse_missing_arn() {
    let xml = r#"<GetCallerIdentityResponse><GetCallerIdentityResult>
    <UserId>U:s</UserId>
    <Account>111122223333</Account>
  </GetCallerIdentityResult></GetCallerIdentityResponse>"#;
    assert!(parse_get_caller_identity_response(xml).unwrap_err().contains("missing Arn"));
}

#[test]
fn parse_missing_user_id() {
    let xml = r#"<GetCallerIdentityResponse><GetCallerIdentityResult>
    <Arn>arn:aws:sts::111122223333:assumed-role/R/s</Arn>
    <Account>111122223333</Account>
  </GetCallerIdentityResult></GetCallerIdentityResponse>"#;
    assert!(parse_get_caller_identity_response(xml).unwrap_err().contains("missing UserId"));
}

#[test]
fn parse_error_response() {
    let xml = r#"<ErrorResponse><Error><Code>ExpiredTokenException</Code></Error></ErrorResponse>"#;
    assert!(parse_get_caller_identity_response(xml).is_err());
}

#[test]
fn parse_empty_xml() {
    assert!(parse_get_caller_identity_response("").is_err());
}

#[test]
fn parse_garbage() {
    assert!(parse_get_caller_identity_response("not xml {{}").is_err());
}

#[test]
fn truncate_short() {
    assert_eq!(truncate("hi", 10), "hi");
}

#[test]
fn truncate_long() {
    assert_eq!(truncate("hello world", 5), "hello");
}

#[test]
fn truncate_exact() {
    assert_eq!(truncate("exact", 5), "exact");
}

#[test]
fn truncate_counts_bytes() {
    assert_eq!(truncate("héllo", 3), "hé");
    assert_eq!(truncate("", 0), "");
    assert_eq!(truncate("abc", 0), "");
}

#[test]
fn last_text_of_a_field_wins_and_entities_are_unescaped() {
    let xml = "<R><Account>1</Account><Account>2</Account><Arn>a&amp;b</Arn><UserId>u</UserId></R>";
    let id = parse_get_caller_identity_response(xml).unwrap();
    assert_eq!(id.account, "2");
    assert_eq!(id.arn, "a&b");
    assert_eq!(id.user_id, "u");
}

#[test]
fn missing_fields_reported_in_order() {
    assert_eq!(
        parse_get_caller_identity_response("<R></R>").unwrap_err(),
        "missing Account in STS response"
    );
    assert_eq!(
        parse_get_caller_identity_response("<R><Account>1</Account></R>").unwrap_err(),
        "missing Arn in STS response"
    );
}

#[test]
fn bad_entity_is_a_decode_error() {
    let err = parse_get_caller_identity_response("<R><Account>&bogus;</Account></R>").unwrap_err();
    assert!(err.starts_with("XML decode error: "), "{}", err);
}

#[test]
fn mismatched_end_tag_is_a_parse_error() {
    let err = parse_get_caller_identity_response("<R><Account>1</Wrong></R>").unwrap_err();
    assert!(err.starts_with("XML parse error: "), "{}", err);
}

#[test]
fn identity_from_event_list() {
    let events = vec![
        XmlEvent::Start("Account".to_string()),
        XmlEvent::Text(Ok("1".to_string())),
        XmlEvent::Start("Arn".to_string()),
        XmlEvent::Text(Ok("arn".to_string())),
        XmlEvent::Other,
        XmlEvent::Start("UserId".to_string()),
        XmlEvent::Text(Ok("u".to_string())),
        XmlEvent::Eof,
        XmlEvent::Start("Account".to_string()),
        XmlEvent::Text(Ok("ignored".to_string())),
    ];
    let id = identity_from_events(&events).unwrap();
    assert_eq!(id.account, "1");
    assert_eq!(id.arn, "arn");
    assert_eq!(id.user_id, "u");
    let events = vec![
        XmlEvent::Start("Account".to_string()),
        XmlEvent::Text(Err("bad".to_string())),
    ];
    assert_eq!(identity_from_events(&events).unwrap_err(), "XML decode error: bad");
    let events = vec![XmlEvent::Failed("boom".to_string())];
    assert_eq!(identity_from_events(&events).unwrap_err(), "XML parse error: boom");
}

#[test]
fn reply_status_checked() {
    assert_eq!(check_reply_status(200, "body".to_string()).unwrap(), "body");
    assert_eq!(
        check_reply_status(403, "denied".to_string()).unwrap_err(),
        "STS HTTP 403: denied"
    );
    let long = "x".repeat(300);
    let err = check_reply_status(500, long).unwrap_err();
    assert_eq!(err, format!("STS HTTP 500: {}", "x".repeat(200)));
}

#[test]
fn reply_read_into_identity() {
    let xml = "<R><Account>1</Account><Arn>a</Arn><UserId>u</UserId></R>".to_string();
    let id = identity_from_reply(Ok((200, xml))).unwrap();
    assert_eq!(id.account, "1");
    assert_eq!(
        identity_from_reply(Err("STS request failed: refused".to_string())).unwrap_err(),
        "STS request failed: refused"
    );
    assert_eq!(
        identity_from_reply(Ok((404, "nope".to_string()))).unwrap_err(),
        "STS HTTP 404: nope"
    );
}

#[test]
fn client_takes_configured_endpoint() {
    let aws = AwsConfig {
        region: "eu-west-1".to_string(),
        allowed_account_ids: vec!["1".to_string()],
        sts_endpoint: None,
        timeout_secs: 7,
        grace_period_secs: None,
    };
    let client = StsClient::new(&aws);
    assert_eq!(client.endpoint(), "https://sts.eu-west-1.amazonaws.com");
    assert_eq!(client.region(), "eu-west-1");
    assert_eq!(client.timeout_secs(), 7);
    let aws = AwsConfig { sts_endpoint: Some("http://localhost:4566".to_string()), ..aws };
    assert_eq!(StsClient::new(&aws).endpoint(), "http://localhost:4566");
}

#[test]
fn signing_produces_sigv4_headers() {
    let aws = AwsConfig {
        region: "us-east-1".to_string(),
        allowed_account_ids: vec!["1".to_string()],
        sts_endpoint: None,
        timeout_secs: 5,
        grace_period_secs: None,
    };
    let client = StsClient::new(&aws);
    let creds = StsCredentials {
        access_key_id: "ASIAEXAMPLE".to_string(),
        secret_access_key: "secret".to_string(),
        session_token: "token".to_string(),
        expiration: None,
    };
    let (headers, body) = client.sign_request(caller_identity_request_body(), &creds).unwrap();
    assert_eq!(body, "Action=GetCallerIdentity&Version=2011-06-15");
    let names: Vec<&str> = headers.iter().map(|(n, _)| n.as_str()).collect();
    assert!(names.contains(&"authorization"), "{:?}", names);
    assert!(names.contains(&"x-amz-date"), "{:?}", names);
    assert!(names.contains(&"x-amz-security-token"), "{:?}", names);
    assert!(names.contains(&"content-type"), "{:?}", names);
    let auth = &headers.iter().find(|(n, _)| n == "authorization").unwrap().1;
    assert!(auth.starts_with("AWS4-HMAC-SHA256 Credential=ASIAEXAMPLE/"), "{}", auth);
    assert!(auth.contains("/us-east-1/sts/aws4_request"), "{}", auth);
}

fn signing_client(endpoint: Option<&str>) -> StsClient {
    StsClient::new(&AwsConfig {
        region: "us-east-1".to_string(),
        allowed_account_ids: vec!["1".to_string()],
        sts_endpoint: endpoint.map(|e| e.to_string()),
        timeout_secs: 5,
        grace_period_secs: None,
    })
}

fn signing_creds(token: &str) -> StsCredentials {
    StsCredentials {
        access_key_id: "ASIAEXAMPLE".to_string(),
        secret_access_key: "secret".to_string(),
        session_token: token.to_string(),
        expiration: None,
    }
}

#[test]
fn signing_failure_names_the_stage() {
    let err = signing_client(Some("https://exa mple.com"))
        .sign_request(caller_identity_request_body(), &signing_creds("t"))
        .unwrap_err();
    assert_eq!(err, "signable request error: failed to create canonical request");
}

#[test]
fn signing_refuses_an_endpoint_without_tls() {
    for endpoint in ["http://localhost:4566", "not a uri", "/just/a/path"] {
        let client = signing_client(Some(endpoint));
        assert_eq!(
            client.sign_request(caller_identity_request_body(), &signing_creds("t")),
            Err(format!("STS endpoint must use https: {}", endpoint))
        );
        assert_eq!(
            client.sign_request_at(caller_identity_request_body(), &signing_creds("t"), 1440938160, 0),
            Err(format!("STS endpoint must use https: {}", endpoint))
        );
    }
}

#[test]
fn signing_refuses_a_token_that_is_no_header_value() {
    let err = signing_client(None)
        .sign_request_at(caller_identity_request_body(), &signing_creds("t\u{1}t"), 1440938160, 0)
        .unwrap_err();
    assert_eq!(err, "SigV4 signing failed: failed to create canonical request");
}

#[test]
fn signing_reports_a_header_that_is_not_ascii() {
    assert_eq!(
        signing_client(None).sign_request_at(
            caller_identity_request_body(),
            &signing_creds("t\u{f6}t"),
            1440938160,
            0
        ),
        Err("header encoding error: failed to convert header to a str".to_string())
    );
}

#[test]
fn signing_at_a_fixed_time_gives_the_sigv4_headers() {
    let client = signing_client(None);
    let creds = signing_creds("token");
    let (headers, body) = client
        .sign_request_at(caller_identity_request_body(), &creds, 1440938160, 0)
        .unwrap();
    assert_eq!(body, "Action=GetCallerIdentity&Version=2011-06-15");
    assert_eq!(headers.len(), 4);
    let get = |name: &str| headers.iter().find(|(n, _)| n == name).map(|(_, v)| v.clone());
    assert_eq!(get("content-type"), Some("application/x-www-form-urlencoded".to_string()));
    assert_eq!(get("x-amz-date"), Some("20150830T123600Z".to_string()));
    assert_eq!(get("x-amz-security-token"), Some("token".to_string()));
    let auth = get("authorization").unwrap();
    assert!(
        auth.starts_with(
            "AWS4-HMAC-SHA256 Credential=ASIAEXAMPLE/20150830/us-east-1/sts/aws4_request, \
             SignedHeaders=content-type;host;x-amz-date;x-amz-security-token, Signature="
        ),
        "{}",
        auth
    );
    assert!(headers.iter().all(|(_, v)| v != "secret"));
    let again = client
        .sign_request_at(caller_identity_request_body(), &creds, 1440938160, 0)
        .unwrap();
    assert_eq!(again.0, headers);
    let later = client
        .sign_request_at(caller_identity_request_body(), &creds, 1440938161, 0)
        .unwrap();
    assert_ne!(later.0, headers);
}

#[test]
fn signing_before_1970_uses_that_time() {
    let client = signing_client(None);
    let creds = signing_creds("token");
    let date_of = |secs: i64, nanos: u32| {
        let (headers, _) = client
            .sign_request_at(caller_identity_request_body(), &creds, secs, nanos)
            .unwrap();
        headers.iter().find(|(n, _)| n == "x-amz-date").unwrap().1.clone()
    };
    assert_eq!(date_of(-86400, 0), "19691231T000000Z");
    assert_eq!(date_of(-1, 500_000_000), "19691231T235959Z");
    assert_eq!(date_of(0, 0), "19700101T000000Z");
    assert_eq!(date_of(253402300799, 999_999_999), "99991231T235959Z");
    assert!(date_of(-377705116800, 0).starts_with("-9999"));
}
