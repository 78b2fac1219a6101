use base64::engine::general_purpose::URL_SAFE_NO_PAD;
use base64::Engine;
use codex_auth::auth::{parse_bytes, AuthError};
use codex_auth::storage::{active_key, snapshot_file_name, snapshot_file_name_for_key};

fn jwt(payload: &str) -> String {
    let header = URL_SAFE_NO_PAD.encode(br#"{"alg":"none","typ":"JWT"}"#);
    let payload = URL_SAFE_NO_PAD.encode(payload.as_bytes());
    format!("{header}.{payload}.sig")
}

fn auth_json(tokens_account_id: &str, payload: &str) -> Vec<u8> {
    format!(
        r#"{{"tokens":{{"access_token":"access-token","account_id":"{tokens_account_id}","id_token":"{}"}}}}"#,
        jwt(payload)
    )
    .into_bytes()
}

#[test]
fn parses_standard_chatgpt_auth() {
    let bytes = auth_json(
        "acct-1",
        r#"{"email":"User@Example.com","https://api.openai.com/auth":{"chatgpt_account_id":"acct-1","chatgpt_user_id":"user-1","chatgpt_plan_type":"pro"}}"#,
    );

    let info = parse_bytes(&bytes).unwrap();

    assert_eq!(info.email, "user@example.com");
    assert_eq!(info.user_id, "user-1");
    assert_eq!(info.account_id, "acct-1");
    assert_eq!(info.plan.as_deref(), Some("pro"));
    assert_eq!(info.record_key(), "user-1::acct-1");
}

#[test]
fn uses_default_organization_when_account_id_is_missing() {
    let bytes = auth_json(
        "",
        r#"{"email":"org@example.com","https://api.openai.com/auth":{"user_id":"user-org","organizations":[{"id":"org-secondary","is_default":false},{"id":"org-primary","is_default":true}]}}"#,
    );

    let info = parse_bytes(&bytes).unwrap();

    assert_eq!(info.account_id, "org-primary");
    assert_eq!(info.user_id, "user-org");
}

#[test]
fn falls_back_to_first_organization_with_an_id() {
    let bytes = auth_json(
        "",
        r#"{"email":"org@example.com","https://api.openai.com/auth":{"user_id":"user-org","organizations":[{"id":"  ","is_default":true},{"is_default":false},{"id":"org-two"}]}}"#,
    );

    let info = parse_bytes(&bytes).unwrap();

    assert_eq!(info.account_id, "org-two");
}

#[test]
fn rejects_mismatched_account_ids() {
    let bytes = auth_json(
        "acct-token",
        r#"{"email":"user@example.com","https://api.openai.com/auth":{"chatgpt_account_id":"acct-jwt","chatgpt_user_id":"user-1"}}"#,
    );

    assert!(matches!(parse_bytes(&bytes), Err(AuthError::AccountIdMismatch)));
}

#[test]
fn rejects_api_key_auth() {
    let bytes = br#"{"OPENAI_API_KEY":"sk-test"}"#.to_vec();

    assert!(matches!(parse_bytes(&bytes), Err(AuthError::ApiKeyUnsupported)));
}

#[test]
fn blank_api_key_is_ignored() {
    let bytes = br#"{"OPENAI_API_KEY":"   "}"#.to_vec();

    assert!(matches!(parse_bytes(&bytes), Err(AuthError::MissingField("tokens"))));
}

#[test]
fn reports_each_missing_field() {
    let no_access = format!(r#"{{"tokens":{{"id_token":"{}"}}}}"#, jwt("{}")).into_bytes();
    assert!(matches!(
        parse_bytes(&no_access),
        Err(AuthError::MissingField("tokens.access_token"))
    ));
    let no_id = br#"{"tokens":{"access_token":"a"}}"#.to_vec();
    assert!(matches!(parse_bytes(&no_id), Err(AuthError::MissingField("tokens.id_token"))));
    let no_email = auth_json("acct", r#"{"https://api.openai.com/auth":{}}"#);
    assert!(matches!(parse_bytes(&no_email), Err(AuthError::MissingField("email"))));
    let no_claims = auth_json("acct", r#"{"email":"a@b.c"}"#);
    assert!(matches!(
        parse_bytes(&no_claims),
        Err(AuthError::MissingField("https://api.openai.com/auth"))
    ));
    let no_account = auth_json("", r#"{"email":"a@b.c","https://api.openai.com/auth":{"chatgpt_user_id":"u"}}"#);
    assert!(matches!(
        parse_bytes(&no_account),
        Err(AuthError::MissingField("chatgpt_account_id"))
    ));
    let no_user = auth_json("acct", r#"{"email":"a@b.c","https://api.openai.com/auth":{}}"#);
    assert!(matches!(parse_bytes(&no_user), Err(AuthError::MissingField("chatgpt_user_id"))));
}

#[test]
fn rejects_malformed_tokens() {
    let two_parts = br#"{"tokens":{"access_token":"a","id_token":"x.y"}}"#.to_vec();
    assert!(matches!(parse_bytes(&two_parts), Err(AuthError::InvalidJwt)));
    let four_parts = br#"{"tokens":{"access_token":"a","id_token":"a.b.c.d"}}"#.to_vec();
    assert!(matches!(parse_bytes(&four_parts), Err(AuthError::InvalidJwt)));
    let bad_base64 = br#"{"tokens":{"access_token":"a","id_token":"a.***.c"}}"#.to_vec();
    assert!(matches!(parse_bytes(&bad_base64), Err(AuthError::InvalidJwt)));
    let not_json = format!(
        r#"{{"tokens":{{"access_token":"a","id_token":"h.{}.s"}}}}"#,
        URL_SAFE_NO_PAD.encode(b"not json")
    )
    .into_bytes();
    assert!(matches!(parse_bytes(&not_json), Err(AuthError::InvalidJwt)));
    assert!(matches!(parse_bytes(b"{"), Err(AuthError::Json(_))));
}

#[test]
fn trims_token_fields() {
    let bytes = format!(
        r#"{{"tokens":{{"access_token":"  tok  ","account_id":" acct-1 ","id_token":" {} "}}}}"#,
        jwt(r#"{"email":" MIXED@Case.Org ","https://api.openai.com/auth":{"chatgpt_user_id":"u"}}"#)
    )
    .into_bytes();

    let info = parse_bytes(&bytes).unwrap();

    assert_eq!(info.access_token, "tok");
    assert_eq!(info.account_id, "acct-1");
    assert_eq!(info.email, "mixed@case.org");
    assert_eq!(info.plan, None);
}

#[test]
fn detects_active_account_from_live_auth() {
    let bytes = auth_json(
        "acct-1",
        r#"{"email":"user@example.com","https://api.openai.com/auth":{"chatgpt_account_id":"acct-1","chatgpt_user_id":"user-1","chatgpt_plan_type":"plus"}}"#,
    );

    assert_eq!(active_key(Ok(bytes)).unwrap().as_deref(), Some("user-1::acct-1"));
}

#[test]
fn missing_live_auth_means_no_active_account() {
    let missing = codex_auth::auth::IoError { not_found: true, message: "gone".to_string() };
    assert_eq!(active_key(Err(missing)).unwrap(), None);
    let denied = codex_auth::auth::IoError { not_found: false, message: "denied".to_string() };
    assert!(active_key(Err(denied)).is_err());
}

#[test]
fn snapshot_names_encode_the_record_key() {
    assert_eq!(snapshot_file_name_for_key("user-1::acct-1"), "dXNlci0xOjphY2N0LTE.auth.json");
    let bytes = auth_json(
        "acct-1",
        r#"{"email":"user@example.com","https://api.openai.com/auth":{"chatgpt_account_id":"acct-1","chatgpt_user_id":"user-1"}}"#,
    );
    let info = parse_bytes(&bytes).unwrap();
    assert_eq!(snapshot_file_name(&info), "dXNlci0xOjphY2N0LTE.auth.json");
}

#[test]
fn distinct_keys_get_distinct_snapshot_names() {
    let first = snapshot_file_name_for_key("u::a");
    let second = snapshot_file_name_for_key("u::b");
    assert_eq!(first, "dTo6YQ.auth.json");
    assert_eq!(second, "dTo6Yg.auth.json");
    assert_ne!(first, second);
    assert_eq!(snapshot_file_name_for_key("??>~"), "Pz8-fg.auth.json");
    assert_eq!(snapshot_file_name_for_key("\u{e9}::\u{fc}"), "w6k6OsO8.auth.json");
}

#[test]
fn jwt_payload_must_be_canonical_base64() {
    let claims = r#"{"email":"a@b.c","https://api.openai.com/auth":{"chatgpt_account_id":"w","chatgpt_user_id":"u"}}"#;
    let payload = URL_SAFE_NO_PAD.encode(claims.as_bytes());
    let token = |p: &str| format!(r#"{{"tokens":{{"access_token":"a","id_token":"h.{p}.s"}}}}"#).into_bytes();
    assert_eq!(parse_bytes(&token(&payload)).unwrap().email, "a@b.c");
    let padded = format!("{payload}=");
    assert!(matches!(parse_bytes(&token(&padded)), Err(AuthError::InvalidJwt)));
    let one_extra = format!("{payload}A");
    assert!(matches!(parse_bytes(&token(&one_extra)), Err(AuthError::InvalidJwt)));
    assert_eq!(URL_SAFE_NO_PAD.encode(b"{}"), "e30");
    assert!(matches!(parse_bytes(&token("e31")), Err(AuthError::InvalidJwt)));
}

#[test]
fn snapshot_names_hold_no_path_separator() {
    for key in ["u/1::a/b", "??>?::~~~", "\\::\\", "user-1::acct-1"] {
        let name = snapshot_file_name_for_key(key);
        assert!(!name.contains('/') && !name.contains('\\'), "{name}");
        assert!(name.ends_with(".auth.json"));
    }
    assert_eq!(snapshot_file_name_for_key("???"), "Pz8_.auth.json");
}

#[test]
fn auth_errors_have_their_messages() {
    assert_eq!(
        AuthError::MissingField("email").message(),
        "auth.json is missing `email`"
    );
    assert_eq!(AuthError::InvalidJwt.message(), "auth.json contains an invalid JWT");
    assert_eq!(
        AuthError::ApiKeyUnsupported.message(),
        "API-key auth is not supported; use ChatGPT OAuth login"
    );
}
