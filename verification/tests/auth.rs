//! Credentials: whose they are, how new they are, and how they are renewed.

use base64::engine::general_purpose::URL_SAFE_NO_PAD;
use base64::Engine;
use scodex::adapter::CodexAdapter;
use scodex::auth::{
    apply_token_refresh, apply_token_refresh_at, auth_freshness_ts, auth_needs_token_refresh,
    chatgpt_identities_match, decode_identity, decode_jwt_payload, is_expiring, is_newer,
    jwt_numeric_claim, live_auth_is_newer, nanos_of, normalize_plan, parse_rfc3339_nanos,
    refresh_outcome, refresh_request, refresh_token_url, write_auth_json, HttpReply,
    IdentityError, ReadError, RefreshError, TokenError,
};
use scodex::json::{as_text, Json};

fn fake_jwt(payload: &str) -> String {
    let header = URL_SAFE_NO_PAD.encode(r#"{"alg":"none"}"#);
    let payload = URL_SAFE_NO_PAD.encode(payload);
    format!("{header}.{payload}.sig")
}

fn document(text: &str) -> Json {
    Json::parse(text).expect("a JSON document")
}

fn token<'a>(auth: &'a Json, name: &str) -> Option<&'a str> {
    as_text(auth.get_nested("tokens", name))
}

fn identity_document() -> Json {
    let id_token = fake_jwt(
        r#"{"email":"a@example.com","https://api.openai.com/auth":{"chatgpt_plan_type":"plus"}}"#,
    );
    document(&format!(
        r#"{{"tokens":{{"id_token":"{id_token}","account_id":"acct-1"}}}}"#
    ))
}

#[test]
fn auth_decode_identity_reads_email_plan_and_account_id() {
    let identity = decode_identity(&identity_document()).unwrap();
    assert_eq!(identity.email, "a@example.com");
    assert_eq!(identity.account_id.as_deref(), Some("acct-1"));
    assert_eq!(identity.plan.as_deref(), Some("Plus"));
}

#[test]
fn codex_decode_identity_reads_email_plan_and_account_id() {
    let identity = decode_identity(&identity_document()).unwrap();
    assert_eq!(identity.email, "a@example.com");
    assert_eq!(identity.account_id.as_deref(), Some("acct-1"));
    assert_eq!(identity.plan.as_deref(), Some("Plus"));
}

#[test]
fn auth_needs_token_refresh_uses_jwt_exp_and_skew() {
    let expired = document(&format!(
        r#"{{"tokens":{{"access_token":"{}","refresh_token":"rt-1"}}}}"#,
        fake_jwt(r#"{"exp":100}"#)
    ));
    let valid = document(&format!(
        r#"{{"tokens":{{"access_token":"{}","refresh_token":"rt-1"}}}}"#,
        fake_jwt(r#"{"exp":100000}"#)
    ));
    assert!(auth_needs_token_refresh(&expired, 200));
    assert!(!auth_needs_token_refresh(&valid, 200));
    let fixed = document(&format!(
        r#"{{"tokens":{{"access_token":"{}"}}}}"#,
        fake_jwt(r#"{"exp":100}"#)
    ));
    assert!(!auth_needs_token_refresh(&fixed, 200));
    let bare = document(r#"{"tokens":{"refresh_token":"rt-1"}}"#);
    assert!(auth_needs_token_refresh(&bare, 200));
}

#[test]
fn tokens_are_renewed_from_a_minute_before_they_expire() {
    assert!(is_expiring(Some(260), 200));
    assert!(!is_expiring(Some(261), 200));
    assert!(!is_expiring(None, 200));
    assert!(is_expiring(Some(i64::MAX), i64::MAX));
}

#[test]
fn apply_token_refresh_updates_tokens_and_keeps_account_id() {
    let auth = document(
        r#"{
            "OPENAI_API_KEY": "sk-keep",
            "auth_mode": "chatgpt",
            "last_refresh": "2026-08-24T07:28:44Z",
            "tokens": {
                "access_token": "old-access",
                "refresh_token": "old-refresh",
                "id_token": "old-id",
                "account_id": "acct-1"
            }
        }"#,
    );
    let updated = apply_token_refresh(
        auth,
        &document(
            r#"{
                "access_token": "new-access",
                "refresh_token": "new-refresh",
                "id_token": "new-id"
            }"#,
        ),
    )
    .unwrap();

    assert_eq!(token(&updated, "access_token"), Some("new-access"));
    assert_eq!(token(&updated, "refresh_token"), Some("new-refresh"));
    assert_eq!(token(&updated, "id_token"), Some("new-id"));
    assert_eq!(token(&updated, "account_id"), Some("acct-1"));
    assert_eq!(as_text(updated.get("OPENAI_API_KEY")), Some("sk-keep"));
    let last_refresh = as_text(updated.get("last_refresh")).unwrap_or_default();
    assert!(last_refresh.starts_with("20"));
    assert_ne!(last_refresh, "2026-08-24T07:28:44Z");
    assert!(last_refresh.ends_with('Z'));
}

#[test]
fn apply_token_refresh_keeps_old_refresh_token_when_omitted() {
    let auth = document(
        r#"{
            "tokens": {
                "access_token": "old-access",
                "refresh_token": "old-refresh",
                "account_id": "acct-1"
            }
        }"#,
    );
    let updated = apply_token_refresh(auth, &document(r#"{ "access_token": "new-access" }"#)).unwrap();
    assert_eq!(token(&updated, "refresh_token"), Some("old-refresh"));
}

#[test]
fn a_renewal_at_a_given_time_is_exact() {
    let updated = apply_token_refresh_at(
        document(r#"{"a":1,"tokens":{"access_token":"old"}}"#),
        &document(r#"{"access_token":" new ","refresh_token":"  "}"#),
        "2026-01-02T03:04:05.000000000Z",
    )
    .unwrap();
    assert_eq!(
        updated.compact(),
        r#"{"a":1,"last_refresh":"2026-01-02T03:04:05.000000000Z","tokens":{"access_token":"new"}}"#
    );
}

#[test]
fn a_renewal_needs_an_access_token_and_tokens() {
    let no_token = apply_token_refresh(document(r#"{"tokens":{}}"#), &document("{}"));
    let error = no_token.err().unwrap();
    assert!(matches!(error, RefreshError::MissingAccessToken));
    assert_eq!(
        error.message(),
        "OAuth refresh response is missing access_token"
    );
    let reply = document(r#"{"access_token":"x"}"#);
    for auth in [r#"{}"#, r#"[]"#, r#"{"tokens":1}"#] {
        let error = apply_token_refresh(document(auth), &reply).err().unwrap();
        assert!(matches!(error, RefreshError::MissingTokens));
        assert_eq!(error.message(), "auth.json is missing tokens");
    }
}

#[test]
fn live_auth_is_newer_compares_last_refresh() {
    let older = document(r#"{"last_refresh": "2026-08-24T07:28:44.000000000Z"}"#);
    let newer = document(r#"{"last_refresh": "2026-09-04T01:01:08.861768319Z"}"#);
    assert!(live_auth_is_newer(&newer, &older));
    assert!(!live_auth_is_newer(&older, &newer));
    assert!(!live_auth_is_newer(&newer, &newer));
}

#[test]
fn freshness_falls_back_on_the_access_token() {
    let issued = document(&format!(
        r#"{{"tokens":{{"access_token":"{}"}}}}"#,
        fake_jwt(r#"{"iat":7,"exp":9}"#)
    ));
    assert_eq!(auth_freshness_ts(&issued), Some(7));
    let expiring = document(&format!(
        r#"{{"last_refresh":"yesterday","tokens":{{"access_token":"{}"}}}}"#,
        fake_jwt(r#"{"exp":9}"#)
    ));
    assert_eq!(auth_freshness_ts(&expiring), Some(9));
    assert_eq!(auth_freshness_ts(&document("{}")), None);
    assert!(live_auth_is_newer(&issued, &document("{}")));
    assert!(!live_auth_is_newer(&document("{}"), &issued));
    assert!(!is_newer(None, None));
}

#[test]
fn times_are_read_to_the_nanosecond() {
    assert_eq!(
        parse_rfc3339_nanos(" 1970-01-01T00:00:01.000000002Z "),
        Some(1_000_000_002)
    );
    assert_eq!(
        parse_rfc3339_nanos("1970-01-01T01:00:00+01:00"),
        Some(0)
    );
    assert_eq!(parse_rfc3339_nanos("soon"), None);
    assert_eq!(nanos_of((1, None, 2)), Some(2_000_000));
    assert_eq!(nanos_of((1, None, i64::MAX)), None);
    assert_eq!(nanos_of((1, Some(3), 2)), Some(3));
}

#[test]
fn chatgpt_identities_match_by_email() {
    let left = document(&format!(
        r#"{{"tokens":{{"id_token":"{}","account_id":"acct-1"}}}}"#,
        fake_jwt(r#"{"email":"A@example.com"}"#)
    ));
    let right = document(&format!(
        r#"{{"tokens":{{"id_token":"{}","account_id":"acct-2"}}}}"#,
        fake_jwt(r#"{"email":"a@example.com"}"#)
    ));
    assert!(chatgpt_identities_match(&left, &right));
}

#[test]
fn identities_match_by_account_id_and_never_without_an_identity() {
    let left = document(&format!(
        r#"{{"tokens":{{"id_token":"{}","account_id":"same"}}}}"#,
        fake_jwt(r#"{"email":"a@example.com"}"#)
    ));
    let right = document(&format!(
        r#"{{"tokens":{{"id_token":"{}","account_id":" same "}}}}"#,
        fake_jwt(r#"{"email":"b@example.com"}"#)
    ));
    let other = document(&format!(
        r#"{{"tokens":{{"id_token":"{}","account_id":"other"}}}}"#,
        fake_jwt(r#"{"email":"b@example.com"}"#)
    ));
    assert!(chatgpt_identities_match(&left, &right));
    assert!(!chatgpt_identities_match(&left, &other));
    assert!(!chatgpt_identities_match(&document("{}"), &document("{}")));
}

#[test]
fn each_way_to_lack_an_identity_has_its_error() {
    let missing = decode_identity(&document("{}")).err().unwrap();
    assert!(matches!(missing, IdentityError::MissingIdToken));
    assert_eq!(missing.message(), "auth.json is missing tokens.id_token");
    for id_token in ["one-part", "a.!!!.c", "a.AAAA.c"] {
        let auth = document(&format!(r#"{{"tokens":{{"id_token":"{id_token}"}}}}"#));
        let error = decode_identity(&auth).err().unwrap();
        assert!(matches!(error, IdentityError::BadIdToken(_)));
        assert_eq!(error.message(), "failed to parse JWT claims");
    }
    let auth = document(&format!(
        r#"{{"tokens":{{"id_token":"{}"}}}}"#,
        fake_jwt(r#"{"email":"  "}"#)
    ));
    let error = decode_identity(&auth).err().unwrap();
    assert!(matches!(error, IdentityError::MissingEmail));
    assert_eq!(error.message(), "auth.json is missing email in id_token");
}

#[test]
fn each_way_to_lack_claims_has_its_error() {
    let error = decode_jwt_payload("nothing").err().unwrap();
    assert!(matches!(error, TokenError::NotAToken));
    assert_eq!(error.message(), "auth.json id_token is not a valid JWT");
    let error = decode_jwt_payload("a.!!!").err().unwrap();
    assert!(matches!(error, TokenError::NotBase64));
    assert_eq!(error.message(), "failed to decode JWT payload");
    let error = decode_jwt_payload("a.AAAA").err().unwrap();
    assert!(matches!(error, TokenError::NotJson));
    assert_eq!(error.message(), "failed to parse JWT claims");
    let claims = decode_jwt_payload(&fake_jwt(r#"{"email":"x"}"#)).unwrap();
    assert_eq!(as_text(claims.get("email")), Some("x"));
}

#[test]
fn numbers_of_claims_are_read_whatever_their_kind() {
    assert_eq!(
        jwt_numeric_claim(&fake_jwt(r#"{"exp":-5}"#), "exp"),
        Some(-5)
    );
    assert_eq!(
        jwt_numeric_claim(&fake_jwt(r#"{"exp":18446744073709551615}"#), "exp"),
        Some(-1)
    );
    assert_eq!(
        jwt_numeric_claim(&fake_jwt(r#"{"exp":12.9}"#), "exp"),
        Some(12)
    );
    assert_eq!(
        jwt_numeric_claim(&fake_jwt(r#"{"exp":"12"}"#), "exp"),
        None
    );
    assert_eq!(jwt_numeric_claim("x", "exp"), None);
}

#[test]
fn plans_begin_with_a_capital() {
    assert_eq!(normalize_plan(" PLUS "), "Plus");
    assert_eq!(normalize_plan("free_workspace"), "Free_workspace");
    assert_eq!(normalize_plan("  "), "");
}

#[test]
fn the_address_for_renewals_can_be_overridden() {
    assert_eq!(
        refresh_token_url(None),
        "https://auth.openai.com/oauth/token"
    );
    assert_eq!(
        refresh_token_url(Some("  ")),
        "https://auth.openai.com/oauth/token"
    );
    assert_eq!(refresh_token_url(Some(" http://x/y ")), "http://x/y");
}

#[test]
fn refresh_chatgpt_oauth_persists_rotated_tokens_from_http() {
    let auth = document(
        r#"{
            "tokens": {
                "access_token": "old-access",
                "refresh_token": "old-refresh",
                "id_token": "old-id",
                "account_id": "acct-1"
            }
        }"#,
    );
    let request = refresh_request(&auth).unwrap();
    assert_eq!(as_text(request.get("refresh_token")), Some("old-refresh"));
    assert_eq!(as_text(request.get("grant_type")), Some("refresh_token"));
    let reply = HttpReply {
        status: 200,
        status_text: "200 OK".into(),
        body: r#"{"access_token":"new-access","refresh_token":"new-refresh","id_token":"new-id"}"#
            .into(),
    };
    let updated = refresh_outcome(auth, &reply).unwrap();
    assert_eq!(token(&updated, "access_token"), Some("new-access"));
    assert_eq!(token(&updated, "refresh_token"), Some("new-refresh"));
}

#[test]
fn refresh_chatgpt_oauth_rejects_unauthorized() {
    let auth = document(r#"{"tokens":{"refresh_token":"revoked"}}"#);
    let reply = HttpReply {
        status: 401,
        status_text: "401 Unauthorized".into(),
        body: r#"{"error":"invalid_grant"}"#.into(),
    };
    let err = refresh_outcome(auth, &reply).err().unwrap().message();
    assert!(err.contains("401"), "{err}");
    assert_eq!(err, "OAuth token refresh failed: 401 Unauthorized");
}

#[test]
fn a_renewal_needs_a_refresh_token_and_a_json_reply() {
    let error = refresh_request(&document(r#"{"tokens":{"refresh_token":" "}}"#))
        .err()
        .unwrap();
    assert!(matches!(error, RefreshError::MissingRefreshToken));
    assert_eq!(error.message(), "auth.json is missing tokens.refresh_token");
    let reply = HttpReply {
        status: 200,
        status_text: "200 OK".into(),
        body: "<html>".into(),
    };
    let error = refresh_outcome(document("{}"), &reply).err().unwrap();
    assert!(matches!(error, RefreshError::BadReply));
    assert_eq!(error.message(), "invalid JSON in OAuth refresh response");
}

#[test]
fn credentials_are_read_or_it_is_said_why_not() {
    let adapter = CodexAdapter;
    let auth = adapter
        .read_auth_json(true, Some(r#"{"tokens":{"access_token":"x"}}"#))
        .unwrap();
    assert_eq!(token(&auth, "access_token"), Some("x"));
    let error = adapter.read_auth_json(false, None).err().unwrap();
    assert_eq!(error, ReadError::NotFound);
    assert_eq!(error.message("/p"), "auth.json not found: /p");
    let error = adapter.read_auth_json(true, None).err().unwrap();
    assert_eq!(error, ReadError::Unreadable);
    assert_eq!(error.message("/p"), "failed to read /p");
    let error = adapter.read_auth_json(true, Some("{")).err().unwrap();
    assert_eq!(error, ReadError::NotJson);
    assert_eq!(error.message("/p"), "invalid JSON in /p");
}

#[test]
fn credentials_are_written_indented_and_read_back() {
    let written = write_auth_json(&document(r#"{"tokens":{"access_token":"x"}}"#));
    assert_eq!(
        written,
        "{\n  \"tokens\": {\n    \"access_token\": \"x\"\n  }\n}\n"
    );
    let parsed = document(&written);
    assert_eq!(token(&parsed, "access_token"), Some("x"));
}

#[test]
fn renewed_credentials_reach_the_live_ones_of_the_same_account_only() {
    let adapter = CodexAdapter;
    let mine = identity_document();
    let other = document(&format!(
        r#"{{"tokens":{{"id_token":"{}"}}}}"#,
        fake_jwt(r#"{"email":"b@example.com"}"#)
    ));
    assert!(adapter.sync_refreshed_auth_to_live_if_current(Some(&mine), &mine));
    assert!(!adapter.sync_refreshed_auth_to_live_if_current(Some(&other), &mine));
    assert!(!adapter.sync_refreshed_auth_to_live_if_current(None, &mine));
}

#[test]
fn plain_documents_are_read_as_they_were_written() {
    let texts = [
        "{\"z\":[null,true,-5,9223372036854775807,18446744073709551615],\"a\":{}}".to_string(),
        "{\"k \\\"\\\\\\n\\u0001\u{e9}\u{2028}\":\"\\t\\\"\u{1f600}\"}".to_string(),
        format!("{}{}", "[".repeat(127), "]".repeat(127)),
    ];
    for text in texts {
        let first = document(&text);
        let compact = first.compact();
        assert_eq!(document(&compact).compact(), compact);
        let written = write_auth_json(&first);
        assert_eq!(write_auth_json(&document(&written)), written);
        assert_eq!(document(&written).compact(), compact);
    }
    assert!(Json::parse(&format!("{}{}", "[".repeat(128), "]".repeat(128))).is_none());
}

#[test]
fn members_are_written_in_the_order_of_their_names() {
    let document = Json::Object(vec![
        ("tokens".into(), Json::Text("t".into())),
        ("last_refresh".into(), Json::Bool(true)),
    ]);
    assert_eq!(document.compact(), r#"{"last_refresh":true,"tokens":"t"}"#);
    let read = Json::parse(&write_auth_json(&document)).unwrap();
    assert_eq!(as_text(read.get("tokens")), Some("t"));
    assert!(matches!(read.get("last_refresh"), Some(Json::Bool(true))));
}
