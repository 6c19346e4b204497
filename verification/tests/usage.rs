//! What the usage service says, and what is kept of it.

use base64::engine::general_purpose::URL_SAFE_NO_PAD;
use base64::Engine;
use scodex::adapter::CodexAdapter;
use scodex::fetch::{
    accounts_to_refresh, start_fetch, FetchEvent, FetchStep, FetchTask, UsageReply,
};
use scodex::json::{as_text, Json};
use scodex::state::{
    AccountRecord, AccountType, CreditsBalance, State, UsageCache, UsageSnapshot,
};
use scodex::usage::{
    bounded_refresh_worker_count, collect_refreshed_usage, credits_balance_text,
    make_error_snapshot, make_relogin_snapshot, merge_usage_with_previous,
    normalize_chatgpt_base_url, normalize_usage_response, parse_chatgpt_base_url, rank_by_quota,
    refresh_chunks, resolve_usage_url, value_to_string,
};

fn document(text: &str) -> Json {
    Json::parse(text).expect("a JSON document")
}

fn balance(value: f64) -> CreditsBalance {
    CreditsBalance {
        bits: value.to_bits(),
    }
}

fn fake_jwt(payload: &str) -> String {
    let header = URL_SAFE_NO_PAD.encode(r#"{"alg":"none"}"#);
    let payload = URL_SAFE_NO_PAD.encode(payload);
    format!("{header}.{payload}.sig")
}

const CONFIG: &str = r#"
            foo = "bar"
            chatgpt_base_url = "https://example.com"
            "#;

#[test]
fn codex_parse_chatgpt_base_url_reads_config_line() {
    assert_eq!(
        parse_chatgpt_base_url(CONFIG).as_deref(),
        Some("https://example.com")
    );
}

#[test]
fn usage_parse_chatgpt_base_url_reads_config_line() {
    assert_eq!(
        parse_chatgpt_base_url(CONFIG).as_deref(),
        Some("https://example.com")
    );
}

#[test]
fn the_configured_address_is_read_around_comments_and_quotes() {
    assert_eq!(
        parse_chatgpt_base_url("# x\nchatgpt_base_url = 'https://e' # y").as_deref(),
        Some("https://e")
    );
    assert_eq!(parse_chatgpt_base_url("chatgpt_base_url = \"\""), None);
    assert_eq!(parse_chatgpt_base_url(""), None);
}

#[test]
fn the_address_of_the_service_is_completed() {
    assert_eq!(
        normalize_chatgpt_base_url("https://chatgpt.com/"),
        "https://chatgpt.com/backend-api"
    );
    assert_eq!(
        normalize_chatgpt_base_url("https://chat.openai.com"),
        "https://chat.openai.com/backend-api"
    );
    assert_eq!(
        normalize_chatgpt_base_url("  "),
        "https://chatgpt.com/backend-api"
    );
    assert_eq!(
        normalize_chatgpt_base_url(" https://e.com// "),
        "https://e.com"
    );
    assert_eq!(
        resolve_usage_url(None, None),
        "https://chatgpt.com/backend-api/wham/usage"
    );
    assert_eq!(
        resolve_usage_url(None, Some(CONFIG)),
        "https://example.com/api/codex/usage"
    );
    assert_eq!(
        resolve_usage_url(Some("http://env/backend-api"), Some(CONFIG)),
        "http://env/backend-api/wham/usage"
    );
}

const KNOWN_WINDOWS: &str = r#"{
    "plan_type": "pro",
    "rate_limit": {
        "primary_window": {
            "used_percent": 20,
            "limit_window_seconds": 18000,
            "reset_at": "2026-04-20T00:00:00Z"
        },
        "secondary_window": {
            "used_percent": 70,
            "limit_window_seconds": 604800,
            "reset_at": "2026-04-21T00:00:00Z"
        }
    },
    "credits": {
        "unlimited": false,
        "balance": 12.5
    }
}"#;

#[test]
fn codex_normalize_usage_response_maps_known_windows() {
    let usage = normalize_usage_response(&document(KNOWN_WINDOWS), None);
    assert_eq!(usage.plan.as_deref(), Some("Pro"));
    assert_eq!(usage.five_hour_remaining_percent, Some(80));
    assert_eq!(usage.weekly_remaining_percent, Some(30));
    assert_eq!(usage.credits_balance, Some(balance(12.5)));
}

#[test]
fn usage_normalize_usage_response_maps_known_windows() {
    let usage = normalize_usage_response(&document(KNOWN_WINDOWS), None);
    assert_eq!(usage.plan.as_deref(), Some("Pro"));
    assert_eq!(usage.five_hour_remaining_percent, Some(80));
    assert_eq!(usage.weekly_remaining_percent, Some(30));
    assert_eq!(usage.credits_balance, Some(balance(12.5)));
    assert_eq!(
        usage.five_hour_refresh_at.as_deref(),
        Some("2026-04-20T00:00:00Z")
    );
}

#[test]
fn normalize_usage_response_ignores_null_window_for_weekly_only() {
    let usage = normalize_usage_response(
        &document(
            r#"{
                "plan_type": "pro",
                "rate_limit": {
                    "primary_window": {
                        "used_percent": 27,
                        "limit_window_seconds": 604800,
                        "reset_at": 1788798169
                    },
                    "secondary_window": null
                }
            }"#,
        ),
        None,
    );
    assert_eq!(usage.weekly_remaining_percent, Some(73));
    assert_eq!(usage.five_hour_remaining_percent, None);
    assert_eq!(usage.five_hour_refresh_at, None);
    assert_eq!(usage.weekly_refresh_at.as_deref(), Some("1788798169"));
}

#[test]
fn normalize_usage_response_ignores_null_primary_window() {
    let usage = normalize_usage_response(
        &document(
            r#"{
                "plan_type": "plus",
                "rate_limit": {
                    "primary_window": null,
                    "secondary_window": {
                        "used_percent": 10,
                        "limit_window_seconds": 604800,
                        "reset_at": 1788798169
                    }
                }
            }"#,
        ),
        None,
    );
    assert_eq!(usage.weekly_remaining_percent, Some(90));
    assert_eq!(usage.five_hour_remaining_percent, None);
}

#[test]
fn windows_without_a_known_length_fill_what_is_free() {
    let usage = normalize_usage_response(
        &document(
            r#"{"rate_limit":{
                "primary_window":{"used_percent":150},
                "secondary_window":{"used_percent":-5,"reset_at":{"b":1,"a":[true,null]}}
            }}"#,
        ),
        None,
    );
    assert_eq!(usage.five_hour_remaining_percent, Some(0));
    assert_eq!(usage.weekly_remaining_percent, Some(100));
    assert_eq!(
        usage.weekly_refresh_at.as_deref(),
        Some(r#"{"a":[true,null],"b":1}"#)
    );
    assert_eq!(value_to_string(&document("null")), "null");
    assert_eq!(value_to_string(&document("\"x\"")), "x");
}

#[test]
fn balances_that_are_text_are_parsed_by_the_caller() {
    let payload = document(r#"{"credits":{"balance":" 3.5 "}}"#);
    assert_eq!(credits_balance_text(&payload), Some("3.5"));
    let usage = normalize_usage_response(&payload, Some(balance(3.5)));
    assert_eq!(usage.credits_balance, Some(balance(3.5)));
    let unlimited = document(r#"{"credits":{"unlimited":true,"balance":1}}"#);
    assert_eq!(
        normalize_usage_response(&unlimited, None).credits_balance,
        None
    );
}

#[test]
fn refresh_all_accounts_removes_api_usage_without_fetching() {
    let mut state = State::default();
    state.accounts.push(AccountRecord {
        id: "api".into(),
        account_type: AccountType::Api,
        email: "56wxyz@openrouter".into(),
        ..Default::default()
    });
    state.usage_cache.insert(
        "api".into(),
        UsageSnapshot {
            weekly_remaining_percent: Some(100),
            five_hour_remaining_percent: Some(100),
            ..Default::default()
        },
    );
    assert!(accounts_to_refresh(&state).is_empty());
    CodexAdapter.refresh_all_accounts(&mut state, &vec![]);
    assert!(state.usage_cache.is_empty());
}

#[test]
fn refreshing_one_account_keeps_the_usage_of_the_others() {
    let mut state = State::default();
    state.usage_cache.insert("other".into(), UsageSnapshot::default());
    let account = AccountRecord {
        id: "one".into(),
        ..Default::default()
    };
    let fetched = UsageSnapshot {
        weekly_remaining_percent: Some(5),
        ..Default::default()
    };
    let usage = CodexAdapter.refresh_account_usage(&mut state, &account, fetched);
    assert_eq!(usage.weekly_remaining_percent, Some(5));
    assert_eq!(state.usage_cache.len(), 2);
    let api = AccountRecord {
        id: "one".into(),
        account_type: AccountType::Api,
        ..Default::default()
    };
    let usage = CodexAdapter.refresh_account_usage(&mut state, &api, UsageSnapshot::default());
    assert_eq!(usage.weekly_remaining_percent, None);
    assert_eq!(state.usage_cache.len(), 1);
}

#[test]
fn merge_usage_failure_clears_stale_cached_quota() {
    let previous = UsageSnapshot {
        five_hour_remaining_percent: Some(100),
        five_hour_refresh_at: Some("2026-04-20T15:32:00Z".into()),
        weekly_remaining_percent: Some(47),
        weekly_refresh_at: Some("2026-04-21T09:39:00Z".into()),
        credits_balance: Some(balance(12.5)),
        ..Default::default()
    };

    let merged = merge_usage_with_previous(
        Some(&previous),
        UsageSnapshot {
            last_sync_error: Some("quota api failed".into()),
            ..Default::default()
        },
    );

    assert_eq!(merged.five_hour_remaining_percent, None);
    assert_eq!(merged.five_hour_refresh_at, None);
    assert_eq!(merged.weekly_remaining_percent, None);
    assert_eq!(merged.weekly_refresh_at, None);
    assert_eq!(merged.credits_balance, None);
    assert_eq!(merged.last_sync_error.as_deref(), Some("quota api failed"));
}

#[test]
fn bounded_refresh_worker_count_respects_limits() {
    assert_eq!(bounded_refresh_worker_count(0, 4), 0);
    assert_eq!(bounded_refresh_worker_count(2, 8), 2);
    assert_eq!(bounded_refresh_worker_count(12, 3), 3);
    assert_eq!(bounded_refresh_worker_count(20, 32), 8);
}

#[test]
fn the_accounts_are_dealt_out_in_full() {
    assert_eq!(refresh_chunks(5, 2), vec![(0, 3), (3, 5)]);
    assert_eq!(refresh_chunks(4, 4), vec![(0, 1), (1, 2), (2, 3), (3, 4)]);
    assert_eq!(refresh_chunks(0, 0), vec![]);
}

#[test]
fn collect_refreshed_usage_preserves_previous_snapshot_lookup_per_account() {
    let accounts = vec![
        AccountRecord {
            id: "acct-a".into(),
            email: "a@example.com".into(),
            ..Default::default()
        },
        AccountRecord {
            id: "acct-b".into(),
            email: "b@example.com".into(),
            ..Default::default()
        },
    ];
    let mut usage_cache = UsageCache::new();
    usage_cache.insert(
        "acct-a".into(),
        UsageSnapshot {
            credits_balance: Some(balance(1.5)),
            ..Default::default()
        },
    );
    usage_cache.insert(
        "acct-b".into(),
        UsageSnapshot {
            credits_balance: Some(balance(9.0)),
            ..Default::default()
        },
    );

    let fetch = |account: &AccountRecord, previous: Option<&UsageSnapshot>| UsageSnapshot {
        credits_balance: Some(balance(
            previous
                .and_then(|item| item.credits_balance)
                .map(|item| f64::from_bits(item.bits))
                .unwrap_or_default()
                + 1.0,
        )),
        plan: Some(account.email.clone()),
        ..Default::default()
    };
    let mut refreshed = UsageCache::new();
    for (from, to) in refresh_chunks(accounts.len(), 2) {
        for (id, usage) in collect_refreshed_usage(&accounts, from, to, &usage_cache, fetch) {
            refreshed.insert(id, usage);
        }
    }

    let of = |id: &str| refreshed.get(id).unwrap();
    assert_eq!(of("acct-a").credits_balance, Some(balance(2.5)));
    assert_eq!(of("acct-b").credits_balance, Some(balance(10.0)));
    assert_eq!(of("acct-a").plan.as_deref(), Some("a@example.com"));
    assert_eq!(of("acct-b").plan.as_deref(), Some("b@example.com"));
}

#[test]
fn make_error_snapshot_fills_fields_correctly() {
    let snap = make_error_snapshot(Some("Pro".into()), 1_000_000, "oops".into());
    assert_eq!(snap.plan.as_deref(), Some("Pro"));
    assert_eq!(snap.last_synced_at, Some(1_000_000));
    assert_eq!(snap.last_sync_error.as_deref(), Some("oops"));
    assert!(snap.weekly_remaining_percent.is_none());
    assert!(snap.five_hour_remaining_percent.is_none());
    assert!(snap.credits_balance.is_none());
    assert!(!snap.needs_relogin);
}

#[test]
fn make_error_snapshot_with_none_plan() {
    let snap = make_error_snapshot(None, 42, "no plan".into());
    assert!(snap.plan.is_none());
    assert_eq!(snap.last_synced_at, Some(42));
    assert_eq!(snap.last_sync_error.as_deref(), Some("no plan"));
}

#[test]
fn merge_error_snapshot_preserves_plan_from_update() {
    let previous = UsageSnapshot {
        plan: Some("Plus".into()),
        weekly_remaining_percent: Some(50),
        ..Default::default()
    };
    let update = make_error_snapshot(Some("Pro".into()), 999, "fetch failed".into());
    let merged = merge_usage_with_previous(Some(&previous), update);
    assert_eq!(merged.plan.as_deref(), Some("Pro"));
    assert!(merged.weekly_remaining_percent.is_none());
    assert_eq!(merged.last_sync_error.as_deref(), Some("fetch failed"));
}

#[test]
fn merge_success_snapshot_updates_quota_and_clears_error() {
    let previous = UsageSnapshot {
        plan: Some("Plus".into()),
        weekly_remaining_percent: Some(10),
        last_sync_error: Some("old error".into()),
        ..Default::default()
    };
    let update = UsageSnapshot {
        plan: None,
        weekly_remaining_percent: Some(80),
        last_sync_error: None,
        last_synced_at: Some(12345),
        ..Default::default()
    };
    let merged = merge_usage_with_previous(Some(&previous), update);
    assert_eq!(merged.plan.as_deref(), Some("Plus"));
    assert_eq!(merged.weekly_remaining_percent, Some(80));
    assert!(merged.last_sync_error.is_none());
    assert_eq!(merged.last_synced_at, Some(12345));
}

#[test]
fn auth_header_invalid_token_produces_error_message() {
    let bad_token = "Bearer bad\x01token";
    let result = reqwest::header::HeaderValue::from_str(bad_token);
    assert!(result.is_err(), "control-char HeaderValue should fail");
    let snap = make_error_snapshot(
        Some("Pro".into()),
        1_000,
        "invalid access_token contains non-ASCII characters".into(),
    );
    assert!(snap
        .last_sync_error
        .as_deref()
        .unwrap()
        .contains("non-ASCII"));
    let step = start_fetch(
        &task(),
        Ok(document(r#"{"tokens":{"access_token":"bad\u0001token"}}"#)),
    );
    match step {
        FetchStep::Done { usage } => assert_eq!(
            usage.last_sync_error.as_deref(),
            Some("invalid access_token contains non-ASCII characters")
        ),
        _ => panic!("the request must not be sent"),
    }
}

#[test]
fn make_relogin_snapshot_marks_needs_relogin_and_clears_quota() {
    let snap = make_relogin_snapshot(Some("Team".into()), 99);
    assert!(snap.needs_relogin);
    assert_eq!(
        snap.last_sync_error.as_deref(),
        Some("Codex OAuth token expired or invalid. Run `codex login` again.")
    );
    assert!(snap.weekly_remaining_percent.is_none());
    assert!(snap.five_hour_remaining_percent.is_none());
}

#[test]
fn ranks_put_the_five_hour_quota_first() {
    let of = |five, weekly| {
        rank_by_quota(Some(five), Some(weekly), 7)
            .unwrap()
            .selection_priority
    };
    assert!(of(50, 0) > of(49, 100));
    assert!(of(50, 2) > of(50, 1));
    assert_eq!(rank_by_quota(None, None, 7).is_some(), false);
}

// ---------------------------------------------------------------------------
// One refresh, step by step
// ---------------------------------------------------------------------------

fn task() -> FetchTask {
    FetchTask {
        plan: Some("Team".into()),
        previous: None,
        url: "http://service/backend-api/wham/usage".into(),
        now: 1000,
    }
}

fn chatgpt_auth(access_payload: &str, refresh: &str) -> Json {
    document(&format!(
        r#"{{"last_refresh":"2026-08-24T07:28:44Z","tokens":{{
            "access_token":"{}","refresh_token":"{refresh}",
            "id_token":"{}","account_id":"acct-1"}}}}"#,
        fake_jwt(access_payload),
        fake_jwt(r#"{"email":"a@example.com"}"#)
    ))
}

const USAGE_OK: &str = r#"{
    "plan_type": "team",
    "rate_limit": {
        "primary_window": {
            "used_percent": 10,
            "limit_window_seconds": 18000,
            "reset_at": "2026-09-04T12:00:00Z"
        },
        "secondary_window": {
            "used_percent": 20,
            "limit_window_seconds": 604800,
            "reset_at": "2026-09-10T12:00:00Z"
        }
    }
}"#;

fn reply(status: u16, status_text: &str, body: &str) -> FetchEvent {
    FetchEvent::Replied(Ok(UsageReply {
        status,
        status_text: status_text.into(),
        body: Ok(body.as_bytes().to_vec()),
    }))
}

fn settled(task: &FetchTask, step: FetchStep) -> UsageSnapshot {
    match CodexAdapter.fetch_usage_for_account(task, step, FetchEvent::Settled(None)) {
        FetchStep::Done { usage } => usage,
        _ => panic!("the refresh must end"),
    }
}

#[test]
fn fetch_usage_refreshes_expired_token_then_succeeds() {
    let task = task();
    let step = start_fetch(&task, Ok(chatgpt_auth(r#"{"exp":1}"#, "old-refresh")));
    let auth = match &step {
        FetchStep::Renew { auth, required } => {
            assert!(!required);
            assert_eq!(
                as_text(auth.get_nested("tokens", "refresh_token")),
                Some("old-refresh")
            );
            auth
        }
        _ => panic!("the token must be renewed first"),
    };
    assert!(auth.is_object());
    let renewed = document(r#"{"tokens":{"access_token":"new-access","account_id":"acct-1"}}"#);
    let step = CodexAdapter.fetch_usage_for_account(&task, step, FetchEvent::Renewed(Some(renewed)));
    match &step {
        FetchStep::Send { request, .. } => {
            assert_eq!(request.authorization, "Bearer new-access");
            assert_eq!(request.account_id.as_deref(), Some("acct-1"));
            assert_eq!(request.url, "http://service/backend-api/wham/usage");
        }
        _ => panic!("the request must be sent"),
    }
    let step = CodexAdapter.fetch_usage_for_account(&task, step, reply(200, "200 OK", USAGE_OK));
    let usage = settled(&task, step);
    assert!(!usage.needs_relogin, "{usage:?}");
    assert!(usage.last_sync_error.is_none(), "{usage:?}");
    assert_eq!(usage.five_hour_remaining_percent, Some(90));
    assert_eq!(usage.last_synced_at, Some(1000));
    assert!(usage.rank_input.is_some());
}

#[test]
fn fetch_usage_retries_after_unauthorized_once() {
    let task = task();
    let step = start_fetch(
        &task,
        Ok(chatgpt_auth(r#"{"exp":2000000000}"#, "old-refresh")),
    );
    match &step {
        FetchStep::Send { request, .. } => {
            assert!(request.authorization.to_lowercase().contains("bearer eyj"));
        }
        _ => panic!("the request must be sent"),
    }
    let refused = || reply(401, "401 Unauthorized", r#"{"error":{"code":"token_expired"}}"#);
    let step = CodexAdapter.fetch_usage_for_account(&task, step, refused());
    assert!(matches!(step, FetchStep::Renew { required: true, .. }));
    let renewed = || Some(document(r#"{"tokens":{"access_token":"new-access"}}"#));
    let step =
        CodexAdapter.fetch_usage_for_account(&task, step, FetchEvent::Renewed(renewed()));
    match &step {
        FetchStep::Send { request, retried, .. } => {
            assert_eq!(request.authorization, "Bearer new-access");
            assert!(retried);
        }
        _ => panic!("the request must be sent again"),
    }
    let step = CodexAdapter.fetch_usage_for_account(&task, step, reply(200, "200 OK", USAGE_OK));
    assert!(!settled(&task, step).needs_relogin);

    let step = start_fetch(
        &task,
        Ok(chatgpt_auth(r#"{"exp":2000000000}"#, "old-refresh")),
    );
    let step = CodexAdapter.fetch_usage_for_account(&task, step, refused());
    let step =
        CodexAdapter.fetch_usage_for_account(&task, step, FetchEvent::Renewed(renewed()));
    match CodexAdapter.fetch_usage_for_account(&task, step, refused()) {
        FetchStep::Done { usage } => assert!(usage.needs_relogin),
        _ => panic!("a second refusal ends the refresh"),
    }
}

#[test]
fn fetch_usage_marks_relogin_when_refresh_fails() {
    let task = FetchTask {
        previous: Some(UsageSnapshot {
            weekly_remaining_percent: Some(47),
            five_hour_remaining_percent: Some(80),
            ..UsageSnapshot::default()
        }),
        ..task()
    };
    let step = start_fetch(&task, Ok(chatgpt_auth(r#"{"exp":1}"#, "revoked")));
    let step = CodexAdapter.fetch_usage_for_account(&task, step, FetchEvent::Renewed(None));
    assert!(matches!(step, FetchStep::Send { .. }));
    let step = CodexAdapter.fetch_usage_for_account(
        &task,
        step,
        reply(401, "401 Unauthorized", r#"{"error":{"code":"token_expired"}}"#),
    );
    match CodexAdapter.fetch_usage_for_account(&task, step, FetchEvent::Renewed(None)) {
        FetchStep::Done { usage } => {
            assert!(usage.needs_relogin);
            assert!(usage.weekly_remaining_percent.is_none());
            assert!(usage.five_hour_remaining_percent.is_none());
        }
        _ => panic!("the refresh must end"),
    }
}

#[test]
fn failures_of_a_refresh_are_recorded() {
    let error_of = |step: FetchStep| match step {
        FetchStep::Done { usage } => usage.last_sync_error.unwrap(),
        _ => panic!("the refresh must end"),
    };
    let task = task();
    assert_eq!(
        error_of(start_fetch(&task, Err("auth.json not found: /x".into()))),
        "auth.json not found: /x"
    );
    assert_eq!(
        error_of(start_fetch(&task, Ok(document("{}")))),
        "auth.json is missing tokens.access_token"
    );
    let send = || start_fetch(&task, Ok(document(r#"{"tokens":{"access_token":"x"}}"#)));
    assert_eq!(
        error_of(CodexAdapter.fetch_usage_for_account(
            &task,
            send(),
            reply(503, "503 Service Unavailable", "")
        )),
        "GET http://service/backend-api/wham/usage failed: 503 Service Unavailable"
    );
    assert_eq!(
        error_of(CodexAdapter.fetch_usage_for_account(
            &task,
            send(),
            FetchEvent::Replied(Err("timed out".into()))
        )),
        "timed out"
    );
    let with_body = |status: u16, body: Result<Vec<u8>, String>| {
        let answer = UsageReply {
            status,
            status_text: status.to_string(),
            body,
        };
        CodexAdapter.fetch_usage_for_account(&task, send(), FetchEvent::Replied(Ok(answer)))
    };
    assert_eq!(
        error_of(with_body(200, Err("connection reset".into()))),
        "connection reset"
    );
    assert_eq!(
        error_of(with_body(200, Ok(b"{\"a\":\"\xff\"}".to_vec()))),
        "error decoding response body"
    );
    assert!(matches!(
        with_body(401, Err("connection reset".into())),
        FetchStep::Renew { required: true, .. }
    ));
}
