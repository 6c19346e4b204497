//! The account pool: importing, switching and removing accounts.

use base64::engine::general_purpose::URL_SAFE_NO_PAD;
use base64::Engine;
use scodex::account::{AccountFiles, ApiLoginRequest};
use scodex::adapter::{CliAdapter, CodexAdapter};
use scodex::auth::IdentityError;
use scodex::json::Json;
use scodex::paths::Platform;
use scodex::pool::{
    absorbing_account, account_home_paths, backup_user_config_if_needed, dedupe_imported,
    env_flag_enabled, find_account_by_email, find_matching_account, hub_roots, import_owner,
    plan_import, replace_account, restore_user_config_if_managed, should_absorb, switch_config,
    AuthChange, ConfigChange, ImportPlan, LiveConfig,
};
use scodex::state::{AccountRecord, AccountType, State, UsageSnapshot};

fn fake_jwt(payload: &str) -> String {
    let header = URL_SAFE_NO_PAD.encode(r#"{"alg":"none"}"#);
    let payload = URL_SAFE_NO_PAD.encode(payload);
    format!("{header}.{payload}.sig")
}

fn document(text: &str) -> Json {
    Json::parse(text).expect("a JSON document")
}

fn chatgpt_auth_file(email: &str, access: &str, last_refresh: &str) -> Json {
    document(&format!(
        r#"{{"last_refresh":"{last_refresh}","tokens":{{"access_token":"{access}",
            "refresh_token":"rt-{access}","id_token":"{}","account_id":"acct-{email}"}}}}"#,
        fake_jwt(&format!(r#"{{"email":"{email}"}}"#))
    ))
}

fn subscription_record(email: &str) -> AccountRecord {
    AccountRecord {
        id: "acct-sub".into(),
        account_type: AccountType::Subscription,
        email: email.into(),
        account_id: Some("acct-1".into()),
        auth_path: "/stored/auth.json".into(),
        ..AccountRecord::default()
    }
}

#[test]
fn account_home_paths_returns_correct_structure() {
    let (home, auth, config) = account_home_paths(Platform::Other, "/tmp/scodex-state", "test-account-id");
    assert_eq!(home, "/tmp/scodex-state/accounts/test-account-id");
    assert_eq!(auth, format!("{home}/auth.json"));
    assert_eq!(config, format!("{home}/config.toml"));
}

fn import_into_empty_pool() -> (State, AccountRecord) {
    let auth = document(&format!(
        r#"{{"tokens":{{"id_token":"{}","account_id":"acct-1"}}}}"#,
        fake_jwt(r#"{"email":"a@example.com"}"#)
    ));
    let mut state = State::default();
    let plan = plan_import(&state, &auth, None, None, false).unwrap();
    let record = CodexAdapter.import_auth_path(Platform::Other, "/state", &mut state, plan, false, 7);
    (state, record)
}

#[test]
fn codex_import_auth_path_copies_auth_into_state_storage() {
    let (state, record) = import_into_empty_pool();
    assert_eq!(record.email, "a@example.com");
    assert_eq!(
        record.auth_path,
        format!("/state/accounts/{}/auth.json", record.id)
    );
    assert_eq!(state.accounts.len(), 1);
}

#[test]
fn account_import_auth_path_copies_auth_into_state_storage() {
    let (state, record) = import_into_empty_pool();
    assert_eq!(record.email, "a@example.com");
    assert_eq!(record.config_path, None);
    assert_eq!(record.added_at, 7);
    assert_eq!(record.id.len(), 36);
    assert_eq!(state.accounts[0].id, record.id);
}

#[test]
fn a_preferred_id_is_used_for_a_new_account_only() {
    let auth = chatgpt_auth_file("a@example.com", "x", "2026-08-24T07:28:44Z");
    let mut state = State::default();
    let plan = plan_import(&state, &auth, None, Some(" wanted "), false).unwrap();
    let record = CodexAdapter.import_auth_path(Platform::Other, "/state", &mut state, plan, true, 7);
    assert_eq!(record.id, "wanted");
    assert_eq!(
        record.config_path.as_deref(),
        Some("/state/accounts/wanted/config.toml")
    );
    let plan = plan_import(&state, &auth, None, Some("other"), false).unwrap();
    let record = CodexAdapter.import_auth_path(Platform::Other, "/state", &mut state, plan, false, 9);
    assert_eq!(record.id, "wanted");
    assert_eq!(record.added_at, 7);
    assert_eq!(record.updated_at, 9);
    assert_eq!(state.accounts.len(), 1);
}

#[test]
fn credentials_without_an_identity_are_not_imported() {
    let error = plan_import(&State::default(), &document("{}"), None, None, false)
        .err()
        .unwrap();
    assert!(matches!(error, IdentityError::MissingIdToken));
}

#[test]
fn import_known_does_not_overwrite_newer_stored_auth() {
    let live = chatgpt_auth_file("a@example.com", "live-old", "2026-08-24T07:28:44Z");
    let stored = chatgpt_auth_file("a@example.com", "stored-new", "2026-09-04T01:01:08Z");
    let mut state = State::default();
    state.accounts.push(AccountRecord {
        id: "keep".into(),
        email: "a@example.com".into(),
        account_id: Some("acct-1".into()),
        auth_path: "/state/accounts/keep/auth.json".into(),
        ..AccountRecord::default()
    });
    assert_eq!(import_owner(&state, &live).unwrap().id, "keep");
    let plan = plan_import(&state, &live, Some(&stored), None, true).unwrap();
    assert!(matches!(&plan, ImportPlan::Keep(record) if record.id == "keep"));
    let plan = plan_import(&state, &stored, Some(&live), None, true).unwrap();
    assert!(matches!(&plan, ImportPlan::Store { id, .. } if id == "keep"));
}

#[test]
fn switch_account_absorbs_newer_live_instead_of_overwriting() {
    let stored = chatgpt_auth_file("a@example.com", "stored-old", "2026-08-24T07:28:44Z");
    let live = chatgpt_auth_file("a@example.com", "live-new", "2026-09-04T01:01:08Z");
    let change = CodexAdapter
        .switch_account(
            &subscription_record("a@example.com"),
            true,
            Some(&live),
            Some(&stored),
        )
        .unwrap();
    assert!(matches!(change, AuthChange::StoreLive));
}

#[test]
fn switch_account_overwrites_live_when_stored_is_newer() {
    let stored = chatgpt_auth_file("a@example.com", "stored-new", "2026-09-04T01:01:08Z");
    let live = chatgpt_auth_file("a@example.com", "live-old", "2026-08-24T07:28:44Z");
    let change = CodexAdapter
        .switch_account(
            &subscription_record("a@example.com"),
            true,
            Some(&live),
            Some(&stored),
        )
        .unwrap();
    assert!(matches!(change, AuthChange::InstallStored));
}

#[test]
fn switch_account_overwrites_live_when_identity_differs() {
    let stored = chatgpt_auth_file("b@example.com", "stored-b", "2026-08-24T07:28:44Z");
    let live = chatgpt_auth_file("a@example.com", "live-a", "2026-09-04T01:01:08Z");
    let change = CodexAdapter
        .switch_account(
            &subscription_record("b@example.com"),
            true,
            Some(&live),
            Some(&stored),
        )
        .unwrap();
    assert!(matches!(change, AuthChange::InstallStored));
}

#[test]
fn an_account_without_stored_credentials_is_not_switched_to() {
    let error = CodexAdapter
        .switch_account(&subscription_record("a@example.com"), false, None, None)
        .err()
        .unwrap();
    assert_eq!(error, "stored auth.json not found: /stored/auth.json");
}

fn live_config(exists: bool, managed: bool, backup_exists: bool) -> LiveConfig {
    LiveConfig {
        exists,
        managed,
        backup_exists,
    }
}

#[test]
fn the_configuration_of_the_user_is_saved_and_restored() {
    let api = AccountRecord {
        account_type: AccountType::Api,
        config_path: Some("/stored/config.toml".into()),
        ..AccountRecord::default()
    };
    match switch_config(&api, true, &live_config(true, false, false)).unwrap() {
        ConfigChange::Install { from, backup } => {
            assert_eq!(from, "/stored/config.toml");
            assert!(backup);
        }
        _ => panic!("the configuration must be installed"),
    }
    assert!(matches!(
        switch_config(&api, true, &live_config(true, true, true)).unwrap(),
        ConfigChange::Install { backup: false, .. }
    ));
    assert_eq!(
        switch_config(&api, false, &live_config(true, true, true))
            .err()
            .unwrap(),
        "stored config.toml not found: /stored/config.toml"
    );
    let plain = AccountRecord::default();
    assert!(matches!(
        switch_config(&plain, false, &live_config(true, true, true)).unwrap(),
        ConfigChange::Restore
    ));
    assert!(matches!(
        switch_config(&plain, false, &live_config(true, true, false)).unwrap(),
        ConfigChange::Remove
    ));
    assert!(matches!(
        switch_config(&plain, false, &live_config(true, false, true)).unwrap(),
        ConfigChange::Keep
    ));
    assert!(backup_user_config_if_needed(&live_config(true, false, false)));
    assert!(!backup_user_config_if_needed(&live_config(true, false, true)));
    assert!(matches!(
        restore_user_config_if_managed(&live_config(false, false, false)),
        ConfigChange::Keep
    ));
}

#[test]
fn newer_live_credentials_are_absorbed() {
    let stored = chatgpt_auth_file("a@example.com", "stored", "2026-08-24T07:28:44Z");
    let live = chatgpt_auth_file("a@example.com", "live", "2026-09-04T01:01:08.861768319Z");
    let mut state = State::default();
    state.accounts.push(subscription_record("a@example.com"));
    let id = absorbing_account(&state, &live).unwrap().id.clone();
    assert_eq!(id, "acct-sub");
    assert!(should_absorb(&live, Some(&stored)));
    assert!(!should_absorb(&stored, Some(&live)));
    assert!(should_absorb(&stored, None));
    CodexAdapter.absorb_newer_live_auth(&mut state, &id, &live, 99);
    assert_eq!(state.accounts[0].updated_at, 99);
    state.accounts[0].account_type = AccountType::Api;
    assert!(absorbing_account(&state, &live).is_none());
}

#[test]
fn api_login_writes_auth_json_from_cli_token() {
    let mut state = State::default();
    let request = ApiLoginRequest {
        api_token: "sk-abcdef123456wxyz".into(),
        base_url: "https://example.com/v1".into(),
        provider: "openrouter".into(),
    };
    let (import, auth_contents) =
        CodexAdapter.run_api_key_login(Platform::Other, "/state", &mut state, &request, 5).unwrap();
    assert_eq!(
        auth_contents,
        "{\"OPENAI_API_KEY\":\"sk-abcdef123456wxyz\"}"
    );
    let record = import.record;
    assert_eq!(record.account_type, AccountType::Api);
    assert_eq!(record.api_provider.as_deref(), Some("openrouter"));
    assert_eq!(state.accounts.len(), 1);
    assert_eq!(import.home, format!("/state/accounts/{}", record.id));
    assert!(import
        .config
        .contains(&format!("# scodex-account-id: {}", record.id)));
    let (again, _) = CodexAdapter.run_api_key_login(Platform::Other, "/state", &mut state, &request, 6).unwrap();
    assert_eq!(again.record.id, record.id);
    assert_eq!(again.record.added_at, 5);
    assert_eq!(state.accounts.len(), 1);
}

#[test]
fn an_api_account_is_what_its_files_say() {
    for (provider, base_url) in [
        ("openrouter", "https://example.com/v1"),
        ("openai", "https://api.openai.com/v1"),
        ("it's = [base_url] # x", "base_url = 'y'"),
        ("\u{e9}\u{85}\u{2028}a.b", "model_provider = x"),
    ] {
        let mut state = State::default();
        let request = ApiLoginRequest {
            api_token: "sk-abcdef123456wxyz".into(),
            base_url: base_url.into(),
            provider: provider.into(),
        };
        let (import, auth) = CodexAdapter
            .run_api_key_login(Platform::Other, "/state", &mut state, &request, 5)
            .unwrap();
        let before = import.record.clone();
        let files = vec![AccountFiles {
            auth: Some(auth),
            config: Some(import.config),
        }];
        assert!(!CodexAdapter.normalize_account_records(&mut state, files));
        assert_eq!(state.accounts[0], before);
        assert_eq!(before.api_base_url.as_deref(), Some(base_url));
    }
}

#[test]
fn accounts_are_found_in_any_case_and_by_the_name_they_are_shown_by() {
    let mut state = State::default();
    state.accounts.push(AccountRecord {
        id: "1".into(),
        email: "A@Example.com".into(),
        account_id: Some("remote".into()),
        ..AccountRecord::default()
    });
    state.accounts.push(AccountRecord {
        id: "2".into(),
        account_type: AccountType::Api,
        email: "56wxyz@openrouter".into(),
        api_provider: Some("openrouter".into()),
        api_token_label: Some("sk-abcd-wxyz".into()),
        ..AccountRecord::default()
    });
    let named = |name: &str| {
        CodexAdapter
            .find_account_by_email(&state, name)
            .map(|account| account.id.as_str())
    };
    assert_eq!(named(" a@example.COM "), Some("1"));
    assert_eq!(named("56WXYZ@openrouter"), Some("2"));
    assert_eq!(named("sk-abcd-wxyz@openrouter"), Some("2"));
    assert_eq!(named("nobody"), None);
    assert_eq!(
        find_account_by_email(&state, "a@example.com").map(|account| account.id.as_str()),
        Some("1")
    );
    assert_eq!(
        find_matching_account(&state, "x@y", Some("remote")).map(|account| account.id.as_str()),
        Some("1")
    );
    assert!(find_matching_account(&state, "x@y", None).is_none());
}

#[test]
fn replacing_and_removing_touch_one_account_only() {
    let account = |id: &str, email: &str| AccountRecord {
        id: id.into(),
        email: email.into(),
        ..AccountRecord::default()
    };
    let mut state = State::default();
    replace_account(&mut state, account("a", "a@x"));
    replace_account(&mut state, account("b", "b@x"));
    replace_account(&mut state, account("a", "c@x"));
    assert_eq!(state.accounts.len(), 2);
    assert_eq!(state.accounts[0].email, "c@x");
    state.usage_cache.insert("a".into(), UsageSnapshot::default());
    state.usage_cache.insert("b".into(), UsageSnapshot::default());
    let home = CodexAdapter.remove_account(Platform::Other, "/state", &mut state, "a");
    assert_eq!(home, "/state/accounts/a");
    assert_eq!(state.accounts.len(), 1);
    assert_eq!(state.accounts[0].id, "b");
    assert!(state.usage_cache.get("a").is_none());
    assert!(state.usage_cache.get("b").is_some());
    let kept = dedupe_imported(vec![account("a", "1"), account("b", "2"), account("a", "3")]);
    assert_eq!(kept.len(), 2);
    assert_eq!(kept[0].email, "1");
}

#[test]
fn known_sources_are_listed_once_each() {
    assert_eq!(
        CodexAdapter.import_known_sources(Platform::Other, "/h/.codex", false, &vec!["/hub/1".into()]),
        vec!["/h/.codex/auth.json"]
    );
    assert_eq!(
        CodexAdapter.import_known_sources(
            Platform::Other, "/h/.codex",
            true,
            &vec!["/hub/1".into(), "/h/.codex".into(), "/hub/1".into()]
        ),
        vec!["/h/.codex/auth.json", "/hub/1/auth.json"]
    );
    assert_eq!(
        hub_roots(Platform::Other, "/h"),
        vec![
            "/h/Library/Application Support/com.murong.ai-accounts-hub/codex/managed-codex-homes",
            "/h/.local/share/com.murong.ai-accounts-hub/codex/managed-codex-homes",
        ]
    );
    for value in ["1", " TRUE ", "yes", "on"] {
        assert!(env_flag_enabled(Some(value)));
    }
    assert!(!env_flag_enabled(Some("0")));
    assert!(!env_flag_enabled(None));
}

#[test]
fn the_live_identity_is_that_of_the_configuration_or_else_of_the_credentials() {
    let config = "# scodex-managed-api-config\n# scodex-account-id: own\n";
    let auth = format!(
        r#"{{"tokens":{{"id_token":"{}"}}}}"#,
        fake_jwt(r#"{"email":"A@example.com"}"#)
    );
    let live = CodexAdapter
        .read_live_identity(Some(config), Some(&auth))
        .unwrap();
    assert_eq!(live.scodex_account_id.as_deref(), Some("own"));
    assert_eq!(live.email, "");
    let live = CodexAdapter
        .read_live_identity(Some("model = 1"), Some(&auth))
        .unwrap();
    assert_eq!(live.email, "a@example.com");
    assert_eq!(live.scodex_account_id, None);
    assert!(CodexAdapter.read_live_identity(None, None).is_none());
    assert!(CodexAdapter.read_live_identity(None, Some("{")).is_none());
}

#[test]
fn the_adapter_says_what_it_can_do() {
    let adapter = CodexAdapter::default();
    assert_eq!(adapter.id(), "codex");
    let capabilities = adapter.capabilities();
    assert!(capabilities.switch_account && capabilities.resume && capabilities.live_usage);
}

#[test]
fn an_api_account_that_cannot_be_printed_is_refused() {
    for quote in ["'", "\""] {
        let mut state = State::default();
        let mut request = ApiLoginRequest {
            api_token: "sk-abcdef123456wxyz".into(),
            base_url: format!("a{}b", quote.repeat(255)),
            provider: quote.repeat(255),
        };
        assert!(CodexAdapter
            .run_api_key_login(Platform::Other, "/state", &mut state, &request, 5)
            .is_ok());
        assert_eq!(state.accounts.len(), 1);
        request.base_url = format!("a{}b", quote.repeat(256));
        let error = CodexAdapter
            .run_api_key_login(Platform::Other, "/state", &mut state, &request, 5)
            .err()
            .unwrap();
        assert!(error.message().contains("quotation marks"));
        assert_eq!(state.accounts.len(), 1);
    }
}

#[test]
fn accounts_are_kept_below_the_state_directory_of_each_platform() {
    let (home, auth, _) = account_home_paths(Platform::Windows, "C:\\s", "id");
    assert_eq!(home, "C:\\s\\accounts\\id");
    assert_eq!(auth, "C:\\s\\accounts\\id\\auth.json");
}
