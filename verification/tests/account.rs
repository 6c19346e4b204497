//! API accounts: their tokens, their names and their configuration.

use scodex::account::{
    account_name, api_account_email, api_token_label, build_api_config, infer_api_account_details,
    is_scodex_managed_config, normalize_account_record, parse_config_string,
    parse_toml_basic_string, read_managed_config_account_id, token_tail, AccountFiles,
    ApiLoginRequest,
};
use scodex::adapter::CodexAdapter;
use scodex::state::{AccountRecord, AccountType, State, UsageSnapshot};

fn openrouter_request() -> ApiLoginRequest {
    ApiLoginRequest {
        api_token: "sk-abcdef123456wxyz".into(),
        base_url: "https://example.com/v1".into(),
        provider: "openrouter".into(),
    }
}

fn openai_request() -> ApiLoginRequest {
    ApiLoginRequest {
        api_token: "sk-openai1234abcd".into(),
        base_url: "https://api.openai.com/v1".into(),
        provider: "openai".into(),
    }
}

#[test]
fn token_tail_with_sk_prefix() {
    assert_eq!(token_tail("sk-abcdef", 4), "cdef");
}

#[test]
fn token_tail_without_prefix() {
    assert_eq!(token_tail("abcdef", 4), "cdef");
}

#[test]
fn token_tail_shorter_than_n_returns_full_body() {
    assert_eq!(token_tail("sk-ab", 6), "ab");
}

#[test]
fn token_tail_empty_body_returns_empty() {
    assert_eq!(token_tail("sk-", 4), "");
}

#[test]
fn token_tail_of_length_zero_is_empty() {
    assert_eq!(token_tail(" sk-abcdef ", 0), "");
    assert_eq!(token_tail(" sk-abcdef ", 6), "abcdef");
    assert_eq!(token_tail(" sk-abcdef ", 1), "f");
}

#[test]
fn api_token_label_formats_head_and_tail() {
    assert_eq!(api_token_label("sk-abcdef123456wxyz"), "sk-abcd-wxyz");
}

#[test]
fn build_api_config_openai_contains_expected_keys() {
    let req = openai_request();
    let config = build_api_config("acct-openai", &req);

    assert!(
        config.contains("# scodex-managed-api-config"),
        "missing marker"
    );
    assert!(
        config.contains("# scodex-account-id: acct-openai"),
        "missing account id"
    );
    assert!(
        config.contains("model_provider = \"openai\""),
        "missing model_provider"
    );
    assert!(
        config.contains("openai_base_url = \"https://api.openai.com/v1\""),
        "missing openai_base_url"
    );
    assert!(
        config.contains("forced_login_method = \"api\""),
        "missing forced_login_method"
    );
    assert!(
        !config.contains("[model_providers"),
        "openai branch must not have model_providers table"
    );
}

#[test]
fn build_api_config_openrouter_contains_expected_keys() {
    let req = openrouter_request();
    let config = build_api_config("acct-api", &req);

    assert!(config.contains("# scodex-managed-api-config"));
    assert!(config.contains("# scodex-account-id: acct-api"));
    assert!(config.contains("model_provider = \"openrouter\""));
    assert!(
        config.contains("[model_providers.openrouter]"),
        "missing model_providers section; got:\n{config}"
    );
    assert!(config.contains("base_url = \"https://example.com/v1\""));
    assert!(config.contains("requires_openai_auth = true"));
    assert!(config.contains("wire_api = \"responses\""));
}

#[test]
fn build_api_config_openai_case_insensitive() {
    let req = ApiLoginRequest {
        api_token: "sk-test".into(),
        base_url: "https://api.openai.com/v1".into(),
        provider: "OpenAI".into(),
    };
    let config = build_api_config("acct-x", &req);
    assert!(config.contains("model_provider = \"openai\""));
    assert!(!config.contains("[model_providers"));
}

#[test]
fn api_configuration_is_exact() {
    assert_eq!(
        build_api_config("acct-openai", &openai_request()),
        "# scodex-managed-api-config\n\
         # scodex-account-id: acct-openai\n\
         model_provider = \"openai\"\n\
         openai_base_url = \"https://api.openai.com/v1\"\n\
         forced_login_method = \"api\"\n"
    );
    assert_eq!(
        build_api_config("acct-api", &openrouter_request()),
        "# scodex-managed-api-config\n\
         # scodex-account-id: acct-api\n\
         model_provider = \"openrouter\"\n\
         forced_login_method = \"api\"\n\
         \n\
         [model_providers.openrouter]\n\
         name = \"openrouter\"\n\
         base_url = \"https://example.com/v1\"\n\
         requires_openai_auth = true\n\
         wire_api = \"responses\"\n"
    );
}

#[test]
fn api_account_email_uses_short_secret_locator() {
    assert_eq!(
        api_account_email("sk-abcdef123456wxyz", "OpenRouter"),
        "56wxyz@openrouter"
    );
    assert_eq!(
        api_account_email("abcdef123456wxyz", "custom"),
        "56wxyz@custom"
    );
}

#[test]
fn the_prefix_of_a_token_and_space_around_it_do_not_matter() {
    for token in [" sk-abcdef123456wxyz\n", "\tabcdef123456wxyz "] {
        assert_eq!(api_account_email(token, "custom"), "56wxyz@custom");
        assert_eq!(api_token_label(token), "sk-abcd-wxyz");
    }
}

#[test]
fn api_config_marks_scodex_managed_provider() {
    let config = build_api_config(
        "acct-api",
        &ApiLoginRequest {
            api_token: "sk-abcdef123456wxyz".into(),
            base_url: "https://example.com/v1".into(),
            provider: "openrouter".into(),
        },
    );

    assert!(config.contains("# scodex-managed-api-config"));
    assert!(config.contains("# scodex-account-id: acct-api"));
    assert!(config.contains("model_provider = \"openrouter\""));
    assert!(
        config.contains("[model_providers.openrouter]"),
        "expected bare-key section header; got:\n{config}"
    );
    assert!(config.contains("base_url = \"https://example.com/v1\""));
}

#[test]
fn a_managed_configuration_names_its_account() {
    let config = build_api_config("acct-api", &openrouter_request());
    assert!(is_scodex_managed_config(Some(&config)));
    assert_eq!(
        read_managed_config_account_id(Some(&config)).as_deref(),
        Some("acct-api")
    );
    assert!(!is_scodex_managed_config(Some("model = \"x\"")));
    assert!(!is_scodex_managed_config(None));
    assert_eq!(read_managed_config_account_id(None), None);
    assert_eq!(
        read_managed_config_account_id(Some("# scodex-account-id: x")),
        None
    );
    assert_eq!(
        read_managed_config_account_id(Some(
            "# scodex-managed-api-config\n# scodex-account-id:  \n# scodex-account-id: b"
        ))
        .as_deref(),
        Some("b")
    );
}

#[test]
fn quoted_settings_are_read() {
    assert_eq!(
        parse_toml_basic_string(r#""a\"b\\c\n\r\t""#).as_deref(),
        Some("a\"b\\c\n\r\t")
    );
    assert_eq!(parse_toml_basic_string(r#""a\x""#), None);
    assert_eq!(parse_toml_basic_string(r#""a\"#), None);
    assert_eq!(parse_toml_basic_string("'a'"), None);
    assert_eq!(parse_toml_basic_string("\""), None);
    assert_eq!(
        parse_config_string("x = 1\n  key = \"v\"  \nkey = \"w\"", "key").as_deref(),
        Some("v")
    );
    assert_eq!(parse_config_string("key=\"v\"", "key"), None);
}

#[test]
fn api_accounts_are_recognized_by_their_files() {
    let config = build_api_config("x", &openrouter_request());
    let auth = r#"{"OPENAI_API_KEY":" sk-abcdef123456wxyz "}"#;
    let details = infer_api_account_details(Some(&config), Some(auth)).unwrap();
    assert_eq!(details.email, "56wxyz@openrouter");
    assert_eq!(details.provider, "openrouter");
    assert_eq!(details.base_url, "https://example.com/v1");
    assert_eq!(details.token_label, "sk-abcd-wxyz");
    assert!(infer_api_account_details(None, Some(auth)).is_none());
    assert!(infer_api_account_details(Some("model_provider = \"x\""), Some(auth)).is_none());
    assert!(infer_api_account_details(Some(&config), Some("{}")).is_none());
    assert!(infer_api_account_details(Some(&config), Some("{")).is_none());
    assert!(infer_api_account_details(Some(&config), None).is_none());
}

#[test]
fn normalize_account_records_repairs_legacy_api_account_shape() {
    let config = build_api_config("legacy-api", &openrouter_request());
    let mut state = State::default();
    state.accounts.push(AccountRecord {
        id: "legacy-api".into(),
        account_type: AccountType::Subscription,
        email: "sk-abcdef123456wxyz@wrong".into(),
        account_id: Some("acct-should-clear".into()),
        plan: Some("Plus".into()),
        auth_path: "/state/accounts/legacy-api/auth.json".into(),
        config_path: Some("/state/accounts/legacy-api/config.toml".into()),
        added_at: 1,
        updated_at: 2,
        ..Default::default()
    });
    state.usage_cache.insert(
        "legacy-api".into(),
        UsageSnapshot {
            last_sync_error: Some("auth.json is missing tokens.access_token".into()),
            ..Default::default()
        },
    );

    let files = || {
        vec![AccountFiles {
            auth: Some(r#"{"OPENAI_API_KEY":"sk-abcdef123456wxyz"}"#.into()),
            config: Some(config.clone()),
        }]
    };
    let changed = CodexAdapter.normalize_account_records(&mut state, files());

    assert!(changed);
    let account = &state.accounts[0];
    assert_eq!(account.account_type, AccountType::Api);
    assert_eq!(account.email, "56wxyz@openrouter");
    assert_eq!(account.account_id, None);
    assert_eq!(account.plan, None);
    assert_eq!(account.api_provider.as_deref(), Some("openrouter"));
    assert_eq!(
        account.api_base_url.as_deref(),
        Some("https://example.com/v1")
    );
    assert_eq!(account.api_token_label.as_deref(), Some("sk-abcd-wxyz"));
    assert!(state.usage_cache.get("legacy-api").is_none());

    assert!(!CodexAdapter.normalize_account_records(&mut state, files()));
    let (again, changed) = normalize_account_record(state.accounts[0].clone(), None);
    assert!(!changed);
    assert_eq!(again.email, "56wxyz@openrouter");
}

#[test]
fn api_accounts_are_shown_by_their_label_and_provider() {
    let mut account = AccountRecord {
        email: "56wxyz@openrouter".into(),
        account_type: AccountType::Api,
        api_provider: Some("openrouter".into()),
        api_token_label: Some("sk-abcd-wxyz".into()),
        ..Default::default()
    };
    assert_eq!(account_name(&account), "sk-abcd-wxyz@openrouter");
    account.account_type = AccountType::Subscription;
    assert_eq!(account_name(&account), "56wxyz@openrouter");
}
