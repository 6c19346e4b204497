//! Tables, the list of accounts, and the help.

use chrono::{DateTime, Local};
use scodex::adapter::CodexAdapter;
use scodex::help::{
    command_help_topic, render_help, render_help_with_lang, requested_help_topic, HelpTopic,
};
use scodex::listing::{
    format_account_status, format_percent, format_quota_percent, format_reset_on,
    is_active_account, parse_reset, render_listing,
};
use scodex::state::{AccountRecord, AccountType, LiveIdentity, State, UsageSnapshot};
use scodex::table::{
    align_cell, render_table, strip_ansi_codes, style_enabled, style_text, visible_width,
    AnsiStyle,
};
use scodex::ui::{Messages, UiLanguage};

fn en() -> Messages {
    Messages::new(UiLanguage::En)
}

#[test]
fn strip_ansi_codes_keeps_visible_width_correct() {
    let styled = "\u{1b}[32m80%\u{1b}[0m";
    assert_eq!(strip_ansi_codes(styled), "80%");
    assert_eq!(visible_width(styled), 3);
}

#[test]
fn wide_characters_take_two_columns() {
    assert_eq!(visible_width("邮箱"), 4);
    assert_eq!(align_cell("邮箱", 6, "center"), " 邮箱 ");
    assert_eq!(align_cell("ab", 5, "center"), " ab  ");
    assert_eq!(align_cell("ab", 5, "right"), "   ab");
    assert_eq!(align_cell("ab", 5, "left"), "ab   ");
    assert_eq!(align_cell("abc", 2, "left"), "abc");
}

#[test]
fn table_uses_unicode_borders() {
    let rendered = render_table(
        &["A", "B"],
        &[vec!["1".into(), "2".into()]],
        &["left", "left"],
        Some("1 usable account(s)".into()),
    );
    assert!(rendered.contains('┌'));
    assert!(rendered.contains('┬'));
    assert!(rendered.contains('└'));
    assert!(rendered.contains('│'));
}

#[test]
fn table_can_render_summary_without_rows() {
    let rendered = render_table(&["A", "B"], &[], &["left", "left"], Some("0 usable".into()));
    assert!(rendered.contains("0 usable"));
    assert!(rendered.contains('┌'));
    assert!(rendered.contains('└'));
}

#[test]
fn colors_are_used_on_terminals_only() {
    assert!(style_enabled(true, false, Some("xterm")));
    assert!(!style_enabled(false, false, Some("xterm")));
    assert!(!style_enabled(true, true, Some("xterm")));
    assert!(!style_enabled(true, false, Some("dumb")));
    assert_eq!(
        style_text("80%", AnsiStyle::Green, true),
        "\u{1b}[32m80%\u{1b}[0m"
    );
    assert_eq!(style_text("80%", AnsiStyle::Green, false), "80%");
}

#[test]
fn render_account_table_returns_empty_state_message_without_accounts() {
    let rendered = CodexAdapter.render_account_table(&en(), &State::default(), None, false);
    assert_eq!(rendered, en().no_usable_account_hint());
}

#[test]
fn render_account_table_returns_empty_state_message_when_no_account_is_usable() {
    let mut state = State::default();
    state.accounts.push(AccountRecord {
        id: "acct-1".into(),
        email: "a@example.com".into(),
        auth_path: "/tmp/auth.json".into(),
        ..Default::default()
    });
    state.usage_cache.insert(
        "acct-1".into(),
        UsageSnapshot {
            last_sync_error: Some("quota api failed".into()),
            ..Default::default()
        },
    );

    let rendered = CodexAdapter.render_account_table(&en(), &state, None, false);
    assert_eq!(rendered, en().no_usable_account_hint());
}

fn live(email: &str) -> LiveIdentity {
    LiveIdentity {
        adapter_id: String::new(),
        email: email.into(),
        account_id: None,
        stable_id: None,
        aliases: Vec::new(),
        payload: "null".into(),
        scodex_account_id: None,
    }
}

#[test]
fn accounts_are_listed_by_email_with_their_quotas() {
    let mut state = State::default();
    for email in ["b@x", "a@x"] {
        state.accounts.push(AccountRecord {
            id: email.into(),
            email: email.into(),
            plan: Some("Plus".into()),
            ..Default::default()
        });
        state.usage_cache.insert(
            email.into(),
            UsageSnapshot {
                five_hour_remaining_percent: Some(80),
                weekly_remaining_percent: Some(7),
                ..Default::default()
            },
        );
    }
    state.accounts.push(AccountRecord {
        id: "api".into(),
        account_type: AccountType::Api,
        email: "z@p".into(),
        api_provider: Some("p".into()),
        api_token_label: Some("sk-abcd-wxyz".into()),
        ..Default::default()
    });
    let resets = vec!["r1".to_string(), "r2".to_string(), "r3".to_string()];
    let rendered = render_listing(&en(), &state, Some(&live("B@X")), false, &resets);
    let lines: Vec<&str> = rendered.lines().collect();
    let first = lines.iter().position(|line| line.contains("a@x")).unwrap();
    let second = lines.iter().position(|line| line.contains("b@x")).unwrap();
    assert!(first < second);
    assert!(lines[second].contains('✓'));
    assert!(!lines[first].contains('✓'));
    assert!(lines[first].contains("80%") && lines[first].contains("7%"));
    let api = lines
        .iter()
        .find(|line| line.contains("sk-abcd-wxyz@p"))
        .unwrap();
    assert!(api.contains("N/A") && api.contains("api"));
    assert!(rendered.contains("3 usable account(s)"));
}

#[test]
fn cells_show_what_is_known() {
    let ui = en();
    assert_eq!(format_percent(&ui, Some(5)), "5%");
    assert_eq!(format_percent(&ui, None), "N/A");
    assert_eq!(
        format_quota_percent(&ui, Some(19), true),
        "\u{1b}[31m19%\u{1b}[0m"
    );
    assert_eq!(
        format_quota_percent(&ui, Some(49), true),
        "\u{1b}[33m49%\u{1b}[0m"
    );
    assert_eq!(
        format_quota_percent(&ui, Some(50), true),
        "\u{1b}[32m50%\u{1b}[0m"
    );
    assert_eq!(format_quota_percent(&ui, None, true), "N/A");
    let failed = UsageSnapshot {
        last_sync_error: Some("x".into()),
        ..Default::default()
    };
    assert_eq!(format_account_status(&ui, &failed, false), "ERROR");
    assert_eq!(
        format_account_status(&ui, &UsageSnapshot::default(), false),
        "OK"
    );
    let account = AccountRecord {
        id: "own".into(),
        email: "a@x".into(),
        ..Default::default()
    };
    assert!(is_active_account(&account, Some(&live("A@X"))));
    assert!(!is_active_account(&account, Some(&live("b@x"))));
    assert!(!is_active_account(&account, None));
    let own_id = LiveIdentity {
        scodex_account_id: Some("own".into()),
        ..live("b@x")
    };
    assert!(!is_active_account(&account, Some(&own_id)));
}

#[test]
fn times_of_resets_are_read_in_both_forms() {
    let ui = en();
    assert_eq!(parse_reset(Some(" 1788798169 ")), Some(1788798169));
    assert_eq!(parse_reset(Some("1970-01-01T00:01:00Z")), Some(60));
    for nothing in ["", "none", "NULL", "n/a", "soon"] {
        assert_eq!(parse_reset(Some(nothing)), None);
        assert_eq!(format_reset_on(&ui, Some(nothing)), "N/A");
    }
    assert_eq!(format_reset_on(&ui, None), "N/A");
    let shown = format_reset_on(&ui, Some("2026-04-20T00:00:00Z"));
    assert_eq!(shown.len(), "04-20 00:00".len());
    assert!(shown.starts_with("04-"));
}

#[test]
fn resets_are_shown_in_the_time_zone_of_the_machine() {
    let ui = en();
    let (first, last) = (-8_334_601_228_800, 8_210_266_876_799);
    for seconds in [first, -1, 0, 951_782_400, 1_788_798_169, last] {
        let expected = DateTime::from_timestamp(seconds, 0)
            .unwrap()
            .with_timezone(&Local)
            .format("%m-%d %H:%M")
            .to_string();
        assert_eq!(format_reset_on(&ui, Some(&seconds.to_string())), expected);
        let offset = i64::from(
            DateTime::from_timestamp(seconds, 0)
                .unwrap()
                .with_timezone(&Local)
                .offset()
                .local_minus_utc(),
        );
        let time = (seconds + offset).rem_euclid(86_400);
        assert_eq!(
            expected[6..],
            format!("{:02}:{:02}", time / 3_600, time % 3_600 / 60)
        );
    }
    for seconds in [first - 1, last + 1] {
        assert!(DateTime::from_timestamp(seconds, 0).is_none());
        assert_eq!(parse_reset(Some(&seconds.to_string())), None);
        assert_eq!(format_reset_on(&ui, Some(&seconds.to_string())), "N/A");
    }
}

#[test]
fn help_render_root_en_contains_key_sections() {
    let out = render_help_with_lang(HelpTopic::Root, false);
    assert!(out.contains("Usage:"), "should contain 'Usage:' header");
    assert!(
        out.contains("Commands:"),
        "should contain 'Commands:' header"
    );
    assert!(out.contains("Options:"), "should contain 'Options:' header");
    assert!(out.contains("launch"), "should list 'launch' command");
    assert!(
        out.contains("--state-dir"),
        "should list --state-dir option"
    );
    assert!(
        !out.contains("用法"),
        "EN output must not contain Chinese text"
    );
}

#[test]
fn help_render_push_en_contains_environment_section() {
    let out = render_help_with_lang(HelpTopic::Push, false);
    assert!(out.contains("Usage:"));
    assert!(out.contains("Arguments:"));
    assert!(out.contains("Options:"));
    assert!(out.contains("Environment:"));
    assert!(out.contains("SCODEX_POOL_KEY"));
    assert!(out.contains("SCODEX_POOL_REPO"));
}

#[test]
fn help_render_root_zh_contains_key_sections() {
    let out = render_help_with_lang(HelpTopic::Root, true);
    assert!(out.contains("用法："), "should contain '用法：' header");
    assert!(out.contains("命令："), "should contain '命令：' header");
    assert!(out.contains("选项："), "should contain '选项：' header");
    assert!(out.contains("launch"), "command names are not translated");
    assert!(out.contains("覆盖本地状态目录"), "zh option desc present");
    assert!(
        !out.contains("Usage:"),
        "zh output must not contain EN header"
    );
}

#[test]
fn help_render_push_zh_contains_env_section() {
    let out = render_help_with_lang(HelpTopic::Push, true);
    assert!(out.contains("用法："));
    assert!(out.contains("参数："));
    assert!(out.contains("选项："));
    assert!(out.contains("环境变量："));
    assert!(out.contains("SCODEX_POOL_KEY"));
    assert!(out.contains("用于加密账号池"));
}

#[test]
fn help_is_asked_for_in_two_ways() {
    let args = |items: &[&str]| items.iter().map(|item| item.to_string()).collect();
    assert_eq!(
        requested_help_topic(&args(&["scodex", "help", "sync"])),
        Some(HelpTopic::Deploy)
    );
    assert_eq!(
        requested_help_topic(&args(&["scodex", "sync", "x", "--help"])),
        Some(HelpTopic::Deploy)
    );
    assert_eq!(
        requested_help_topic(&args(&["scodex", "help", "nothing"])),
        Some(HelpTopic::Root)
    );
    assert_eq!(
        requested_help_topic(&args(&["scodex", "-h"])),
        Some(HelpTopic::Root)
    );
    assert_eq!(requested_help_topic(&args(&["scodex", "exec", "-h"])), None);
    assert_eq!(requested_help_topic(&args(&["scodex", "list"])), None);
    assert_eq!(requested_help_topic(&args(&["scodex"])), None);
    assert_eq!(command_help_topic("upgrade"), Some(HelpTopic::Update));
    assert_eq!(
        render_help(&en(), HelpTopic::Rm),
        render_help_with_lang(HelpTopic::Rm, false)
    );
}
