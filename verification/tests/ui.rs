//! Languages, answers and errors.

use scodex::ui::{
    detect_ui_language, format_top_level_error, messages, parse_ui_language_from_locale,
    parse_yes_no, Messages, UiLanguage,
};

#[test]
fn chinese_utf8_locale_selects_chinese_messages() {
    assert_eq!(
        parse_ui_language_from_locale("zh_CN.UTF-8"),
        Some(UiLanguage::ZhHans)
    );
    assert_eq!(
        parse_ui_language_from_locale("zh_CN.utf8"),
        Some(UiLanguage::ZhHans)
    );
}

#[test]
fn locale_without_utf8_or_without_zh_falls_back_to_english() {
    assert_eq!(parse_ui_language_from_locale("zh_CN.GBK"), None);
    assert_eq!(parse_ui_language_from_locale("en_US.UTF-8"), None);
    assert_eq!(parse_ui_language_from_locale("C"), None);
}

#[test]
fn the_language_is_that_of_the_first_variable_that_names_one() {
    assert_eq!(detect_ui_language(None, None, None), UiLanguage::En);
    assert_eq!(
        detect_ui_language(None, None, Some("zh_CN.UTF-8")),
        UiLanguage::ZhHans
    );
    assert!(messages(Some("zh_TW.UTF-8"), None, None).is_zh());
    assert!(!messages(Some("en_US.UTF-8"), None, None).is_zh());
}

#[test]
fn codex_parse_yes_no_accepts_expected_values_case_insensitively() {
    assert_eq!(parse_yes_no("Y"), Some(true));
    assert_eq!(parse_yes_no("yes"), Some(true));
    assert_eq!(parse_yes_no("N"), Some(false));
    assert_eq!(parse_yes_no("No"), Some(false));
    assert_eq!(parse_yes_no("maybe"), None);
}

#[test]
fn mod_parse_yes_no_accepts_expected_values_case_insensitively() {
    assert_eq!(parse_yes_no("Y"), Some(true));
    assert_eq!(parse_yes_no("yes"), Some(true));
    assert_eq!(parse_yes_no("N"), Some(false));
    assert_eq!(parse_yes_no("No"), Some(false));
    assert_eq!(parse_yes_no("maybe"), None);
}

#[test]
fn answers_are_trimmed() {
    assert_eq!(parse_yes_no(" yes\r\n"), Some(true));
    assert_eq!(parse_yes_no("\n"), None);
}

#[test]
fn messages_speak_their_language() {
    let en = Messages::new(UiLanguage::En);
    let zh = Messages::new(UiLanguage::ZhHans);
    assert_eq!(en.added_account("a@b"), "Added a@b");
    assert_eq!(zh.added_account("a@b"), "已添加 a@b");
    assert_eq!(
        en.repo_pull_completed("r", 12),
        "Overwrote the local account pool with 12 account(s) from r"
    );
    assert_eq!(
        zh.repo_pull_completed("r", 0),
        "已用 r 的账号池覆盖本地，共 0 个账号"
    );
    assert_eq!(
        en.login_autofill_prompt("u", Some("c")),
        "Device URL: u\nOne-time code: c"
    );
    assert_eq!(zh.login_autofill_prompt("u", None), "设备授权链接：u");
    assert_eq!(en.table_headers()[6], "ResetOn");
    assert_eq!(zh.table_headers()[0], "当前");
    assert!(en.codex_login_failed(-1).ends_with("-1"));
}

#[test]
fn errors_are_shown_with_their_causes() {
    let en = Messages::new(UiLanguage::En);
    let zh = Messages::new(UiLanguage::ZhHans);
    assert_eq!(format_top_level_error(&en, &vec![]), "Error");
    assert_eq!(
        format_top_level_error(&en, &vec!["outer".into(), "inner".into()]),
        "Error: outer: inner"
    );
    assert_eq!(
        format_top_level_error(&zh, &vec!["outer".into()]),
        "错误: outer"
    );
}
