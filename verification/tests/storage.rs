//! Where the state is kept, and how it is repaired.

use scodex::paths::{is_absolute_path, join_path, Platform};
use scodex::state::{AccountRecord, State};
use scodex::storage::{
    default_state_dir, default_state_dir_for_home, ensure_exists, expand_user_path,
    is_old_binary, load_state, migrate_old_binaries, normalize_state_account_paths,
    old_binary_paths, resolve_state_dir, state_file_paths, OldFile, PathFacts,
};

#[test]
fn default_state_dir_prefers_home_hidden_directory() {
    assert_eq!(
        default_state_dir_for_home(Platform::Other, Some("/tmp/home"), "/tmp/data"),
        "/tmp/home/.scodex"
    );
}

#[test]
fn default_state_dir_falls_back_to_data_directory_without_home() {
    assert_eq!(
        default_state_dir_for_home(Platform::Other, None, "/tmp/data"),
        "/tmp/data/scodex"
    );
}

#[test]
fn the_state_directory_is_resolved_in_order() {
    let resolve = |flag: Option<&str>, env: Option<&str>| {
        resolve_state_dir(Platform::Other, flag, env, Some("/h"), None, Some("/cwd"))
    };
    assert_eq!(resolve(Some("~/s"), Some("/e")).unwrap(), "/h/s");
    assert_eq!(resolve(None, Some("e")).unwrap(), "/cwd/e");
    assert_eq!(resolve(None, None).unwrap(), "/h/.scodex");
    assert_eq!(default_state_dir(Platform::Other, None, Some("/d")).unwrap(), "/d/scodex");
    assert_eq!(
        default_state_dir(Platform::Other, None, None).err().unwrap(),
        "unable to resolve base directories for current user"
    );
}

#[test]
fn paths_of_the_user_are_expanded() {
    assert_eq!(expand_user_path(Platform::Other, "~", Some("/h"), None), "/h");
    assert_eq!(expand_user_path(Platform::Other, "~/a/b", Some("/h"), None), "/h/a/b");
    assert_eq!(expand_user_path(Platform::Other, "~", None, Some("/cwd")), "/cwd/~");
    assert_eq!(expand_user_path(Platform::Other, "~user", Some("/h"), Some("/cwd")), "/cwd/~user");
    assert_eq!(expand_user_path(Platform::Other, "/abs", Some("/h"), None), "/abs");
    assert_eq!(expand_user_path(Platform::Other, "rel", Some("/h"), None), "./rel");
}

#[test]
fn missing_files_are_named() {
    assert!(ensure_exists("/p", true, "auth.json").is_ok());
    assert_eq!(
        ensure_exists("/p", false, "auth.json").err().unwrap(),
        "auth.json not found: /p"
    );
    assert_eq!(
        state_file_paths(Platform::Other, "/s"),
        ("/s/state.json".to_string(), "/s/.state.json.tmp".to_string())
    );
}

fn facts(auth_exists: bool, config_exists: bool, recorded_config_exists: bool) -> PathFacts {
    PathFacts {
        auth_exists,
        config_exists,
        recorded_config_exists,
    }
}

#[test]
fn paths_of_accounts_are_repaired() {
    let mut state = State::default();
    for id in ["a", "b", "c"] {
        state.accounts.push(AccountRecord {
            id: id.into(),
            auth_path: format!("/old/{id}/auth.json"),
            config_path: Some(format!("/old/{id}/config.toml")),
            ..AccountRecord::default()
        });
    }
    let facts = vec![
        facts(true, true, false),
        facts(false, false, true),
        facts(false, false, false),
    ];
    let state = load_state(Platform::Other, "/s", Some(state), &facts);
    assert_eq!(state.accounts[0].auth_path, "/s/accounts/a/auth.json");
    assert_eq!(
        state.accounts[0].config_path.as_deref(),
        Some("/s/accounts/a/config.toml")
    );
    assert_eq!(state.accounts[1].auth_path, "/old/b/auth.json");
    assert_eq!(
        state.accounts[1].config_path.as_deref(),
        Some("/old/b/config.toml")
    );
    assert_eq!(state.accounts[2].config_path, None);
    let mut state = state;
    assert!(!normalize_state_account_paths(Platform::Other, "/s", &mut state, &facts));
    assert!(load_state(Platform::Other, "/s", None, &vec![]).accounts.is_empty());
}

#[test]
fn only_programs_of_earlier_versions_are_deleted() {
    let old = OldFile {
        found: true,
        contents: None,
    };
    let shim = OldFile {
        found: true,
        contents: Some("exec \"$SCODEX_HOME/bin/scodex\"".into()),
    };
    let absent = OldFile {
        found: false,
        contents: None,
    };
    assert_eq!(migrate_old_binaries(&old, &shim), (true, false));
    assert_eq!(migrate_old_binaries(&absent, &old), (false, true));
    assert!(is_old_binary(Some("#!/bin/sh")));
    assert_eq!(
        old_binary_paths(Platform::Other, "/h"),
        (
            "/h/.local/bin/scodex".to_string(),
            "/h/.local/bin/auto-codex".to_string()
        )
    );
}

#[test]
fn absolute_paths_are_taken_as_they_are() {
    let resolved = |platform: Platform, flag: Option<&str>, env: Option<&str>| {
        resolve_state_dir(platform, flag, env, Some("/h"), None, Some("C:\\cwd")).unwrap()
    };
    assert_eq!(resolved(Platform::Windows, Some("C:\\s"), Some("D:\\e")), "C:\\s");
    assert_eq!(resolved(Platform::Windows, None, Some("D:/e")), "D:/e");
    assert_eq!(
        resolved(Platform::Windows, Some("\\\\server\\share\\s"), None),
        "\\\\server\\share\\s"
    );
    assert_eq!(resolved(Platform::Windows, Some("s"), None), "C:\\cwd\\s");
    assert_eq!(resolved(Platform::Windows, Some("\\s"), None), "C:\\s");
    assert_eq!(resolved(Platform::Windows, Some("D:s"), None), "D:s");
    assert_eq!(resolved(Platform::Other, Some("/s"), Some("/e")), "/s");
    assert_eq!(resolved(Platform::MacOs, None, Some("/e")), "/e");
    assert_eq!(resolved(Platform::Other, Some("C:\\s"), None), "C:\\cwd/C:\\s");
}

#[test]
fn parts_are_joined_as_each_platform_does() {
    let windows = |base: &str, part: &str| join_path(Platform::Windows, base, part);
    assert_eq!(windows("C:", "a"), "C:a");
    assert_eq!(windows("C:\\", "a"), "C:\\a");
    assert_eq!(windows("C:/x", "a"), "C:/x\\a");
    assert_eq!(windows("\\\\h\\s\\x", "/a"), "\\\\h\\s/a");
    assert_eq!(windows("", "a"), "a");
    assert_eq!(windows("x", ""), "x\\");
    assert_eq!(join_path(Platform::Other, "/x\\", "a"), "/x\\/a");
    assert!(!is_absolute_path(Platform::Windows, "/a"));
    assert!(!is_absolute_path(Platform::Windows, "C:a"));
    assert!(!is_absolute_path(Platform::Windows, "\\\\h"));
    assert!(is_absolute_path(Platform::Windows, "c:\\a"));
    assert!(!is_absolute_path(Platform::Other, ""));
}
