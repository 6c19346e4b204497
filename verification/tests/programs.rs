//! Looking for programs, starting sessions and logging in.

use scodex::adapter::CodexAdapter;
use scodex::login::{
    after_opening, browser_open_command, device_login_args, has_gui_environment,
    requires_gui_hint, tmp_login_home, try_open_signup_page, BrowserOpenOutcome, GuiHints,
    SIGNUP_URL,
};
use scodex::paths::Platform;
use scodex::programs::{
    codex_binary_names, codex_home, codex_home_binary_candidates, codex_install_command,
    find_codex_bin, find_in_path, npm_binary_names, npm_command_name, npm_global_codex_bin,
    scp_binary_names, ssh_binary_names, BinaryStep, InstallAction, InstallEvent,
};
use scodex::session::{
    build_codex_launch_command, has_resumable_session_under, is_resumable_session,
    is_session_file, SessionAction, SessionEvent,
};
use scodex::ui::{Messages, UiLanguage};

fn en() -> Messages {
    Messages::new(UiLanguage::En)
}

fn texts(items: &[&str]) -> Vec<String> {
    items.iter().map(|item| (*item).to_string()).collect()
}

#[test]
fn install_command_uses_official_npm_package() {
    for platform in [Platform::Other, Platform::MacOs, Platform::Windows] {
        let command = codex_install_command(platform);
        assert!(command.program == "npm" || command.program == "npm.cmd");
        assert_eq!(command.args, vec!["install", "-g", "@openai/codex"]);
    }
    assert_eq!(
        codex_install_command(Platform::Other).display(),
        "npm install -g @openai/codex"
    );
}

#[test]
fn programs_have_other_names_on_windows() {
    assert_eq!(npm_command_name(Platform::Windows), "npm.cmd");
    assert_eq!(npm_command_name(Platform::MacOs), "npm");
    assert_eq!(codex_binary_names(Platform::Other), vec!["codex"]);
    assert_eq!(
        codex_binary_names(Platform::Windows),
        vec!["codex.cmd", "codex.exe", "codex.bat", "codex"]
    );
    assert_eq!(ssh_binary_names(Platform::Windows), vec!["ssh.exe", "ssh"]);
    assert_eq!(scp_binary_names(Platform::Other), vec!["scp"]);
    assert_eq!(
        npm_binary_names(Platform::Windows),
        vec!["npm.cmd", "npm.exe", "npm"]
    );
}

#[test]
fn codex_is_looked_for_in_order() {
    assert_eq!(
        find_codex_bin(
            Platform::Other,
            Some("/env/codex"),
            &texts(&["/a", "/b/"]),
            Some("/h")
        ),
        vec!["/env/codex", "/a/codex", "/b/codex", "/h/.local/bin/codex"]
    );
    assert_eq!(
        find_codex_bin(Platform::Windows, None, &texts(&["C:\\a"]), None),
        vec![
            "C:\\a\\codex.cmd",
            "C:\\a\\codex.exe",
            "C:\\a\\codex.bat",
            "C:\\a\\codex"
        ]
    );
    assert_eq!(
        codex_home_binary_candidates(Platform::Windows, "C:\\h"),
        vec![
            "C:\\h\\AppData\\Roaming\\npm\\codex.cmd",
            "C:\\h\\AppData\\Roaming\\npm\\codex.exe"
        ]
    );
    assert_eq!(
        npm_global_codex_bin(Platform::Other, " /usr/local\n"),
        vec!["/usr/local/bin/codex"]
    );
    assert!(npm_global_codex_bin(Platform::Other, "\n").is_empty());
    assert_eq!(find_in_path(Platform::Other, &texts(&["/a"]), "x"), vec!["/a/x"]);
}

#[test]
fn the_directory_of_codex_can_be_set() {
    assert_eq!(codex_home(Platform::Other, Some("/c"), Some("/h")), "/c");
    assert_eq!(codex_home(Platform::Other, None, Some("/h")), "/h/.codex");
    assert_eq!(codex_home(Platform::Other, None, None), ".codex");
}

#[test]
fn codex_is_installed_only_after_a_yes() {
    let ui = en();
    let install = codex_install_command(Platform::Other);
    let ask = CodexAdapter.offer_to_install_codex(
        &ui,
        &install,
        InstallEvent::Started {
            installer_found: true,
            interactive: true,
        },
    );
    assert_eq!(ask.len(), 6);
    assert!(matches!(ask.last(), Some(InstallAction::Ask(_))));
    let yes = CodexAdapter.offer_to_install_codex(
        &ui,
        &install,
        InstallEvent::Answered("Yes\n".into()),
    );
    assert!(matches!(yes[..], [InstallAction::Install]));
    let no =
        CodexAdapter.offer_to_install_codex(&ui, &install, InstallEvent::Answered("n".into()));
    assert!(matches!(no.last(), Some(InstallAction::Exit(1))));
    assert!(
        matches!(&no[2], InstallAction::Warn(line) if line == "npm install -g @openai/codex")
    );
    let again =
        CodexAdapter.offer_to_install_codex(&ui, &install, InstallEvent::Answered("?".into()));
    assert!(matches!(again.last(), Some(InstallAction::Ask(_))));
    for (installer_found, interactive) in [(false, true), (true, false)] {
        let given_up = CodexAdapter.offer_to_install_codex(
            &ui,
            &install,
            InstallEvent::Started {
                installer_found,
                interactive,
            },
        );
        assert!(matches!(given_up.last(), Some(InstallAction::Exit(1))));
    }
    let done = CodexAdapter.offer_to_install_codex(
        &ui,
        &install,
        InstallEvent::Installed {
            success: true,
            status: Some(0),
        },
    );
    assert!(matches!(done[..], [InstallAction::Return]));
    let failed = CodexAdapter.offer_to_install_codex(
        &ui,
        &install,
        InstallEvent::Installed {
            success: false,
            status: None,
        },
    );
    assert!(matches!(&failed[0], InstallAction::Fail(error) if error.ends_with('1')));
}

#[test]
fn a_missing_codex_is_offered_once() {
    let ui = en();
    assert!(matches!(
        CodexAdapter.resolve_codex_bin(&ui, Some("/c".into()), false),
        BinaryStep::Found(path) if path == "/c"
    ));
    assert!(matches!(
        CodexAdapter.resolve_codex_bin(&ui, None, false),
        BinaryStep::Offer
    ));
    assert!(matches!(
        CodexAdapter.resolve_codex_bin(&ui, None, true),
        BinaryStep::Missing(_)
    ));
}

#[test]
fn codex_build_launch_command_adds_resume_and_yolo_when_needed() {
    let command =
        build_codex_launch_command("/usr/bin/codex", &texts(&["exec", "fix it"]), true);
    assert_eq!(command[1], "resume");
    assert_eq!(command[2], "--last");
    assert!(command.iter().any(|arg| arg == "--yolo"));
}

#[test]
fn mod_build_launch_command_adds_resume_and_yolo_when_needed() {
    let command =
        build_codex_launch_command("/usr/bin/codex", &texts(&["exec", "fix it"]), true);
    assert_eq!(
        command,
        vec!["/usr/bin/codex", "resume", "--last", "--yolo", "exec", "fix it"]
    );
    assert_eq!(
        build_codex_launch_command("c", &texts(&["x", "--yolo"]), false),
        vec!["c", "x", "--yolo"]
    );
}

const SESSION_META: &str =
    "{\"type\":\"session_meta\",\"payload\":{\"originator\":\"codex-tui\",\"cwd\":\"/fake/project/path\"}}\r\n";

#[test]
fn codex_detects_resumable_session_from_session_meta() {
    assert!(has_resumable_session_under(
        &texts(&["", "not json\n", SESSION_META]),
        "/fake/project/path"
    ));
}

#[test]
fn mod_detects_resumable_session_from_session_meta() {
    assert!(has_resumable_session_under(
        &texts(&[SESSION_META]),
        "/fake/project/path"
    ));
    assert!(is_resumable_session(SESSION_META, "/fake/project/path"));
}

#[test]
fn has_resumable_session_under_large_file_returns_correct_result() {
    let lines = texts(&[SESSION_META]);
    assert!(has_resumable_session_under(&lines, "/fake/project/path"));
    assert!(!has_resumable_session_under(&lines, "/other/path"));
    assert!(CodexAdapter.has_resumable_session(&lines, Some("/fake/project/path")));
    assert!(!CodexAdapter.has_resumable_session(&lines, None));
}

#[test]
fn other_first_lines_tell_of_no_session() {
    for line in [
        "",
        "\n",
        r#"{"type":"message"}"#,
        r#"{"type":"session_meta"}"#,
        r#"{"type":"session_meta","payload":{"originator":"codex-exec","cwd":"/p"}}"#,
        r#"{"type":"session_meta","payload":{"originator":"codex-tui","cwd":"/q"}}"#,
    ] {
        assert!(!is_resumable_session(line, "/p"));
    }
    assert!(is_session_file("session.jsonl"));
    assert!(!is_session_file("session.json"));
    assert!(!is_session_file(".jsonl"));
}

#[test]
fn a_session_that_cannot_be_resumed_is_started_afresh() {
    let ui = en();
    let args = texts(&["x"]);
    let run = |event: SessionEvent| CodexAdapter.launch_codex(&ui, "c", &args, event);
    let first = run(SessionEvent::Started {
        resume: true,
        has_session: true,
    });
    assert!(
        matches!(&first[1], SessionAction::Resume(command) if command[1..] == ["resume", "--last", "--yolo", "x"])
    );
    let second = run(SessionEvent::Resumed {
        success: false,
        code: Some(3),
    });
    assert!(
        matches!(&second[1], SessionAction::Start(command) if command[1..] == ["--yolo", "x"])
    );
    assert!(matches!(
        run(SessionEvent::Resumed {
            success: true,
            code: None
        })[..],
        [SessionAction::End(0)]
    ));
    assert!(matches!(
        run(SessionEvent::Ended { code: None })[..],
        [SessionAction::End(1)]
    ));
    assert!(matches!(
        run(SessionEvent::Ended { code: Some(7) })[..],
        [SessionAction::End(7)]
    ));
    for (resume, has_session) in [(false, true), (true, false)] {
        let fresh = run(SessionEvent::Started {
            resume,
            has_session,
        });
        assert!(matches!(&fresh[1], SessionAction::Start(_)));
    }
    assert_eq!(
        CodexAdapter.run_passthrough("c", &texts(&["--version"])),
        vec!["c", "--version"]
    );
    assert_eq!(CodexAdapter.exit_code(None), 1);
    assert_eq!(CodexAdapter.sessions_root(Platform::Other, "/h"), "/h/sessions");
}

#[test]
fn a_login_has_a_directory_of_its_own() {
    let (root, first) = tmp_login_home(Platform::Other, "/state");
    let (_, second) = tmp_login_home(Platform::Other, "/state");
    assert_eq!(root, "/state/.tmp");
    assert!(first.starts_with("/state/.tmp/scodex-login-"));
    assert_eq!(first.len(), "/state/.tmp/scodex-login-".len() + 36);
    assert_ne!(first, second);
    assert_eq!(device_login_args(), vec!["login", "--device-auth"]);
}

#[test]
fn a_login_succeeds_only_with_credentials() {
    let ui = en();
    assert!(CodexAdapter
        .run_device_auth_login(&ui, true, Some(0), true)
        .is_ok());
    assert_eq!(
        CodexAdapter
            .run_device_auth_login(&ui, true, Some(0), false)
            .err()
            .as_deref(),
        Some(ui.login_missing_auth())
    );
    assert_eq!(
        CodexAdapter
            .run_device_auth_login(&ui, false, None, true)
            .err(),
        Some(ui.codex_login_failed(1))
    );
    assert!(CodexAdapter
        .run_device_auth_login_autofill(&ui, true)
        .is_ok());
    assert!(CodexAdapter
        .run_device_auth_login_autofill(&ui, false)
        .is_err());
    let lines = CodexAdapter.login_notice(&ui, "10.0.0.1");
    assert_eq!(lines.len(), 4);
    assert!(lines[2].contains("10.0.0.1"));
}

#[test]
fn a_page_is_opened_where_there_is_a_screen() {
    let none = GuiHints {
        display: false,
        wayland_display: false,
        mir_socket: false,
    };
    let wayland = GuiHints {
        wayland_display: true,
        ..none
    };
    assert!(requires_gui_hint(Platform::Other));
    assert!(!requires_gui_hint(Platform::MacOs));
    assert!(has_gui_environment(Platform::Windows, &none));
    assert!(!has_gui_environment(Platform::Other, &none));
    assert_eq!(
        try_open_signup_page(Platform::Other, &none, true, true, SIGNUP_URL),
        Err(BrowserOpenOutcome::NoGui)
    );
    assert_eq!(
        try_open_signup_page(Platform::Other, &wayland, false, false, SIGNUP_URL),
        Err(BrowserOpenOutcome::NoGui)
    );
    assert_eq!(
        try_open_signup_page(Platform::Other, &wayland, false, true, SIGNUP_URL),
        Ok(("gio", texts(&["open", SIGNUP_URL])))
    );
    assert_eq!(
        browser_open_command(Platform::Windows, false, false, "u"),
        Some(("cmd", texts(&["/C", "start", "", "u"])))
    );
    assert_eq!(
        browser_open_command(Platform::MacOs, false, false, "u"),
        Some(("open", texts(&["u"])))
    );
    assert_eq!(
        browser_open_command(Platform::Other, true, true, "u"),
        Some(("xdg-open", texts(&["u"])))
    );
    assert_eq!(after_opening(true), BrowserOpenOutcome::Opened);
    assert_eq!(after_opening(false), BrowserOpenOutcome::Failed);
}
