//! Copying credentials to another machine.

use scodex::adapter::CodexAdapter;
use scodex::deploy::{
    control_paths, identity_arg, normalize_remote_auth_file, parse_remote_deploy_target,
    remote_parent_dir, shell_single_quote, with_ssh_master_connection, CommandEnd, DeployAction, DeployFacts,
    DeployFailure, DeployPlan, DeployState, SshMasterConnection,
};
use scodex::paths::Platform;
use scodex::ui::{Messages, UiLanguage};

fn en() -> Messages {
    Messages::new(UiLanguage::En)
}

#[test]
fn deploy_target_directory_appends_auth_json() {
    let target = parse_remote_deploy_target(&en(), "user@example.com:/srv/codex").unwrap();
    assert_eq!(target.host, "user@example.com");
    assert_eq!(target.remote_dir, "/srv/codex");
    assert_eq!(target.remote_file, "/srv/codex/auth.json");
}

#[test]
fn deploy_target_exact_file_is_preserved() {
    let target = parse_remote_deploy_target(&en(), "root@host:/srv/codex/auth.json").unwrap();
    assert_eq!(target.remote_dir, "/srv/codex");
    assert_eq!(target.remote_file, "/srv/codex/auth.json");
}

#[test]
fn deploy_target_helpers_handle_relative_paths() {
    assert_eq!(
        normalize_remote_auth_file("codex-home"),
        "codex-home/auth.json"
    );
    assert_eq!(normalize_remote_auth_file("auth.json"), "auth.json");
    assert_eq!(remote_parent_dir("auth.json"), ".");
}

#[test]
fn the_edges_of_remote_paths_are_handled() {
    assert_eq!(normalize_remote_auth_file("/"), "/auth.json");
    assert_eq!(normalize_remote_auth_file(" /srv// "), "/srv/auth.json");
    assert_eq!(normalize_remote_auth_file("///"), "/auth.json");
    assert_eq!(normalize_remote_auth_file(" "), "auth.json");
    assert_eq!(remote_parent_dir("/auth.json"), "/");
    let root = parse_remote_deploy_target(&en(), "h:/").unwrap();
    assert_eq!(root.remote_file, "/auth.json");
    assert_eq!(root.remote_dir, "/");
    assert_eq!(remote_parent_dir("a/b/auth.json"), "a/b");
    for target in ["no-colon", ":/path", "host:", "host:  "] {
        let error = parse_remote_deploy_target(&en(), target).err().unwrap();
        assert_eq!(
            error,
            format!("Invalid remote target: {target}. Use user@host:/target_path")
        );
    }
    assert_eq!(
        parse_remote_deploy_target(&en(), "h:a:b").unwrap().remote_file,
        "a:b/auth.json"
    );
}

#[test]
fn paths_are_quoted_for_the_shell() {
    assert_eq!(shell_single_quote("/a b"), "'/a b'");
    assert_eq!(shell_single_quote("it's"), "'it'\"'\"'s'");
    assert_eq!(shell_single_quote(""), "''");
    let target = parse_remote_deploy_target(&en(), "h:/a b").unwrap();
    assert_eq!(target.display_target(), "h:/a b/auth.json");
    assert_eq!(target.scp_destination(), "h:'/a b/auth.json'");
    assert_eq!(target.prepare_command(), "mkdir -p '/a b'");
}

#[test]
fn commands_share_a_connection_where_it_was_opened() {
    let target = parse_remote_deploy_target(&en(), "h:/d").unwrap();
    let master = SshMasterConnection {
        host: "h".into(),
        control_path: "/tmp/mux".into(),
    };
    assert_eq!(
        master.base_args(),
        vec![
            "-o",
            "ControlMaster=auto",
            "-o",
            "ControlPath=/tmp/mux",
            "-o",
            "ControlPersist=60"
        ]
    );
    assert_eq!(master.open_args(Some("/id"))[6..], ["-i", "/id", "-Nf", "h"]);
    assert_eq!(
        master.close(None, true).unwrap()[6..],
        ["-O", "exit", "h"]
    );
    assert!(master.close(None, false).is_none());
    let plain = with_ssh_master_connection(master, false);
    assert!(plain.base_args().is_empty());
    assert!(plain.close(None, true).is_none());
    assert_eq!(
        plain.prepare_args(None, &target),
        vec!["h", "mkdir -p '/d'"]
    );
    assert_eq!(
        plain.copy_args(Some("/id"), "/src", &target),
        vec!["-i", "/id", "/src", "h:'/d/auth.json'"]
    );
    assert!(identity_arg(None).is_empty());
}

fn facts() -> DeployFacts {
    DeployFacts {
        source: "/live/auth.json".into(),
        source_exists: true,
        has_ssh: true,
        has_scp: true,
        identity_file: Some("/id".into()),
        identity_exists: true,
    }
}

#[test]
fn each_reason_not_to_copy_has_its_words() {
    let ui = en();
    let message = |target: &str, facts: &DeployFacts| {
        CodexAdapter
            .deploy_live_auth(&ui, target, facts)
            .err()
            .unwrap()
            .message(&ui)
    };
    assert!(CodexAdapter
        .deploy_live_auth(&ui, "h:/d", &facts())
        .is_ok());
    let mut missing = facts();
    missing.source_exists = false;
    assert_eq!(
        message("h:/d", &missing),
        "Current auth.json not found: /live/auth.json"
    );
    let mut missing = facts();
    missing.has_ssh = false;
    assert!(message("h:/d", &missing).contains("ssh"));
    let mut missing = facts();
    missing.has_scp = false;
    assert!(message("h:/d", &missing).contains("scp"));
    assert!(message("nowhere", &facts()).contains("nowhere"));
    let mut missing = facts();
    missing.identity_exists = false;
    assert_eq!(
        message("h:/d", &missing),
        "SSH identity file not found: /id"
    );
}

fn plan() -> DeployPlan {
    DeployPlan {
        ssh: "/bin/ssh".into(),
        scp: "/bin/scp".into(),
        source: "/live/auth.json".into(),
        identity_file: None,
        control_path: "/tmp/mux".into(),
        remote: parse_remote_deploy_target(&en(), "h:/d").unwrap(),
    }
}

fn ended(success: bool, code: Option<i32>) -> CommandEnd {
    CommandEnd::Ended { success, code }
}

/// The last words of the commands that run when commands end in this way, and the failure.
fn deployed(ends: &[CommandEnd], control_exists: bool) -> (Vec<String>, Option<DeployFailure>) {
    let plan = plan();
    let mut commands = Vec::new();
    let (mut state, mut action) = plan.begin();
    assert_eq!(state, DeployState::Opening);
    let mut ends = ends.iter();
    loop {
        match action {
            DeployAction::Run { program, args } => {
                let shared = args.contains(&"ControlPath=/tmp/mux".to_string());
                commands.push(format!(
                    "{} {} {}",
                    program,
                    if shared { "shared" } else { "alone" },
                    args.last().unwrap()
                ));
                let end = *ends.next().unwrap();
                (state, action) = plan.step(state, end, control_exists);
            }
            DeployAction::Finish(failure) => return (commands, failure),
        }
    }
}

#[test]
fn credentials_are_copied_step_by_step() {
    let ok = ended(true, Some(0));
    let (commands, failure) = deployed(&[ok, ok, ok, ok], true);
    assert_eq!(
        commands,
        vec![
            "/bin/ssh shared h",
            "/bin/ssh shared mkdir -p '/d'",
            "/bin/scp shared h:'/d/auth.json'",
            "/bin/ssh shared h",
        ]
    );
    assert_eq!(failure, None);
    let (commands, failure) = deployed(&[CommandEnd::NotRun, ok, ok], false);
    assert_eq!(
        commands,
        vec![
            "/bin/ssh shared h",
            "/bin/ssh alone mkdir -p '/d'",
            "/bin/scp alone h:'/d/auth.json'",
        ]
    );
    assert_eq!(failure, None);
}

#[test]
fn each_connection_has_a_directory_of_its_own() {
    let (root, control_path) = control_paths(Platform::Other, "/tmp");
    assert!(root.starts_with("/tmp/scodex-ssh-"));
    assert_eq!(root.len(), "/tmp/scodex-ssh-".len() + 36);
    assert_eq!(control_path, format!("{root}/mux"));
    assert_ne!(control_paths(Platform::Other, "/tmp").0, root);
}

#[test]
fn nothing_is_copied_into_a_directory_that_was_not_prepared() {
    let ok = ended(true, Some(0));
    for (end, failure, words) in [
        (
            CommandEnd::NotRun,
            DeployFailure::PrepareNotRun,
            "failed to execute /bin/ssh",
        ),
        (ended(false, Some(255)), DeployFailure::PrepareFailed(255), "255"),
        (ended(false, None), DeployFailure::PrepareFailed(1), " 1"),
    ] {
        let (commands, actual) = deployed(&[ok, end, ok], true);
        assert_eq!(commands.len(), 3);
        assert_eq!(commands[2], "/bin/ssh shared h");
        assert_eq!(actual, Some(failure));
        assert!(plan().failure_message(&en(), failure).ends_with(words));
    }
    for (end, failure, words) in [
        (
            CommandEnd::NotRun,
            DeployFailure::CopyNotRun,
            "failed to execute /bin/scp",
        ),
        (ended(false, Some(2)), DeployFailure::CopyFailed(2), " 2"),
        (ended(false, None), DeployFailure::CopyFailed(1), " 1"),
    ] {
        let (commands, actual) = deployed(&[ok, ok, end, ok], true);
        assert_eq!(commands.len(), 4);
        assert_eq!(commands[3], "/bin/ssh shared h");
        assert_eq!(actual, Some(failure));
        assert!(plan().failure_message(&en(), failure).ends_with(words));
    }
}
