//! The commands, step by step.

use scodex::account::ApiLoginRequest;
use scodex::cli::{
    build_api_login_request, build_autofill_request, codex_launch_args, command_or_launch,
    configured_repo_from_env, persist_repo_from_cli, print_selection, resolve_repo_for_sync,
    resolve_repo_source, run, Action, AddArgs, ApiArgs, AutoArgs, Command, DeployArgs,
    ImportAuthArgs, LaunchArgs, LoginArgs, LoginKind, RepoSyncArgs, RmArgs, RunContext, RunEvent,
    UpdateArgs, UpdateOutcome, UseArgs,
};
use scodex::state::{AccountRecord, AccountType, State, UsageSnapshot};
use scodex::ui::{Messages, UiLanguage};

fn en() -> Messages {
    Messages::new(UiLanguage::En)
}

fn context() -> RunContext {
    RunContext {
        interactive: true,
        env_repo: None,
        windows: false,
    }
}

fn go(command: &Command, state: &State, event: RunEvent) -> Vec<Action> {
    run(&en(), command, state, &context(), event).unwrap()
}

/// The actions in short: what is said stands for itself.
fn short(actions: &[Action]) -> Vec<String> {
    actions
        .iter()
        .map(|action| match action {
            Action::Say(line) => format!("say {line}"),
            Action::Ask(question) => format!("ask {question}"),
            Action::Save => "save".into(),
            Action::Switch(account) => format!("switch {}", account.id),
            Action::RefreshUsage(account) => format!("usage {}", account.id),
            Action::Remove(id) => format!("remove {id}"),
            Action::Remember(repo) => format!("remember {repo}"),
            Action::Finish(code) => format!("finish {code}"),
            Action::ImportKnown => "import".into(),
            Action::RefreshAll => "refresh".into(),
            Action::ShowAccounts => "show".into(),
            other => format!("{other:?}"),
        })
        .collect()
}

fn account(id: &str, email: &str) -> AccountRecord {
    AccountRecord {
        id: id.into(),
        email: email.into(),
        ..AccountRecord::default()
    }
}

fn one_account() -> State {
    let mut state = State::default();
    state.accounts.push(account("a", "a@x"));
    state.usage_cache.insert(
        "a".into(),
        UsageSnapshot {
            five_hour_remaining_percent: Some(80),
            weekly_remaining_percent: Some(7),
            ..UsageSnapshot::default()
        },
    );
    state
}

fn launch(dry_run: bool, no_launch: bool) -> Command {
    Command::Launch(LaunchArgs {
        no_import_known: true,
        no_login: false,
        dry_run,
        no_resume: true,
        no_launch,
        extra_args: vec!["x".into()],
    })
}

fn api_args(token: &str) -> ApiArgs {
    ApiArgs {
        api: true,
        api_token: Some(token.into()),
        base_url: Some(" https://example.com/v1 ".into()),
        provider: Some("OpenRouter".into()),
    }
}

#[test]
fn api_launch_disables_response_storage_and_apps() {
    let args = codex_launch_args(AccountType::Api, &vec!["--model=test".into()]);
    assert_eq!(
        args,
        [
            "--model=test",
            "-c",
            "disable_response_storage=true",
            "--disable",
            "apps",
        ]
    );
}

#[test]
fn subscription_launch_keeps_arguments_unchanged() {
    let args = codex_launch_args(AccountType::Subscription, &vec!["--model=test".into()]);
    assert_eq!(args, ["--model=test"]);
}

#[test]
fn repo_source_prefers_cli_over_env_and_state() {
    assert_eq!(
        resolve_repo_source(
            Some("git@cli.example:pool.git"),
            Some("git@env.example:pool.git"),
            Some("git@state.example:pool.git")
        ),
        Some("git@cli.example:pool.git")
    );
}

#[test]
fn repo_source_prefers_env_over_state_when_cli_missing() {
    assert_eq!(
        resolve_repo_source(
            None,
            Some("git@env.example:pool.git"),
            Some("git@state.example:pool.git")
        ),
        Some("git@env.example:pool.git")
    );
}

#[test]
fn repo_source_uses_state_when_cli_and_env_missing() {
    assert_eq!(
        resolve_repo_source(None, None, Some("git@state.example:pool.git")),
        Some("git@state.example:pool.git")
    );
}

#[test]
fn repo_source_ignores_blank_values() {
    assert_eq!(resolve_repo_source(Some("  "), Some(""), Some("   ")), None);
}

#[test]
fn the_repository_of_the_command_line_is_remembered() {
    let mut state = State::default();
    assert_eq!(
        configured_repo_from_env(Some(" r ")).as_deref(),
        Some("r")
    );
    assert_eq!(configured_repo_from_env(Some(" ")), None);
    assert_eq!(
        resolve_repo_for_sync(Some(" r "), Some("e"), &state, &en()).unwrap(),
        ("r".to_string(), true)
    );
    assert_eq!(
        resolve_repo_for_sync(None, Some("e"), &state, &en()).unwrap(),
        ("e".to_string(), false)
    );
    assert!(resolve_repo_for_sync(None, None, &state, &en())
        .err()
        .unwrap()
        .contains("SCODEX_POOL_REPO"));
    assert!(!persist_repo_from_cli(&mut state, "r", false));
    assert_eq!(state.repo_sync.pool_repo, None);
    assert!(persist_repo_from_cli(&mut state, "r", true));
    assert!(!persist_repo_from_cli(&mut state, "r", true));
    assert_eq!(state.repo_sync.pool_repo.as_deref(), Some("r"));
    assert_eq!(
        resolve_repo_for_sync(None, None, &state, &en()).unwrap(),
        ("r".to_string(), false)
    );
}

#[test]
fn logins_need_their_credentials() {
    let ui = en();
    let request = build_api_login_request(&api_args(" sk-12345678 "), &ui).unwrap();
    assert_eq!(request.api_token, "sk-12345678");
    assert_eq!(request.base_url, "https://example.com/v1");
    assert_eq!(request.provider, "openrouter");
    assert_eq!(
        build_api_login_request(&api_args("sk-1234567"), &ui)
            .err()
            .unwrap(),
        ui.login_api_missing_credentials()
    );
    let mut missing = api_args("sk-12345678");
    missing.provider = Some(" ".into());
    assert!(build_api_login_request(&missing, &ui).is_err());
    missing.provider = None;
    assert!(build_api_login_request(&missing, &ui).is_err());

    let login = |api: bool, username: Option<&str>, password: Option<&str>| LoginArgs {
        api_args: ApiArgs {
            api,
            api_token: None,
            base_url: None,
            provider: None,
        },
        oauth: true,
        username: username.map(Into::into),
        password: password.map(Into::into),
    };
    let request = build_autofill_request(&login(false, Some(" a@x "), Some(" p ")), &ui).unwrap();
    assert_eq!(request.email, "a@x");
    assert_eq!(request.password, " p ");
    assert_eq!(
        build_autofill_request(&login(true, Some("a"), Some("p")), &ui)
            .err()
            .unwrap(),
        ui.login_mode_conflict()
    );
    for (username, password) in [(Some(" "), Some("p")), (Some("a"), Some("")), (None, None)] {
        assert_eq!(
            build_autofill_request(&login(false, username, password), &ui)
                .err()
                .unwrap(),
            ui.login_autofill_missing_credentials()
        );
    }
}

#[test]
fn without_a_command_a_session_is_started() {
    match command_or_launch(None) {
        Command::Launch(args) => {
            assert!(!args.dry_run && !args.no_launch && args.extra_args.is_empty());
        }
        _ => panic!("a launch is expected"),
    }
    assert!(matches!(
        command_or_launch(Some(Command::List)),
        Command::List
    ));
}

#[test]
fn a_launch_selects_says_saves_and_starts() {
    let state = one_account();
    let first = go(&launch(false, false), &state, RunEvent::Started);
    match &first[..] {
        [Action::Select(options)] => {
            assert!(options.no_import_known && !options.no_login && options.perform_switch);
        }
        _ => panic!("a selection is expected"),
    }
    let usage = state.usage_cache.usage_of("a");
    let selection = || {
        RunEvent::Selected(Some((
            AccountRecord {
                account_type: AccountType::Api,
                ..account("a", "a@x")
            },
            usage.clone(),
        )))
    };
    let actions = go(&launch(false, false), &state, selection());
    assert_eq!(
        short(&actions[..2]),
        vec![
            format!(
                "say {} a@x [weekly=7%, 5h=80%]",
                en().selection_switched()
            ),
            "save".to_string()
        ]
    );
    match &actions[2] {
        Action::Launch { args, resume } => {
            assert_eq!(args.len(), 5);
            assert!(!resume);
        }
        _ => panic!("a session is expected"),
    }
    assert_eq!(
        short(&go(&launch(false, false), &state, RunEvent::Ended(7))),
        vec!["finish 7"]
    );
    let dry = go(&launch(true, false), &state, selection());
    assert_eq!(short(&dry)[2], "finish 0");
    assert!(short(&dry)[0].starts_with(&format!("say {}", en().selection_would_select())));
    assert!(matches!(
        go(&launch(true, false), &state, RunEvent::Started)[..],
        [Action::Select(options)] if !options.perform_switch
    ));
    assert_eq!(
        short(&go(&launch(false, true), &state, selection()))[2],
        "finish 0"
    );
    assert_eq!(
        short(&go(&launch(false, false), &state, RunEvent::Selected(None))),
        vec![
            format!("say {}", en().no_usable_account()),
            "save".into(),
            "finish 1".into()
        ]
    );
    let auto = Command::Auto(AutoArgs {
        no_import_known: false,
        no_login: false,
        dry_run: false,
    });
    assert_eq!(short(&go(&auto, &state, selection()))[2], "finish 0");
    let other = Command::Passthrough(vec!["--version".into()]);
    assert!(matches!(
        &go(&other, &state, selection())[2],
        Action::Passthrough(args) if args[..] == ["--version"]
    ));
}

#[test]
fn an_added_account_is_always_switched_to() {
    let ui = en();
    let state = State::default();
    let add = Command::Add(AddArgs {
        api_args: api_args("sk-12345678"),
        switch: false,
    });
    assert!(matches!(
        &go(&add, &state, RunEvent::Started)[..],
        [Action::LogIn(LoginKind::ApiKey(ApiLoginRequest { provider, .. }))] if provider == "openrouter"
    ));
    assert_eq!(
        short(&go(&add, &state, RunEvent::LoggedIn(account("n", "n@x")))),
        vec!["usage n"]
    );
    assert_eq!(
        short(&go(
            &add,
            &state,
            RunEvent::RefreshedUsage(account("n", "n@x"), UsageSnapshot::default())
        )),
        vec![
            "say Added n@x".to_string(),
            "switch n".into(),
            format!(
                "say {} n@x [weekly=N/A, 5h=N/A]",
                ui.selection_switched()
            ),
            "save".into(),
            "finish 0".into()
        ]
    );
    let short_token = Command::Add(AddArgs {
        api_args: api_args("sk-1"),
        switch: true,
    });
    assert!(run(&ui, &short_token, &state, &context(), RunEvent::Started).is_err());
}

#[test]
fn an_account_is_used_by_its_email() {
    let state = one_account();
    let named = |email: &str| {
        Command::Use(UseArgs {
            email: email.into(),
        })
    };
    assert_eq!(
        short(&go(&named("A@X"), &state, RunEvent::Started)),
        vec!["import"]
    );
    let actions = go(&named("A@X"), &state, RunEvent::ImportedKnown(vec![]));
    assert_eq!(
        short(&actions),
        vec![
            "switch a".to_string(),
            format!(
                "say {} a@x [weekly=7%, 5h=80%]",
                en().selection_switched()
            ),
            "save".into(),
            "finish 0".into()
        ]
    );
    assert_eq!(
        short(&go(&named("b@x"), &state, RunEvent::ImportedKnown(vec![]))),
        vec![
            "say Unknown account: b@x".to_string(),
            "save".into(),
            "finish 1".into()
        ]
    );
}

#[test]
fn an_api_account_is_used_by_its_label_and_removed_by_its_email() {
    let ui = en();
    let mut state = State::default();
    state.accounts.push(AccountRecord {
        id: "a".into(),
        account_type: AccountType::Api,
        email: "56wxyz@openrouter".into(),
        api_provider: Some("openrouter".into()),
        api_token_label: Some("sk-abcd-wxyz".into()),
        ..Default::default()
    });
    let using = |name: &str| Command::Use(UseArgs { email: name.into() });
    let removing = |name: &str| {
        Command::Rm(RmArgs {
            assume_yes: true,
            email: name.into(),
        })
    };
    let first = |command: &Command| {
        short(&go(command, &state, RunEvent::ImportedKnown(vec![])))
            .first()
            .cloned()
            .unwrap()
    };
    let label = "sk-abcd-wxyz@openrouter";
    let unknown = format!("say {}", ui.unknown_account(label));
    assert_eq!(first(&using(label)), first(&using("56wxyz@openrouter")));
    assert_ne!(first(&using(label)), unknown);
    assert_eq!(first(&removing(" 56WXYZ@openrouter ")), "remove a");
    assert_eq!(first(&removing(label)), unknown);
    let answered = go(&removing(label), &state, RunEvent::Answered("y".into()));
    assert_eq!(short(&answered)[0], unknown);
}

#[test]
fn an_account_is_removed_only_after_a_yes() {
    let ui = en();
    let state = one_account();
    let remove = |assume_yes: bool| {
        Command::Rm(RmArgs {
            assume_yes,
            email: "a@x".into(),
        })
    };
    let removal = vec![
        "remove a".to_string(),
        "save".into(),
        format!("say {}", ui.removed_account("a@x")),
        "finish 0".into(),
    ];
    assert_eq!(
        short(&go(&remove(true), &state, RunEvent::ImportedKnown(vec![]))),
        removal
    );
    assert_eq!(
        short(&go(&remove(false), &state, RunEvent::ImportedKnown(vec![]))),
        vec![format!("ask {}", ui.confirm_rm("a@x"))]
    );
    let answer = |line: &str| {
        short(&go(
            &remove(false),
            &state,
            RunEvent::Answered(line.into()),
        ))
    };
    assert_eq!(answer("y\n"), removal);
    assert_eq!(
        answer("no"),
        vec![format!("say {}", ui.rm_cancelled()), "finish 0".into()]
    );
    assert_eq!(
        answer("what"),
        vec![
            format!("say {}", ui.invalid_yes_no()),
            format!("ask {}", ui.confirm_rm("a@x"))
        ]
    );
    let alone = RunContext {
        interactive: false,
        ..context()
    };
    let actions = run(
        &ui,
        &remove(false),
        &state,
        &alone,
        RunEvent::ImportedKnown(vec![]),
    )
    .unwrap();
    assert_eq!(
        short(&actions),
        vec![format!("say {}", ui.rm_requires_tty()), "finish 1".into()]
    );
}

#[test]
fn what_was_imported_is_said() {
    let ui = en();
    let state = State::default();
    assert_eq!(
        short(&go(
            &Command::ImportKnown,
            &state,
            RunEvent::ImportedKnown(vec![])
        )),
        vec![
            format!("say {}", ui.no_importable_accounts()),
            "save".into(),
            "finish 1".into()
        ]
    );
    assert_eq!(
        short(&go(
            &Command::ImportKnown,
            &state,
            RunEvent::ImportedKnown(vec![account("a", "a@x"), account("b", "b@x")])
        )),
        vec![
            "save".to_string(),
            format!("say {}", ui.imported_account("a@x", "a")),
            format!("say {}", ui.imported_account("b@x", "b")),
            "finish 0".into()
        ]
    );
    let import = Command::ImportAuth(ImportAuthArgs { path: "/p".into() });
    assert!(matches!(
        &go(&import, &state, RunEvent::Started)[..],
        [Action::ImportAuth(path)] if path == "/p"
    ));
    assert_eq!(
        short(&go(
            &import,
            &state,
            RunEvent::ImportedAuth(account("a", "a@x"))
        )),
        vec![
            "save".to_string(),
            format!("say {}", ui.imported_account("a@x", "a")),
            "finish 0".into()
        ]
    );
}

fn sync_args(repo: Option<&str>) -> RepoSyncArgs {
    RepoSyncArgs {
        path: None,
        identity_file: Some("/id".into()),
        repo: repo.map(Into::into),
    }
}

#[test]
fn the_pool_is_pushed_and_pulled() {
    let ui = en();
    let mut state = State::default();
    let push = Command::Push(sync_args(Some(" r ")));
    let actions = go(&push, &state, RunEvent::Started);
    assert_eq!(short(&actions[..2]), vec!["remember r", "save"]);
    assert!(matches!(
        &actions[2],
        Action::Push { repo, identity_file, .. } if repo == "r" && identity_file.as_deref() == Some("/id")
    ));
    state.repo_sync.pool_repo = Some("r".into());
    assert_eq!(go(&push, &state, RunEvent::Started).len(), 1);
    assert_eq!(
        short(&go(
            &push,
            &state,
            RunEvent::Pushed {
                changed: true,
                accounts: 3
            }
        )),
        vec![
            format!("say {}", ui.repo_push_completed("r", 3)),
            "finish 0".into()
        ]
    );
    assert_eq!(
        short(&go(
            &push,
            &state,
            RunEvent::Pushed {
                changed: false,
                accounts: 3
            }
        ))[0],
        format!("say {}", ui.repo_push_no_changes("r"))
    );
    let pull = Command::Pull(sync_args(None));
    assert!(matches!(
        &go(&pull, &state, RunEvent::Started)[..],
        [Action::Pull { repo, .. }] if repo == "r"
    ));
    assert_eq!(
        short(&go(&pull, &state, RunEvent::Pulled { accounts: 2 })),
        vec![
            "save".to_string(),
            format!("say {}", ui.repo_pull_completed("r", 2)),
            "refresh".into(),
            "save".into(),
            "show".into(),
            "finish 0".into()
        ]
    );
    assert!(run(
        &ui,
        &pull,
        &State::default(),
        &context(),
        RunEvent::Started
    )
    .is_err());
}

#[test]
fn lists_updates_and_deployments_run_through() {
    let ui = en();
    let state = one_account();
    assert_eq!(
        short(&go(&Command::List, &state, RunEvent::Started)),
        vec!["refresh", "save", "show", "finish 0"]
    );
    assert_eq!(
        short(&go(&Command::Refresh, &state, RunEvent::Started)),
        vec![
            "refresh".to_string(),
            "save".into(),
            "show".into(),
            format!("say {}", ui.refreshed_accounts(1)),
            "finish 0".into()
        ]
    );
    let deploy = Command::Deploy(DeployArgs {
        identity_file: None,
        target: "h:/d".into(),
    });
    let actions = go(&deploy, &state, RunEvent::Started);
    assert!(matches!(&actions[0], Action::Deploy { target, .. } if target == "h:/d"));
    assert_eq!(short(&actions[1..]), vec!["finish 0"]);
    let update = Command::Update(UpdateArgs { force: true });
    assert!(matches!(
        go(&update, &state, RunEvent::Started)[..],
        [Action::SelfUpdate(true)]
    ));
    let outcome = |updated: bool| {
        RunEvent::Updated(UpdateOutcome {
            updated,
            previous_version: "1".into(),
            installed_version: "2".into(),
            executable_path: "/bin/scodex".into(),
        })
    };
    assert_eq!(
        short(&go(&update, &state, outcome(false)))[0],
        format!("say {}", ui.update_already_current("2", "/bin/scodex"))
    );
    assert_eq!(
        short(&go(&update, &state, outcome(true))),
        vec![
            format!("say {}", ui.update_completed("1", "2", "/bin/scodex")),
            "finish 0".into()
        ]
    );
    let windows = RunContext {
        windows: true,
        ..context()
    };
    let actions = run(&ui, &update, &state, &windows, outcome(true)).unwrap();
    assert_eq!(
        short(&actions)[1],
        format!("say {}", ui.restart_terminal_hint())
    );
    assert!(go(&Command::List, &state, RunEvent::Ended(0)).is_empty());
}

#[test]
fn a_selection_is_said_in_one_line() {
    let line = print_selection(
        &en(),
        "->",
        &account("a", "a@x"),
        &UsageSnapshot {
            weekly_remaining_percent: Some(100),
            ..UsageSnapshot::default()
        },
    );
    assert_eq!(line, "-> a@x [weekly=100%, 5h=N/A]");
}
