//! Selecting an account, step by step.

use scodex::adapter::CodexAdapter;
use scodex::engine::{
    begin_selection, ensure_best_account, refresh_all_accounts, SelectEvent, SelectOptions,
    SelectStep,
};
use scodex::state::{AccountRecord, AccountType, LiveIdentity, State, UsageSnapshot};
use scodex::usage::rank_by_quota;

fn options(perform_switch: bool) -> SelectOptions {
    SelectOptions {
        no_import_known: false,
        no_login: false,
        perform_switch,
    }
}

fn usage(five: i64, weekly: i64) -> UsageSnapshot {
    UsageSnapshot {
        five_hour_remaining_percent: Some(five),
        weekly_remaining_percent: Some(weekly),
        last_synced_at: Some(1),
        rank_input: rank_by_quota(Some(five), Some(weekly), 1),
        ..UsageSnapshot::default()
    }
}

fn pool(accounts: &[(&str, i64, i64)]) -> State {
    let mut state = State::default();
    for (email, five, weekly) in accounts {
        state.accounts.push(AccountRecord {
            id: format!("id-{email}"),
            email: (*email).into(),
            ..AccountRecord::default()
        });
        state
            .usage_cache
            .insert(format!("id-{email}"), usage(*five, *weekly));
    }
    state
}

fn live(email: &str) -> LiveIdentity {
    LiveIdentity {
        adapter_id: String::new(),
        email: email.into(),
        account_id: None,
        stable_id: None,
        aliases: Vec::new(),
        payload: "null".into(),
        scodex_account_id: None,
    }
}

fn selected(options: &SelectOptions, state: &State, live: Option<LiveIdentity>) -> Option<String> {
    let adapter = CodexAdapter;
    let mut step = begin_selection(options, state);
    for _ in 0..10 {
        let event = match &step {
            SelectStep::Import => SelectEvent::Imported,
            SelectStep::ReadIdentity => SelectEvent::Identified(live.clone()),
            SelectStep::RefreshAll { .. } => SelectEvent::RefreshedAll,
            SelectStep::LogIn => SelectEvent::LoggedIn(AccountRecord {
                id: "new".into(),
                email: "new@x".into(),
                ..AccountRecord::default()
            }),
            SelectStep::RefreshOne { .. } => SelectEvent::RefreshedOne(usage(50, 50)),
            SelectStep::Switch { .. } => {
                assert!(options.perform_switch);
                SelectEvent::Switched
            }
            SelectStep::Done { selection } => {
                return selection.as_ref().map(|pair| pair.0.email.clone());
            }
        };
        step = adapter.ensure_best_account(options, state, step, event);
    }
    panic!("the selection must end")
}

#[test]
fn the_current_account_is_kept_while_a_fifth_is_left() {
    let state = pool(&[("a@x", 20, 5), ("b@x", 100, 100)]);
    assert_eq!(
        selected(&options(true), &state, Some(live("A@x"))).as_deref(),
        Some("a@x")
    );
    let state = pool(&[("a@x", 19, 100), ("b@x", 90, 10)]);
    assert_eq!(
        selected(&options(false), &state, Some(live("a@x"))).as_deref(),
        Some("b@x")
    );
}

#[test]
fn without_a_current_account_the_best_is_taken() {
    let state = pool(&[("a@x", 60, 5), ("b@x", 60, 6), ("c@x", 59, 100)]);
    assert_eq!(
        selected(&options(true), &state, None).as_deref(),
        Some("b@x")
    );
}

#[test]
fn an_empty_pool_is_filled_by_a_login_unless_told_not_to() {
    let state = State::default();
    assert_eq!(
        selected(&options(true), &state, None).as_deref(),
        Some("new@x")
    );
    let mut without = options(true);
    without.no_login = true;
    assert_eq!(selected(&without, &state, None), None);
    without.no_import_known = true;
    assert!(matches!(
        begin_selection(&without, &state),
        SelectStep::Done { selection: None }
    ));
}

#[test]
fn a_pool_without_a_usable_account_selects_none() {
    let mut state = pool(&[("a@x", 60, 5)]);
    state.usage_cache.insert(
        "id-a@x".into(),
        UsageSnapshot {
            last_sync_error: Some("down".into()),
            ..UsageSnapshot::default()
        },
    );
    assert_eq!(selected(&options(true), &state, Some(live("a@x"))), None);
    let step = ensure_best_account(
        &options(true),
        &state,
        SelectStep::RefreshAll { live: None },
        SelectEvent::RefreshedAll,
    );
    assert!(matches!(step, SelectStep::LogIn));
}

#[test]
fn a_current_api_account_is_kept_without_a_refresh() {
    let mut state = pool(&[("a@x", 1, 1), ("b@x", 90, 90)]);
    state.accounts[0].account_type = AccountType::Api;
    let identity = LiveIdentity {
        scodex_account_id: Some("id-a@x".into()),
        ..live("")
    };
    let step = CodexAdapter.ensure_best_account(
        &options(false),
        &state,
        SelectStep::ReadIdentity,
        SelectEvent::Identified(Some(identity)),
    );
    match step {
        SelectStep::Done {
            selection: Some((record, usage)),
        } => {
            assert_eq!(record.email, "a@x");
            assert_eq!(usage.five_hour_remaining_percent, None);
        }
        _ => panic!("the account must be kept"),
    }
}

#[test]
fn an_event_that_does_not_fit_changes_nothing() {
    let state = pool(&[("a@x", 60, 5)]);
    let step = CodexAdapter.ensure_best_account(
        &options(true),
        &state,
        SelectStep::Import,
        SelectEvent::Switched,
    );
    assert!(matches!(step, SelectStep::Import));
}

#[test]
fn refreshing_all_accounts_replaces_their_usage() {
    let mut state = pool(&[("a@x", 1, 1), ("b@x", 2, 2)]);
    state.accounts[1].account_type = AccountType::Api;
    refresh_all_accounts(
        &CodexAdapter,
        &mut state,
        &vec![usage(70, 70), usage(80, 80)],
    );
    assert_eq!(
        state
            .usage_cache
            .get("id-a@x")
            .unwrap()
            .five_hour_remaining_percent,
        Some(70)
    );
    assert!(state.usage_cache.get("id-b@x").is_none());
}

#[test]
fn api_accounts_are_never_chosen() {
    let mut state = pool(&[("a@x", 100, 100), ("b@x", 30, 30)]);
    state.accounts[0].account_type = AccountType::Api;
    let fetched = vec![usage(100, 100), usage(30, 30)];
    refresh_all_accounts(&CodexAdapter, &mut state, &fetched);
    assert_eq!(
        selected(&options(true), &state, None).as_deref(),
        Some("b@x")
    );
}

#[test]
fn a_filled_pool_starts_no_login() {
    let mut state = pool(&[("a@x", 60, 5)]);
    state
        .usage_cache
        .insert("id-a@x".into(), UsageSnapshot::default());
    let step = CodexAdapter.ensure_best_account(
        &options(true),
        &state,
        SelectStep::RefreshAll { live: None },
        SelectEvent::RefreshedAll,
    );
    assert!(matches!(step, SelectStep::Done { selection: None }));
}
