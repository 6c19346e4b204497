//! Which account is chosen, and which is the current one.

use scodex::policy::{
    choose_best_account, choose_current_account, choose_current_api_account, identity_matches,
    is_ranked_account_usable, keeps_current_account,
};
use scodex::state::{
    AccountRankInput, AccountRecord, AccountType, LiveIdentity, State, UsageCache, UsageSnapshot,
};

fn ranked(keep: i64, selection: i64, freshness: i64) -> UsageSnapshot {
    UsageSnapshot {
        rank_input: Some(AccountRankInput {
            keep_current_priority: keep,
            selection_priority: selection,
            freshness_priority: freshness,
        }),
        ..UsageSnapshot::default()
    }
}

fn codex_account(id: &str, email: &str, updated_at: i64) -> AccountRecord {
    AccountRecord {
        id: id.into(),
        adapter_id: "codex".into(),
        display_key: email.into(),
        email: email.into(),
        updated_at,
        ..AccountRecord::default()
    }
}

fn live(adapter_id: &str, email: &str, account_id: Option<&str>) -> LiveIdentity {
    LiveIdentity {
        adapter_id: adapter_id.into(),
        email: email.into(),
        account_id: account_id.map(Into::into),
        stable_id: account_id.map(Into::into),
        aliases: Vec::new(),
        payload: "null".into(),
        scodex_account_id: None,
    }
}

#[test]
fn choose_best_account_uses_rank_input() {
    let mut usage_cache = UsageCache::new();
    usage_cache.insert("weaker".into(), ranked(1, 10, 1));
    usage_cache.insert("stronger".into(), ranked(1, 20, 1));
    let state = State {
        version: 1,
        accounts: vec![
            codex_account("weaker", "weaker@example.com", 1),
            codex_account("stronger", "stronger@example.com", 1),
        ],
        usage_cache,
        repo_sync: Default::default(),
    };

    assert_eq!(
        choose_best_account(&state).map(|item| item.id.as_str()),
        Some("stronger")
    );
}

#[test]
fn of_equal_accounts_the_first_one_is_best() {
    let mut usage_cache = UsageCache::new();
    for id in ["a", "b", "c"] {
        usage_cache.insert(id.into(), ranked(1, 10, 1));
    }
    let mut state = State {
        version: 1,
        accounts: vec![
            codex_account("a", "x@example.com", 1),
            codex_account("b", "x@example.com", 1),
        ],
        usage_cache,
        repo_sync: Default::default(),
    };
    assert_eq!(
        choose_best_account(&state).map(|item| item.id.as_str()),
        Some("a")
    );
    state.accounts.push(codex_account("c", "x@example.com", 2));
    assert_eq!(
        choose_best_account(&state).map(|item| item.id.as_str()),
        Some("c")
    );
    assert!(choose_best_account(&State::default()).is_none());
}

#[test]
fn choose_current_account_matches_adapter_scoped_identity() {
    let state = State {
        version: 1,
        accounts: vec![AccountRecord {
            id: "acct-1".into(),
            adapter_id: "codex".into(),
            display_key: "user@example.com".into(),
            email: "user@example.com".into(),
            account_id: Some("acct-remote-1".into()),
            ..AccountRecord::default()
        }],
        usage_cache: UsageCache::new(),
        repo_sync: Default::default(),
    };
    let live = live("codex", "user@example.com", Some("acct-remote-1"));

    assert_eq!(
        choose_current_account(&state, Some(&live)).map(|item| item.id.as_str()),
        Some("acct-1")
    );
    assert!(choose_current_account(&state, None).is_none());
}

#[test]
fn identity_match_rejects_different_adapter_ids() {
    let account = codex_account("acct-1", "user@example.com", 0);
    assert!(!identity_matches(
        &account,
        &live("gemini", "user@example.com", None)
    ));
}

#[test]
fn ranked_account_requires_rank_input_and_no_errors() {
    assert!(is_ranked_account_usable(&ranked(1, 1, 1)));
    assert!(!is_ranked_account_usable(&UsageSnapshot {
        last_sync_error: Some("failed".into()),
        ..ranked(1, 1, 1)
    }));
    assert!(!is_ranked_account_usable(&UsageSnapshot::default()));
    assert!(!is_ranked_account_usable(&UsageSnapshot {
        needs_relogin: true,
        ..ranked(1, 1, 1)
    }));
}

#[test]
fn an_account_is_kept_from_twenty_percent_on() {
    let with = |percent: Option<i64>| UsageSnapshot {
        five_hour_remaining_percent: percent,
        ..UsageSnapshot::default()
    };
    assert!(keeps_current_account(&with(Some(20))));
    assert!(!keeps_current_account(&with(Some(19))));
    assert!(!keeps_current_account(&UsageSnapshot {
        last_sync_error: Some("failed".into()),
        ..with(Some(90))
    }));
    assert!(!keeps_current_account(&UsageSnapshot {
        needs_relogin: true,
        ..with(Some(90))
    }));
}

#[test]
fn the_current_api_account_is_found_by_its_own_id() {
    let mut account = codex_account("own-id", "56wxyz@openrouter", 0);
    account.account_type = AccountType::Api;
    let state = State {
        version: 1,
        accounts: vec![account],
        usage_cache: UsageCache::new(),
        repo_sync: Default::default(),
    };
    let identity = LiveIdentity {
        scodex_account_id: Some("own-id".into()),
        ..live("", "", None)
    };
    assert_eq!(
        choose_current_api_account(&state, Some(&identity)).map(|item| item.id.as_str()),
        Some("own-id")
    );
    let other = LiveIdentity {
        scodex_account_id: Some("other".into()),
        ..live("", "", None)
    };
    assert!(choose_current_api_account(&state, Some(&other)).is_none());
}
