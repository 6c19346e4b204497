//! Accounts, usage snapshots and the local state.

use vstd::prelude::*;

use crate::text;

verus! {

/// The share of the five-hour quota, in percent, from which the current account is kept.
pub const CURRENT_ACCOUNT_MIN_FIVE_HOUR_PERCENT: i64 = 20;

/// The version of the state file.
pub const STATE_VERSION: u32 = 1;

/// How an account is paid for.
#[derive(Clone, Copy, Debug, PartialEq, Eq, Structural)]
pub enum AccountType {
    Subscription,
    Api,
}

impl Default for AccountType {
    fn default() -> (r: AccountType)
        ensures
            r == AccountType::Subscription,
    {
        AccountType::Subscription
    }
}

/// A copy of an optional string.
pub fn clone_text(value: &Option<String>) -> (r: Option<String>)
    ensures
        r == *value,
{
    match value {
        Some(text) => Some(text.clone()),
        None => None,
    }
}

/// An owned copy of an optional string.
pub fn own_text(value: Option<&str>) -> (r: Option<String>)
    ensures
        text::opt_chars(r) == text::opt_str_chars(value),
{
    match value {
        Some(text) => Some(text.to_owned()),
        None => None,
    }
}

/// A stored account.
#[derive(Debug, PartialEq, Eq)]
pub struct AccountRecord {
    pub id: String,
    pub adapter_id: String,
    pub display_key: String,
    pub kind: String,
    pub account_type: AccountType,
    pub email: String,
    pub account_id: Option<String>,
    pub plan: Option<String>,
    pub auth_path: String,
    pub config_path: Option<String>,
    pub api_provider: Option<String>,
    pub api_base_url: Option<String>,
    pub api_token_label: Option<String>,
    pub payload_version: u32,
    /// What the adapter keeps with the account, as JSON text.
    pub payload: String,
    pub added_at: i64,
    pub updated_at: i64,
}

impl Clone for AccountRecord {
    fn clone(&self) -> (r: AccountRecord)
        ensures
            r == *self,
    {
        AccountRecord {
            id: self.id.clone(),
            adapter_id: self.adapter_id.clone(),
            display_key: self.display_key.clone(),
            kind: self.kind.clone(),
            account_type: self.account_type,
            email: self.email.clone(),
            account_id: clone_text(&self.account_id),
            plan: clone_text(&self.plan),
            auth_path: self.auth_path.clone(),
            config_path: clone_text(&self.config_path),
            api_provider: clone_text(&self.api_provider),
            api_base_url: clone_text(&self.api_base_url),
            api_token_label: clone_text(&self.api_token_label),
            payload_version: self.payload_version,
            payload: self.payload.clone(),
            added_at: self.added_at,
            updated_at: self.updated_at,
        }
    }
}

/// What is known of an account.
pub struct AccountModel {
    pub id: Seq<char>,
    pub adapter_id: Seq<char>,
    pub display_key: Seq<char>,
    pub kind: Seq<char>,
    pub account_type: AccountType,
    pub email: Seq<char>,
    pub account_id: Option<Seq<char>>,
    pub plan: Option<Seq<char>>,
    pub auth_path: Seq<char>,
    pub config_path: Option<Seq<char>>,
    pub api_provider: Option<Seq<char>>,
    pub api_base_url: Option<Seq<char>>,
    pub api_token_label: Option<Seq<char>>,
    pub payload_version: u32,
    pub payload: Seq<char>,
    pub added_at: i64,
    pub updated_at: i64,
}

impl View for AccountRecord {
    type V = AccountModel;

    open spec fn view(&self) -> AccountModel {
        AccountModel {
            id: self.id@,
            adapter_id: self.adapter_id@,
            display_key: self.display_key@,
            kind: self.kind@,
            account_type: self.account_type,
            email: self.email@,
            account_id: text::opt_chars(self.account_id),
            plan: text::opt_chars(self.plan),
            auth_path: self.auth_path@,
            config_path: text::opt_chars(self.config_path),
            api_provider: text::opt_chars(self.api_provider),
            api_base_url: text::opt_chars(self.api_base_url),
            api_token_label: text::opt_chars(self.api_token_label),
            payload_version: self.payload_version,
            payload: self.payload@,
            added_at: self.added_at,
            updated_at: self.updated_at,
        }
    }
}

/// An account of which nothing is known.
pub open spec fn blank_account() -> AccountModel {
    AccountModel {
        id: Seq::empty(),
        adapter_id: Seq::empty(),
        display_key: Seq::empty(),
        kind: Seq::empty(),
        account_type: AccountType::Subscription,
        email: Seq::empty(),
        account_id: None,
        plan: None,
        auth_path: Seq::empty(),
        config_path: None,
        api_provider: None,
        api_base_url: None,
        api_token_label: None,
        payload_version: 0,
        payload: "null"@,
        added_at: 0,
        updated_at: 0,
    }
}

/// What is known of each account.
pub open spec fn models(accounts: Seq<AccountRecord>) -> Seq<AccountModel> {
    Seq::new(accounts.len(), |i: int| accounts[i]@)
}

impl AccountRecord {
    /// The name under which the account is shown and found.
    pub open spec fn shown_key(self) -> Seq<char> {
        if self.display_key@.len() > 0 {
            self.display_key@
        } else if self.email@.len() > 0 {
            self.email@
        } else {
            self.id@
        }
    }

    /// The name under which the account is shown and found: its display key, or its
    /// email where that is empty, or its id where both are.
    pub fn effective_display_key(&self) -> (r: &str)
        ensures
            r@ == self.shown_key(),
    {
        if !self.display_key.as_str().is_empty() {
            self.display_key.as_str()
        } else if !self.email.as_str().is_empty() {
            self.email.as_str()
        } else {
            self.id.as_str()
        }
    }

    /// Whether the account is used through an API key.
    pub fn is_api(&self) -> (r: bool)
        ensures
            r == (self.account_type == AccountType::Api),
    {
        self.account_type == AccountType::Api
    }

    /// Whether the account is used through a subscription.
    pub fn is_subscription(&self) -> (r: bool)
        ensures
            r == (self.account_type == AccountType::Subscription),
            r == !(self.account_type == AccountType::Api),
    {
        self.account_type == AccountType::Subscription
    }
}

impl Default for AccountRecord {
    fn default() -> (r: AccountRecord)
        ensures
            r@ == blank_account(),
    {
        AccountRecord {
            id: String::new(),
            adapter_id: String::new(),
            display_key: String::new(),
            kind: String::new(),
            account_type: AccountType::Subscription,
            email: String::new(),
            account_id: None,
            plan: None,
            auth_path: String::new(),
            config_path: None,
            api_provider: None,
            api_base_url: None,
            api_token_label: None,
            payload_version: 0,
            payload: "null".to_owned(),
            added_at: 0,
            updated_at: 0,
        }
    }
}

/// What an adapter says of an account for ranking: more is better.
#[derive(Clone, Copy, Debug, PartialEq, Eq, Structural)]
pub struct AccountRankInput {
    pub keep_current_priority: i64,
    pub selection_priority: i64,
    pub freshness_priority: i64,
}

impl Default for AccountRankInput {
    fn default() -> (r: AccountRankInput)
        ensures
            r.keep_current_priority == 0 && r.selection_priority == 0 && r.freshness_priority == 0,
    {
        AccountRankInput { keep_current_priority: 0, selection_priority: 0, freshness_priority: 0 }
    }
}

/// A balance of credits: the bits of a double.
#[derive(Clone, Copy, Debug, PartialEq, Eq, Structural)]
pub struct CreditsBalance {
    pub bits: u64,
}

/// What is known of the usage of an account.
#[derive(Debug)]
pub struct UsageSnapshot {
    pub plan: Option<String>,
    pub weekly_remaining_percent: Option<i64>,
    pub weekly_refresh_at: Option<String>,
    pub five_hour_remaining_percent: Option<i64>,
    pub five_hour_refresh_at: Option<String>,
    pub credits_balance: Option<CreditsBalance>,
    pub last_synced_at: Option<i64>,
    pub last_sync_error: Option<String>,
    pub needs_relogin: bool,
    pub rank_input: Option<AccountRankInput>,
    /// What the adapter keeps with the snapshot, as JSON text.
    pub payload: String,
}

impl Clone for UsageSnapshot {
    fn clone(&self) -> (r: UsageSnapshot)
        ensures
            r == *self,
    {
        UsageSnapshot {
            plan: clone_text(&self.plan),
            weekly_remaining_percent: self.weekly_remaining_percent,
            weekly_refresh_at: clone_text(&self.weekly_refresh_at),
            five_hour_remaining_percent: self.five_hour_remaining_percent,
            five_hour_refresh_at: clone_text(&self.five_hour_refresh_at),
            credits_balance: self.credits_balance,
            last_synced_at: self.last_synced_at,
            last_sync_error: clone_text(&self.last_sync_error),
            needs_relogin: self.needs_relogin,
            rank_input: self.rank_input,
            payload: self.payload.clone(),
        }
    }
}

impl UsageSnapshot {
    /// Whether the last refresh of the account failed.
    pub open spec fn failed(self) -> bool {
        self.needs_relogin || self.last_sync_error is Some
    }
}

/// What a usage snapshot says.
pub struct UsageModel {
    pub plan: Option<Seq<char>>,
    pub weekly_remaining_percent: Option<i64>,
    pub weekly_refresh_at: Option<Seq<char>>,
    pub five_hour_remaining_percent: Option<i64>,
    pub five_hour_refresh_at: Option<Seq<char>>,
    pub credits_balance: Option<CreditsBalance>,
    pub last_synced_at: Option<i64>,
    pub last_sync_error: Option<Seq<char>>,
    pub needs_relogin: bool,
    pub rank_input: Option<AccountRankInput>,
    pub payload: Seq<char>,
}

impl View for UsageSnapshot {
    type V = UsageModel;

    open spec fn view(&self) -> UsageModel {
        UsageModel {
            plan: text::opt_chars(self.plan),
            weekly_remaining_percent: self.weekly_remaining_percent,
            weekly_refresh_at: text::opt_chars(self.weekly_refresh_at),
            five_hour_remaining_percent: self.five_hour_remaining_percent,
            five_hour_refresh_at: text::opt_chars(self.five_hour_refresh_at),
            credits_balance: self.credits_balance,
            last_synced_at: self.last_synced_at,
            last_sync_error: text::opt_chars(self.last_sync_error),
            needs_relogin: self.needs_relogin,
            rank_input: self.rank_input,
            payload: self.payload@,
        }
    }
}

/// A snapshot that says nothing.
pub open spec fn blank_usage() -> UsageModel {
    UsageModel {
        plan: None,
        weekly_remaining_percent: None,
        weekly_refresh_at: None,
        five_hour_remaining_percent: None,
        five_hour_refresh_at: None,
        credits_balance: None,
        last_synced_at: None,
        last_sync_error: None,
        needs_relogin: false,
        rank_input: None,
        payload: "null"@,
    }
}

impl Default for UsageSnapshot {
    fn default() -> (r: UsageSnapshot)
        ensures
            r@ == blank_usage(),
    {
        UsageSnapshot {
            plan: None,
            weekly_remaining_percent: None,
            weekly_refresh_at: None,
            five_hour_remaining_percent: None,
            five_hour_refresh_at: None,
            credits_balance: None,
            last_synced_at: None,
            last_sync_error: None,
            needs_relogin: false,
            rank_input: None,
            payload: "null".to_owned(),
        }
    }
}

/// The account that the command line is signed in with.
#[derive(Clone, Debug, PartialEq, Eq)]
pub struct LiveIdentity {
    pub adapter_id: String,
    pub email: String,
    pub account_id: Option<String>,
    pub stable_id: Option<String>,
    pub aliases: Vec<String>,
    /// What the adapter keeps with the identity, as JSON text.
    pub payload: String,
    pub scodex_account_id: Option<String>,
}

/// Where the account pool is shared.
#[derive(Clone, Debug, PartialEq, Eq)]
pub struct RepoSyncConfig {
    pub pool_repo: Option<String>,
}

impl Default for RepoSyncConfig {
    fn default() -> (r: RepoSyncConfig)
        ensures
            r.pool_repo is None,
    {
        RepoSyncConfig { pool_repo: None }
    }
}

// ---------------------------------------------------------------------------
// The usage cache
// ---------------------------------------------------------------------------

/// The position of the entry with that key, where there is one.
pub open spec fn key_at(entries: Seq<(String, UsageSnapshot)>, key: Seq<char>, i: int) -> bool {
    0 <= i < entries.len() && entries[i].0@ == key
}

/// No key occurs twice.
pub open spec fn distinct_keys(entries: Seq<(String, UsageSnapshot)>) -> bool {
    forall|i: int, j: int|
        0 <= i < j < entries.len() ==> (#[trigger] entries[i]).0@ != (#[trigger] entries[j]).0@
}

/// The entries as a map.
pub open spec fn map_of(entries: Seq<(String, UsageSnapshot)>) -> Map<Seq<char>, UsageSnapshot> {
    Map::new(
        |key: Seq<char>| exists|i: int| key_at(entries, key, i),
        |key: Seq<char>| entries[choose|i: int| key_at(entries, key, i)].1,
    )
}

/// The latest usage snapshot of each account, by account id.
#[derive(Debug)]
pub struct UsageCache {
    entries: Vec<(String, UsageSnapshot)>,
}

impl View for UsageCache {
    type V = Map<Seq<char>, UsageSnapshot>;

    closed spec fn view(&self) -> Map<Seq<char>, UsageSnapshot> {
        map_of(self.entries@)
    }
}

proof fn lemma_map_of(entries: Seq<(String, UsageSnapshot)>, i: int)
    requires
        distinct_keys(entries),
        0 <= i < entries.len(),
    ensures
        map_of(entries).contains_key(entries[i].0@),
        map_of(entries)[entries[i].0@] == entries[i].1,
{
    let key = entries[i].0@;
    assert(key_at(entries, key, i));
    let j = choose|j: int| key_at(entries, key, j);
    assert(key_at(entries, key, j));
    if i < j {
        assert(entries[i].0@ != entries[j].0@);
    }
    if j < i {
        assert(entries[j].0@ != entries[i].0@);
    }
}

fn index_of_key(entries: &Vec<(String, UsageSnapshot)>, key: &str) -> (r: Option<usize>)
    ensures
        match r {
            Some(i) => key_at(entries@, key@, i as int),
            None => forall|i: int| !key_at(entries@, key@, i),
        },
{
    let mut i: usize = 0;
    while i < entries.len()
        invariant
            i <= entries@.len(),
            forall|k: int| 0 <= k < i ==> !key_at(entries@, key@, k),
        decreases entries@.len() - i,
    {
        if text::same_text(entries[i].0.as_str(), key) {
            return Some(i);
        }
        i += 1;
    }
    None
}

impl UsageCache {
    #[verifier::type_invariant]
    spec fn keys_are_distinct(self) -> bool {
        distinct_keys(self.entries@)
    }

    /// The cache without snapshots.
    pub fn new() -> (r: UsageCache)
        ensures
            r@ == Map::<Seq<char>, UsageSnapshot>::empty(),
    {
        let r = UsageCache { entries: Vec::new() };
        assert(r@ =~= Map::<Seq<char>, UsageSnapshot>::empty());
        r
    }

    /// The snapshot of the account, where there is one.
    pub fn get(&self, id: &str) -> (r: Option<&UsageSnapshot>)
        ensures
            match r {
                Some(usage) => self@.contains_key(id@) && *usage == self@[id@],
                None => !self@.contains_key(id@),
            },
    {
        proof {
            use_type_invariant(self);
        }
        match index_of_key(&self.entries, id) {
            Some(i) => {
                proof {
                    lemma_map_of(self.entries@, i as int);
                }
                Some(&self.entries[i].1)
            },
            None => None,
        }
    }

    /// Sets the snapshot of the account.
    pub fn insert(&mut self, id: String, usage: UsageSnapshot)
        ensures
            final(self)@ == old(self)@.insert(id@, usage),
    {
        proof {
            use_type_invariant(&*self);
        }
        let ghost before = self.entries@;
        let mut entries: Vec<(String, UsageSnapshot)> = Vec::new();
        std::mem::swap(&mut entries, &mut self.entries);
        let ghost key = id@;
        match index_of_key(&entries, id.as_str()) {
            Some(i) => {
                entries.set(i, (id, usage));
                assert forall|k: Seq<char>, j: int| #[trigger]
                    key_at(entries@, k, j) == key_at(before, k, j) by {}
                proof {
                    lemma_same_domain(before, entries@);
                    lemma_map_insert(before, entries@, key, usage, i as int);
                }
            },
            None => {
                entries.push((id, usage));
                assert forall|j: int| 0 <= j < before.len() implies before[j].0@ != key by {
                    assert(!key_at(before, key, j));
                }
                assert(entries@ == before.push((entries@.last().0, usage)));
                proof {
                    lemma_map_insert(before, entries@, key, usage, before.len() as int);
                }
            },
        }
        self.entries = entries;
    }

    /// Forgets the snapshot of the account.
    pub fn remove(&mut self, id: &str)
        ensures
            final(self)@ == old(self)@.remove(id@),
    {
        proof {
            use_type_invariant(&*self);
        }
        let ghost before = self.entries@;
        let mut entries: Vec<(String, UsageSnapshot)> = Vec::new();
        std::mem::swap(&mut entries, &mut self.entries);
        match index_of_key(&entries, id) {
            Some(i) => {
                let _ = entries.remove(i);
                assert(entries@ == before.remove(i as int));
                proof {
                    lemma_map_remove(before, i as int);
                }
            },
            None => {
                assert(map_of(before) =~= map_of(before).remove(id@));
            },
        }
        self.entries = entries;
    }

    /// The number of snapshots.
    pub fn len(&self) -> (r: usize)
        ensures
            r == self@.dom().len(),
            self@.dom().finite(),
    {
        proof {
            use_type_invariant(self);
            lemma_map_len(self.entries@);
        }
        self.entries.len()
    }

    /// Whether there is no snapshot.
    pub fn is_empty(&self) -> (r: bool)
        ensures
            r == (self@ == Map::<Seq<char>, UsageSnapshot>::empty()),
    {
        let r = self.entries.len() == 0;
        proof {
            if r {
                assert(self@ =~= Map::<Seq<char>, UsageSnapshot>::empty());
            } else {
                assert(key_at(self.entries@, self.entries@[0].0@, 0));
                assert(self@.contains_key(self.entries@[0].0@));
            }
        }
        r
    }

    /// The snapshots with their account ids.
    pub fn entries(&self) -> (r: &Vec<(String, UsageSnapshot)>)
        ensures
            distinct_keys(r@),
            map_of(r@) == self@,
    {
        proof {
            use_type_invariant(self);
        }
        &self.entries
    }
}

proof fn lemma_same_domain(
    before: Seq<(String, UsageSnapshot)>,
    after: Seq<(String, UsageSnapshot)>,
)
    requires
        before.len() == after.len(),
        forall|k: Seq<char>, j: int| #[trigger] key_at(after, k, j) == key_at(before, k, j),
        distinct_keys(before),
    ensures
        distinct_keys(after),
        forall|j: int| 0 <= j < before.len() ==> (#[trigger] after[j]).0@ == before[j].0@,
{
    assert forall|j: int| 0 <= j < before.len() implies (#[trigger] after[j]).0@ == before[j].0@ by {
        assert(key_at(before, before[j].0@, j));
        assert(key_at(after, before[j].0@, j));
    }
    assert forall|i: int, j: int| 0 <= i < j < after.len() implies (#[trigger] after[i]).0@ != (
    #[trigger] after[j]).0@ by {
        assert(before[i].0@ != before[j].0@);
    }
}

/// The entries after one of them is set, or a new one is added at the end.
proof fn lemma_map_insert(
    before: Seq<(String, UsageSnapshot)>,
    after: Seq<(String, UsageSnapshot)>,
    key: Seq<char>,
    usage: UsageSnapshot,
    i: int,
)
    requires
        distinct_keys(before),
        distinct_keys(after),
        before.len() <= after.len() <= before.len() + 1,
        key_at(after, key, i),
        after[i].1 == usage,
        after.len() > before.len() ==> i == before.len(),
        forall|j: int| 0 <= j < before.len() && j != i ==> before[j] == #[trigger] after[j],
        after.len() == before.len() ==> forall|j: int|
            0 <= j < before.len() ==> before[j].0@ == (#[trigger] after[j]).0@,
    ensures
        map_of(after) == map_of(before).insert(key, usage),
{
    lemma_map_of(after, i);
    assert forall|k: Seq<char>|
        map_of(after).contains_key(k) == map_of(before).insert(key, usage).contains_key(k) by {
        if map_of(after).contains_key(k) && k != key {
            let j = choose|j: int| key_at(after, k, j);
            assert(key_at(after, k, j));
            assert(after[j] == before[j]);
            assert(key_at(before, k, j));
        }
        if map_of(before).contains_key(k) && k != key {
            let j = choose|j: int| key_at(before, k, j);
            assert(key_at(before, k, j));
            if j == i {
                assert(before[j].0@ == after[j].0@);
            }
            assert(after[j] == before[j]);
            assert(key_at(after, k, j));
        }
    }
    assert forall|k: Seq<char>| map_of(after).contains_key(k) implies map_of(after)[k] == map_of(
        before,
    ).insert(key, usage)[k] by {
        if k != key {
            let j = choose|j: int| key_at(after, k, j);
            assert(key_at(after, k, j));
            assert(after[j] == before[j]);
            lemma_map_of(after, j);
            lemma_map_of(before, j);
        }
    }
    assert(map_of(after) =~= map_of(before).insert(key, usage));
}

proof fn lemma_map_remove(before: Seq<(String, UsageSnapshot)>, i: int)
    requires
        distinct_keys(before),
        0 <= i < before.len(),
    ensures
        distinct_keys(before.remove(i)),
        map_of(before.remove(i)) == map_of(before).remove(before[i].0@),
{
    let after = before.remove(i);
    let key = before[i].0@;
    assert forall|a: int, b: int| 0 <= a < b < after.len() implies (#[trigger] after[a]).0@ != (
    #[trigger] after[b]).0@ by {
        let a0 = if a < i { a } else { a + 1 };
        let b0 = if b < i { b } else { b + 1 };
        assert(before[a0].0@ != before[b0].0@);
    }
    assert forall|k: Seq<char>|
        map_of(after).contains_key(k) == map_of(before).remove(key).contains_key(k) by {
        if map_of(after).contains_key(k) {
            let j = choose|j: int| key_at(after, k, j);
            assert(key_at(after, k, j));
            let j0 = if j < i { j } else { j + 1 };
            assert(key_at(before, k, j0));
            if j0 < i {
                assert(before[j0].0@ != before[i].0@);
            } else {
                assert(before[i].0@ != before[j0].0@);
            }
        }
        if map_of(before).contains_key(k) && k != key {
            let j = choose|j: int| key_at(before, k, j);
            assert(key_at(before, k, j));
            let j1 = if j < i { j } else { j - 1 };
            assert(after[j1] == before[j]);
            assert(key_at(after, k, j1));
        }
    }
    assert forall|k: Seq<char>| map_of(after).contains_key(k) implies map_of(after)[k] == map_of(
        before,
    ).remove(key)[k] by {
        let j = choose|j: int| key_at(after, k, j);
        assert(key_at(after, k, j));
        let j0 = if j < i { j } else { j + 1 };
        lemma_map_of(after, j);
        lemma_map_of(before, j0);
    }
    assert(map_of(after) =~= map_of(before).remove(key));
}

proof fn lemma_map_len(entries: Seq<(String, UsageSnapshot)>)
    requires
        distinct_keys(entries),
    ensures
        map_of(entries).dom().finite(),
        map_of(entries).dom().len() == entries.len(),
    decreases entries.len(),
{
    if entries.len() == 0 {
        assert(map_of(entries).dom() =~= Set::<Seq<char>>::empty());
    } else {
        let last = entries.len() - 1;
        lemma_map_remove(entries, last);
        lemma_map_len(entries.remove(last));
        lemma_map_of(entries, last);
    }
}

impl Default for UsageCache {
    fn default() -> (r: UsageCache)
        ensures
            r@ == Map::<Seq<char>, UsageSnapshot>::empty(),
    {
        UsageCache::new()
    }
}

/// What is known of the usage of the account.
pub open spec fn known_usage(cache: Map<Seq<char>, UsageSnapshot>, id: Seq<char>) -> UsageModel {
    if cache.contains_key(id) {
        cache[id]@
    } else {
        blank_usage()
    }
}

impl UsageCache {
    /// The snapshot of the account, or a blank one.
    pub fn usage_of(&self, id: &str) -> (r: UsageSnapshot)
        ensures
            r@ == known_usage(self@, id@),
    {
        match self.get(id) {
            Some(usage) => usage.clone(),
            None => UsageSnapshot::default(),
        }
    }
}

// ---------------------------------------------------------------------------
// The state
// ---------------------------------------------------------------------------

/// All that is kept between two runs.
#[derive(Debug)]
pub struct State {
    pub version: u32,
    pub accounts: Vec<AccountRecord>,
    pub usage_cache: UsageCache,
    pub repo_sync: RepoSyncConfig,
}

impl Default for State {
    fn default() -> (r: State)
        ensures
            r.version == STATE_VERSION,
            r.accounts@.len() == 0,
            r.usage_cache@ == Map::<Seq<char>, UsageSnapshot>::empty(),
            r.repo_sync.pool_repo is None,
    {
        State {
            version: STATE_VERSION,
            accounts: Vec::new(),
            usage_cache: UsageCache::new(),
            repo_sync: RepoSyncConfig::default(),
        }
    }
}

/// Nothing is known of the usage of an account without a snapshot: it has no quota, no error
/// and no ranking. Of any other, all that its snapshot says is known.
pub proof fn law_known_usage_is_that_of_the_snapshot(
    cache: Map<Seq<char>, UsageSnapshot>,
    id: Seq<char>,
)
    ensures
        cache.contains_key(id) ==> known_usage(cache, id) == cache[id]@,
        !cache.contains_key(id) ==> {
            let usage = known_usage(cache, id);
            &&& usage.plan is None && usage.credits_balance is None
            &&& usage.five_hour_remaining_percent is None && usage.five_hour_refresh_at is None
            &&& usage.weekly_remaining_percent is None && usage.weekly_refresh_at is None
            &&& usage.last_synced_at is None && usage.last_sync_error is None
            &&& !usage.needs_relogin && usage.rank_input is None
        },
{
}

/// An account is shown by its display key, or else by its email, or else by its id: whichever
/// is the first that is not empty.
pub proof fn law_shown_key_is_the_first_name(account: AccountRecord)
    ensures
        account.display_key@.len() > 0 ==> account.shown_key() == account.display_key@,
        account.display_key@.len() == 0 && account.email@.len() > 0 ==> account.shown_key()
            == account.email@,
        account.display_key@.len() == 0 && account.email@.len() == 0 ==> account.shown_key()
            == account.id@,
{
}

} // verus!
