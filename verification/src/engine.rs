//! Selecting the account for the next session, step by step.
//!
//! The caller performs each step and hands back what came of it.

use vstd::prelude::*;

use crate::adapter::CodexAdapter;
use crate::fetch;
use crate::policy;
use crate::state;
use crate::state::{
    AccountRecord, AccountType, LiveIdentity, State, UsageModel, UsageSnapshot,
};
use crate::usage;

verus! {

/// How an account is to be selected.
#[derive(Clone, Copy, Debug, PartialEq, Eq, Structural)]
pub struct SelectOptions {
    /// Known credentials are not imported first.
    pub no_import_known: bool,
    /// No login is started where no account can be used.
    pub no_login: bool,
    /// The selected account becomes the live one.
    pub perform_switch: bool,
}

/// What is to be done next.
#[derive(Debug)]
pub enum SelectStep {
    /// Import the credentials that are known.
    Import,
    /// Read who is signed in.
    ReadIdentity,
    /// Refresh all accounts.
    RefreshAll { live: Option<LiveIdentity> },
    /// Log in a new account.
    LogIn,
    /// Refresh this account.
    RefreshOne { record: AccountRecord },
    /// Switch to this account.
    Switch { record: AccountRecord, usage: UsageSnapshot },
    /// Nothing: this is the selection.
    Done { selection: Option<(AccountRecord, UsageSnapshot)> },
}

/// What came of a step.
#[derive(Debug)]
pub enum SelectEvent {
    Imported,
    Identified(Option<LiveIdentity>),
    RefreshedAll,
    LoggedIn(AccountRecord),
    RefreshedOne(UsageSnapshot),
    Switched,
}

/// What is to be done next.
pub enum SelectModel {
    Import,
    ReadIdentity,
    RefreshAll { live: Option<LiveIdentity> },
    LogIn,
    RefreshOne { record: AccountRecord },
    Switch { record: AccountRecord, usage: UsageModel },
    Done { selection: Option<(AccountRecord, UsageModel)> },
}

impl View for SelectStep {
    type V = SelectModel;

    open spec fn view(&self) -> SelectModel {
        match *self {
            SelectStep::Import => SelectModel::Import,
            SelectStep::ReadIdentity => SelectModel::ReadIdentity,
            SelectStep::RefreshAll { live } => SelectModel::RefreshAll { live },
            SelectStep::LogIn => SelectModel::LogIn,
            SelectStep::RefreshOne { record } => SelectModel::RefreshOne { record },
            SelectStep::Switch { record, usage } => SelectModel::Switch { record, usage: usage@ },
            SelectStep::Done { selection } => SelectModel::Done {
                selection: match selection {
                    Some(pair) => Some((pair.0, pair.1@)),
                    None => None,
                },
            },
        }
    }
}

/// The accounts, and what is known of their usage.
pub struct PoolModel {
    pub accounts: Seq<AccountRecord>,
    pub cache: Map<Seq<char>, UsageSnapshot>,
}

/// What a state says of the accounts.
pub open spec fn pool_of(state: State) -> PoolModel {
    PoolModel { accounts: state.accounts@, cache: state.usage_cache@ }
}

impl PoolModel {
    /// What is known of the usage of an account.
    pub open spec fn usage_of(self, account: AccountRecord) -> UsageModel {
        state::known_usage(self.cache, account.id@)
    }

    /// The first account with the live identity.
    pub open spec fn current(self, live: Option<LiveIdentity>) -> Option<AccountRecord> {
        match live {
            Some(live) => if exists|i: int| policy::is_current(self.accounts, live, i) {
                Some(self.accounts[choose|i: int| policy::is_current(self.accounts, live, i)])
            } else {
                None
            },
            None => None,
        }
    }

    /// The first API account with the live identity.
    pub open spec fn current_api(self, live: Option<LiveIdentity>) -> Option<AccountRecord> {
        match live {
            Some(live) => if exists|i: int| policy::is_current_api(self.accounts, live, i) {
                Some(self.accounts[choose|i: int| policy::is_current_api(self.accounts, live, i)])
            } else {
                None
            },
            None => None,
        }
    }

    /// The best account.
    pub open spec fn best(self) -> Option<AccountRecord> {
        if exists|i: int| policy::is_best(self.accounts, self.cache, i) {
            Some(self.accounts[choose|i: int| policy::is_best(self.accounts, self.cache, i)])
        } else {
            None
        }
    }

    /// The current account, where it is worth keeping.
    pub open spec fn kept(self, live: Option<LiveIdentity>) -> Option<AccountRecord> {
        match self.current(live) {
            Some(account) => if self.cache.contains_key(account.id@) && policy::worth_keeping(
                self.cache[account.id@],
            ) {
                Some(account)
            } else {
                None
            },
            None => None,
        }
    }
}

proof fn lemma_current_is(pool: PoolModel, live: LiveIdentity, i: int)
    requires
        policy::is_current(pool.accounts, live, i),
    ensures
        pool.current(Some(live)) == Some(pool.accounts[i]),
{
    let j = choose|j: int| policy::is_current(pool.accounts, live, j);
    assert(policy::is_current(pool.accounts, live, j));
    if i < j {
        assert(!policy::is_identity_of(pool.accounts[i], live));
    }
    if j < i {
        assert(!policy::is_identity_of(pool.accounts[j], live));
    }
}

proof fn lemma_current_api_is(pool: PoolModel, live: LiveIdentity, i: int)
    requires
        policy::is_current_api(pool.accounts, live, i),
    ensures
        pool.current_api(Some(live)) == Some(pool.accounts[i]),
{
    let j = choose|j: int| policy::is_current_api(pool.accounts, live, j);
    assert(policy::is_current_api(pool.accounts, live, j));
    if i < j {
        assert(!policy::is_api_identity_of(pool.accounts[i], live));
    }
    if j < i {
        assert(!policy::is_api_identity_of(pool.accounts[j], live));
    }
}

proof fn lemma_best_is(pool: PoolModel, i: int)
    requires
        policy::is_best(pool.accounts, pool.cache, i),
    ensures
        pool.best() == Some(pool.accounts[i]),
{
    let j = choose|j: int| policy::is_best(pool.accounts, pool.cache, j);
    assert(policy::is_best(pool.accounts, pool.cache, j));
    policy::law_best_is_unique(pool.accounts, pool.cache, i, j);
}

fn find_current<'a>(state: &'a State, live: Option<&LiveIdentity>) -> (r: Option<&'a AccountRecord>)
    ensures
        opt_record(r) == pool_of(*state).current(opt_live(live)),
{
    let r = policy::choose_current_account(state, live);
    proof {
        let pool = pool_of(*state);
        if let Some(identity) = live {
            match r {
                Some(account) => {
                    let i = choose|i: int|
                        #![trigger state.accounts@[i]]
                        policy::is_current(state.accounts@, *identity, i) && *account
                            == state.accounts@[i];
                    lemma_current_is(pool, *identity, i);
                },
                None => {
                    assert forall|i: int| !policy::is_current(pool.accounts, *identity, i) by {
                        if policy::is_current(pool.accounts, *identity, i) {
                            assert(!policy::is_identity_of(state.accounts@[i], *identity));
                        }
                    }
                },
            }
        }
    }
    r
}

fn find_current_api<'a>(state: &'a State, live: Option<&LiveIdentity>) -> (r: Option<
    &'a AccountRecord,
>)
    ensures
        opt_record(r) == pool_of(*state).current_api(opt_live(live)),
{
    let r = policy::choose_current_api_account(state, live);
    proof {
        let pool = pool_of(*state);
        if let Some(identity) = live {
            match r {
                Some(account) => {
                    let i = choose|i: int|
                        #![trigger state.accounts@[i]]
                        policy::is_current_api(state.accounts@, *identity, i) && *account
                            == state.accounts@[i];
                    lemma_current_api_is(pool, *identity, i);
                },
                None => {
                    assert forall|i: int| !policy::is_current_api(pool.accounts, *identity, i) by {
                        if policy::is_current_api(pool.accounts, *identity, i) {
                            assert(!policy::is_api_identity_of(state.accounts@[i], *identity));
                        }
                    }
                },
            }
        }
    }
    r
}

fn find_best<'a>(state: &'a State) -> (r: Option<&'a AccountRecord>)
    ensures
        opt_record(r) == pool_of(*state).best(),
{
    let r = policy::choose_best_account(state);
    proof {
        let pool = pool_of(*state);
        match r {
            Some(account) => {
                let i = choose|i: int|
                    #![trigger state.accounts@[i]]
                    policy::is_best(state.accounts@, state.usage_cache@, i) && *account
                        == state.accounts@[i];
                lemma_best_is(pool, i);
            },
            None => {
                assert forall|i: int| !policy::is_best(pool.accounts, pool.cache, i) by {
                    if policy::is_best(pool.accounts, pool.cache, i) {
                        assert(policy::is_candidate(pool.accounts, pool.cache, i));
                    }
                }
            },
        }
    }
    r
}

/// An optional record.
pub open spec fn opt_record(record: Option<&AccountRecord>) -> Option<AccountRecord> {
    match record {
        Some(r) => Some(*r),
        None => None,
    }
}

/// An optional identity.
pub open spec fn opt_live(live: Option<&LiveIdentity>) -> Option<LiveIdentity> {
    match live {
        Some(l) => Some(*l),
        None => None,
    }
}

// ---------------------------------------------------------------------------
// The steps
// ---------------------------------------------------------------------------

/// The step that follows on the choice of an account.
pub open spec fn chosen(options: SelectOptions, record: AccountRecord, usage: UsageModel) -> SelectModel {
    if options.perform_switch {
        SelectModel::Switch { record, usage }
    } else {
        SelectModel::Done { selection: Some((record, usage)) }
    }
}

/// The step where no account can be used.
pub open spec fn none_usable(options: SelectOptions) -> SelectModel {
    if options.no_login {
        SelectModel::Done { selection: None }
    } else {
        SelectModel::LogIn
    }
}

/// The first step once known credentials are imported, or are not to be.
pub open spec fn step_with_pool(options: SelectOptions, pool: PoolModel) -> SelectModel {
    if pool.accounts.len() == 0 {
        none_usable(options)
    } else {
        SelectModel::ReadIdentity
    }
}

/// The first step.
pub open spec fn initial_step(options: SelectOptions, pool: PoolModel) -> SelectModel {
    if options.no_import_known {
        step_with_pool(options, pool)
    } else {
        SelectModel::Import
    }
}

/// The step once it is known who is signed in: an API account is kept without a refresh.
pub open spec fn step_with_identity(
    options: SelectOptions,
    pool: PoolModel,
    live: Option<LiveIdentity>,
) -> SelectModel {
    match pool.current_api(live) {
        Some(record) => chosen(options, record, state::blank_usage()),
        None => SelectModel::RefreshAll { live },
    }
}

/// The step once the accounts are refreshed: the current one is kept where it is worth
/// keeping, or else the best one is taken, or else a login is started where that is
/// wanted.
pub open spec fn step_with_usage(
    options: SelectOptions,
    login_if_unusable: bool,
    pool: PoolModel,
    live: Option<LiveIdentity>,
) -> SelectModel {
    match pool.kept(live) {
        Some(record) => chosen(options, record, pool.usage_of(record)),
        None => match pool.best() {
            Some(record) => chosen(options, record, pool.usage_of(record)),
            None => if login_if_unusable {
                none_usable(options)
            } else {
                SelectModel::Done { selection: None }
            },
        },
    }
}

/// The step after the event; an event that cannot come of a step leaves it as it is.
pub open spec fn next_step(
    options: SelectOptions,
    login_if_unusable: bool,
    pool: PoolModel,
    step: SelectModel,
    event: SelectEvent,
) -> SelectModel {
    match (step, event) {
        (SelectModel::Import, SelectEvent::Imported) => step_with_pool(options, pool),
        (SelectModel::ReadIdentity, SelectEvent::Identified(live)) => step_with_identity(
            options,
            pool,
            live,
        ),
        (SelectModel::RefreshAll { live }, SelectEvent::RefreshedAll) => step_with_usage(
            options,
            login_if_unusable,
            pool,
            live,
        ),
        (SelectModel::LogIn, SelectEvent::LoggedIn(record)) => SelectModel::RefreshOne { record },
        (SelectModel::RefreshOne { record }, SelectEvent::RefreshedOne(usage)) => chosen(
            options,
            record,
            usage@,
        ),
        (SelectModel::Switch { record, usage }, SelectEvent::Switched) => SelectModel::Done {
            selection: Some((record, usage)),
        },
        _ => step,
    }
}

fn choose_record(options: &SelectOptions, record: AccountRecord, usage: UsageSnapshot) -> (r:
    SelectStep)
    ensures
        r@ == chosen(*options, record, usage@),
{
    if options.perform_switch {
        SelectStep::Switch { record, usage }
    } else {
        SelectStep::Done { selection: Some((record, usage)) }
    }
}

fn give_up(options: &SelectOptions) -> (r: SelectStep)
    ensures
        r@ == none_usable(*options),
{
    if options.no_login {
        SelectStep::Done { selection: None }
    } else {
        SelectStep::LogIn
    }
}

fn begin_with_pool(options: &SelectOptions, state: &State) -> (r: SelectStep)
    ensures
        r@ == step_with_pool(*options, pool_of(*state)),
{
    if state.accounts.len() == 0 {
        give_up(options)
    } else {
        SelectStep::ReadIdentity
    }
}

/// The first step.
pub fn begin_selection(options: &SelectOptions, state: &State) -> (r: SelectStep)
    ensures
        r@ == initial_step(*options, pool_of(*state)),
{
    if options.no_import_known {
        begin_with_pool(options, state)
    } else {
        SelectStep::Import
    }
}

fn with_identity(options: &SelectOptions, state: &State, live: Option<LiveIdentity>) -> (r:
    SelectStep)
    ensures
        r@ == step_with_identity(*options, pool_of(*state), live),
{
    let found = match &live {
        Some(identity) => find_current_api(state, Some(identity)),
        None => None,
    };
    match found {
        Some(record) => choose_record(options, record.clone(), UsageSnapshot::default()),
        None => SelectStep::RefreshAll { live },
    }
}

fn usage_of(state: &State, record: &AccountRecord) -> (r: UsageSnapshot)
    ensures
        r@ == pool_of(*state).usage_of(*record),
{
    state.usage_cache.usage_of(record.id.as_str())
}

/// The current account, where it is worth keeping.
pub fn current_to_keep<'a>(state: &'a State, live: Option<&LiveIdentity>) -> (r: Option<
    &'a AccountRecord,
>)
    ensures
        opt_record(r) == pool_of(*state).kept(opt_live(live)),
{
    match find_current(state, live) {
        Some(record) => match state.usage_cache.get(record.id.as_str()) {
            Some(usage) => if policy::keeps_current_account(usage) {
                Some(record)
            } else {
                None
            },
            None => None,
        },
        None => None,
    }
}

fn with_refreshed(
    options: &SelectOptions,
    login_if_unusable: bool,
    state: &State,
    live: Option<LiveIdentity>,
) -> (r: SelectStep)
    ensures
        r@ == step_with_usage(*options, login_if_unusable, pool_of(*state), live),
{
    let kept = match &live {
        Some(identity) => current_to_keep(state, Some(identity)),
        None => None,
    };
    if let Some(record) = kept {
        return choose_record(options, record.clone(), usage_of(state, record));
    }
    if let Some(record) = find_best(state) {
        return choose_record(options, record.clone(), usage_of(state, record));
    }
    if login_if_unusable {
        give_up(options)
    } else {
        SelectStep::Done { selection: None }
    }
}

fn advance(
    options: &SelectOptions,
    login_if_unusable: bool,
    state: &State,
    step: SelectStep,
    event: SelectEvent,
) -> (r: SelectStep)
    ensures
        r@ == next_step(*options, login_if_unusable, pool_of(*state), step@, event),
{
    match (step, event) {
        (SelectStep::Import, SelectEvent::Imported) => begin_with_pool(options, state),
        (SelectStep::ReadIdentity, SelectEvent::Identified(live)) => with_identity(
            options,
            state,
            live,
        ),
        (SelectStep::RefreshAll { live }, SelectEvent::RefreshedAll) => with_refreshed(
            options,
            login_if_unusable,
            state,
            live,
        ),
        (SelectStep::LogIn, SelectEvent::LoggedIn(record)) => SelectStep::RefreshOne { record },
        (SelectStep::RefreshOne { record }, SelectEvent::RefreshedOne(usage)) => choose_record(
            options,
            record,
            usage,
        ),
        (SelectStep::Switch { record, usage }, SelectEvent::Switched) => SelectStep::Done {
            selection: Some((record, usage)),
        },
        (step, _) => step,
    }
}

/// The step after what came of the last one. Where accounts are known but none can be
/// used, a login is started.
pub fn ensure_best_account(
    options: &SelectOptions,
    state: &State,
    step: SelectStep,
    event: SelectEvent,
) -> (r: SelectStep)
    ensures
        r@ == next_step(*options, true, pool_of(*state), step@, event),
{
    advance(options, true, state, step, event)
}

impl CodexAdapter {
    /// The step after what came of the last one. Where accounts are known but none can be
    /// used, none is selected: a login would replace the live credentials.
    pub fn ensure_best_account(
        &self,
        options: &SelectOptions,
        state: &State,
        step: SelectStep,
        event: SelectEvent,
    ) -> (r: SelectStep)
        ensures
            r@ == next_step(*options, false, pool_of(*state), step@, event),
    {
        advance(options, false, state, step, event)
    }
}

// ---------------------------------------------------------------------------
// Refreshing one account after the other
// ---------------------------------------------------------------------------

/// The cache after each account was refreshed in turn.
pub open spec fn refreshed_cache(
    cache: Map<Seq<char>, UsageSnapshot>,
    accounts: Seq<AccountRecord>,
    fetched: Seq<UsageSnapshot>,
) -> Map<Seq<char>, UsageSnapshot>
    decreases accounts.len(),
{
    if accounts.len() == 0 {
        cache
    } else {
        let n = accounts.len() - 1;
        let rest = refreshed_cache(cache, accounts.drop_last(), fetched);
        if accounts[n].account_type == AccountType::Api {
            rest.remove(accounts[n].id@)
        } else {
            rest.insert(accounts[n].id@, fetched[n])
        }
    }
}

/// Takes what was fetched for each account into the cache.
pub fn refresh_all_accounts(
    adapter: &CodexAdapter,
    state: &mut State,
    fetched: &Vec<UsageSnapshot>,
)
    requires
        fetched@.len() == old(state).accounts@.len(),
    ensures
        final(state).usage_cache@ == refreshed_cache(
            old(state).usage_cache@,
            old(state).accounts@,
            fetched@,
        ),
        final(state).accounts == old(state).accounts,
        final(state).version == old(state).version,
        final(state).repo_sync == old(state).repo_sync,
{
    let ghost before = state.usage_cache@;
    let ghost accounts = state.accounts@;
    let mut i: usize = 0;
    while i < state.accounts.len()
        invariant
            i <= state.accounts@.len(),
            accounts == state.accounts@,
            fetched@.len() == accounts.len(),
            state.accounts == old(state).accounts,
            state.version == old(state).version,
            state.repo_sync == old(state).repo_sync,
            state.usage_cache@ == refreshed_cache(before, accounts.take(i as int), fetched@),
        decreases state.accounts@.len() - i,
    {
        assert(accounts.take(i + 1).drop_last() =~= accounts.take(i as int));
        let account = state.accounts[i].clone();
        let _ = adapter.refresh_account_usage(state, &account, fetched[i].clone());
        i += 1;
    }
    assert(accounts.take(i as int) =~= accounts);
}

// ---------------------------------------------------------------------------
// Laws
// ---------------------------------------------------------------------------

/// While the current account has at least 20 percent of its five-hour quota left, and its
/// refresh did not fail, it is kept, however much quota the other accounts have.
pub proof fn law_current_account_is_kept(
    options: SelectOptions,
    login_if_unusable: bool,
    pool: PoolModel,
    live: LiveIdentity,
    i: int,
    percent: i64,
)
    requires
        policy::is_current(pool.accounts, live, i),
        pool.cache.contains_key(pool.accounts[i].id@),
        !pool.cache[pool.accounts[i].id@].failed(),
        pool.cache[pool.accounts[i].id@].five_hour_remaining_percent == Some(percent),
        percent >= 20,
    ensures
        step_with_usage(options, login_if_unusable, pool, Some(live)) == chosen(
            options,
            pool.accounts[i],
            pool.usage_of(pool.accounts[i]),
        ),
{
    lemma_current_is(pool, live, i);
}

/// Once the five-hour quota of the current account is below 20 percent, or its refresh
/// failed, the best account is taken.
pub proof fn law_exhausted_account_is_left(
    options: SelectOptions,
    login_if_unusable: bool,
    pool: PoolModel,
    live: LiveIdentity,
    i: int,
    best: int,
)
    requires
        policy::is_current(pool.accounts, live, i),
        pool.cache.contains_key(pool.accounts[i].id@),
        pool.cache[pool.accounts[i].id@].failed() || (
        pool.cache[pool.accounts[i].id@].five_hour_remaining_percent matches Some(percent)
            && percent < 20),
        policy::is_best(pool.accounts, pool.cache, best),
    ensures
        step_with_usage(options, login_if_unusable, pool, Some(live)) == chosen(
            options,
            pool.accounts[best],
            pool.usage_of(pool.accounts[best]),
        ),
{
    lemma_current_is(pool, live, i);
    lemma_best_is(pool, best);
}

/// Whether the snapshot of the account at `i` is one of a refresh: it is ranked by its
/// quotas, which are percentages.
pub open spec fn ranked_by_quota(pool: PoolModel, i: int) -> bool {
    let usage = pool.cache[pool.accounts[i].id@];
    &&& pool.cache.contains_key(pool.accounts[i].id@)
    &&& usage.five_hour_remaining_percent matches Some(five)
    &&& usage.weekly_remaining_percent matches Some(weekly)
    &&& 0 <= five <= 100
    &&& 0 <= weekly <= 100
    &&& usage.last_synced_at matches Some(at)
    &&& usage.rank_input == usage::quota_rank(Some(five), Some(weekly), at)
}

/// Of two refreshed accounts that can be selected, the best account is never the one with
/// the lower five-hour quota, nor with the lower weekly quota where those are equal.
pub proof fn law_best_has_most_quota(pool: PoolModel, best: int, other: int)
    requires
        policy::is_best(pool.accounts, pool.cache, best),
        policy::is_candidate(pool.accounts, pool.cache, other),
        ranked_by_quota(pool, best),
        ranked_by_quota(pool, other),
    ensures
        pool.cache[pool.accounts[other].id@].five_hour_remaining_percent->0
            <= pool.cache[pool.accounts[best].id@].five_hour_remaining_percent->0,
        pool.cache[pool.accounts[other].id@].five_hour_remaining_percent
            == pool.cache[pool.accounts[best].id@].five_hour_remaining_percent
            ==> pool.cache[pool.accounts[other].id@].weekly_remaining_percent->0
            <= pool.cache[pool.accounts[best].id@].weekly_remaining_percent->0,
{
    policy::law_best_has_highest_priority(pool.accounts, pool.cache, best, other);
    let mine = pool.cache[pool.accounts[best].id@];
    let its = pool.cache[pool.accounts[other].id@];
    let five = mine.five_hour_remaining_percent->0;
    let weekly = mine.weekly_remaining_percent->0;
    let other_five = its.five_hour_remaining_percent->0;
    let other_weekly = its.weekly_remaining_percent->0;
    if other_five > five || (other_five == five && other_weekly > weekly) {
        usage::law_rank_prefers_five_hour(
            other_five,
            other_weekly,
            five,
            weekly,
            its.last_synced_at->0,
            mine.last_synced_at->0,
        );
    }
}

/// Whether the event can come of the step.
pub open spec fn fits(step: SelectModel, event: SelectEvent) -> bool {
    match step {
        SelectModel::Import => event is Imported,
        SelectModel::ReadIdentity => event is Identified,
        SelectModel::RefreshAll { .. } => event is RefreshedAll,
        SelectModel::LogIn => event is LoggedIn,
        SelectModel::RefreshOne { .. } => event is RefreshedOne,
        SelectModel::Switch { .. } => event is Switched,
        SelectModel::Done { .. } => false,
    }
}

/// Whether these are the steps of a selection, one after the other; `pools` are the
/// accounts as they are after each event.
pub open spec fn is_selection(
    options: SelectOptions,
    login_if_unusable: bool,
    pools: Seq<PoolModel>,
    steps: Seq<SelectModel>,
    events: Seq<SelectEvent>,
) -> bool {
    &&& steps.len() == events.len() + 1
    &&& pools.len() == steps.len()
    &&& steps[0] == initial_step(options, pools[0])
    &&& forall|i: int|
        0 <= i < events.len() ==> fits(#[trigger] steps[i], events[i]) && steps[i + 1] == next_step(
            options,
            login_if_unusable,
            pools[i + 1],
            steps[i],
            events[i],
        )
}

/// A dry run never switches accounts.
pub proof fn law_dry_run_never_switches(
    options: SelectOptions,
    login_if_unusable: bool,
    pools: Seq<PoolModel>,
    steps: Seq<SelectModel>,
    events: Seq<SelectEvent>,
    i: int,
)
    requires
        is_selection(options, login_if_unusable, pools, steps, events),
        !options.perform_switch,
        0 <= i < steps.len(),
    ensures
        !(steps[i] is Switch),
    decreases i,
{
    if i > 0 {
        let k = i - 1;
        law_dry_run_never_switches(options, login_if_unusable, pools, steps, events, k);
        assert(fits(steps[k], events[k]));
    }
}

/// Where no login is wanted, none is started.
pub proof fn law_no_login_never_logs_in(
    options: SelectOptions,
    login_if_unusable: bool,
    pools: Seq<PoolModel>,
    steps: Seq<SelectModel>,
    events: Seq<SelectEvent>,
    i: int,
)
    requires
        is_selection(options, login_if_unusable, pools, steps, events),
        options.no_login,
        0 <= i < steps.len(),
    ensures
        !(steps[i] is LogIn),
    decreases i,
{
    if i > 0 {
        let k = i - 1;
        law_no_login_never_logs_in(options, login_if_unusable, pools, steps, events, k);
        assert(fits(steps[k], events[k]));
    }
}

/// Where known credentials are not to be imported, none are.
pub proof fn law_no_import_never_imports(
    options: SelectOptions,
    login_if_unusable: bool,
    pools: Seq<PoolModel>,
    steps: Seq<SelectModel>,
    events: Seq<SelectEvent>,
    i: int,
)
    requires
        is_selection(options, login_if_unusable, pools, steps, events),
        options.no_import_known,
        0 <= i < steps.len(),
    ensures
        !(steps[i] is Import),
    decreases i,
{
    if i > 0 {
        let k = i - 1;
        law_no_import_never_imports(options, login_if_unusable, pools, steps, events, k);
        assert(fits(steps[k], events[k]));
    }
}

/// An account that is selected for use was switched to: a selection that performs the
/// switch ends with an account only right after switching to it.
pub proof fn law_selected_account_is_live(
    options: SelectOptions,
    login_if_unusable: bool,
    pools: Seq<PoolModel>,
    steps: Seq<SelectModel>,
    events: Seq<SelectEvent>,
    i: int,
)
    requires
        is_selection(options, login_if_unusable, pools, steps, events),
        options.perform_switch,
        0 <= i < steps.len(),
        steps[i] matches SelectModel::Done { selection } && selection is Some,
    ensures
        i > 0,
        steps[i - 1] matches SelectModel::Switch { record, usage } && steps[i] == (
        SelectModel::Done { selection: Some((record, usage)) }),
{
    if i > 0 {
        let k = i - 1;
        assert(fits(steps[k], events[k]));
    }
}

/// How many steps are left at most.
pub open spec fn steps_left(step: SelectModel) -> int {
    match step {
        SelectModel::Import => 6,
        SelectModel::ReadIdentity => 5,
        SelectModel::RefreshAll { .. } => 4,
        SelectModel::LogIn => 3,
        SelectModel::RefreshOne { .. } => 2,
        SelectModel::Switch { .. } => 1,
        SelectModel::Done { .. } => 0,
    }
}

/// A selection ends: every event that fits brings it nearer to its end.
pub proof fn law_selection_makes_progress(
    options: SelectOptions,
    login_if_unusable: bool,
    pool: PoolModel,
    step: SelectModel,
    event: SelectEvent,
)
    requires
        fits(step, event),
    ensures
        0 <= steps_left(next_step(options, login_if_unusable, pool, step, event)) < steps_left(
            step,
        ),
{
}

/// Signed in with an API account, nothing is refreshed: the account is kept.
pub proof fn law_api_account_is_kept(
    options: SelectOptions,
    pool: PoolModel,
    live: LiveIdentity,
    i: int,
)
    requires
        policy::is_current_api(pool.accounts, live, i),
    ensures
        step_with_identity(options, pool, Some(live)) == chosen(
            options,
            pool.accounts[i],
            state::blank_usage(),
        ),
{
    lemma_current_api_is(pool, live, i);
}

/// Whether no two accounts have the same id.
pub open spec fn ids_are_distinct(accounts: Seq<AccountRecord>) -> bool {
    forall|a: int, b: int|
        0 <= a < b < accounts.len() ==> (#[trigger] accounts[a]).id@ != (#[trigger] accounts[b]).id@
}

/// Whether the snapshot was fetched for one of the accounts that the service is asked about.
pub open spec fn is_fetched_for(accounts: Seq<AccountRecord>, fetched: (String, UsageSnapshot)) -> bool {
    exists|j: int|
        0 <= j < accounts.len() && fetch::is_fetched(#[trigger] accounts[j]) && fetched.0@
            == accounts[j].id@
}

/// API accounts take no part in the automatic choice: once the accounts are refreshed, the
/// best one has a subscription.
pub proof fn law_automatic_choice_ignores_api_accounts(
    cache: Map<Seq<char>, UsageSnapshot>,
    accounts: Seq<AccountRecord>,
    fetched: Seq<(String, UsageSnapshot)>,
    best: int,
)
    requires
        ids_are_distinct(accounts),
        forall|k: int|
            0 <= k < fetched.len() ==> is_fetched_for(accounts, #[trigger] fetched[k]),
        policy::is_best(
            accounts,
            fetch::with_usage(fetch::without_api_usage(cache, accounts), fetched),
            best,
        ),
    ensures
        accounts[best].account_type == AccountType::Subscription,
{
    if accounts[best].account_type == AccountType::Api {
        assert forall|k: int| 0 <= k < fetched.len() implies (#[trigger] fetched[k]).0@
            != accounts[best].id@ by {
            assert(is_fetched_for(accounts, fetched[k]));
            let j = choose|j: int|
                0 <= j < accounts.len() && fetch::is_fetched(#[trigger] accounts[j])
                    && fetched[k].0@ == accounts[j].id@;
            assert(j != best);
            if j < best {
                assert(accounts[j].id@ != accounts[best].id@);
            } else {
                assert(accounts[best].id@ != accounts[j].id@);
            }
        }
        fetch::law_api_accounts_have_no_usage(cache, accounts, fetched, best);
    }
}

/// While the pool holds accounts, the adapter for Codex starts no login, even where none of
/// them can be used: that would replace the live credentials.
pub proof fn law_filled_pool_never_logs_in(
    options: SelectOptions,
    pools: Seq<PoolModel>,
    steps: Seq<SelectModel>,
    events: Seq<SelectEvent>,
    i: int,
)
    requires
        is_selection(options, false, pools, steps, events),
        forall|k: int| 0 <= k < pools.len() ==> (#[trigger] pools[k]).accounts.len() > 0,
        0 <= i < steps.len(),
    ensures
        !(steps[i] is LogIn),
    decreases i,
{
    if i > 0 {
        let k = i - 1;
        law_filled_pool_never_logs_in(options, pools, steps, events, k);
        assert(fits(steps[k], events[k]));
        assert(pools[i].accounts.len() > 0);
    } else {
        assert(pools[0].accounts.len() > 0);
    }
}

/// A refreshed account can be selected exactly where its refresh did not fail and any of its
/// quota is left: some of the five-hour one or some of the weekly one.
pub proof fn law_any_quota_left_is_enough(pool: PoolModel, i: int, at: i64)
    requires
        0 <= i < pool.accounts.len(),
        pool.cache.contains_key(pool.accounts[i].id@),
        pool.cache[pool.accounts[i].id@].rank_input == usage::quota_rank(
            pool.cache[pool.accounts[i].id@].five_hour_remaining_percent,
            pool.cache[pool.accounts[i].id@].weekly_remaining_percent,
            at,
        ),
    ensures
        policy::is_candidate(pool.accounts, pool.cache, i) <==> {
            let usage = pool.cache[pool.accounts[i].id@];
            &&& !usage.needs_relogin
            &&& usage.last_sync_error is None
            &&& (usage.five_hour_remaining_percent matches Some(five) && five > 0) || (
            usage.weekly_remaining_percent matches Some(weekly) && weekly > 0)
        },
{
}

/// Where any refreshed account has quota left, the selection ends with an account that has:
/// it never says that there is none.
pub proof fn law_quota_left_selects_an_account(
    options: SelectOptions,
    login_if_unusable: bool,
    pool: PoolModel,
    live: Option<LiveIdentity>,
    i: int,
    at: i64,
)
    requires
        0 <= i < pool.accounts.len(),
        pool.cache.contains_key(pool.accounts[i].id@),
        !pool.cache[pool.accounts[i].id@].needs_relogin,
        pool.cache[pool.accounts[i].id@].last_sync_error is None,
        (pool.cache[pool.accounts[i].id@].five_hour_remaining_percent matches Some(five) && five
            > 0) || (pool.cache[pool.accounts[i].id@].weekly_remaining_percent matches Some(weekly)
            && weekly > 0),
        pool.cache[pool.accounts[i].id@].rank_input == usage::quota_rank(
            pool.cache[pool.accounts[i].id@].five_hour_remaining_percent,
            pool.cache[pool.accounts[i].id@].weekly_remaining_percent,
            at,
        ),
    ensures
        match step_with_usage(options, login_if_unusable, pool, live) {
            SelectModel::Switch { record, .. } => options.perform_switch && pool.accounts.contains(
                record,
            ),
            SelectModel::Done { selection: Some(pair) } => !options.perform_switch
                && pool.accounts.contains(pair.0),
            _ => false,
        },
{
    law_any_quota_left_is_enough(pool, i, at);
    policy::law_best_exists(pool.accounts, pool.cache, i);
    let best = choose|b: int| policy::is_best(pool.accounts, pool.cache, b);
    lemma_best_is(pool, best);
    assert(pool.accounts.contains(pool.accounts[best]));
    if let Some(identity) = live {
        if exists|c: int| policy::is_current(pool.accounts, identity, c) {
            let c = choose|c: int| policy::is_current(pool.accounts, identity, c);
            lemma_current_is(pool, identity, c);
            assert(pool.accounts.contains(pool.accounts[c]));
        }
    }
}

/// Where no account can be selected and none is kept, none is: a login is started only where
/// that is wanted and allowed.
pub proof fn law_nothing_usable_selects_nothing(
    options: SelectOptions,
    login_if_unusable: bool,
    pool: PoolModel,
)
    requires
        forall|i: int| !policy::is_candidate(pool.accounts, pool.cache, i),
    ensures
        step_with_usage(options, login_if_unusable, pool, None) == (if login_if_unusable
            && !options.no_login {
            SelectModel::LogIn
        } else {
            SelectModel::Done { selection: None }
        }),
{
    assert forall|i: int| !policy::is_best(pool.accounts, pool.cache, i) by {
        assert(!policy::is_candidate(pool.accounts, pool.cache, i));
    }
}

/// A current account that has no five-hour quota, or of which nothing is known, gives way to
/// the best account.
pub proof fn law_account_without_five_hour_quota_is_left(
    options: SelectOptions,
    login_if_unusable: bool,
    pool: PoolModel,
    live: LiveIdentity,
    i: int,
    best: int,
)
    requires
        policy::is_current(pool.accounts, live, i),
        !pool.cache.contains_key(pool.accounts[i].id@)
            || pool.cache[pool.accounts[i].id@].five_hour_remaining_percent is None,
        policy::is_best(pool.accounts, pool.cache, best),
    ensures
        match step_with_usage(options, login_if_unusable, pool, Some(live)) {
            SelectModel::Switch { record, .. } => record == pool.accounts[best],
            SelectModel::Done { selection: Some(pair) } => pair.0 == pool.accounts[best],
            _ => false,
        },
{
    lemma_current_is(pool, live, i);
    lemma_best_is(pool, best);
}

/// The account that is kept or taken is the one that is switched to, and it is reported with
/// what is known of its usage; a dry run reports the same without the switch.
pub proof fn law_choice_is_the_one_that_was_made(
    options: SelectOptions,
    login_if_unusable: bool,
    pool: PoolModel,
    live: LiveIdentity,
    i: int,
    percent: i64,
)
    requires
        policy::is_current(pool.accounts, live, i),
        pool.cache.contains_key(pool.accounts[i].id@),
        !pool.cache[pool.accounts[i].id@].needs_relogin,
        pool.cache[pool.accounts[i].id@].last_sync_error is None,
        pool.cache[pool.accounts[i].id@].five_hour_remaining_percent == Some(percent),
        percent >= 20,
    ensures
        step_with_usage(options, login_if_unusable, pool, Some(live)) == (
        if options.perform_switch {
            SelectModel::Switch {
                record: pool.accounts[i],
                usage: pool.cache[pool.accounts[i].id@]@,
            }
        } else {
            SelectModel::Done {
                selection: Some((pool.accounts[i], pool.cache[pool.accounts[i].id@]@)),
            }
        }),
{
    lemma_current_is(pool, live, i);
}

/// Below 20 percent, without a five-hour quota or after a failed refresh, it is the best
/// account that is switched to or reported, with what is known of its usage.
pub proof fn law_best_account_is_the_choice(
    options: SelectOptions,
    login_if_unusable: bool,
    pool: PoolModel,
    live: Option<LiveIdentity>,
    best: int,
)
    requires
        policy::is_best(pool.accounts, pool.cache, best),
        live matches Some(identity) ==> forall|i: int|
            policy::is_current(pool.accounts, identity, i) && pool.cache.contains_key(
                (#[trigger] pool.accounts[i]).id@,
            ) ==> {
                let usage = pool.cache[pool.accounts[i].id@];
                ||| usage.needs_relogin
                ||| usage.last_sync_error is Some
                ||| usage.five_hour_remaining_percent is None
                ||| usage.five_hour_remaining_percent->0 < 20
            },
    ensures
        step_with_usage(options, login_if_unusable, pool, live) == (if options.perform_switch {
            SelectModel::Switch {
                record: pool.accounts[best],
                usage: pool.cache[pool.accounts[best].id@]@,
            }
        } else {
            SelectModel::Done {
                selection: Some((pool.accounts[best], pool.cache[pool.accounts[best].id@]@)),
            }
        }),
{
    lemma_best_is(pool, best);
    assert(policy::is_candidate(pool.accounts, pool.cache, best));
    if let Some(identity) = live {
        if exists|c: int| policy::is_current(pool.accounts, identity, c) {
            let c = choose|c: int| policy::is_current(pool.accounts, identity, c);
            lemma_current_is(pool, identity, c);
        }
    }
}

/// An API account that is signed in is switched to or reported as it is, without a quota.
pub proof fn law_api_account_is_chosen_without_usage(
    options: SelectOptions,
    pool: PoolModel,
    live: LiveIdentity,
    i: int,
)
    requires
        policy::is_current_api(pool.accounts, live, i),
    ensures
        match step_with_identity(options, pool, Some(live)) {
            SelectModel::Switch { record, usage } => options.perform_switch && record
                == pool.accounts[i] && usage.five_hour_remaining_percent is None
                && usage.weekly_remaining_percent is None,
            SelectModel::Done { selection: Some(pair) } => !options.perform_switch && pair.0
                == pool.accounts[i] && pair.1.five_hour_remaining_percent is None
                && pair.1.weekly_remaining_percent is None,
            _ => false,
        },
{
    lemma_current_api_is(pool, live, i);
}

/// Without an API account that is signed in, all accounts are refreshed before any is chosen,
/// and it is not forgotten who is signed in.
pub proof fn law_accounts_are_refreshed_first(
    options: SelectOptions,
    login_if_unusable: bool,
    pool: PoolModel,
    live: Option<LiveIdentity>,
)
    requires
        live matches Some(identity) ==> forall|i: int|
            !policy::is_current_api(pool.accounts, identity, i),
    ensures
        next_step(
            options,
            login_if_unusable,
            pool,
            SelectModel::ReadIdentity,
            SelectEvent::Identified(live),
        ) == (SelectModel::RefreshAll { live }),
{
}

/// A selection begins with the import of known credentials unless told not to, and goes on to
/// who is signed in where there are accounts; an empty pool is filled by a login unless that is
/// not wanted.
pub proof fn law_selection_begins(options: SelectOptions, login: bool, pool: PoolModel)
    ensures
        initial_step(options, pool) is Import <==> !options.no_import_known,
        pool.accounts.len() > 0 ==> next_step(
            options,
            login,
            pool,
            SelectModel::Import,
            SelectEvent::Imported,
        ) == SelectModel::ReadIdentity,
        pool.accounts.len() == 0 ==> next_step(
            options,
            login,
            pool,
            SelectModel::Import,
            SelectEvent::Imported,
        ) == (if options.no_login {
            SelectModel::Done { selection: None }
        } else {
            SelectModel::LogIn
        }),
        options.no_import_known ==> initial_step(options, pool) == next_step(
            options,
            login,
            pool,
            SelectModel::Import,
            SelectEvent::Imported,
        ),
{
}

/// An account that was logged in is refreshed and then chosen, with the usage that was
/// fetched.
pub proof fn law_logged_in_account_is_chosen(
    options: SelectOptions,
    login: bool,
    pool: PoolModel,
    record: AccountRecord,
    usage: UsageSnapshot,
)
    ensures
        next_step(options, login, pool, SelectModel::LogIn, SelectEvent::LoggedIn(record)) == (
        SelectModel::RefreshOne { record }),
        next_step(
            options,
            login,
            pool,
            SelectModel::RefreshOne { record },
            SelectEvent::RefreshedOne(usage),
        ) == (if options.perform_switch {
            SelectModel::Switch { record, usage: usage@ }
        } else {
            SelectModel::Done { selection: Some((record, usage@)) }
        }),
        next_step(
            options,
            login,
            pool,
            SelectModel::Switch { record, usage: usage@ },
            SelectEvent::Switched,
        ) == (SelectModel::Done { selection: Some((record, usage@)) }),
{
}

/// Refreshing the accounts one after the other gives each subscription what was fetched for it,
/// and leaves nothing of an API account.
pub proof fn law_each_account_gets_its_usage(
    cache: Map<Seq<char>, UsageSnapshot>,
    accounts: Seq<AccountRecord>,
    fetched: Seq<UsageSnapshot>,
    i: int,
)
    requires
        ids_are_distinct(accounts),
        0 <= i < accounts.len(),
    ensures
        accounts[i].account_type == AccountType::Subscription ==> {
            &&& refreshed_cache(cache, accounts, fetched).contains_key(accounts[i].id@)
            &&& refreshed_cache(cache, accounts, fetched)[accounts[i].id@] == fetched[i]
        },
        accounts[i].account_type == AccountType::Api ==> !refreshed_cache(
            cache,
            accounts,
            fetched,
        ).contains_key(accounts[i].id@),
    decreases accounts.len(),
{
    let n = accounts.len() - 1;
    let rest = accounts.drop_last();
    assert forall|a: int, b: int| 0 <= a < b < rest.len() implies (#[trigger] rest[a]).id@ != (
    #[trigger] rest[b]).id@ by {
        assert(accounts[a].id@ != accounts[b].id@);
    }
    if i < n {
        law_each_account_gets_its_usage(cache, rest, fetched, i);
        assert(rest[i] == accounts[i]);
        assert(accounts[i].id@ != accounts[n].id@);
    }
}

} // verus!
