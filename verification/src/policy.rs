//! Which account to use.

use vstd::prelude::*;

use crate::state::{
    AccountRankInput, AccountRecord, LiveIdentity, State, UsageSnapshot,
    CURRENT_ACCOUNT_MIN_FIVE_HOUR_PERCENT,
};
use crate::text;

verus! {

// ---------------------------------------------------------------------------
// Ranking
// ---------------------------------------------------------------------------

/// What accounts are compared by, from the first that differs on: their priority for
/// selection, their freshness, their last refresh and their last change.
pub struct Score {
    pub selection: i64,
    pub freshness: i64,
    pub synced_at: i64,
    pub updated_at: i64,
}

impl Score {
    /// Whether this score is lower than the other.
    pub open spec fn less(self, other: Score) -> bool {
        ||| self.selection < other.selection
        ||| self.selection == other.selection && self.freshness < other.freshness
        ||| self.selection == other.selection && self.freshness == other.freshness
            && self.synced_at < other.synced_at
        ||| self.selection == other.selection && self.freshness == other.freshness
            && self.synced_at == other.synced_at && self.updated_at < other.updated_at
    }

    /// Whether this score is lower than the other.
    pub fn is_less(&self, other: &Score) -> (r: bool)
        ensures
            r == self.less(*other),
    {
        if self.selection != other.selection {
            self.selection < other.selection
        } else if self.freshness != other.freshness {
            self.freshness < other.freshness
        } else if self.synced_at != other.synced_at {
            self.synced_at < other.synced_at
        } else {
            self.updated_at < other.updated_at
        }
    }
}

/// The ranking of an account that can be selected: its last refresh did not fail, and
/// one of its priorities is above zero.
pub open spec fn usable_rank(usage: UsageSnapshot) -> Option<AccountRankInput> {
    if usage.failed() {
        None
    } else {
        match usage.rank_input {
            Some(rank) if rank.keep_current_priority > 0 || rank.selection_priority > 0 => Some(
                rank,
            ),
            _ => None,
        }
    }
}

/// The ranking of the account, where it can be selected.
pub fn usable_rank_input(usage: &UsageSnapshot) -> (r: Option<AccountRankInput>)
    ensures
        r == usable_rank(*usage),
{
    if usage.needs_relogin || usage.last_sync_error.is_some() {
        return None;
    }
    match usage.rank_input {
        Some(rank) => if rank.keep_current_priority > 0 || rank.selection_priority > 0 {
            Some(rank)
        } else {
            None
        },
        None => None,
    }
}

/// Whether the account can be selected.
pub fn is_ranked_account_usable(usage: &UsageSnapshot) -> (r: bool)
    ensures
        r == (usable_rank(*usage) is Some),
{
    usable_rank_input(usage).is_some()
}

/// The score of an account.
pub open spec fn score_of(
    account: AccountRecord,
    usage: UsageSnapshot,
    rank: AccountRankInput,
) -> Score {
    Score {
        selection: rank.selection_priority,
        freshness: rank.freshness_priority,
        synced_at: match usage.last_synced_at {
            Some(at) => at,
            None => 0,
        },
        updated_at: account.updated_at,
    }
}

/// The score of an account.
pub fn build_score(
    account: &AccountRecord,
    usage: &UsageSnapshot,
    rank: &AccountRankInput,
) -> (r: Score)
    ensures
        r == score_of(*account, *usage, *rank),
{
    Score {
        selection: rank.selection_priority,
        freshness: rank.freshness_priority,
        synced_at: match usage.last_synced_at {
            Some(at) => at,
            None => 0,
        },
        updated_at: account.updated_at,
    }
}

/// Whether the account at `i` can be selected.
pub open spec fn is_candidate(
    accounts: Seq<AccountRecord>,
    cache: Map<Seq<char>, UsageSnapshot>,
    i: int,
) -> bool {
    &&& 0 <= i < accounts.len()
    &&& cache.contains_key(accounts[i].id@)
    &&& usable_rank(cache[accounts[i].id@]) is Some
}

/// The score of the account at `i`, where it can be selected.
pub open spec fn score_at(
    accounts: Seq<AccountRecord>,
    cache: Map<Seq<char>, UsageSnapshot>,
    i: int,
) -> Score {
    let usage = cache[accounts[i].id@];
    score_of(accounts[i], usage, usable_rank(usage)->0)
}

/// Whether the account at `i` is the best: it can be selected, no account that can has
/// a higher score, and none before it has the same.
pub open spec fn is_best(
    accounts: Seq<AccountRecord>,
    cache: Map<Seq<char>, UsageSnapshot>,
    i: int,
) -> bool {
    &&& is_candidate(accounts, cache, i)
    &&& forall|j: int| #[trigger]
        is_candidate(accounts, cache, j) ==> {
            &&& !score_at(accounts, cache, i).less(score_at(accounts, cache, j))
            &&& j < i ==> score_at(accounts, cache, j).less(score_at(accounts, cache, i))
        }
}

/// The position of the best account, where an account can be selected.
pub fn best_position(state: &State) -> (r: Option<usize>)
    ensures
        match r {
            Some(i) => is_best(state.accounts@, state.usage_cache@, i as int),
            None => forall|i: int| !is_candidate(state.accounts@, state.usage_cache@, i),
        },
{
    let ghost accounts = state.accounts@;
    let ghost cache = state.usage_cache@;
    let mut best: Option<(usize, Score)> = None;
    let mut i: usize = 0;
    while i < state.accounts.len()
        invariant
            i <= accounts.len(),
            accounts == state.accounts@,
            cache == state.usage_cache@,
            match best {
                Some(b) => {
                    &&& b.0 < i
                    &&& is_candidate(accounts, cache, b.0 as int)
                    &&& b.1 == score_at(accounts, cache, b.0 as int)
                    &&& forall|j: int|
                        j < i && #[trigger] is_candidate(accounts, cache, j) ==> {
                            &&& !b.1.less(score_at(accounts, cache, j))
                            &&& j < b.0 ==> score_at(accounts, cache, j).less(b.1)
                        }
                },
                None => forall|j: int| j < i ==> !is_candidate(accounts, cache, j),
            },
        decreases accounts.len() - i,
    {
        let account = &state.accounts[i];
        if let Some(usage) = state.usage_cache.get(account.id.as_str()) {
            if let Some(rank) = usable_rank_input(usage) {
                let score = build_score(account, usage, &rank);
                assert(is_candidate(accounts, cache, i as int));
                assert(score == score_at(accounts, cache, i as int));
                let better = match &best {
                    Some(b) => b.1.is_less(&score),
                    None => true,
                };
                if better {
                    best = Some((i, score));
                }
            }
        }
        i += 1;
    }
    match best {
        Some(b) => Some(b.0),
        None => None,
    }
}

/// The best account: of those that can be selected the one with the highest score, and
/// the first of them where several have it.
pub fn choose_best_account<'a>(state: &'a State) -> (r: Option<&'a AccountRecord>)
    ensures
        match r {
            Some(account) => exists|i: int|
                #![trigger state.accounts@[i]]
                is_best(state.accounts@, state.usage_cache@, i) && *account == state.accounts@[i],
            None => forall|i: int| !is_candidate(state.accounts@, state.usage_cache@, i),
        },
{
    match best_position(state) {
        Some(i) => Some(&state.accounts[i]),
        None => None,
    }
}

/// There is at most one best account.
pub proof fn law_best_is_unique(
    accounts: Seq<AccountRecord>,
    cache: Map<Seq<char>, UsageSnapshot>,
    i: int,
    j: int,
)
    requires
        is_best(accounts, cache, i),
        is_best(accounts, cache, j),
    ensures
        i == j,
{
    assert(is_candidate(accounts, cache, i));
    assert(is_candidate(accounts, cache, j));
}

/// An account is only ever preferred for a reason: the best account has at least the
/// priority for selection of every account that can be selected.
pub proof fn law_best_has_highest_priority(
    accounts: Seq<AccountRecord>,
    cache: Map<Seq<char>, UsageSnapshot>,
    best: int,
    other: int,
)
    requires
        is_best(accounts, cache, best),
        is_candidate(accounts, cache, other),
    ensures
        score_at(accounts, cache, other).selection <= score_at(accounts, cache, best).selection,
{
}

/// Where an account can be selected, there is a best one.
pub proof fn law_best_exists(
    accounts: Seq<AccountRecord>,
    cache: Map<Seq<char>, UsageSnapshot>,
    candidate: int,
)
    requires
        is_candidate(accounts, cache, candidate),
    ensures
        exists|i: int| is_best(accounts, cache, i),
{
    lemma_best_below(accounts, cache, accounts.len() as int);
    let b = choose|b: int| is_best_below(accounts, cache, b, accounts.len() as int);
    assert(is_best(accounts, cache, b));
}

spec fn is_best_below(
    accounts: Seq<AccountRecord>,
    cache: Map<Seq<char>, UsageSnapshot>,
    i: int,
    n: int,
) -> bool {
    &&& i < n
    &&& is_candidate(accounts, cache, i)
    &&& forall|j: int|
        j < n && #[trigger] is_candidate(accounts, cache, j) ==> {
            &&& !score_at(accounts, cache, i).less(score_at(accounts, cache, j))
            &&& j < i ==> score_at(accounts, cache, j).less(score_at(accounts, cache, i))
        }
}

proof fn lemma_best_below(
    accounts: Seq<AccountRecord>,
    cache: Map<Seq<char>, UsageSnapshot>,
    n: int,
)
    requires
        0 <= n <= accounts.len(),
    ensures
        (exists|i: int| is_best_below(accounts, cache, i, n)) || (forall|j: int|
            j < n ==> !is_candidate(accounts, cache, j)),
    decreases n,
{
    if n > 0 {
        let m = n - 1;
        lemma_best_below(accounts, cache, m);
        if exists|i: int| is_best_below(accounts, cache, i, m) {
            let b = choose|i: int| is_best_below(accounts, cache, i, m);
            if is_candidate(accounts, cache, n - 1) && score_at(accounts, cache, b).less(
                score_at(accounts, cache, n - 1),
            ) {
                assert(is_best_below(accounts, cache, n - 1, n));
            } else {
                assert(is_best_below(accounts, cache, b, n));
            }
        } else if is_candidate(accounts, cache, n - 1) {
            assert(is_best_below(accounts, cache, n - 1, n));
        }
    }
}

// ---------------------------------------------------------------------------
// The current account
// ---------------------------------------------------------------------------

/// Whether both name an adapter, and not the same.
pub open spec fn adapters_differ(account: AccountRecord, live: LiveIdentity) -> bool {
    live.adapter_id@.len() > 0 && account.adapter_id@.len() > 0 && live.adapter_id@
        != account.adapter_id@
}

/// Whether the account goes by this alias.
pub open spec fn has_alias(account: AccountRecord, alias: Seq<char>) -> bool {
    ||| text::same_ignoring_case(account.shown_key(), alias)
    ||| text::same_ignoring_case(account.display_key@, alias)
    ||| text::opt_chars(account.account_id) == Some(alias)
}

/// Whether the live identity is that of the account: none of their adapters differ, and
/// the account's id, the name it is shown by, its remote id or an alias is the identity's.
pub open spec fn is_identity_of(account: AccountRecord, live: LiveIdentity) -> bool {
    let stable = text::opt_chars(live.stable_id);
    &&& !adapters_differ(account, live)
    &&& {
        ||| text::opt_chars(live.scodex_account_id) == Some(account.id@)
        ||| stable == Some(account.id@)
        ||| live.email@.len() > 0 && text::same_ignoring_case(account.shown_key(), live.email@)
        ||| stable is Some && text::opt_chars(account.account_id) == stable
        ||| stable is Some && text::same_ignoring_case(account.display_key@, stable->0)
        ||| exists|i: int|
            0 <= i < live.aliases@.len() && has_alias(account, (#[trigger] live.aliases@[i])@)
    }
}

/// Whether the live identity is that of the account.
pub fn identity_matches(account: &AccountRecord, live: &LiveIdentity) -> (r: bool)
    ensures
        r == is_identity_of(*account, *live),
{
    if !live.adapter_id.as_str().is_empty() && !account.adapter_id.as_str().is_empty()
        && !text::same_text(live.adapter_id.as_str(), account.adapter_id.as_str()) {
        return false;
    }
    if text::is_text(text::as_deref(&live.scodex_account_id), account.id.as_str()) {
        return true;
    }
    if text::is_text(text::as_deref(&live.stable_id), account.id.as_str()) {
        return true;
    }
    if !live.email.as_str().is_empty() && text::eq_ignore_case(
        account.effective_display_key(),
        live.email.as_str(),
    ) {
        return true;
    }
    if let Some(stable) = &live.stable_id {
        if text::is_text(text::as_deref(&account.account_id), stable.as_str()) {
            return true;
        }
        if text::eq_ignore_case(account.display_key.as_str(), stable.as_str()) {
            return true;
        }
    }
    let mut i: usize = 0;
    while i < live.aliases.len()
        invariant
            i <= live.aliases@.len(),
            !adapters_differ(*account, *live),
            forall|k: int| 0 <= k < i ==> !has_alias(*account, (#[trigger] live.aliases@[k])@),
        decreases live.aliases@.len() - i,
    {
        let alias = live.aliases[i].as_str();
        if text::eq_ignore_case(account.effective_display_key(), alias) || text::eq_ignore_case(
            account.display_key.as_str(),
            alias,
        ) || text::is_text(text::as_deref(&account.account_id), alias) {
            assert(has_alias(*account, live.aliases@[i as int]@));
            return true;
        }
        i += 1;
    }
    false
}

/// Whether the account at `i` is the first with the live identity.
pub open spec fn is_current(accounts: Seq<AccountRecord>, live: LiveIdentity, i: int) -> bool {
    &&& 0 <= i < accounts.len()
    &&& is_identity_of(accounts[i], live)
    &&& forall|j: int| 0 <= j < i ==> !is_identity_of(#[trigger] accounts[j], live)
}

/// The first account with the live identity.
pub fn choose_current_account<'a>(state: &'a State, live: Option<&LiveIdentity>) -> (r: Option<
    &'a AccountRecord,
>)
    ensures
        match (r, live) {
            (Some(account), Some(live)) => exists|i: int|
                #![trigger state.accounts@[i]]
                is_current(state.accounts@, *live, i) && *account == state.accounts@[i],
            (Some(_), None) => false,
            (None, Some(live)) => forall|j: int|
                0 <= j < state.accounts@.len() ==> !is_identity_of(
                    #[trigger] state.accounts@[j],
                    *live,
                ),
            (None, None) => true,
        },
{
    let identity = match live {
        Some(identity) => identity,
        None => return None,
    };
    let mut i: usize = 0;
    while i < state.accounts.len()
        invariant
            i <= state.accounts@.len(),
            live == Some(identity),
            forall|j: int|
                0 <= j < i ==> !is_identity_of(#[trigger] state.accounts@[j], *identity),
        decreases state.accounts@.len() - i,
    {
        if identity_matches(&state.accounts[i], identity) {
            assert(is_current(state.accounts@, *identity, i as int));
            return Some(&state.accounts[i]);
        }
        i += 1;
    }
    None
}

/// Whether the account at `i` is the first API account with the live identity.
pub open spec fn is_current_api(accounts: Seq<AccountRecord>, live: LiveIdentity, i: int) -> bool {
    &&& 0 <= i < accounts.len()
    &&& is_api_identity_of(accounts[i], live)
    &&& forall|j: int| 0 <= j < i ==> !is_api_identity_of(#[trigger] accounts[j], live)
}

/// Whether the account is an API account with the live identity.
pub open spec fn is_api_identity_of(account: AccountRecord, live: LiveIdentity) -> bool {
    account.account_type == crate::state::AccountType::Api && is_identity_of(account, live)
}

/// The first API account with the live identity.
pub fn choose_current_api_account<'a>(state: &'a State, live: Option<&LiveIdentity>) -> (r: Option<
    &'a AccountRecord,
>)
    ensures
        match (r, live) {
            (Some(account), Some(live)) => exists|i: int|
                #![trigger state.accounts@[i]]
                is_current_api(state.accounts@, *live, i) && *account == state.accounts@[i],
            (Some(_), None) => false,
            (None, Some(live)) => forall|j: int|
                0 <= j < state.accounts@.len() ==> !is_api_identity_of(
                    #[trigger] state.accounts@[j],
                    *live,
                ),
            (None, None) => true,
        },
{
    let identity = match live {
        Some(identity) => identity,
        None => return None,
    };
    let mut i: usize = 0;
    while i < state.accounts.len()
        invariant
            i <= state.accounts@.len(),
            live == Some(identity),
            forall|j: int|
                0 <= j < i ==> !is_api_identity_of(#[trigger] state.accounts@[j], *identity),
        decreases state.accounts@.len() - i,
    {
        if state.accounts[i].is_api() && identity_matches(&state.accounts[i], identity) {
            assert(is_current_api(state.accounts@, *identity, i as int));
            return Some(&state.accounts[i]);
        }
        i += 1;
    }
    None
}

/// Whether the current account is worth keeping: its last refresh did not fail, and it
/// has at least 20 percent of its five-hour quota left.
pub open spec fn worth_keeping(usage: UsageSnapshot) -> bool {
    &&& !usage.failed()
    &&& usage.five_hour_remaining_percent matches Some(percent)
        && percent >= CURRENT_ACCOUNT_MIN_FIVE_HOUR_PERCENT
}

/// Whether the current account is worth keeping.
pub fn keeps_current_account(usage: &UsageSnapshot) -> (r: bool)
    ensures
        r == worth_keeping(*usage),
{
    if usage.needs_relogin || usage.last_sync_error.is_some() {
        return false;
    }
    match usage.five_hour_remaining_percent {
        Some(percent) => percent >= CURRENT_ACCOUNT_MIN_FIVE_HOUR_PERCENT,
        None => false,
    }
}

/// An identity of another adapter matches no account of this one.
pub proof fn law_other_adapter_never_matches(account: AccountRecord, live: LiveIdentity)
    requires
        live.adapter_id@.len() > 0,
        account.adapter_id@.len() > 0,
        live.adapter_id@ != account.adapter_id@,
    ensures
        !is_identity_of(account, live),
{
}

/// Whether an account is the current one does not depend on the case in which the live
/// identity writes its email.
pub proof fn law_identity_ignores_email_case(
    account: AccountRecord,
    live: LiveIdentity,
    other: LiveIdentity,
)
    requires
        other.adapter_id == live.adapter_id,
        other.stable_id == live.stable_id,
        other.aliases == live.aliases,
        other.scodex_account_id == live.scodex_account_id,
        text::same_ignoring_case(live.email@, other.email@),
    ensures
        is_identity_of(account, live) == is_identity_of(account, other),
{
    assert(text::lowercase(live.email@).len() == live.email@.len());
    assert(text::lowercase(other.email@).len() == other.email@.len());
}

/// An account can be selected exactly where it was refreshed without an error and one of its
/// two priorities is above zero: either of them alone is enough.
pub proof fn law_one_priority_is_enough(
    accounts: Seq<AccountRecord>,
    cache: Map<Seq<char>, UsageSnapshot>,
    i: int,
    keep: i64,
    selection: i64,
)
    requires
        0 <= i < accounts.len(),
        cache.contains_key(accounts[i].id@),
        cache[accounts[i].id@].rank_input matches Some(rank) && rank.keep_current_priority == keep
            && rank.selection_priority == selection,
    ensures
        is_candidate(accounts, cache, i) <==> (!cache[accounts[i].id@].needs_relogin
            && cache[accounts[i].id@].last_sync_error is None && (keep > 0 || selection > 0)),
{
}

/// An account of which nothing is known, or that was never ranked, is not selected.
pub proof fn law_unranked_account_is_not_selected(
    accounts: Seq<AccountRecord>,
    cache: Map<Seq<char>, UsageSnapshot>,
    i: int,
)
    requires
        0 <= i < accounts.len(),
        !cache.contains_key(accounts[i].id@) || cache[accounts[i].id@].rank_input is None,
    ensures
        !is_candidate(accounts, cache, i),
{
}

/// The best account beats every other that can be selected on the first of these in which
/// they differ: the priority for selection, the freshness, the time of the last refresh, the
/// time of the last change. Where they differ in none, it is stored first.
pub proof fn law_best_wins_the_comparison(
    accounts: Seq<AccountRecord>,
    cache: Map<Seq<char>, UsageSnapshot>,
    best: int,
    other: int,
    mine: AccountRankInput,
    its: AccountRankInput,
    my_time: i64,
    its_time: i64,
)
    requires
        is_best(accounts, cache, best),
        is_candidate(accounts, cache, other),
        best != other,
        cache[accounts[best].id@].rank_input == Some(mine),
        cache[accounts[other].id@].rank_input == Some(its),
        cache[accounts[best].id@].last_synced_at == Some(my_time),
        cache[accounts[other].id@].last_synced_at == Some(its_time),
    ensures
        mine.selection_priority >= its.selection_priority,
        mine.selection_priority == its.selection_priority ==> mine.freshness_priority
            >= its.freshness_priority,
        mine.selection_priority == its.selection_priority && mine.freshness_priority
            == its.freshness_priority ==> my_time >= its_time,
        mine.selection_priority == its.selection_priority && mine.freshness_priority
            == its.freshness_priority && my_time == its_time ==> accounts[best].updated_at
            >= accounts[other].updated_at,
        mine.selection_priority == its.selection_priority && mine.freshness_priority
            == its.freshness_priority && my_time == its_time && accounts[best].updated_at
            == accounts[other].updated_at ==> best < other,
{
}

/// An account that was never refreshed counts as refreshed at the beginning of time.
pub proof fn law_never_refreshed_is_oldest(
    accounts: Seq<AccountRecord>,
    cache: Map<Seq<char>, UsageSnapshot>,
    best: int,
    other: int,
    its_time: i64,
)
    requires
        is_best(accounts, cache, best),
        is_candidate(accounts, cache, other),
        cache[accounts[best].id@].rank_input == cache[accounts[other].id@].rank_input,
        cache[accounts[best].id@].last_synced_at is None,
        cache[accounts[other].id@].last_synced_at == Some(its_time),
    ensures
        its_time <= 0,
{
}

/// An identity that names the id of an account is that account's, whatever else it says, as
/// long as it is of the same adapter or of none.
pub proof fn law_identity_by_id(account: AccountRecord, live: LiveIdentity)
    requires
        live.adapter_id@.len() == 0 || account.adapter_id@.len() == 0 || live.adapter_id@
            == account.adapter_id@,
        (live.scodex_account_id matches Some(id) && id@ == account.id@) || (
        live.stable_id matches Some(id) && id@ == account.id@),
    ensures
        is_identity_of(account, live),
{
}

/// An identity with the email of an account, in whatever case, is that account's, where the
/// account is shown by its email.
pub proof fn law_identity_by_email(account: AccountRecord, live: LiveIdentity)
    requires
        live.adapter_id@.len() == 0 || account.adapter_id@.len() == 0,
        account.display_key@.len() == 0,
        account.email@.len() > 0,
        live.email@.len() == account.email@.len(),
        forall|i: int|
            0 <= i < live.email@.len() ==> text::ascii_lower(#[trigger] live.email@[i])
                == text::ascii_lower(account.email@[i]),
    ensures
        is_identity_of(account, live),
{
    assert(text::lowercase(account.email@) =~= text::lowercase(live.email@));
}

/// An identity whose lasting id, or one of whose aliases, is the remote id of an account is
/// that account's.
pub proof fn law_identity_by_remote_id(
    account: AccountRecord,
    live: LiveIdentity,
    id: Seq<char>,
    alias: int,
)
    requires
        live.adapter_id@.len() == 0 || account.adapter_id@.len() == 0,
        account.account_id matches Some(own) && own@ == id,
        (live.stable_id matches Some(lasting) && lasting@ == id) || (0 <= alias
            < live.aliases@.len() && live.aliases@[alias]@ == id),
    ensures
        is_identity_of(account, live),
{
    if 0 <= alias < live.aliases@.len() && live.aliases@[alias]@ == id {
        assert(has_alias(account, live.aliases@[alias]@));
    }
}

/// An identity that shares no name with an account is not that account's.
pub proof fn law_stranger_is_not_matched(account: AccountRecord, live: LiveIdentity)
    requires
        live.scodex_account_id matches Some(id) ==> id@ != account.id@,
        live.stable_id is None,
        live.aliases@.len() == 0,
        live.email@.len() == 0 || live.email@.len() != account.shown_key().len(),
    ensures
        !is_identity_of(account, live),
{
    assert(text::lowercase(account.shown_key()).len() == account.shown_key().len());
    assert(text::lowercase(live.email@).len() == live.email@.len());
}

/// Where an account has the live identity, one such account is the current one, and none
/// that is stored before it has the identity.
pub proof fn law_first_match_is_current(
    accounts: Seq<AccountRecord>,
    live: LiveIdentity,
    i: int,
) -> (current: int)
    requires
        0 <= i < accounts.len(),
        is_identity_of(accounts[i], live),
    ensures
        0 <= current <= i,
        is_current(accounts, live, current),
        is_identity_of(accounts[current], live),
    decreases i,
{
    if exists|j: int| 0 <= j < i && is_identity_of(#[trigger] accounts[j], live) {
        let j = choose|j: int| 0 <= j < i && is_identity_of(#[trigger] accounts[j], live);
        law_first_match_is_current(accounts, live, j)
    } else {
        i
    }
}

/// Only an API account is the current API account, and it is one that has the identity.
pub proof fn law_current_api_account_is_one(
    accounts: Seq<AccountRecord>,
    live: LiveIdentity,
    i: int,
)
    requires
        is_current_api(accounts, live, i),
    ensures
        0 <= i < accounts.len(),
        accounts[i].account_type == crate::state::AccountType::Api,
        is_identity_of(accounts[i], live),
        forall|j: int|
            0 <= j < i && is_identity_of(accounts[j], live) ==> (#[trigger] accounts[j]).account_type
                == crate::state::AccountType::Subscription,
{
    assert forall|j: int| 0 <= j < i && is_identity_of(accounts[j], live) implies (
    #[trigger] accounts[j]).account_type == crate::state::AccountType::Subscription by {
        assert(!is_api_identity_of(accounts[j], live));
    }
}

/// At most one account is the current one, and at most one the current API account.
pub proof fn law_one_account_is_current(
    accounts: Seq<AccountRecord>,
    live: LiveIdentity,
    i: int,
    j: int,
)
    ensures
        is_current(accounts, live, i) && is_current(accounts, live, j) ==> i == j,
        is_current_api(accounts, live, i) && is_current_api(accounts, live, j) ==> i == j,
{
    if i < j {
        if is_current(accounts, live, j) && 0 <= i {
            assert(!is_identity_of(accounts[i], live));
        }
        if is_current_api(accounts, live, j) && 0 <= i {
            assert(!is_api_identity_of(accounts[i], live));
        }
    }
    if j < i {
        if is_current(accounts, live, i) && 0 <= j {
            assert(!is_identity_of(accounts[j], live));
        }
        if is_current_api(accounts, live, i) && 0 <= j {
            assert(!is_api_identity_of(accounts[j], live));
        }
    }
}

/// Where an API account has the live identity, there is a current API account, at that place or
/// before.
pub proof fn law_api_account_with_the_identity_is_current(
    accounts: Seq<AccountRecord>,
    live: LiveIdentity,
    i: int,
) -> (current: int)
    requires
        0 <= i < accounts.len(),
        accounts[i].account_type == crate::state::AccountType::Api,
        is_identity_of(accounts[i], live),
    ensures
        0 <= current <= i,
        is_current_api(accounts, live, current),
    decreases i,
{
    if exists|j: int| 0 <= j < i && is_api_identity_of(#[trigger] accounts[j], live) {
        let j = choose|j: int| 0 <= j < i && is_api_identity_of(#[trigger] accounts[j], live);
        law_api_account_with_the_identity_is_current(accounts, live, j)
    } else {
        i
    }
}

/// A lasting id or an alias that is the display key of an account, in whatever case, is that of
/// the account, and so is an alias under which it is shown.
pub proof fn law_identity_by_display_key(account: AccountRecord, live: LiveIdentity, alias: int)
    requires
        live.adapter_id@.len() == 0 || account.adapter_id@.len() == 0,
        (live.stable_id matches Some(id) && text::lowercase(id@) == text::lowercase(
            account.display_key@,
        )) || (0 <= alias < live.aliases@.len() && (text::lowercase(live.aliases@[alias]@)
            == text::lowercase(account.display_key@) || text::lowercase(live.aliases@[alias]@)
            == text::lowercase(account.shown_key()))),
    ensures
        is_identity_of(account, live),
{
    if 0 <= alias < live.aliases@.len() {
        let name = live.aliases@[alias]@;
        assert(has_alias(account, name) || !(text::lowercase(name) == text::lowercase(
            account.display_key@,
        ) || text::lowercase(name) == text::lowercase(account.shown_key())));
    }
}

/// An identity is that of an account for a reason: they share an id, a name or an alias.
pub proof fn law_identity_has_a_reason(account: AccountRecord, live: LiveIdentity)
    requires
        live.scodex_account_id matches Some(id) ==> id@ != account.id@,
        live.stable_id matches Some(id) ==> id@ != account.id@ && (account.account_id matches Some(
            remote,
        ) ==> id@ != remote@) && text::lowercase(id@) != text::lowercase(account.display_key@),
        live.email@.len() == 0 || text::lowercase(live.email@) != text::lowercase(
            account.shown_key(),
        ),
        forall|i: int|
            0 <= i < live.aliases@.len() ==> {
                let name = (#[trigger] live.aliases@[i])@;
                &&& text::lowercase(name) != text::lowercase(account.shown_key())
                &&& text::lowercase(name) != text::lowercase(account.display_key@)
                &&& account.account_id matches Some(remote) ==> name != remote@
            },
    ensures
        !is_identity_of(account, live),
{
}

} // verus!
