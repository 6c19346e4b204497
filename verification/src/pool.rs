//! The pool of accounts: importing, switching and removing them.

use vstd::prelude::*;

use crate::account;
use crate::account::{ApiLoginRequest, Unprintable};
use crate::adapter::CodexAdapter;
use crate::auth;
use crate::auth::{IdentityError, IdentityModel, LiveIdentityWithPlan};
use crate::json;
use crate::json::{Json, JsonModel};
use crate::outside;
use crate::paths;
use crate::paths::Platform;
use crate::state;
use crate::state::{AccountModel, AccountRecord, AccountType, LiveIdentity, State};
use crate::text;

verus! {

// ---------------------------------------------------------------------------
// Finding accounts
// ---------------------------------------------------------------------------

/// The directory of an account, and its credentials and configuration there.
pub fn account_home_paths(
    platform: Platform,
    state_dir: &str,
    id: &str,
) -> (r: (String, String, String))
    ensures
        r.0@ == home_of(platform, state_dir@, id@),
        r.1@ == paths::joined(platform, home_of(platform, state_dir@, id@), "auth.json"@),
        r.2@ == paths::joined(platform, home_of(platform, state_dir@, id@), "config.toml"@),
{
    let accounts = paths::join_path(platform, state_dir, "accounts");
    let home = paths::join_path(platform, accounts.as_str(), id);
    let auth = paths::join_path(platform, home.as_str(), "auth.json");
    let config = paths::join_path(platform, home.as_str(), "config.toml");
    (home, auth, config)
}

/// The directory of an account.
pub open spec fn home_of(platform: Platform, state_dir: Seq<char>, id: Seq<char>) -> Seq<char> {
    paths::joined(platform, paths::joined(platform, state_dir, "accounts"@), id)
}

/// Whether the account is that of the email or of the account id.
pub open spec fn is_of(
    account: AccountModel,
    email: Seq<char>,
    account_id: Option<Seq<char>>,
) -> bool {
    ||| text::same_ignoring_case(account.email, email)
    ||| account_id is Some && account.account_id == account_id
}

/// The position of the first account of the email or of the account id, or the number of
/// accounts.
pub open spec fn match_position(
    accounts: Seq<AccountModel>,
    email: Seq<char>,
    account_id: Option<Seq<char>>,
) -> int
    decreases accounts.len(),
{
    if accounts.len() == 0 || is_of(accounts.first(), email, account_id) {
        0
    } else {
        1 + match_position(accounts.drop_first(), email, account_id)
    }
}

/// The first account of the email or of the account id.
pub open spec fn matching(
    accounts: Seq<AccountModel>,
    email: Seq<char>,
    account_id: Option<Seq<char>>,
) -> Option<AccountModel> {
    let i = match_position(accounts, email, account_id);
    if i < accounts.len() {
        Some(accounts[i])
    } else {
        None
    }
}

/// What is known of an optional account.
pub open spec fn opt_account(account: Option<&AccountRecord>) -> Option<AccountModel> {
    match account {
        Some(a) => Some(a@),
        None => None,
    }
}

proof fn lemma_match_position(
    accounts: Seq<AccountModel>,
    email: Seq<char>,
    account_id: Option<Seq<char>>,
    i: int,
)
    requires
        0 <= i <= accounts.len(),
        forall|k: int| 0 <= k < i ==> !is_of(#[trigger] accounts[k], email, account_id),
        i < accounts.len() ==> is_of(accounts[i], email, account_id),
    ensures
        match_position(accounts, email, account_id) == i,
    decreases accounts.len(),
{
    if i > 0 {
        let rest = accounts.drop_first();
        assert(!is_of(accounts[0], email, account_id));
        assert forall|k: int| 0 <= k < i - 1 implies !is_of(
            #[trigger] rest[k],
            email,
            account_id,
        ) by {
            assert(!is_of(accounts[k + 1], email, account_id));
        }
        lemma_match_position(rest, email, account_id, i - 1);
    }
}

/// The first account of the email or of the account id.
pub fn find_matching_account<'a>(
    state: &'a State,
    email: &str,
    account_id: Option<&str>,
) -> (r: Option<&'a AccountRecord>)
    ensures
        opt_account(r) == matching(
            state::models(state.accounts@),
            email@,
            text::opt_str_chars(account_id),
        ),
{
    let ghost all = state::models(state.accounts@);
    let ghost wanted = text::opt_str_chars(account_id);
    let mut i: usize = 0;
    while i < state.accounts.len()
        invariant
            i <= state.accounts@.len(),
            all == state::models(state.accounts@),
            wanted == text::opt_str_chars(account_id),
            forall|k: int| 0 <= k < i ==> !is_of(#[trigger] all[k], email@, wanted),
        decreases state.accounts@.len() - i,
    {
        let account = &state.accounts[i];
        let same_id = match account_id {
            Some(id) => text::is_text(text::as_deref(&account.account_id), id),
            None => false,
        };
        if text::eq_ignore_case(account.email.as_str(), email) || same_id {
            proof {
                assert(all[i as int] == account@);
                lemma_match_position(all, email@, wanted, i as int);
            }
            return Some(account);
        }
        i += 1;
    }
    proof {
        lemma_match_position(all, email@, wanted, i as int);
    }
    None
}

/// The first account whose email is this one but for case.
pub fn find_account_by_email<'a>(state: &'a State, email: &str) -> (r: Option<&'a AccountRecord>)
    ensures
        opt_account(r) == matching(state::models(state.accounts@), email@, None),
{
    find_matching_account(state, email, None)
}

/// Whether the account goes by that name, in whatever case: its email, or the name by which
/// it is shown.
pub open spec fn goes_by(account: AccountModel, name: Seq<char>) -> bool {
    ||| text::same_ignoring_case(account.email, name)
    ||| text::same_ignoring_case(account::shown_name(account), name)
}

/// The first account that goes by the name.
pub open spec fn named(accounts: Seq<AccountModel>, name: Seq<char>) -> Option<AccountModel>
    decreases accounts.len(),
{
    if accounts.len() == 0 {
        None
    } else if goes_by(accounts.first(), name) {
        Some(accounts.first())
    } else {
        named(accounts.drop_first(), name)
    }
}

impl CodexAdapter {
    /// The first account whose email, or the name by which it is shown, is this one but for
    /// case and white space around it.
    pub fn find_account_by_email<'a>(&self, state: &'a State, email: &str) -> (r: Option<
        &'a AccountRecord,
    >)
        ensures
            opt_account(r) == named(state::models(state.accounts@), text::trimmed(email@)),
    {
        let target = text::trim(email);
        let ghost all = state::models(state.accounts@);
        let mut i: usize = 0;
        assert(all.skip(0) =~= all);
        while i < state.accounts.len()
            invariant
                i <= state.accounts@.len(),
                all == state::models(state.accounts@),
                target@ == text::trimmed(email@),
                named(all.skip(i as int), target@) == named(all, target@),
            decreases state.accounts@.len() - i,
        {
            assert(all.skip(i as int).first() == state.accounts@[i as int]@);
            assert(all.skip(i as int).drop_first() =~= all.skip(i + 1));
            let account = &state.accounts[i];
            let name = account::account_name(account);
            if text::eq_ignore_case(account.email.as_str(), target) || text::eq_ignore_case(
                name.as_str(),
                target,
            ) {
                return Some(account);
            }
            i += 1;
        }
        None
    }
}

/// An account is found by its name in whatever case it is written, and with whatever white
/// space around it.
pub proof fn law_account_is_found_in_any_case(
    accounts: Seq<AccountModel>,
    name: Seq<char>,
    written: Seq<char>,
)
    requires
        text::same_ignoring_case(text::trimmed(written), text::trimmed(name)),
    ensures
        named(accounts, text::trimmed(written)) == named(accounts, text::trimmed(name)),
    decreases accounts.len(),
{
    if accounts.len() > 0 {
        law_account_is_found_in_any_case(accounts.drop_first(), name, written);
    }
}

// ---------------------------------------------------------------------------
// Changing the pool
// ---------------------------------------------------------------------------

/// The position of the first account with that id, or the number of accounts.
pub open spec fn id_position(accounts: Seq<AccountModel>, id: Seq<char>) -> int
    decreases accounts.len(),
{
    if accounts.len() == 0 || accounts.first().id == id {
        0
    } else {
        1 + id_position(accounts.drop_first(), id)
    }
}

proof fn lemma_id_position(accounts: Seq<AccountModel>, id: Seq<char>, i: int)
    requires
        0 <= i <= accounts.len(),
        forall|k: int| 0 <= k < i ==> (#[trigger] accounts[k]).id != id,
        i < accounts.len() ==> accounts[i].id == id,
    ensures
        id_position(accounts, id) == i,
    decreases accounts.len(),
{
    if i > 0 {
        let rest = accounts.drop_first();
        assert(accounts[0].id != id);
        assert forall|k: int| 0 <= k < i - 1 implies (#[trigger] rest[k]).id != id by {
            assert(accounts[k + 1].id != id);
        }
        lemma_id_position(rest, id, i - 1);
    }
}

proof fn lemma_id_position_bounds(accounts: Seq<AccountModel>, id: Seq<char>)
    ensures
        0 <= id_position(accounts, id) <= accounts.len(),
        id_position(accounts, id) < accounts.len() ==> accounts[id_position(accounts, id)].id == id,
        forall|k: int| 0 <= k < id_position(accounts, id) ==> (#[trigger] accounts[k]).id != id,
    decreases accounts.len(),
{
    if accounts.len() > 0 && accounts.first().id != id {
        let rest = accounts.drop_first();
        lemma_id_position_bounds(rest, id);
        assert forall|k: int| 0 <= k < id_position(accounts, id) implies (
        #[trigger] accounts[k]).id != id by {
            if k > 0 {
                assert(rest[k - 1].id != id);
            }
        }
    }
}

fn position_of_id(accounts: &Vec<AccountRecord>, id: &str) -> (r: usize)
    ensures
        r <= accounts@.len(),
        r == id_position(state::models(accounts@), id@),
{
    let ghost all = state::models(accounts@);
    let mut i: usize = 0;
    while i < accounts.len() && !text::same_text(accounts[i].id.as_str(), id)
        invariant
            i <= accounts@.len(),
            all == state::models(accounts@),
            forall|k: int| 0 <= k < i ==> (#[trigger] all[k]).id != id@,
        decreases accounts@.len() - i,
    {
        assert(all[i as int].id == accounts@[i as int].id@);
        i += 1;
    }
    proof {
        if i < accounts.len() {
            assert(all[i as int].id == accounts@[i as int].id@);
        }
        lemma_id_position(all, id@, i as int);
    }
    i
}

/// The accounts with the account in place of the first with its id, or at the end.
pub open spec fn with_account(accounts: Seq<AccountModel>, account: AccountModel) -> Seq<
    AccountModel,
> {
    let i = id_position(accounts, account.id);
    if i < accounts.len() {
        accounts.update(i, account)
    } else {
        accounts.push(account)
    }
}

/// Puts the account in place of the one with its id, or adds it at the end.
pub fn replace_account(state: &mut State, updated: AccountRecord)
    ensures
        state::models(final(state).accounts@) == with_account(
            state::models(old(state).accounts@),
            updated@,
        ),
        final(state).usage_cache@ == old(state).usage_cache@,
        final(state).version == old(state).version,
        final(state).repo_sync == old(state).repo_sync,
{
    let ghost before = state::models(state.accounts@);
    let ghost account = updated@;
    let i = position_of_id(&state.accounts, updated.id.as_str());
    if i < state.accounts.len() {
        state.accounts.set(i, updated);
        assert(state::models(state.accounts@) =~= before.update(i as int, account));
    } else {
        state.accounts.push(updated);
        assert(state::models(state.accounts@) =~= before.push(account));
    }
}

/// After an account is put in the pool it is found there under its id, and every account
/// with another id is as it was.
pub proof fn law_replacing_keeps_the_others(
    accounts: Seq<AccountModel>,
    account: AccountModel,
    i: int,
)
    requires
        0 <= i < accounts.len(),
        accounts[i].id != account.id,
    ensures
        with_account(accounts, account)[i] == accounts[i],
        with_account(accounts, account).contains(account),
        accounts.len() <= with_account(accounts, account).len() <= accounts.len() + 1,
{
    lemma_id_position_bounds(accounts, account.id);
    let at = id_position(accounts, account.id);
    let after = with_account(accounts, account);
    if at < accounts.len() {
        assert(after[at] == account);
    } else {
        assert(after[accounts.len() as int] == account);
    }
}

/// Putting an account in the pool never makes an id occur twice.
pub proof fn law_replacing_keeps_ids_distinct(accounts: Seq<AccountModel>, account: AccountModel)
    requires
        distinct_ids(accounts),
    ensures
        distinct_ids(with_account(accounts, account)),
{
    lemma_id_position_bounds(accounts, account.id);
    let at = id_position(accounts, account.id);
    let after = with_account(accounts, account);
    assert forall|i: int, j: int| 0 <= i < j < after.len() implies (#[trigger] after[i]).id != (
    #[trigger] after[j]).id by {
        if i != at && j != at {
            assert(accounts[i].id != accounts[j].id);
        } else if at < accounts.len() {
            if i == at {
                assert(accounts[at].id != accounts[j].id);
            } else {
                assert(accounts[i].id != accounts[at].id);
            }
        } else {
            assert(j == at);
            assert(accounts[i].id != account.id);
        }
    }
}

/// No id occurs twice.
pub open spec fn distinct_ids(accounts: Seq<AccountModel>) -> bool {
    forall|i: int, j: int|
        0 <= i < j < accounts.len() ==> (#[trigger] accounts[i]).id != (#[trigger] accounts[j]).id
}

/// The accounts that do not have that id, in order.
pub open spec fn without_id(accounts: Seq<AccountModel>, id: Seq<char>) -> Seq<AccountModel>
    decreases accounts.len(),
{
    if accounts.len() == 0 {
        accounts
    } else {
        let rest = without_id(accounts.drop_last(), id);
        if accounts.last().id == id {
            rest
        } else {
            rest.push(accounts.last())
        }
    }
}

impl CodexAdapter {
    /// Removes the account from the pool and what is known of its usage, and returns its
    /// directory, which is to be deleted.
    pub fn remove_account(
        &self,
        platform: Platform,
        state_dir: &str,
        state: &mut State,
        id: &str,
    ) -> (r: String)
        ensures
            r@ == home_of(platform, state_dir@, id@),
            state::models(final(state).accounts@) == without_id(
                state::models(old(state).accounts@),
                id@,
            ),
            final(state).usage_cache@ == old(state).usage_cache@.remove(id@),
            final(state).version == old(state).version,
            final(state).repo_sync == old(state).repo_sync,
    {
        let ghost before = state::models(state.accounts@);
        let mut kept: Vec<AccountRecord> = Vec::new();
        let mut i: usize = 0;
        while i < state.accounts.len()
            invariant
                i <= state.accounts@.len(),
                *state == *old(state),
                before == state::models(state.accounts@),
                state::models(kept@) == without_id(before.take(i as int), id@),
            decreases state.accounts@.len() - i,
        {
            assert(before.take(i + 1).drop_last() =~= before.take(i as int));
            assert(before.take(i + 1).last() == state.accounts@[i as int]@);
            let ghost so_far = state::models(kept@);
            if !text::same_text(state.accounts[i].id.as_str(), id) {
                kept.push(state.accounts[i].clone());
                assert(state::models(kept@) =~= so_far.push(state.accounts@[i as int]@));
            }
            i += 1;
        }
        assert(before.take(i as int) =~= before);
        state.accounts = kept;
        state.usage_cache.remove(id);
        let (home, _, _) = account_home_paths(platform, state_dir, id);
        home
    }
}

/// After an account is removed no account has its id, and every other account is still
/// there.
pub proof fn law_removing_removes_only_it(
    accounts: Seq<AccountModel>,
    id: Seq<char>,
    account: AccountModel,
)
    ensures
        without_id(accounts, id).contains(account) <==> (accounts.contains(account) && account.id
            != id),
    decreases accounts.len(),
{
    let after = without_id(accounts, id);
    if accounts.len() > 0 {
        let rest = accounts.drop_last();
        law_removing_removes_only_it(rest, id, account);
        let kept = without_id(rest, id);
        if after.contains(account) {
            let i = choose|i: int| 0 <= i < after.len() && after[i] == account;
            if i < kept.len() {
                assert(kept[i] == account);
                let j = choose|j: int| 0 <= j < rest.len() && rest[j] == account;
                assert(accounts[j] == account);
            } else {
                assert(accounts[accounts.len() - 1] == account);
            }
        }
        if accounts.contains(account) && account.id != id {
            let j = choose|j: int| 0 <= j < accounts.len() && accounts[j] == account;
            if j < rest.len() {
                assert(rest[j] == account);
                let i = choose|i: int| 0 <= i < kept.len() && kept[i] == account;
                assert(after[i] == account);
            } else {
                assert(after[after.len() - 1] == account);
            }
        }
    }
}

/// Whether an account before the one at `n` has its id.
pub open spec fn has_earlier_id(accounts: Seq<AccountModel>, n: int) -> bool {
    exists|i: int| 0 <= i < n && (#[trigger] accounts[i]).id == accounts[n].id
}

/// The accounts without those whose id occurred before, in order.
pub open spec fn deduplicated(accounts: Seq<AccountModel>) -> Seq<AccountModel>
    decreases accounts.len(),
{
    if accounts.len() == 0 {
        accounts
    } else {
        let rest = deduplicated(accounts.drop_last());
        if has_earlier_id(accounts, accounts.len() - 1) {
            rest
        } else {
            rest.push(accounts.last())
        }
    }
}

/// The accounts without those whose id occurred before.
pub fn dedupe_imported(accounts: Vec<AccountRecord>) -> (r: Vec<AccountRecord>)
    ensures
        state::models(r@) == deduplicated(state::models(accounts@)),
{
    let ghost all = state::models(accounts@);
    let mut result: Vec<AccountRecord> = Vec::new();
    let mut i: usize = 0;
    while i < accounts.len()
        invariant
            i <= accounts@.len(),
            all == state::models(accounts@),
            state::models(result@) == deduplicated(all.take(i as int)),
        decreases accounts@.len() - i,
    {
        let p = id_stands_before(&accounts, i);
        let ghost taken = all.take(i + 1);
        assert(taken.drop_last() =~= all.take(i as int));
        assert(taken.last() == accounts@[i as int]@);
        assert(has_earlier_id(taken, i as int) == p) by {
            if p {
                let k = choose|k: int|
                    0 <= k < i && (#[trigger] accounts@[k]).id@ == accounts@[i as int].id@;
                assert(taken[k].id == taken[i as int].id);
            }
            if has_earlier_id(taken, i as int) {
                let k = choose|k: int| 0 <= k < i && (#[trigger] taken[k]).id == taken[i as int].id;
                assert(accounts@[k].id@ == accounts@[i as int].id@);
            }
        }
        let ghost so_far = state::models(result@);
        if !p {
            result.push(accounts[i].clone());
            assert(state::models(result@) =~= so_far.push(accounts@[i as int]@));
        }
        i += 1;
    }
    assert(all.take(i as int) =~= all);
    result
}

fn id_stands_before(accounts: &Vec<AccountRecord>, n: usize) -> (r: bool)
    requires
        n < accounts@.len(),
    ensures
        r == exists|k: int|
            0 <= k < n && (#[trigger] accounts@[k]).id@ == accounts@[n as int].id@,
{
    let mut k: usize = 0;
    while k < n
        invariant
            k <= n < accounts@.len(),
            forall|j: int| 0 <= j < k ==> (#[trigger] accounts@[j]).id@ != accounts@[n as int].id@,
        decreases n - k,
    {
        if text::same_text(accounts[k].id.as_str(), accounts[n].id.as_str()) {
            return true;
        }
        k += 1;
    }
    false
}

/// What is left of the imported accounts has no id twice.
pub proof fn law_imported_once(accounts: Seq<AccountModel>)
    ensures
        distinct_ids(deduplicated(accounts)),
        forall|i: int|
            0 <= i < deduplicated(accounts).len() ==> accounts.contains(
                #[trigger] deduplicated(accounts)[i],
            ),
    decreases accounts.len(),
{
    if accounts.len() > 0 {
        let rest = accounts.drop_last();
        law_imported_once(rest);
        let kept = deduplicated(rest);
        let after = deduplicated(accounts);
        let n = accounts.len() - 1;
        assert forall|i: int| 0 <= i < kept.len() implies accounts.contains(#[trigger] kept[i]) && (
        exists|j: int| 0 <= j < n && (#[trigger] accounts[j]).id == kept[i].id) by {
            assert(rest.contains(kept[i]));
            let j = choose|j: int| 0 <= j < rest.len() && rest[j] == kept[i];
            assert(accounts[j] == kept[i]);
        }
        if has_earlier_id(accounts, n) {
            assert(after == kept);
        } else {
            assert(accounts[n] == accounts.last());
            assert forall|i: int| 0 <= i < after.len() implies accounts.contains(
                #[trigger] after[i],
            ) by {
                if i < kept.len() {
                    assert(after[i] == kept[i]);
                }
            }
            assert forall|i: int, j: int| 0 <= i < j < after.len() implies (
            #[trigger] after[i]).id != (#[trigger] after[j]).id by {
                assert(after[i] == kept[i]);
                if j < kept.len() {
                    assert(after[j] == kept[j]);
                }
            }
        }
    }
}

/// Of each imported account one with its id is left.
pub proof fn law_no_imported_id_is_lost(accounts: Seq<AccountModel>, n: int)
    requires
        0 <= n < accounts.len(),
    ensures
        exists|i: int|
            0 <= i < deduplicated(accounts).len() && (#[trigger] deduplicated(accounts)[i]).id
                == accounts[n].id,
    decreases accounts.len(),
{
    let rest = accounts.drop_last();
    let last = accounts.len() - 1;
    let kept = deduplicated(rest);
    let after = deduplicated(accounts);
    if n == last && !has_earlier_id(accounts, last) {
        assert(after[kept.len() as int] == accounts[n]);
    } else {
        let k = if n == last {
            choose|k: int| 0 <= k < last && (#[trigger] accounts[k]).id == accounts[last].id
        } else {
            n
        };
        law_no_imported_id_is_lost(rest, k);
        let i = choose|i: int| 0 <= i < kept.len() && (#[trigger] kept[i]).id == rest[k].id;
        assert(rest[k] == accounts[k]);
        assert(after[i] == kept[i]);
    }
}

// ---------------------------------------------------------------------------
// Importing credentials
// ---------------------------------------------------------------------------

/// What becomes of credentials that are imported.
#[derive(Debug)]
pub enum ImportPlan {
    /// What is stored is at least as new: the account stays as it is.
    Keep(AccountRecord),
    /// The credentials are stored under this id.
    Store { id: String, identity: LiveIdentityWithPlan, added_at: Option<i64> },
}

/// The account that the credentials are of.
pub open spec fn owner_of(accounts: Seq<AccountModel>, identity: IdentityModel) -> Option<
    AccountModel,
> {
    matching(accounts, identity.email, identity.account_id)
}

/// Whether the stored credentials are kept: only newer ones are wanted, and these are not.
pub open spec fn keeps_stored(
    only_if_newer: bool,
    auth: JsonModel,
    stored: Option<JsonModel>,
) -> bool {
    only_if_newer && stored is Some && !auth::newer_auth(auth, stored->0)
}

/// The id under which credentials are stored: that of the account they are of, or else
/// the preferred one where it is not blank, or else a new one.
pub open spec fn import_id(
    owner: Option<AccountModel>,
    preferred: Option<Seq<char>>,
    fresh: Seq<char>,
) -> Seq<char> {
    match owner {
        Some(account) => account.id,
        None => match text::non_blank(preferred) {
            Some(id) => id,
            None => fresh,
        },
    }
}

/// Whether `plan` is what becomes of the credentials when `fresh` is a new id.
pub open spec fn is_plan(
    plan: ImportPlan,
    accounts: Seq<AccountModel>,
    auth: JsonModel,
    identity: IdentityModel,
    stored: Option<JsonModel>,
    preferred: Option<Seq<char>>,
    only_if_newer: bool,
    fresh: Seq<char>,
) -> bool {
    let owner = owner_of(accounts, identity);
    if owner is Some && keeps_stored(only_if_newer, auth, stored) {
        plan matches ImportPlan::Keep(record) && record@ == owner->0
    } else {
        plan matches ImportPlan::Store { id, identity: person, added_at } && id@ == import_id(
            owner,
            preferred,
            fresh,
        ) && person@ == identity && added_at == (match owner {
            Some(account) => Some(account.added_at),
            None => None,
        })
    }
}

/// What an optional document says.
pub open spec fn opt_json(value: Option<&Json>) -> Option<JsonModel> {
    match value {
        Some(v) => Some(v@),
        None => None,
    }
}

/// What becomes of the credentials when `fresh` is a new id; `stored` are those that are
/// stored for the account they are of, where they can be read.
pub fn plan_import_with_id(
    state: &State,
    auth: &Json,
    identity: LiveIdentityWithPlan,
    stored: Option<&Json>,
    preferred_id: Option<&str>,
    only_if_newer: bool,
    fresh: String,
) -> (r: ImportPlan)
    ensures
        is_plan(
            r,
            state::models(state.accounts@),
            auth@,
            identity@,
            opt_json(stored),
            text::opt_str_chars(preferred_id),
            only_if_newer,
            fresh@,
        ),
{
    let existing = find_matching_account(
        state,
        identity.email.as_str(),
        text::as_deref(&identity.account_id),
    );
    match existing {
        Some(account) => {
            if only_if_newer {
                if let Some(stored) = stored {
                    if !auth::live_auth_is_newer(auth, stored) {
                        return ImportPlan::Keep(account.clone());
                    }
                }
            }
            ImportPlan::Store {
                id: account.id.clone(),
                identity,
                added_at: Some(account.added_at),
            }
        },
        None => {
            let id = match text::trim_non_blank(preferred_id) {
                Some(id) => id.to_owned(),
                None => fresh,
            };
            ImportPlan::Store { id, identity, added_at: None }
        },
    }
}

/// The account that the credentials are of, where they can be read and it is known.
pub fn import_owner<'a>(state: &'a State, auth: &Json) -> (r: Option<&'a AccountRecord>)
    ensures
        opt_account(r) == match auth::identity_of(auth@) {
            Some(identity) => owner_of(state::models(state.accounts@), identity),
            None => None,
        },
{
    match auth::decode_identity(auth) {
        Ok(identity) => find_matching_account(
            state,
            identity.email.as_str(),
            text::as_deref(&identity.account_id),
        ),
        Err(_) => None,
    }
}

/// What becomes of the credentials; `stored` are those that are stored for the account
/// they are of, where they can be read. A new account gets a random id.
pub fn plan_import(
    state: &State,
    auth: &Json,
    stored: Option<&Json>,
    preferred_id: Option<&str>,
    only_if_newer: bool,
) -> (r: Result<ImportPlan, IdentityError>)
    ensures
        match r {
            Ok(plan) => auth::identity_of(auth@) is Some && exists|fresh: Seq<char>|
                outside::is_uuid(fresh) && #[trigger] is_plan(
                    plan,
                    state::models(state.accounts@),
                    auth@,
                    auth::identity_of(auth@)->0,
                    opt_json(stored),
                    text::opt_str_chars(preferred_id),
                    only_if_newer,
                    fresh,
                ),
            Err(error) => auth::is_identity_error(auth@, error),
        },
{
    let identity = match auth::decode_identity(auth) {
        Ok(identity) => identity,
        Err(error) => return Err(error),
    };
    let fresh = outside::random_id();
    let ghost id = fresh@;
    let plan = plan_import_with_id(
        state,
        auth,
        identity,
        stored,
        preferred_id,
        only_if_newer,
        fresh,
    );
    assert(is_plan(
        plan,
        state::models(state.accounts@),
        auth@,
        auth::identity_of(auth@)->0,
        opt_json(stored),
        text::opt_str_chars(preferred_id),
        only_if_newer,
        id,
    ));
    Ok(plan)
}

/// The record of an account whose credentials were stored.
pub open spec fn imported_account(
    platform: Platform,
    state_dir: Seq<char>,
    id: Seq<char>,
    identity: IdentityModel,
    has_config: bool,
    added_at: Option<i64>,
    now: i64,
) -> AccountModel {
    let home = home_of(platform, state_dir, id);
    AccountModel {
        id,
        account_type: AccountType::Subscription,
        email: identity.email,
        account_id: identity.account_id,
        plan: identity.plan,
        auth_path: paths::joined(platform, home, "auth.json"@),
        config_path: if has_config {
            Some(paths::joined(platform, home, "config.toml"@))
        } else {
            None
        },
        added_at: match added_at {
            Some(at) => at,
            None => now,
        },
        updated_at: now,
        ..state::blank_account()
    }
}

impl CodexAdapter {
    /// Takes the account into the pool once its credentials are stored, and its
    /// configuration where it has one.
    pub fn import_auth_path(
        &self,
        platform: Platform,
        state_dir: &str,
        state: &mut State,
        plan: ImportPlan,
        has_config: bool,
        now: i64,
    ) -> (r: AccountRecord)
        ensures
            match plan {
                ImportPlan::Keep(record) => r == record && state::models(final(state).accounts@)
                    == state::models(old(state).accounts@),
                ImportPlan::Store { id, identity, added_at } => r@ == imported_account(
                    platform,
                    state_dir@,
                    id@,
                    identity@,
                    has_config,
                    added_at,
                    now,
                ) && state::models(final(state).accounts@) == with_account(
                    state::models(old(state).accounts@),
                    r@,
                ),
            },
            final(state).usage_cache@ == old(state).usage_cache@,
            final(state).version == old(state).version,
            final(state).repo_sync == old(state).repo_sync,
    {
        match plan {
            ImportPlan::Keep(record) => record,
            ImportPlan::Store { id, identity, added_at } => {
                let (_, auth_path, config_path) = account_home_paths(
                    platform,
                    state_dir,
                    id.as_str(),
                );
                let mut record = AccountRecord::default();
                record.id = id;
                record.email = identity.email;
                record.account_id = identity.account_id;
                record.plan = identity.plan;
                record.auth_path = auth_path;
                record.config_path = if has_config {
                    Some(config_path)
                } else {
                    None
                };
                record.added_at = match added_at {
                    Some(at) => at,
                    None => now,
                };
                record.updated_at = now;
                replace_account(state, record.clone());
                record
            },
        }
    }
}

/// Importing credentials of a known account never makes a second account of it.
pub proof fn law_import_keeps_the_account(
    accounts: Seq<AccountModel>,
    identity: IdentityModel,
    preferred: Option<Seq<char>>,
    fresh: Seq<char>,
    account: AccountModel,
)
    requires
        owner_of(accounts, identity) is Some,
        account.id == import_id(owner_of(accounts, identity), preferred, fresh),
    ensures
        with_account(accounts, account).len() == accounts.len(),
{
    let owner = owner_of(accounts, identity)->0;
    let i = match_position(accounts, identity.email, identity.account_id);
    lemma_match_bounds(accounts, identity.email, identity.account_id);
    lemma_id_position_bounds(accounts, owner.id);
    assert(accounts[i].id == owner.id);
}

proof fn lemma_match_bounds(
    accounts: Seq<AccountModel>,
    email: Seq<char>,
    account_id: Option<Seq<char>>,
)
    ensures
        0 <= match_position(accounts, email, account_id) <= accounts.len(),
    decreases accounts.len(),
{
    if accounts.len() > 0 && !is_of(accounts.first(), email, account_id) {
        lemma_match_bounds(accounts.drop_first(), email, account_id);
    }
}

/// Credentials that are imported only if newer never replace stored ones that are at
/// least as new.
pub proof fn law_newer_stored_credentials_stay(
    plan: ImportPlan,
    accounts: Seq<AccountModel>,
    auth: JsonModel,
    identity: IdentityModel,
    stored: JsonModel,
    preferred: Option<Seq<char>>,
    fresh: Seq<char>,
)
    requires
        owner_of(accounts, identity) is Some,
        !auth::newer_auth(auth, stored),
        is_plan(plan, accounts, auth, identity, Some(stored), preferred, true, fresh),
    ensures
        plan is Keep,
{
}

// ---------------------------------------------------------------------------
// API accounts
// ---------------------------------------------------------------------------

/// An API account that was taken into the pool, and the files to be written for it.
#[derive(Debug)]
pub struct ApiImport {
    pub record: AccountRecord,
    pub home: String,
    pub config: String,
}

/// The record of an API account.
pub open spec fn api_account(
    platform: Platform,
    state_dir: Seq<char>,
    id: Seq<char>,
    token: Seq<char>,
    base_url: Seq<char>,
    provider: Seq<char>,
    added_at: i64,
    now: i64,
) -> AccountModel {
    let home = home_of(platform, state_dir, id);
    AccountModel {
        id,
        account_type: AccountType::Api,
        email: account::api_email(token, provider),
        auth_path: paths::joined(platform, home, "auth.json"@),
        config_path: Some(paths::joined(platform, home, "config.toml"@)),
        api_provider: Some(provider),
        api_base_url: Some(base_url),
        api_token_label: Some(account::token_label(token)),
        added_at,
        updated_at: now,
        ..state::blank_account()
    }
}

/// Whether `r` is the API account, stored under the id of the account of its name or else
/// under `fresh`.
pub open spec fn is_api_import(
    r: ApiImport,
    accounts: Seq<AccountModel>,
    platform: Platform,
    state_dir: Seq<char>,
    request: ApiLoginRequest,
    now: i64,
    fresh: Seq<char>,
) -> bool {
    let owner = matching(
        accounts,
        account::api_email(request.api_token@, request.provider@),
        None,
    );
    let id = import_id(owner, None, fresh);
    &&& r.record@ == api_account(
        platform,
        state_dir,
        id,
        request.api_token@,
        request.base_url@,
        request.provider@,
        match owner {
            Some(account) => account.added_at,
            None => now,
        },
        now,
    )
    &&& r.home@ == home_of(platform, state_dir, id)
    &&& r.config@ == account::api_config(id, request.provider@, request.base_url@)
}

/// The credentials file of an API account.
pub open spec fn api_auth_model(token: Seq<char>) -> JsonModel {
    JsonModel::Object(seq![("OPENAI_API_KEY"@, JsonModel::Text(token))])
}

impl CodexAdapter {
    /// Takes an API account into the pool, under `fresh` as its id where it is new.
    pub fn import_api_auth_path_with_id(
        &self,
        platform: Platform,
        state_dir: &str,
        state: &mut State,
        request: &ApiLoginRequest,
        now: i64,
        fresh: String,
    ) -> (r: ApiImport)
        requires
            account::is_printable(request.provider@, request.base_url@),
        ensures
            is_api_import(
                r,
                state::models(old(state).accounts@),
                platform,
                state_dir@,
                *request,
                now,
                fresh@,
            ),
            account::is_quotable(request.provider@, request.base_url@)
                ==> account::lists_api_settings(request.provider@, request.base_url@),
            state::models(final(state).accounts@) == with_account(
                state::models(old(state).accounts@),
                r.record@,
            ),
            final(state).usage_cache@ == old(state).usage_cache@,
            final(state).version == old(state).version,
            final(state).repo_sync == old(state).repo_sync,
    {
        let email = account::api_account_email(
            request.api_token.as_str(),
            request.provider.as_str(),
        );
        let (id, added_at) = match find_account_by_email(state, email.as_str()) {
            Some(existing) => (existing.id.clone(), existing.added_at),
            None => (fresh, now),
        };
        let (home, auth_path, config_path) = account_home_paths(platform, state_dir, id.as_str());
        let config = account::build_api_config(id.as_str(), request);
        let mut record = AccountRecord::default();
        record.id = id;
        record.account_type = AccountType::Api;
        record.email = email;
        record.auth_path = auth_path;
        record.config_path = Some(config_path);
        record.api_provider = Some(request.provider.clone());
        record.api_base_url = Some(request.base_url.clone());
        record.api_token_label = Some(account::api_token_label(request.api_token.as_str()));
        record.added_at = added_at;
        record.updated_at = now;
        replace_account(state, record.clone());
        ApiImport { record, home, config }
    }

    /// Takes an API account into the pool, under a random id where it is new, unless its
    /// configuration file cannot be printed.
    pub fn import_api_auth_path(
        &self,
        platform: Platform,
        state_dir: &str,
        state: &mut State,
        request: &ApiLoginRequest,
        now: i64,
    ) -> (r: Result<ApiImport, Unprintable>)
        ensures
            r is Ok <==> account::is_printable(request.provider@, request.base_url@),
            r matches Ok(import) ==> {
                &&& exists|fresh: Seq<char>|
                    outside::is_uuid(fresh) && #[trigger] is_api_import(
                        import,
                        state::models(old(state).accounts@),
                        platform,
                        state_dir@,
                        *request,
                        now,
                        fresh,
                    )
                &&& account::is_quotable(request.provider@, request.base_url@)
                    ==> account::lists_api_settings(request.provider@, request.base_url@)
                &&& state::models(final(state).accounts@) == with_account(
                    state::models(old(state).accounts@),
                    import.record@,
                )
            },
            r is Err ==> final(state).accounts == old(state).accounts,
            final(state).usage_cache@ == old(state).usage_cache@,
            final(state).version == old(state).version,
            final(state).repo_sync == old(state).repo_sync,
    {
        if !account::can_print(request) {
            return Err(Unprintable);
        }
        let fresh = outside::random_id();
        Ok(self.import_api_auth_path_with_id(platform, state_dir, state, request, now, fresh))
    }

    /// Takes an API account into the pool, under a random id where it is new, and returns
    /// it with its credentials file, unless its configuration file cannot be printed.
    pub fn run_api_key_login(
        &self,
        platform: Platform,
        state_dir: &str,
        state: &mut State,
        request: &ApiLoginRequest,
        now: i64,
    ) -> (r: Result<(ApiImport, String), Unprintable>)
        ensures
            r is Ok <==> account::is_printable(request.provider@, request.base_url@),
            r matches Ok(pair) ==> {
                &&& exists|fresh: Seq<char>|
                    outside::is_uuid(fresh) && #[trigger] is_api_import(
                        pair.0,
                        state::models(old(state).accounts@),
                        platform,
                        state_dir@,
                        *request,
                        now,
                        fresh,
                    )
                &&& pair.1@ == json::compact_text(api_auth_model(request.api_token@))
                &&& json::reads_as(pair.1@, api_auth_model(request.api_token@))
                &&& account::is_quotable(request.provider@, request.base_url@)
                    ==> account::lists_api_settings(request.provider@, request.base_url@)
                &&& state::models(final(state).accounts@) == with_account(
                    state::models(old(state).accounts@),
                    pair.0.record@,
                )
            },
            r is Err ==> final(state).accounts == old(state).accounts,
            final(state).usage_cache@ == old(state).usage_cache@,
            final(state).version == old(state).version,
            final(state).repo_sync == old(state).repo_sync,
    {
        let auth = api_auth_text(request);
        match self.import_api_auth_path(platform, state_dir, state, request, now) {
            Ok(import) => Ok((import, auth)),
            Err(error) => Err(error),
        }
    }
}

/// The credentials file of an API account: its token as compact JSON, which is read from
/// it again.
pub fn api_auth_text(request: &ApiLoginRequest) -> (r: String)
    ensures
        r@ == json::compact_text(api_auth_model(request.api_token@)),
        json::reads_as(r@, api_auth_model(request.api_token@)),
{
    let mut fields: Vec<(String, Json)> = Vec::new();
    fields.push(("OPENAI_API_KEY".to_owned(), Json::Text(request.api_token.clone())));
    proof {
        json::lemma_object_model(fields);
        assert(json::fields_model(fields@) =~= api_auth_model(request.api_token@)->Object_0);
    }
    let auth = Json::Object(fields);
    assert(json::is_plain(api_auth_model(request.api_token@), json::MAX_NESTING as nat)) by {
        reveal_with_fuel(json::is_plain, 2);
    }
    auth.compact()
}

/// The key in the credentials file of an API account is its token.
pub proof fn law_api_token_is_read_back(written: Seq<char>, token: Seq<char>)
    requires
        json::reads_as(written, api_auth_model(token)),
    ensures
        json::parsed_text(written) matches Some(read) && json::text_of(
            read.member("OPENAI_API_KEY"@),
        ) == Some(token),
{
    let fields = api_auth_model(token)->Object_0;
    assert(fields.first() == ("OPENAI_API_KEY"@, JsonModel::Text(token)));
    json::law_same_contents_same_members(
        json::parsed_text(written)->0,
        api_auth_model(token),
        json::MAX_NESTING as nat,
        "OPENAI_API_KEY"@,
        "OPENAI_API_KEY"@,
    );
}

/// An API account that was just taken into the pool is what its files say it is, so that
/// normalizing it changes nothing.
pub proof fn law_logged_in_api_account_is_normal(
    platform: Platform,
    state_dir: Seq<char>,
    id: Seq<char>,
    token: Seq<char>,
    base_url: Seq<char>,
    provider: Seq<char>,
    added_at: i64,
    now: i64,
    auth: Seq<char>,
)
    requires
        forall|i: int| 0 <= i < id.len() ==> #[trigger] id[i] != '\n',
        account::is_normal_login(provider, base_url, token),
        account::is_quotable(provider, base_url),
        account::lists_api_settings(provider, base_url),
        json::reads_as(auth, api_auth_model(token)),
    ensures
        ({
            let record = api_account(
                platform,
                state_dir,
                id,
                token,
                base_url,
                provider,
                added_at,
                now,
            );
            let config = account::api_config(id, provider, base_url);
            account::normalized_account(
                record,
                account::inferred_from(Some(config), Some(auth)),
            ) == record
        }),
{
    law_api_token_is_read_back(auth, token);
    account::law_api_files_tell_the_account(
        id,
        provider,
        base_url,
        token,
        json::parsed_text(auth)->0,
    );
}

// ---------------------------------------------------------------------------
// Known sources
// ---------------------------------------------------------------------------

/// Whether a flag in the environment is on.
pub open spec fn is_on(value: Option<Seq<char>>) -> bool {
    match value {
        Some(value) => {
            let word = text::lowercase(text::trimmed(value));
            word == "1"@ || word == "true"@ || word == "yes"@ || word == "on"@
        },
        None => false,
    }
}

/// Whether a flag in the environment is on.
pub fn env_flag_enabled(value: Option<&str>) -> (r: bool)
    ensures
        r == is_on(text::opt_str_chars(value)),
{
    match value {
        Some(value) => {
            let word = text::to_lowercase(text::trim(value));
            text::same_text(word.as_str(), "1") || text::same_text(word.as_str(), "true")
                || text::same_text(word.as_str(), "yes") || text::same_text(word.as_str(), "on")
        },
        None => false,
    }
}

/// The directories under `home` in which another program keeps accounts.
pub open spec fn hub_directories(platform: Platform, home: Seq<char>) -> Seq<Seq<char>> {
    seq![
        hub_below(
            platform,
            paths::joined(
                platform,
                paths::joined(platform, home, "Library"@),
                "Application Support"@,
            ),
        ),
        hub_below(
            platform,
            paths::joined(platform, paths::joined(platform, home, ".local"@), "share"@),
        ),
    ]
}

/// The directory of the accounts below a directory for data.
pub open spec fn hub_below(platform: Platform, data: Seq<char>) -> Seq<char> {
    paths::joined(
        platform,
        paths::joined(
            platform,
            paths::joined(platform, data, "com.murong.ai-accounts-hub"@),
            "codex"@,
        ),
        "managed-codex-homes"@,
    )
}

fn join_hub(platform: Platform, data: &str) -> (r: String)
    ensures
        r@ == hub_below(platform, data@),
{
    let hub = paths::join_path(platform, data, "com.murong.ai-accounts-hub");
    let codex = paths::join_path(platform, hub.as_str(), "codex");
    paths::join_path(platform, codex.as_str(), "managed-codex-homes")
}

/// The directories under `home` in which another program keeps accounts.
pub fn hub_roots(platform: Platform, home: &str) -> (r: Vec<String>)
    ensures
        text::views(r@) == hub_directories(platform, home@),
{
    let library = paths::join_path(platform, home, "Library");
    let support = paths::join_path(platform, library.as_str(), "Application Support");
    let local = paths::join_path(platform, home, ".local");
    let share = paths::join_path(platform, local.as_str(), "share");
    let mut roots: Vec<String> = Vec::new();
    roots.push(join_hub(platform, support.as_str()));
    roots.push(join_hub(platform, share.as_str()));
    assert(text::views(roots@) =~= hub_directories(platform, home@));
    roots
}

/// The paths of the credentials in these directories.
pub open spec fn auth_paths(platform: Platform, homes: Seq<Seq<char>>) -> Seq<Seq<char>> {
    Seq::new(homes.len(), |i: int| paths::joined(platform, homes[i], "auth.json"@))
}

/// The paths without those that occurred before, in order.
pub open spec fn unseen(paths: Seq<Seq<char>>) -> Seq<Seq<char>>
    decreases paths.len(),
{
    if paths.len() == 0 {
        paths
    } else {
        let rest = unseen(paths.drop_last());
        if paths.drop_last().contains(paths.last()) {
            rest
        } else {
            rest.push(paths.last())
        }
    }
}

/// The places from which accounts are imported: the live credentials first, and where
/// that is asked for the homes that another program keeps.
pub open spec fn known_sources(
    platform: Platform,
    codex_home: Seq<char>,
    hub_enabled: bool,
    hub_homes: Seq<Seq<char>>,
) -> Seq<Seq<char>> {
    let live = seq![codex_home];
    unseen(
        auth_paths(
            platform, if hub_enabled {
                live + hub_homes
            } else {
                live
            },
        ),
    )
}

fn occurs_before(paths: &Vec<String>, n: usize) -> (r: bool)
    requires
        n < paths@.len(),
    ensures
        r == text::views(paths@).take(n as int).contains(paths@[n as int]@),
{
    let ghost taken = text::views(paths@).take(n as int);
    let mut k: usize = 0;
    while k < n
        invariant
            k <= n < paths@.len(),
            taken == text::views(paths@).take(n as int),
            forall|j: int| 0 <= j < k ==> (#[trigger] taken[j]) != paths@[n as int]@,
        decreases n - k,
    {
        assert(taken[k as int] == paths@[k as int]@);
        if text::same_text(paths[k].as_str(), paths[n].as_str()) {
            return true;
        }
        k += 1;
    }
    false
}

impl CodexAdapter {
    /// The places from which accounts are imported, each once: the live credentials, and
    /// where `hub_enabled` says so the homes that another program keeps.
    pub fn import_known_sources(
        &self,
        platform: Platform,
        codex_home: &str,
        hub_enabled: bool,
        hub_homes: &Vec<String>,
    ) -> (r: Vec<String>)
        ensures
            text::views(r@) == known_sources(
                platform,
                codex_home@,
                hub_enabled,
                text::views(hub_homes@),
            ),
    {
        let mut paths: Vec<String> = Vec::new();
        paths.push(paths::join_path(platform, codex_home, "auth.json"));
        let ghost homes = if hub_enabled {
            seq![codex_home@] + text::views(hub_homes@)
        } else {
            seq![codex_home@]
        };
        assert(text::views(paths@) =~= auth_paths(platform, seq![codex_home@]));
        if hub_enabled {
            let mut i: usize = 0;
            assert(auth_paths(platform, homes).take(1) =~= auth_paths(platform, seq![codex_home@]));
            while i < hub_homes.len()
                invariant
                    i <= hub_homes@.len(),
                    homes == seq![codex_home@] + text::views(hub_homes@),
                    text::views(paths@) == auth_paths(platform, homes).take(i + 1),
                decreases hub_homes@.len() - i,
            {
                let ghost so_far = text::views(paths@);
                paths.push(paths::join_path(platform, hub_homes[i].as_str(), "auth.json"));
                assert(homes[i + 1] == hub_homes@[i as int]@);
                assert(text::views(paths@) =~= so_far.push(auth_paths(platform, homes)[i + 1]));
                assert(auth_paths(platform, homes).take(i + 2) =~= auth_paths(platform, homes).take(i + 1).push(
                    auth_paths(platform, homes)[i + 1],
                ));
                i += 1;
            }
            assert(auth_paths(platform, homes).take(i + 1) =~= auth_paths(platform, homes));
        }
        let ghost all = text::views(paths@);
        assert(all == auth_paths(platform, homes));
        let mut result: Vec<String> = Vec::new();
        let mut i: usize = 0;
        while i < paths.len()
            invariant
                i <= paths@.len(),
                all == text::views(paths@),
                text::views(result@) == unseen(all.take(i as int)),
            decreases paths@.len() - i,
        {
            assert(all.take(i + 1).drop_last() =~= all.take(i as int));
            assert(all.take(i + 1).last() == paths@[i as int]@);
            let ghost so_far = text::views(result@);
            if !occurs_before(&paths, i) {
                result.push(paths[i].clone());
                assert(text::views(result@) =~= so_far.push(paths@[i as int]@));
            }
            i += 1;
        }
        assert(all.take(i as int) =~= all);
        result
    }
}

// ---------------------------------------------------------------------------
// The live identity
// ---------------------------------------------------------------------------

impl CodexAdapter {
    /// Who Codex is signed in as: the account that its configuration was written for, or
    /// else the person that its credentials are of. A file is missing where it cannot be
    /// read.
    pub fn read_live_identity(&self, config: Option<&str>, auth: Option<&str>) -> (r: Option<
        LiveIdentity,
    >)
        ensures
            match live_account_id(text::opt_str_chars(config)) {
                Some(id) => r matches Some(live) && live.payload@ == "null"@ && live.email@.len()
                    == 0 && live.account_id is None && live.adapter_id@.len() == 0 && live.stable_id is None
                    && live.aliases@.len() == 0 && text::opt_chars(live.scodex_account_id) == Some(
                    id,
                ),
                None => match live_person(text::opt_str_chars(auth)) {
                    Some(person) => r matches Some(live) && live.payload@ == "null"@
                        && live.email@ == person.email
                        && text::opt_chars(live.account_id) == person.account_id
                        && live.adapter_id@.len() == 0 && live.stable_id is None
                        && live.aliases@.len() == 0 && live.scodex_account_id is None,
                    None => r is None,
                },
            },
    {
        if let Some(id) = account::read_managed_config_account_id(config) {
            return Some(
                LiveIdentity {
                    adapter_id: String::new(),
                    email: String::new(),
                    account_id: None,
                    stable_id: None,
                    aliases: Vec::new(),
                    payload: "null".to_owned(),
                    scodex_account_id: Some(id),
                },
            );
        }
        match auth {
            Some(auth) => match Json::parse(auth) {
                Some(auth) => match auth::decode_identity(&auth) {
                    Ok(identity) => Some(identity.into_live()),
                    Err(_) => None,
                },
                None => None,
            },
            None => None,
        }
    }
}

/// The id of the account that the live configuration was written for.
pub open spec fn live_account_id(config: Option<Seq<char>>) -> Option<Seq<char>> {
    match config {
        Some(contents) => account::managed_id(contents),
        None => None,
    }
}

/// The person that the live credentials are of.
pub open spec fn live_person(auth: Option<Seq<char>>) -> Option<IdentityModel> {
    match auth {
        Some(contents) => match json::parsed_text(contents) {
            Some(auth) => auth::identity_of(auth),
            None => None,
        },
        None => None,
    }
}

// ---------------------------------------------------------------------------
// Switching
// ---------------------------------------------------------------------------

/// What is to be copied to switch to an account.
#[derive(Clone, Copy, Debug, PartialEq, Eq, Structural)]
pub enum AuthChange {
    /// The live credentials are those of the account and newer: they are stored.
    StoreLive,
    /// The stored credentials become the live ones.
    InstallStored,
}

/// What is to be copied to switch to an account of that type.
pub open spec fn auth_change(
    account_type: AccountType,
    live: Option<JsonModel>,
    stored: Option<JsonModel>,
) -> AuthChange {
    match (live, stored) {
        (Some(l), Some(s)) => if account_type == AccountType::Subscription && auth::same_account(l, s)
            && auth::newer_auth(l, s) {
            AuthChange::StoreLive
        } else {
            AuthChange::InstallStored
        },
        _ => AuthChange::InstallStored,
    }
}

impl CodexAdapter {
    /// What is to be copied to switch to the account, or the path of its credentials where
    /// they do not exist. Credentials are missing where they cannot be read.
    pub fn switch_account(
        &self,
        account: &AccountRecord,
        stored_exists: bool,
        live: Option<&Json>,
        stored: Option<&Json>,
    ) -> (r: Result<AuthChange, String>)
        ensures
            match r {
                Ok(change) => stored_exists && change == auth_change(
                    account.account_type,
                    opt_json(live),
                    opt_json(stored),
                ),
                Err(error) => !stored_exists && error@ == "stored auth.json not found: "@
                    + account.auth_path@,
            },
    {
        if !stored_exists {
            return Err(
                text::concat2("stored auth.json not found: ", account.auth_path.as_str()),
            );
        }
        if account.is_subscription() {
            if let (Some(live), Some(stored)) = (live, stored) {
                if auth::chatgpt_identities_match(live, stored) && auth::live_auth_is_newer(
                    live,
                    stored,
                ) {
                    return Ok(AuthChange::StoreLive);
                }
            }
        }
        Ok(AuthChange::InstallStored)
    }
}

/// Switching to an account never overwrites newer live credentials of it with older
/// stored ones.
pub proof fn law_newer_live_credentials_survive(live: JsonModel, stored: JsonModel)
    requires
        auth::same_account(live, stored),
        auth::newer_auth(live, stored),
    ensures
        auth_change(AccountType::Subscription, Some(live), Some(stored)) == AuthChange::StoreLive,
{
}

/// Switching to another account, or to newer stored credentials, installs what is stored.
pub proof fn law_stored_credentials_are_installed(
    account_type: AccountType,
    live: JsonModel,
    stored: JsonModel,
)
    requires
        account_type == AccountType::Api || !auth::same_account(live, stored)
            || !auth::newer_auth(live, stored),
    ensures
        auth_change(account_type, Some(live), Some(stored)) == AuthChange::InstallStored,
{
}

/// What is known of the live configuration file.
#[derive(Clone, Copy, Debug, PartialEq, Eq, Structural)]
pub struct LiveConfig {
    pub exists: bool,
    pub managed: bool,
    pub backup_exists: bool,
}

/// What is to be done with the live configuration file.
#[derive(Debug)]
pub enum ConfigChange {
    /// It stays as it is.
    Keep,
    /// It is saved where `backup` says so, and replaced by the file at `from`.
    Install { from: String, backup: bool },
    /// It is replaced by what was saved.
    Restore,
    /// It is deleted.
    Remove,
}

/// Whether the live configuration is to be saved before it is replaced: it is the user's,
/// and nothing was saved before.
pub open spec fn wants_backup(live: LiveConfig) -> bool {
    live.exists && !live.managed && !live.backup_exists
}

/// Whether the live configuration is to be saved before it is replaced.
pub fn backup_user_config_if_needed(live: &LiveConfig) -> (r: bool)
    ensures
        r == wants_backup(*live),
{
    live.exists && !live.managed && !live.backup_exists
}

/// What is to be done with a live configuration that no account replaces: the user's own
/// stays, and one that was written by this program makes way for what was saved.
pub fn restore_user_config_if_managed(live: &LiveConfig) -> (r: ConfigChange)
    ensures
        r == (if !live.exists || !live.managed {
            ConfigChange::Keep
        } else if live.backup_exists {
            ConfigChange::Restore
        } else {
            ConfigChange::Remove
        }),
        r == restored(*live),
{
    if !live.exists || !live.managed {
        ConfigChange::Keep
    } else if live.backup_exists {
        ConfigChange::Restore
    } else {
        ConfigChange::Remove
    }
}

/// Whether `r` is what is to be done with the live configuration to switch to the account: its
/// own is installed, where it has one; an API account must have the one it names.
pub open spec fn is_config_switch(
    account: AccountRecord,
    stored_exists: bool,
    live: LiveConfig,
    r: Result<ConfigChange, String>,
) -> bool {
    if account.config_path is Some && stored_exists {
        r matches Ok(ConfigChange::Install { from, backup }) && from@ == account.config_path->0@
            && backup == wants_backup(live)
    } else if account.account_type == AccountType::Subscription {
        r matches Ok(change) && change == restored(live)
    } else if account.config_path is Some {
        r matches Err(error) && error@ == "stored config.toml not found: "@
            + account.config_path->0@
    } else {
        r matches Ok(change) && change == ConfigChange::Keep
    }
}

/// What is to be done with the live configuration to switch to the account.
pub fn switch_config(account: &AccountRecord, stored_exists: bool, live: &LiveConfig) -> (r: Result<
    ConfigChange,
    String,
>)
    ensures
        match (account.config_path, r) {
            (Some(path), Ok(ConfigChange::Install { from, backup })) => stored_exists && from@
                == path@ && backup == wants_backup(*live),
            (Some(path), Ok(change)) => !stored_exists && account.account_type
                == AccountType::Subscription && change == restored(*live),
            (Some(path), Err(error)) => !stored_exists && account.account_type == AccountType::Api
                && error@ == "stored config.toml not found: "@ + path@,
            (None, Ok(change)) => change == (if account.account_type == AccountType::Api {
                ConfigChange::Keep
            } else {
                restored(*live)
            }),
            (None, Err(_)) => false,
        },
        is_config_switch(*account, stored_exists, *live, r),
{
    match &account.config_path {
        Some(path) => if stored_exists {
            Ok(
                ConfigChange::Install {
                    from: path.clone(),
                    backup: backup_user_config_if_needed(live),
                },
            )
        } else if account.is_api() {
            Err(text::concat2("stored config.toml not found: ", path.as_str()))
        } else {
            Ok(restore_user_config_if_managed(live))
        },
        None => if account.is_api() {
            Ok(ConfigChange::Keep)
        } else {
            Ok(restore_user_config_if_managed(live))
        },
    }
}

/// What becomes of a live configuration that no account replaces.
pub open spec fn restored(live: LiveConfig) -> ConfigChange {
    if !live.exists || !live.managed {
        ConfigChange::Keep
    } else if live.backup_exists {
        ConfigChange::Restore
    } else {
        ConfigChange::Remove
    }
}

/// The user's own configuration is never lost: it is replaced only after it was saved, or
/// where one was saved before, and it is never deleted.
pub proof fn law_user_config_is_safe(live: LiveConfig)
    requires
        live.exists,
        !live.managed,
    ensures
        wants_backup(live) || live.backup_exists,
        restored(live) == ConfigChange::Keep,
{
}

// ---------------------------------------------------------------------------
// Absorbing newer live credentials
// ---------------------------------------------------------------------------

/// The account whose stored credentials the live ones may replace: that of the same
/// person, where it has a subscription.
pub open spec fn absorbing(accounts: Seq<AccountModel>, live: JsonModel) -> Option<AccountModel> {
    match auth::identity_of(live) {
        Some(identity) => match owner_of(accounts, identity) {
            Some(account) => if account.account_type == AccountType::Subscription {
                Some(account)
            } else {
                None
            },
            None => None,
        },
        None => None,
    }
}

/// The account whose stored credentials the live ones may replace.
pub fn absorbing_account<'a>(state: &'a State, live: &Json) -> (r: Option<&'a AccountRecord>)
    ensures
        opt_account(r) == absorbing(state::models(state.accounts@), live@),
{
    match import_owner(state, live) {
        Some(account) => if account.is_subscription() {
            Some(account)
        } else {
            None
        },
        None => None,
    }
}

/// Whether the live credentials are to replace the stored ones: they are newer, or the
/// stored ones cannot be read.
pub open spec fn replaces_stored(live: JsonModel, stored: Option<JsonModel>) -> bool {
    stored is None || auth::newer_auth(live, stored->0)
}

/// Whether the live credentials are to replace the stored ones: they are newer, or the
/// stored ones cannot be read.
pub fn should_absorb(live: &Json, stored: Option<&Json>) -> (r: bool)
    ensures
        r == (match opt_json(stored) {
            Some(stored) => auth::newer_auth(live@, stored),
            None => true,
        }),
        r == replaces_stored(live@, opt_json(stored)),
{
    match stored {
        Some(stored) => auth::live_auth_is_newer(live, stored),
        None => true,
    }
}

/// The account after its credentials were replaced.
pub open spec fn absorbed(account: AccountModel, plan: Option<Seq<char>>, now: i64) -> AccountModel {
    AccountModel {
        updated_at: now,
        plan: if account.plan is None {
            plan
        } else {
            account.plan
        },
        ..account
    }
}

/// The accounts after the credentials of the one with that id were replaced.
pub open spec fn with_absorbed(
    accounts: Seq<AccountModel>,
    id: Seq<char>,
    plan: Option<Seq<char>>,
    now: i64,
) -> Seq<AccountModel> {
    let i = id_position(accounts, id);
    if i < accounts.len() {
        accounts.update(i, absorbed(accounts[i], plan, now))
    } else {
        accounts
    }
}

impl CodexAdapter {
    /// Notes that the credentials of the account with that id were replaced by the live
    /// ones: when, and the plan where none was known.
    pub fn absorb_newer_live_auth(&self, state: &mut State, id: &str, live: &Json, now: i64)
        ensures
            state::models(final(state).accounts@) == (match auth::identity_of(live@) {
                Some(identity) => with_absorbed(
                    state::models(old(state).accounts@),
                    id@,
                    identity.plan,
                    now,
                ),
                None => state::models(old(state).accounts@),
            }),
            final(state).usage_cache@ == old(state).usage_cache@,
            final(state).version == old(state).version,
            final(state).repo_sync == old(state).repo_sync,
    {
        let identity = match auth::decode_identity(live) {
            Ok(identity) => identity,
            Err(_) => return ,
        };
        let ghost before = state::models(state.accounts@);
        let i = position_of_id(&state.accounts, id);
        if i < state.accounts.len() {
            let mut account = state.accounts[i].clone();
            account.updated_at = now;
            if account.plan.is_none() {
                account.plan = identity.plan;
            }
            let ghost updated = account@;
            assert(updated == absorbed(before[i as int], identity@.plan, now));
            state.accounts.set(i, account);
            assert(state::models(state.accounts@) =~= before.update(i as int, updated));
        }
    }
}

// ---------------------------------------------------------------------------
// Laws of finding, importing and absorbing
// ---------------------------------------------------------------------------

/// An account is found by its email, in whatever case, or by its remote id; the first such
/// account is the one.
pub proof fn law_first_matching_account_is_found(
    accounts: Seq<AccountModel>,
    email: Seq<char>,
    account_id: Option<Seq<char>>,
    k: int,
)
    requires
        0 <= k < accounts.len(),
        text::lowercase(accounts[k].email) == text::lowercase(email) || (account_id is Some
            && accounts[k].account_id == account_id),
        forall|i: int|
            0 <= i < k ==> text::lowercase((#[trigger] accounts[i]).email) != text::lowercase(email)
                && (account_id is None || accounts[i].account_id != account_id),
    ensures
        matching(accounts, email, account_id) == Some(accounts[k]),
{
    lemma_match_position(accounts, email, account_id, k);
}

/// Where no account has the email or the remote id, none is found.
pub proof fn law_no_other_account_is_found(
    accounts: Seq<AccountModel>,
    email: Seq<char>,
    account_id: Option<Seq<char>>,
)
    requires
        forall|i: int|
            0 <= i < accounts.len() ==> text::lowercase((#[trigger] accounts[i]).email)
                != text::lowercase(email) && (account_id is None || accounts[i].account_id
                != account_id),
    ensures
        matching(accounts, email, account_id) is None,
{
    lemma_match_position(accounts, email, account_id, accounts.len() as int);
}

/// The first account that goes by a name, by its email or as it is shown, is the one that is
/// meant; where none does, none is.
pub proof fn law_first_named_account_is_meant(
    accounts: Seq<AccountModel>,
    name: Seq<char>,
    k: int,
)
    requires
        0 <= k <= accounts.len(),
        k < accounts.len() ==> text::lowercase(accounts[k].email) == text::lowercase(name)
            || text::lowercase(account::shown_name(accounts[k])) == text::lowercase(name),
        forall|i: int|
            0 <= i < k ==> text::lowercase((#[trigger] accounts[i]).email) != text::lowercase(name)
                && text::lowercase(account::shown_name(accounts[i])) != text::lowercase(name),
    ensures
        k < accounts.len() ==> named(accounts, name) == Some(accounts[k]),
        k == accounts.len() ==> named(accounts, name) is None,
    decreases accounts.len(),
{
    if k > 0 {
        let rest = accounts.drop_first();
        assert(!goes_by(accounts[0], name));
        assert forall|i: int| 0 <= i < k - 1 implies text::lowercase((#[trigger] rest[i]).email)
            != text::lowercase(name) && text::lowercase(account::shown_name(rest[i]))
            != text::lowercase(name) by {
            assert(rest[i] == accounts[i + 1]);
        }
        if k < accounts.len() {
            assert(rest[k - 1] == accounts[k]);
        }
        law_first_named_account_is_meant(rest, name, k - 1);
    }
}

/// Credentials of a known account are stored under its id, and it stays as old as it is; those
/// of a new one are stored under the id that is wanted, or else under a new one.
pub proof fn law_import_finds_its_place(
    plan: ImportPlan,
    accounts: Seq<AccountModel>,
    auth: JsonModel,
    identity: IdentityModel,
    stored: Option<JsonModel>,
    preferred: Option<Seq<char>>,
    fresh: Seq<char>,
)
    requires
        is_plan(plan, accounts, auth, identity, stored, preferred, false, fresh),
    ensures
        plan matches ImportPlan::Store { id, identity: person, added_at } && {
            &&& person@ == identity
            &&& matching(accounts, identity.email, identity.account_id) matches Some(owner)
                ==> id@ == owner.id && added_at == Some(owner.added_at)
            &&& matching(accounts, identity.email, identity.account_id) is None ==> {
                &&& added_at is None
                &&& preferred is Some && text::trimmed(preferred->0).len() > 0 ==> id@
                    == text::trimmed(preferred->0)
                &&& preferred is None ==> id@ == fresh
            }
        },
{
}

/// Where only newer credentials are wanted, newer ones are stored, and so are those of an
/// account of which none are stored; those of a new account are stored in any case.
pub proof fn law_newer_credentials_are_stored(
    plan: ImportPlan,
    accounts: Seq<AccountModel>,
    auth: JsonModel,
    identity: IdentityModel,
    stored: Option<JsonModel>,
    preferred: Option<Seq<char>>,
    fresh: Seq<char>,
)
    requires
        is_plan(plan, accounts, auth, identity, stored, preferred, true, fresh),
        stored is None || auth::newer_auth(auth, stored->0) || matching(
            accounts,
            identity.email,
            identity.account_id,
        ) is None,
    ensures
        plan is Store,
{
}

/// The record of an account whose credentials were stored says whose they are and where they
/// are; it is as old as it was, or else new.
pub proof fn law_imported_account_is_recorded(
    platform: Platform,
    state_dir: Seq<char>,
    id: Seq<char>,
    identity: IdentityModel,
    has_config: bool,
    added_at: Option<i64>,
    now: i64,
)
    ensures
        ({
            let account = imported_account(
                platform,
                state_dir,
                id,
                identity,
                has_config,
                added_at,
                now,
            );
            let home = home_of(platform, state_dir, id);
            &&& account.id == id
            &&& account.account_type == AccountType::Subscription
            &&& account.email == identity.email
            &&& account.account_id == identity.account_id
            &&& account.plan == identity.plan
            &&& account.auth_path == paths::joined(platform, home, "auth.json"@)
            &&& account.config_path is Some <==> has_config
            &&& has_config ==> account.config_path == Some(
                paths::joined(platform, home, "config.toml"@),
            )
            &&& added_at matches Some(at) ==> account.added_at == at
            &&& added_at is None ==> account.added_at == now
            &&& account.updated_at == now
            &&& account.api_provider is None && account.api_base_url is None
                && account.api_token_label is None
        }),
{
}

/// The record of an API account says which token and provider it is of, and where its files
/// are.
pub proof fn law_api_account_is_recorded(
    platform: Platform,
    state_dir: Seq<char>,
    id: Seq<char>,
    token: Seq<char>,
    base_url: Seq<char>,
    provider: Seq<char>,
    added_at: i64,
    now: i64,
)
    ensures
        ({
            let account = api_account(
                platform,
                state_dir,
                id,
                token,
                base_url,
                provider,
                added_at,
                now,
            );
            let home = home_of(platform, state_dir, id);
            &&& account.id == id
            &&& account.account_type == AccountType::Api
            &&& account.email == account::api_email(token, provider)
            &&& account.auth_path == paths::joined(platform, home, "auth.json"@)
            &&& account.config_path == Some(paths::joined(platform, home, "config.toml"@))
            &&& account.api_provider == Some(provider)
            &&& account.api_base_url == Some(base_url)
            &&& account.api_token_label == Some(account::token_label(token))
            &&& account.added_at == added_at && account.updated_at == now
            &&& account.plan is None && account.account_id is None
        }),
{
}

/// An API account that is logged in again keeps its id and its age; the configuration is the
/// one that names it.
pub proof fn law_api_account_is_not_stored_twice(
    import: ApiImport,
    accounts: Seq<AccountModel>,
    platform: Platform,
    state_dir: Seq<char>,
    request: ApiLoginRequest,
    now: i64,
    fresh: Seq<char>,
)
    requires
        is_api_import(import, accounts, platform, state_dir, request, now, fresh),
    ensures
        matching(
            accounts,
            account::api_email(request.api_token@, request.provider@),
            None,
        ) matches Some(owner) ==> import.record@.id == owner.id && import.record@.added_at
            == owner.added_at,
        matching(
            accounts,
            account::api_email(request.api_token@, request.provider@),
            None,
        ) is None ==> import.record@.id == fresh && import.record@.added_at == now,
        import.home@ == home_of(platform, state_dir, import.record@.id),
        import.config@ == account::api_config(
            import.record@.id,
            request.provider@,
            request.base_url@,
        ),
{
}

/// A flag is on where it is `1`, `true`, `yes` or `on`, in whatever case and with white space
/// around it, and off where it is anything else or not set.
pub proof fn law_flags_are_words(value: Seq<char>)
    ensures
        is_on(Some(value)) <==> {
            ||| text::lowercase(text::trimmed(value)) == "1"@
            ||| text::lowercase(text::trimmed(value)) == "true"@
            ||| text::lowercase(text::trimmed(value)) == "yes"@
            ||| text::lowercase(text::trimmed(value)) == "on"@
        },
        !is_on(None),
{
}

/// The live credentials are a known source, the first one; the homes of the other program are
/// sources exactly where that is asked for. None is given twice.
#[verifier::spinoff_prover]
#[verifier::rlimit(40)]
pub proof fn law_sources_are_the_live_home_and_the_hub(
    platform: Platform,
    codex_home: Seq<char>,
    hub_homes: Seq<Seq<char>>,
    k: int,
)
    requires
        0 <= k < hub_homes.len(),
    ensures
        known_sources(platform, codex_home, false, hub_homes) == seq![
            paths::joined(platform, codex_home, "auth.json"@),
        ],
        known_sources(platform, codex_home, true, hub_homes).len() > 0,
        known_sources(platform, codex_home, true, hub_homes)[0] == paths::joined(
            platform,
            codex_home,
            "auth.json"@,
        ),
        known_sources(platform, codex_home, true, hub_homes).contains(
            paths::joined(platform, hub_homes[k], "auth.json"@),
        ),
        known_sources(platform, codex_home, true, hub_homes).no_duplicates(),
{
    let live = seq![codex_home];
    let one = auth_paths(platform, live);
    assert(one =~= seq![paths::joined(platform, codex_home, "auth.json"@)]);
    lemma_unseen(one);
    assert(unseen(one) =~= one) by {
        assert(one.drop_last() =~= Seq::<Seq<char>>::empty());
        reveal_with_fuel(unseen, 2);
    }
    let all = auth_paths(platform, live + hub_homes);
    lemma_unseen(all);
    assert(all[0] == paths::joined(platform, codex_home, "auth.json"@));
    assert(all[k + 1] == paths::joined(platform, hub_homes[k], "auth.json"@));
    assert(all.contains(all[k + 1]));
}

proof fn lemma_unseen(paths: Seq<Seq<char>>)
    ensures
        unseen(paths).no_duplicates(),
        forall|path: Seq<char>| #[trigger] paths.contains(path) <==> unseen(paths).contains(path),
        paths.len() > 0 ==> unseen(paths).len() > 0 && unseen(paths)[0] == paths[0],
    decreases paths.len(),
{
    if paths.len() > 0 {
        let before = paths.drop_last();
        let rest = unseen(before);
        lemma_unseen(before);
        assert forall|path: Seq<char>| #[trigger] paths.contains(path) <==> unseen(paths).contains(
            path,
        ) by {
            assert(paths =~= before.push(paths.last()));
            if paths.contains(path) {
                let i = choose|i: int| 0 <= i < paths.len() && paths[i] == path;
                if i < before.len() {
                    assert(before[i] == path);
                    assert(before.contains(path));
                    assert(rest.contains(path));
                    let j = choose|j: int| 0 <= j < rest.len() && rest[j] == path;
                    assert(unseen(paths)[j] == path);
                } else if before.contains(path) {
                    assert(rest.contains(path));
                } else {
                    assert(unseen(paths)[rest.len() as int] == path);
                }
            }
            if unseen(paths).contains(path) {
                let j = choose|j: int| 0 <= j < unseen(paths).len() && unseen(paths)[j] == path;
                if j < rest.len() {
                    assert(rest[j] == path);
                    assert(rest.contains(path));
                    assert(before.contains(path));
                    let i = choose|i: int| 0 <= i < before.len() && before[i] == path;
                    assert(paths[i] == path);
                } else {
                    assert(path == paths.last());
                    assert(paths[paths.len() - 1] == path);
                }
            }
        }
        if !before.contains(paths.last()) {
            assert(!rest.contains(paths.last()));
            assert forall|i: int, j: int|
                0 <= i < unseen(paths).len() && 0 <= j < unseen(paths).len() && i
                    != j implies unseen(paths)[i] != unseen(paths)[j] by {
                if i == rest.len() {
                    assert(rest[j] != paths.last());
                } else if j == rest.len() {
                    assert(rest[i] != paths.last());
                }
            }
        }
        if before.len() > 0 {
            assert(before[0] == paths[0]);
        }
    }
}

/// The live identity is that of the configuration that this program wrote; the person that
/// the credentials are of counts only where there is no such configuration.
pub proof fn law_live_account_is_read(config: Seq<char>, auth: Seq<char>, model: JsonModel)
    ensures
        live_account_id(Some(config)) == account::managed_id(config),
        live_account_id(None) is None,
        json::parsed_text(auth) == Some(model) ==> live_person(Some(auth)) == auth::identity_of(
            model,
        ),
        json::parsed_text(auth) is None ==> live_person(Some(auth)) is None,
        live_person(None) is None,
{
}

/// The configuration of the user is saved exactly where it is there, is theirs, and was not
/// saved before; once an account no longer needs one of its own, the saved one comes back,
/// and without one the program's own goes.
pub proof fn law_configuration_of_the_user_comes_back(live: LiveConfig)
    ensures
        wants_backup(live) <==> live.exists && !live.managed && !live.backup_exists,
        live.exists && live.managed && live.backup_exists ==> restored(live)
            == ConfigChange::Restore,
        live.exists && live.managed && !live.backup_exists ==> restored(live)
            == ConfigChange::Remove,
        !live.exists || !live.managed ==> restored(live) == ConfigChange::Keep,
{
}

/// Where one of the two credentials cannot be read, the stored ones are installed.
pub proof fn law_unread_credentials_are_replaced(
    account_type: AccountType,
    live: Option<JsonModel>,
    stored: Option<JsonModel>,
)
    requires
        live is None || stored is None,
    ensures
        auth_change(account_type, live, stored) == AuthChange::InstallStored,
{
}

/// The live credentials are taken over by the account of the same person, where that has a
/// subscription; nothing but its time and a plan that was not known changes.
pub proof fn law_live_credentials_are_taken_over(
    accounts: Seq<AccountModel>,
    live: JsonModel,
    identity: IdentityModel,
    account: AccountModel,
    now: i64,
)
    requires
        auth::identity_of(live) == Some(identity),
        matching(accounts, identity.email, identity.account_id) == Some(account),
    ensures
        account.account_type == AccountType::Subscription ==> absorbing(accounts, live) == Some(
            account,
        ),
        account.account_type == AccountType::Api ==> absorbing(accounts, live) is None,
        ({
            let after = absorbed(account, identity.plan, now);
            &&& after.updated_at == now
            &&& account.plan is Some ==> after.plan == account.plan
            &&& account.plan is None ==> after.plan == identity.plan
            &&& after.id == account.id && after.email == account.email && after.account_id
                == account.account_id && after.account_type == account.account_type
                && after.auth_path == account.auth_path && after.config_path == account.config_path
                && after.added_at == account.added_at && after.api_provider == account.api_provider
                && after.api_base_url == account.api_base_url && after.api_token_label
                == account.api_token_label
        }),
{
}

/// Where the credentials of one account are taken over, every other account stays what it is.
pub proof fn law_taking_over_keeps_the_others(
    accounts: Seq<AccountModel>,
    id: Seq<char>,
    plan: Option<Seq<char>>,
    now: i64,
    k: int,
)
    requires
        0 <= k < accounts.len(),
    ensures
        with_absorbed(accounts, id, plan, now).len() == accounts.len(),
        accounts[k].id != id ==> with_absorbed(accounts, id, plan, now)[k] == accounts[k],
        distinct_ids(accounts) && accounts[k].id == id ==> with_absorbed(
            accounts,
            id,
            plan,
            now,
        )[k] == absorbed(accounts[k], plan, now),
{
    lemma_id_position_bounds(accounts, id);
    let p = id_position(accounts, id);
    if accounts[k].id == id && distinct_ids(accounts) && p != k {
        if p < k {
            assert(accounts[p].id != accounts[k].id);
        }
    }
}

/// Below the state directory each account has a directory of its own name, on the systems
/// whose paths have no drives.
pub proof fn law_each_account_has_a_directory(
    platform: Platform,
    state_dir: Seq<char>,
    id: Seq<char>,
)
    requires
        platform != Platform::Windows,
        state_dir.len() > 0 && state_dir.last() != '/',
        id.len() > 0 && id.first() != '/',
    ensures
        home_of(platform, state_dir, id) == state_dir + "/accounts/"@ + id,
{
    reveal_strlit("accounts");
    reveal_strlit("/accounts/");
    assert(home_of(platform, state_dir, id) =~= state_dir + "/accounts/"@ + id);
}

/// Live credentials replace stored ones that are older, and none that are as fresh or fresher;
/// those that cannot be read are replaced in any case.
pub proof fn law_only_older_credentials_are_replaced(
    live: JsonModel,
    stored: JsonModel,
    now: i64,
    before: i64,
)
    requires
        auth::freshness(live) == Some(now),
        auth::freshness(stored) == Some(before),
    ensures
        replaces_stored(live, Some(stored)) <==> now > before,
        replaces_stored(live, None),
{
}

/// Where paths have no drives, the accounts of the other program are looked for in the
/// directories for data below the home directory.
pub proof fn law_hub_is_below_home(platform: Platform, home: Seq<char>)
    requires
        platform != Platform::Windows,
        home.len() > 0 && home.last() != '/',
    ensures
        hub_directories(platform, home).len() == 2,
        hub_directories(platform, home)[0] == home + seq!['/'] + "Library"@ + seq!['/']
            + "Application Support"@ + seq!['/'] + "com.murong.ai-accounts-hub"@ + seq!['/']
            + "codex"@ + seq!['/'] + "managed-codex-homes"@,
        hub_directories(platform, home)[1] == home + seq!['/'] + ".local"@ + seq!['/'] + "share"@
            + seq!['/'] + "com.murong.ai-accounts-hub"@ + seq!['/'] + "codex"@ + seq!['/']
            + "managed-codex-homes"@,
{
    reveal_strlit("Library");
    reveal_strlit("Application Support");
    reveal_strlit(".local");
    reveal_strlit("share");
    lemma_below(platform, home, "Library"@);
    let library = home + seq!['/'] + "Library"@;
    lemma_below(platform, library, "Application Support"@);
    lemma_hub_below(platform, library + seq!['/'] + "Application Support"@);
    lemma_below(platform, home, ".local"@);
    let local = home + seq!['/'] + ".local"@;
    lemma_below(platform, local, "share"@);
    lemma_hub_below(platform, local + seq!['/'] + "share"@);
}

proof fn lemma_hub_below(platform: Platform, data: Seq<char>)
    requires
        platform != Platform::Windows,
        data.len() > 0 && data.last() != '/',
    ensures
        hub_below(platform, data) == data + seq!['/'] + "com.murong.ai-accounts-hub"@ + seq!['/']
            + "codex"@ + seq!['/'] + "managed-codex-homes"@,
{
    reveal_strlit("com.murong.ai-accounts-hub");
    reveal_strlit("codex");
    reveal_strlit("managed-codex-homes");
    lemma_below(platform, data, "com.murong.ai-accounts-hub"@);
    let hub = data + seq!['/'] + "com.murong.ai-accounts-hub"@;
    lemma_below(platform, hub, "codex"@);
    lemma_below(platform, hub + seq!['/'] + "codex"@, "managed-codex-homes"@);
}

proof fn lemma_below(platform: Platform, base: Seq<char>, part: Seq<char>)
    requires
        platform != Platform::Windows,
        base.len() > 0 && base.last() != '/',
        part.len() > 0 && part.first() != '/' && part.last() != '/',
    ensures
        paths::joined(platform, base, part) == base + seq!['/'] + part,
        (base + seq!['/'] + part).len() > 0,
        (base + seq!['/'] + part).last() != '/',
{
    paths::law_part_stands_below_its_directory(platform, base, part);
}

/// The configuration of an account is the one that is installed, and that of the user is saved
/// first; an account with a subscription and without a configuration leaves the user theirs,
/// and an API account whose configuration is gone cannot be switched to.
pub proof fn law_configuration_follows_the_account(
    account: AccountRecord,
    stored_exists: bool,
    live: LiveConfig,
    r: Result<ConfigChange, String>,
    path: String,
)
    requires
        is_config_switch(account, stored_exists, live, r),
    ensures
        account.config_path == Some(path) && stored_exists ==> (r matches Ok(
            ConfigChange::Install { from, backup },
        ) && from@ == path@ && (backup <==> live.exists && !live.managed && !live.backup_exists)),
        account.account_type == AccountType::Subscription && account.config_path is None ==> {
            &&& r is Ok
            &&& live.exists && !live.managed ==> r->Ok_0 == ConfigChange::Keep
            &&& live.exists && live.managed && live.backup_exists ==> r->Ok_0
                == ConfigChange::Restore
            &&& live.exists && live.managed && !live.backup_exists ==> r->Ok_0
                == ConfigChange::Remove
        },
        account.account_type == AccountType::Api && account.config_path == Some(path)
            && !stored_exists ==> (r matches Err(error) && path@.is_suffix_of(error@)),
        account.account_type == AccountType::Api && account.config_path is None ==> r == Ok::<
            ConfigChange,
            String,
        >(ConfigChange::Keep),
{
    if r is Err {
        let error = r->Err_0@;
        let named = account.config_path->0@;
        assert(named =~= error.skip(error.len() - named.len()));
    }
}

} // verus!
