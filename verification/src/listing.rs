//! The table of accounts and their quotas.

use vstd::prelude::*;

use crate::account;
use crate::adapter::CodexAdapter;
use crate::outside;
use crate::state;
use crate::state::{
    AccountModel, AccountRecord, AccountType, LiveIdentity, State, UsageModel, UsageSnapshot,
};
use crate::table;
use crate::table::AnsiStyle;
use crate::text;
use crate::ui::Messages;
use crate::wording;

verus! {

// ---------------------------------------------------------------------------
// Cells
// ---------------------------------------------------------------------------

/// A percentage as it is shown.
pub open spec fn percent_text(value: Option<i64>, zh: bool) -> Seq<char> {
    match value {
        Some(percent) => text::signed_decimal(percent as int) + "%"@,
        None => wording::na(zh),
    }
}

/// A percentage as it is shown.
pub fn format_percent(ui: &Messages, value: Option<i64>) -> (r: String)
    ensures
        r@ == percent_text(value, ui.zh()),
{
    match value {
        Some(percent) => {
            let mut out = text::decimal_i64(percent);
            out.append("%");
            out
        },
        None => ui.na().to_owned(),
    }
}

/// What is left of a quota as it is shown: red below 20 percent, yellow below 50, and green
/// from there on.
pub open spec fn quota_text(value: Option<i64>, zh: bool, styled: bool) -> Seq<char> {
    match value {
        Some(percent) => table::styled_text(
            percent_text(value, zh),
            if percent < 20 {
                AnsiStyle::Red
            } else if percent < 50 {
                AnsiStyle::Yellow
            } else {
                AnsiStyle::Green
            },
            styled,
        ),
        None => wording::na(zh),
    }
}

/// What is left of a quota as it is shown.
pub fn format_quota_percent(ui: &Messages, value: Option<i64>, styled: bool) -> (r: String)
    ensures
        r@ == quota_text(value, ui.zh(), styled),
{
    let shown = format_percent(ui, value);
    match value {
        Some(percent) => {
            let style = if percent < 20 {
                AnsiStyle::Red
            } else if percent < 50 {
                AnsiStyle::Yellow
            } else {
                AnsiStyle::Green
            };
            table::style_text(shown.as_str(), style, styled)
        },
        None => shown,
    }
}

/// The time at which a quota is reset, in seconds since 1970: a number is such a time, and
/// anything else is read as RFC 3339.
pub open spec fn reset_seconds(value: Option<Seq<char>>) -> Option<i64> {
    match text::non_blank(value) {
        Some(v) => if text::same_ignoring_case(v, "none"@) || text::same_ignoring_case(v, "null"@)
            || text::same_ignoring_case(v, "n/a"@) {
            None
        } else {
            match text::parsed_i64(v) {
                Some(seconds) if outside::MIN_TIMESTAMP <= seconds <= outside::MAX_TIMESTAMP => Some(
                    seconds,
                ),
                _ => match outside::rfc3339_instant(v) {
                    Some(instant) => Some(instant.0),
                    None => None,
                },
            }
        },
        None => None,
    }
}

/// The time at which a quota is reset, in seconds since 1970.
pub fn parse_reset(value: Option<&str>) -> (r: Option<i64>)
    ensures
        r == reset_seconds(text::opt_str_chars(value)),
{
    let value = match text::trim_non_blank(value) {
        Some(value) => value,
        None => return None,
    };
    if text::eq_ignore_case(value, "none") || text::eq_ignore_case(value, "null")
        || text::eq_ignore_case(value, "n/a") {
        return None;
    }
    if let Some(seconds) = text::parse_i64(value) {
        if outside::MIN_TIMESTAMP <= seconds && seconds <= outside::MAX_TIMESTAMP {
            return Some(seconds);
        }
    }
    match outside::parse_rfc3339(value) {
        Some(instant) => Some(instant.0),
        None => None,
    }
}

/// Whether `shown` is how the time of a reset is shown in some time zone.
pub open spec fn is_reset_text(shown: Seq<char>, value: Option<Seq<char>>, zh: bool) -> bool {
    match reset_seconds(value) {
        Some(seconds) if outside::MIN_TIMESTAMP <= seconds <= outside::MAX_TIMESTAMP =>
            outside::is_local_text(shown, seconds as int),
        _ => shown == wording::na(zh),
    }
}

/// The time at which a quota is reset, in the time zone of the machine.
pub fn format_reset_on(ui: &Messages, value: Option<&str>) -> (r: String)
    ensures
        is_reset_text(r@, text::opt_str_chars(value), ui.zh()),
{
    match parse_reset(value) {
        Some(seconds) => match outside::local_stamp(seconds) {
            Some(stamp) => stamp,
            None => ui.na().to_owned(),
        },
        None => ui.na().to_owned(),
    }
}

/// Whether the last refresh of the account failed.
pub open spec fn refresh_failed(usage: UsageModel) -> bool {
    usage.needs_relogin || usage.last_sync_error is Some
}

/// Whether the account can be used: its last refresh did not fail.
pub fn account_is_usable(usage: &UsageSnapshot) -> (r: bool)
    ensures
        r == !refresh_failed(usage@),
{
    !usage.needs_relogin && usage.last_sync_error.is_none()
}

/// The state of an account as it is shown.
pub open spec fn status_text(usage: UsageModel, zh: bool, styled: bool) -> Seq<char> {
    if usage.needs_relogin {
        table::styled_text(wording::status_relogin(zh), AnsiStyle::Red, styled)
    } else if usage.last_sync_error is Some {
        table::styled_text(wording::status_error(zh), AnsiStyle::Red, styled)
    } else {
        table::styled_text(wording::status_ok(zh), AnsiStyle::Green, styled)
    }
}

/// The state of an account as it is shown.
pub fn format_account_status(ui: &Messages, usage: &UsageSnapshot, styled: bool) -> (r: String)
    ensures
        r@ == status_text(usage@, ui.zh(), styled),
{
    if usage.needs_relogin {
        table::style_text(ui.status_relogin(), AnsiStyle::Red, styled)
    } else if usage.last_sync_error.is_some() {
        table::style_text(ui.status_error(), AnsiStyle::Red, styled)
    } else {
        table::style_text(ui.status_ok(), AnsiStyle::Green, styled)
    }
}

/// What marks the live account.
pub fn active_account_marker() -> (r: String)
    ensures
        r@ == "✓"@,
{
    "✓".to_owned()
}

/// Whether the account is the live one: its email or its remote id is that of the live
/// identity.
pub open spec fn is_active(account: AccountModel, live: Option<LiveIdentity>) -> bool {
    match live {
        Some(live) => {
            ||| text::same_ignoring_case(account.email, live.email@)
            ||| account.account_id is Some && account.account_id == text::opt_chars(live.account_id)
        },
        None => false,
    }
}

/// Whether the account is the live one.
pub fn is_active_account(account: &AccountRecord, live: Option<&LiveIdentity>) -> (r: bool)
    ensures
        r == is_active(account@, match live {
            Some(l) => Some(*l),
            None => None,
        }),
{
    match live {
        Some(live) => {
            let same_id = match &live.account_id {
                Some(id) => text::is_text(text::as_deref(&account.account_id), id.as_str()),
                None => false,
            };
            text::eq_ignore_case(account.email.as_str(), live.email.as_str()) || same_id
        },
        None => false,
    }
}

/// The name of a type of account.
pub open spec fn type_text(account_type: AccountType) -> Seq<char> {
    match account_type {
        AccountType::Subscription => "subscription"@,
        AccountType::Api => "api"@,
    }
}

/// The plan of an account as it is shown.
pub open spec fn plan_text(account: AccountModel, usage: UsageModel, zh: bool) -> Seq<char> {
    if account.plan is Some {
        account.plan->0
    } else if usage.plan is Some {
        usage.plan->0
    } else {
        wording::unknown(zh)
    }
}

/// The row of an account; `reset` is the time of its reset as it is shown. API accounts
/// have no quotas.
pub open spec fn account_row(
    account: AccountModel,
    usage: UsageModel,
    active: bool,
    zh: bool,
    styled: bool,
    reset: Seq<char>,
) -> Seq<Seq<char>> {
    let api = account.account_type == AccountType::Api;
    seq![
        if active {
            "✓"@
        } else {
            ""@
        },
        account::shown_name(account),
        type_text(account.account_type),
        plan_text(account, usage, zh),
        if api {
            wording::na(zh)
        } else {
            quota_text(usage.five_hour_remaining_percent, zh, styled)
        },
        if api {
            wording::na(zh)
        } else {
            quota_text(usage.weekly_remaining_percent, zh, styled)
        },
        if api {
            wording::na(zh)
        } else {
            reset
        },
        status_text(usage, zh, styled),
    ]
}

/// The row of an account.
pub fn render_account_row(
    ui: &Messages,
    account: &AccountRecord,
    usage: &UsageSnapshot,
    active: bool,
    styled: bool,
    reset: &str,
) -> (r: Vec<String>)
    ensures
        text::views(r@) == account_row(account@, usage@, active, ui.zh(), styled, reset@),
        r@.len() == 8,
{
    let mut row: Vec<String> = Vec::new();
    let api = account.is_api();
    row.push(
        if active {
            active_account_marker()
        } else {
            "".to_owned()
        },
    );
    row.push(account::account_name(account));
    row.push(
        if api {
            "api".to_owned()
        } else {
            "subscription".to_owned()
        },
    );
    row.push(
        match &account.plan {
            Some(plan) => plan.clone(),
            None => match &usage.plan {
                Some(plan) => plan.clone(),
                None => ui.unknown().to_owned(),
            },
        },
    );
    row.push(
        if api {
            ui.na().to_owned()
        } else {
            format_quota_percent(ui, usage.five_hour_remaining_percent, styled)
        },
    );
    row.push(
        if api {
            ui.na().to_owned()
        } else {
            format_quota_percent(ui, usage.weekly_remaining_percent, styled)
        },
    );
    row.push(
        if api {
            ui.na().to_owned()
        } else {
            reset.to_owned()
        },
    );
    row.push(format_account_status(ui, usage, styled));
    assert(text::views(row@) =~= account_row(
        account@,
        usage@,
        active,
        ui.zh(),
        styled,
        reset@,
    ));
    row
}

/// No quota of an API account is ever shown.
pub proof fn law_api_account_shows_no_quota(
    account: AccountModel,
    usage: UsageModel,
    active: bool,
    zh: bool,
    styled: bool,
    reset: Seq<char>,
)
    requires
        account.account_type == AccountType::Api,
    ensures
        account_row(account, usage, active, zh, styled, reset)[4] == wording::na(zh),
        account_row(account, usage, active, zh, styled, reset)[5] == wording::na(zh),
        account_row(account, usage, active, zh, styled, reset)[6] == wording::na(zh),
{
}

// ---------------------------------------------------------------------------
// The order of the accounts
// ---------------------------------------------------------------------------

/// Whether a text comes before another: by the first character in which they differ, and a
/// text before what continues it.
pub open spec fn comes_before(a: Seq<char>, b: Seq<char>) -> bool
    decreases a.len(),
{
    if b.len() == 0 {
        false
    } else if a.len() == 0 {
        true
    } else if a.first() != b.first() {
        a.first() < b.first()
    } else {
        comes_before(a.drop_first(), b.drop_first())
    }
}

/// Whether a text comes before another.
pub fn text_comes_before(a: &str, b: &str) -> (r: bool)
    ensures
        r == comes_before(a@, b@),
{
    let left = text::chars_of(a);
    let right = text::chars_of(b);
    let mut i: usize = 0;
    assert(left@.skip(0) =~= left@);
    assert(right@.skip(0) =~= right@);
    while i < left.len() && i < right.len() && left[i] == right[i]
        invariant
            i <= left@.len(),
            i <= right@.len(),
            left@ == a@,
            right@ == b@,
            comes_before(left@.skip(i as int), right@.skip(i as int)) == comes_before(a@, b@),
        decreases left@.len() - i,
    {
        assert(left@.skip(i as int).drop_first() =~= left@.skip(i + 1));
        assert(right@.skip(i as int).drop_first() =~= right@.skip(i + 1));
        i += 1;
    }
    if i >= right.len() {
        return false;
    }
    if i >= left.len() {
        return true;
    }
    left[i] < right[i]
}

/// The order with one more position in it: after those whose text does not come after its.
pub open spec fn inserted(order: Seq<int>, texts: Seq<Seq<char>>, n: int) -> Seq<int>
    decreases order.len(),
{
    if order.len() == 0 || !comes_before(texts[n], texts[order.last()]) {
        order.push(n)
    } else {
        inserted(order.drop_last(), texts, n).push(order.last())
    }
}

/// The positions of the first `n` texts in the order of the texts; of equal ones the first
/// comes first.
pub open spec fn sorted_positions(texts: Seq<Seq<char>>, n: nat) -> Seq<int>
    decreases n,
{
    if n == 0 {
        Seq::empty()
    } else {
        inserted(sorted_positions(texts, (n - 1) as nat), texts, n - 1)
    }
}

proof fn lemma_inserted(order: Seq<int>, texts: Seq<Seq<char>>, n: int, k: int)
    requires
        0 <= k <= order.len(),
        k > 0 ==> !comes_before(texts[n], texts[order[k - 1]]),
        forall|j: int| k <= j < order.len() ==> comes_before(texts[n], texts[#[trigger] order[j]]),
    ensures
        inserted(order, texts, n) == order.insert(k, n),
    decreases order.len(),
{
    if k == order.len() {
        assert(order.push(n) =~= order.insert(k, n));
    } else {
        assert(comes_before(texts[n], texts[order[order.len() - 1]]));
        let rest = order.drop_last();
        assert forall|j: int| k <= j < rest.len() implies comes_before(
            texts[n],
            texts[#[trigger] rest[j]],
        ) by {
            assert(comes_before(texts[n], texts[order[j]]));
        }
        lemma_inserted(rest, texts, n, k);
        assert(rest.insert(k, n).push(order.last()) =~= order.insert(k, n));
    }
}

/// Positions as mathematical numbers.
pub open spec fn ints(order: Seq<usize>) -> Seq<int> {
    Seq::new(order.len(), |i: int| order[i] as int)
}

/// The texts by which the accounts are ordered.
pub open spec fn emails(accounts: Seq<AccountModel>) -> Seq<Seq<char>> {
    Seq::new(accounts.len(), |i: int| accounts[i].email)
}

/// The positions of the accounts in the order of their emails.
pub open spec fn account_order(accounts: Seq<AccountModel>) -> Seq<int> {
    sorted_positions(emails(accounts), accounts.len())
}

/// The positions of the accounts in the order of their emails.
pub fn order_by_email(accounts: &Vec<AccountRecord>) -> (r: Vec<usize>)
    ensures
        ints(r@) == account_order(state::models(accounts@)),
        r@.len() == accounts@.len(),
        forall|i: int| 0 <= i < r@.len() ==> #[trigger] r@[i] < accounts@.len(),
{
    let ghost texts = emails(state::models(accounts@));
    let mut order: Vec<usize> = Vec::new();
    let mut n: usize = 0;
    assert(ints(order@) =~= sorted_positions(texts, 0));
    while n < accounts.len()
        invariant
            n <= accounts@.len(),
            texts == emails(state::models(accounts@)),
            order@.len() == n,
            ints(order@) == sorted_positions(texts, n as nat),
            forall|i: int| 0 <= i < order@.len() ==> #[trigger] order@[i] < n,
        decreases accounts@.len() - n,
    {
        let mut k: usize = order.len();
        while k > 0 && text_comes_before(
            accounts[n].email.as_str(),
            accounts[order[k - 1]].email.as_str(),
        )
            invariant
                k <= order@.len() == n,
                n < accounts@.len(),
                texts == emails(state::models(accounts@)),
                forall|i: int| 0 <= i < order@.len() ==> #[trigger] order@[i] < n,
                forall|j: int|
                    k <= j < order@.len() ==> comes_before(
                        texts[n as int],
                        texts[#[trigger] ints(order@)[j]],
                    ),
            decreases k,
        {
            assert(order@[k - 1] < n);
            assert(ints(order@)[k - 1] == order@[k - 1]);
            k -= 1;
        }
        proof {
            if k > 0 {
                assert(order@[k - 1] < n);
                assert(ints(order@)[k - 1] == order@[k - 1]);
            }
            lemma_inserted(ints(order@), texts, n as int, k as int);
        }
        let ghost before = order@;
        order.insert(k, n);
        assert(ints(order@) =~= ints(before).insert(k as int, n as int));
        assert forall|i: int| 0 <= i < order@.len() implies #[trigger] order@[i] < n + 1 by {
            if i < k {
                assert(order@[i] == before[i]);
            } else if i > k {
                assert(order@[i] == before[i - 1]);
            }
        }
        n += 1;
    }
    order
}

proof fn lemma_before_irreflexive(a: Seq<char>)
    ensures
        !comes_before(a, a),
    decreases a.len(),
{
    if a.len() > 0 {
        lemma_before_irreflexive(a.drop_first());
    }
}

proof fn lemma_before_transitive(a: Seq<char>, b: Seq<char>, c: Seq<char>)
    requires
        !comes_before(b, a),
        !comes_before(c, b),
    ensures
        !comes_before(c, a),
    decreases a.len(),
{
    if a.len() > 0 && b.len() > 0 && c.len() > 0 && a.first() == b.first() && b.first()
        == c.first() {
        lemma_before_transitive(a.drop_first(), b.drop_first(), c.drop_first());
    }
}

/// Whether no text of an order comes before one that stands earlier in it, and equal
/// positions do not occur.
pub open spec fn is_sorted_order(order: Seq<int>, texts: Seq<Seq<char>>, n: int) -> bool {
    &&& order.len() == n
    &&& forall|i: int| 0 <= i < order.len() ==> 0 <= #[trigger] order[i] < n
    &&& forall|i: int, j: int|
        0 <= i < j < order.len() ==> {
            &&& #[trigger] order[i] != #[trigger] order[j]
            &&& !comes_before(texts[order[j]], texts[order[i]])
            &&& texts[order[i]] == texts[order[j]] ==> order[i] < order[j]
        }
}

proof fn lemma_inserted_sorted(order: Seq<int>, texts: Seq<Seq<char>>, n: int, m: int)
    requires
        0 <= n,
        order.len() == m,
        forall|i: int| 0 <= i < order.len() ==> 0 <= #[trigger] order[i] < n,
        forall|i: int, j: int|
            0 <= i < j < order.len() ==> {
                &&& #[trigger] order[i] != #[trigger] order[j]
                &&& !comes_before(texts[order[j]], texts[order[i]])
                &&& texts[order[i]] == texts[order[j]] ==> order[i] < order[j]
            },
    ensures
        inserted(order, texts, n).len() == m + 1,
        forall|i: int|
            0 <= i < m + 1 ==> (#[trigger] inserted(order, texts, n)[i] == n || order.contains(
                inserted(order, texts, n)[i],
            )),
        forall|i: int|
            0 <= i < m + 1 ==> 0 <= #[trigger] inserted(order, texts, n)[i] < n + 1,
        forall|i: int, j: int|
            0 <= i < j < m + 1 ==> {
                &&& #[trigger] inserted(order, texts, n)[i] != #[trigger] inserted(order, texts, n)[j]
                &&& !comes_before(
                    texts[inserted(order, texts, n)[j]],
                    texts[inserted(order, texts, n)[i]],
                )
                &&& texts[inserted(order, texts, n)[i]] == texts[inserted(order, texts, n)[j]]
                    ==> inserted(order, texts, n)[i] < inserted(order, texts, n)[j]
            },
    decreases order.len(),
{
    let after = inserted(order, texts, n);
    if order.len() == 0 {
        assert(after =~= seq![n]);
    } else if !comes_before(texts[n], texts[order.last()]) {
        assert(after == order.push(n));
        let last = order.len() - 1;
        assert forall|i: int| 0 <= i < m + 1 implies (#[trigger] after[i] == n || order.contains(
            after[i],
        )) by {
            if i < m {
                assert(order[i] == after[i]);
            }
        }
        assert forall|i: int| 0 <= i < m + 1 implies 0 <= #[trigger] after[i] < n + 1 by {
            if i < m {
                assert(0 <= order[i] < n);
            }
        }
        assert forall|i: int, j: int| 0 <= i < j < m + 1 implies {
            &&& #[trigger] after[i] != #[trigger] after[j]
            &&& !comes_before(texts[after[j]], texts[after[i]])
            &&& texts[after[i]] == texts[after[j]] ==> after[i] < after[j]
        } by {
            assert(0 <= order[i] < n);
            if j < m {
                assert(order[i] != order[j]);
            } else if i < last {
                assert(order[i] != order[last]);
                lemma_before_transitive(texts[order[i]], texts[order[last]], texts[n]);
            }
        }
    } else {
        let rest = order.drop_last();
        assert forall|i: int| 0 <= i < rest.len() implies 0 <= #[trigger] rest[i] < n by {
            assert(0 <= order[i] < n);
        }
        assert forall|i: int, j: int| 0 <= i < j < rest.len() implies {
            &&& #[trigger] rest[i] != #[trigger] rest[j]
            &&& !comes_before(texts[rest[j]], texts[rest[i]])
            &&& texts[rest[i]] == texts[rest[j]] ==> rest[i] < rest[j]
        } by {
            assert(order[i] != order[j]);
        }
        lemma_inserted_sorted(rest, texts, n, m - 1);
        let part = inserted(rest, texts, n);
        let last = m - 1;
        assert(after == part.push(order.last()));
        assert(order.last() == order[last]);
        assert forall|i: int| 0 <= i < m + 1 implies (#[trigger] after[i] == n || order.contains(
            after[i],
        )) by {
            if i < m {
                assert(after[i] == part[i]);
                if part[i] != n {
                    let k = choose|k: int| 0 <= k < rest.len() && rest[k] == part[i];
                    assert(order[k] == part[i]);
                }
            } else {
                assert(order[last] == after[i]);
            }
        }
        assert forall|i: int| 0 <= i < m + 1 implies 0 <= #[trigger] after[i] < n + 1 by {
            if i < m {
                assert(after[i] == part[i]);
            } else {
                assert(0 <= order[last] < n);
            }
        }
        assert forall|i: int, j: int| 0 <= i < j < m + 1 implies {
            &&& #[trigger] after[i] != #[trigger] after[j]
            &&& !comes_before(texts[after[j]], texts[after[i]])
            &&& texts[after[i]] == texts[after[j]] ==> after[i] < after[j]
        } by {
            assert(after[i] == part[i]);
            if j < m {
                assert(after[j] == part[j]);
            } else {
                assert(0 <= order[last] < n);
                if part[i] == n {
                    lemma_before_asymmetric(texts[n], texts[order[last]]);
                    lemma_before_irreflexive(texts[n]);
                } else {
                    let k = choose|k: int| 0 <= k < rest.len() && rest[k] == part[i];
                    assert(order[k] == part[i]);
                    assert(order[k] != order[last]);
                }
            }
        }
    }
}

proof fn lemma_before_asymmetric(a: Seq<char>, b: Seq<char>)
    requires
        comes_before(a, b),
    ensures
        !comes_before(b, a),
    decreases a.len(),
{
    if a.len() > 0 && b.len() > 0 && a.first() == b.first() {
        lemma_before_asymmetric(a.drop_first(), b.drop_first());
    }
}

/// Every account is listed once, in the order of the emails; accounts with the same email
/// stay in the order in which they are stored.
pub proof fn law_accounts_are_listed_in_order(accounts: Seq<AccountModel>)
    ensures
        is_sorted_order(account_order(accounts), emails(accounts), accounts.len() as int),
{
    lemma_sorted_positions(emails(accounts), accounts.len());
}

proof fn lemma_sorted_positions(texts: Seq<Seq<char>>, n: nat)
    ensures
        is_sorted_order(sorted_positions(texts, n), texts, n as int),
    decreases n,
{
    if n > 0 {
        lemma_sorted_positions(texts, (n - 1) as nat);
        lemma_inserted_sorted(sorted_positions(texts, (n - 1) as nat), texts, n - 1, n - 1);
    }
}

// ---------------------------------------------------------------------------
// The table
// ---------------------------------------------------------------------------

/// The number of accounts that can be used.
pub open spec fn usable_count(
    accounts: Seq<AccountModel>,
    cache: Map<Seq<char>, UsageSnapshot>,
) -> nat
    decreases accounts.len(),
{
    if accounts.len() == 0 {
        0
    } else {
        let rest = usable_count(accounts.drop_last(), cache);
        if refresh_failed(state::known_usage(cache, accounts.last().id)) {
            rest
        } else {
            rest + 1
        }
    }
}

/// The row of the account at `i`.
pub open spec fn row_at(
    accounts: Seq<AccountModel>,
    cache: Map<Seq<char>, UsageSnapshot>,
    live: Option<LiveIdentity>,
    zh: bool,
    styled: bool,
    resets: Seq<Seq<char>>,
    i: int,
) -> Seq<Seq<char>> {
    account_row(
        accounts[i],
        state::known_usage(cache, accounts[i].id),
        is_active(accounts[i], live),
        zh,
        styled,
        resets[i],
    )
}

/// The rows of the table.
pub open spec fn listed_rows(
    accounts: Seq<AccountModel>,
    cache: Map<Seq<char>, UsageSnapshot>,
    live: Option<LiveIdentity>,
    zh: bool,
    styled: bool,
    resets: Seq<Seq<char>>,
) -> Seq<Seq<Seq<char>>> {
    let order = account_order(accounts);
    Seq::new(
        accounts.len(),
        |i: int| row_at(accounts, cache, live, zh, styled, resets, order[i]),
    )
}

/// The alignment of each column.
pub open spec fn listed_aligns() -> Seq<Seq<char>> {
    seq![
        "center"@,
        "left"@,
        "center"@,
        "center"@,
        "center"@,
        "center"@,
        "center"@,
        "center"@,
    ]
}

/// How many accounts can be used, as it is said.
pub open spec fn summary_text(count: nat, zh: bool) -> Seq<char> {
    if zh {
        "共有 "@ + text::decimal(count) + " 个可用账号"@
    } else {
        text::decimal(count) + " usable account(s)"@
    }
}

/// The table of the accounts, or a hint where none can be used; `resets` are the times of
/// their resets as they are shown.
pub open spec fn listing(
    accounts: Seq<AccountModel>,
    cache: Map<Seq<char>, UsageSnapshot>,
    live: Option<LiveIdentity>,
    zh: bool,
    styled: bool,
    resets: Seq<Seq<char>>,
) -> Seq<char> {
    if usable_count(accounts, cache) == 0 {
        wording::no_usable_account_hint(zh)
    } else {
        text::joined(
            table::table_lines(
                wording::table_headers(zh),
                listed_rows(accounts, cache, live, zh, styled, resets),
                listed_aligns(),
                Some(summary_text(usable_count(accounts, cache), zh)),
            ),
            "\n"@,
        )
    }
}

fn count_usable(state: &State) -> (r: usize)
    ensures
        r == usable_count(state::models(state.accounts@), state.usage_cache@),
{
    let ghost all = state::models(state.accounts@);
    let mut count: usize = 0;
    let mut i: usize = 0;
    while i < state.accounts.len()
        invariant
            i <= state.accounts@.len(),
            count <= i,
            all == state::models(state.accounts@),
            count == usable_count(all.take(i as int), state.usage_cache@),
        decreases state.accounts@.len() - i,
    {
        assert(all.take(i + 1).drop_last() =~= all.take(i as int));
        assert(all.take(i + 1).last() == state.accounts@[i as int]@);
        let usage = state.usage_cache.usage_of(state.accounts[i].id.as_str());
        if account_is_usable(&usage) {
            count += 1;
        }
        i += 1;
    }
    assert(all.take(i as int) =~= all);
    count
}

/// An optional identity.
pub open spec fn opt_live(live: Option<&LiveIdentity>) -> Option<LiveIdentity> {
    match live {
        Some(l) => Some(*l),
        None => None,
    }
}

/// The table of the accounts, or a hint where none can be used; `resets` are the times of
/// their resets as they are shown.
pub fn render_listing(
    ui: &Messages,
    state: &State,
    active: Option<&LiveIdentity>,
    styled: bool,
    resets: &Vec<String>,
) -> (r: String)
    requires
        resets@.len() == state.accounts@.len(),
    ensures
        r@ == listing(
            state::models(state.accounts@),
            state.usage_cache@,
            opt_live(active),
            ui.zh(),
            styled,
            text::views(resets@),
        ),
{
    let count = count_usable(state);
    if count == 0 {
        return ui.no_usable_account_hint().to_owned();
    }
    let ghost accounts = state::models(state.accounts@);
    let ghost order_of = account_order(accounts);
    let ghost goal = listed_rows(
        accounts,
        state.usage_cache@,
        opt_live(active),
        ui.zh(),
        styled,
        text::views(resets@),
    );
    let order = order_by_email(&state.accounts);
    let mut rows: Vec<Vec<String>> = Vec::new();
    let mut i: usize = 0;
    while i < order.len()
        invariant
            i <= order@.len() == state.accounts@.len(),
            resets@.len() == state.accounts@.len(),
            accounts == state::models(state.accounts@),
            order_of == account_order(accounts),
            ints(order@) == order_of,
            goal == listed_rows(
                accounts,
                state.usage_cache@,
                opt_live(active),
                ui.zh(),
                styled,
                text::views(resets@),
            ),
            forall|k: int| 0 <= k < order@.len() ==> #[trigger] order@[k] < state.accounts@.len(),
            rows@.len() == i,
            forall|k: int| 0 <= k < rows@.len() ==> (#[trigger] rows@[k])@.len() == 8,
            table::row_views(rows@) == goal.take(i as int),
        decreases order@.len() - i,
    {
        assert(order@[i as int] < state.accounts@.len());
        assert(ints(order@)[i as int] == order@[i as int]);
        let at = order[i];
        let account = &state.accounts[at];
        let usage = state.usage_cache.usage_of(account.id.as_str());
        let row = render_account_row(
            ui,
            account,
            &usage,
            is_active_account(account, active),
            styled,
            resets[at].as_str(),
        );
        let ghost before = table::row_views(rows@);
        rows.push(row);
        assert(table::row_views(rows@) =~= before.push(goal[i as int]));
        assert(goal.take(i + 1) =~= goal.take(i as int).push(goal[i as int]));
        i += 1;
    }
    assert(goal.take(i as int) =~= goal);
    let headers = ui.table_headers();
    let aligns = [
        "center",
        "left",
        "center",
        "center",
        "center",
        "center",
        "center",
        "center",
    ];
    assert(text::str_views(aligns@) =~= listed_aligns());
    table::render_table(
        headers.as_slice(),
        rows.as_slice(),
        aligns.as_slice(),
        Some(ui.usable_account_summary(count)),
    )
}

impl CodexAdapter {
    /// The table of the accounts, with the times of their resets in the time zone of the
    /// machine, or a hint where none can be used.
    pub fn render_account_table(
        &self,
        ui: &Messages,
        state: &State,
        active: Option<&LiveIdentity>,
        styled: bool,
    ) -> (r: String)
        ensures
            exists|resets: Seq<Seq<char>>|
                shows_resets(resets, *state, ui.zh()) && r@ == #[trigger] listing(
                    state::models(state.accounts@),
                    state.usage_cache@,
                    opt_live(active),
                    ui.zh(),
                    styled,
                    resets,
                ),
    {
        let mut resets: Vec<String> = Vec::new();
        let mut i: usize = 0;
        while i < state.accounts.len()
            invariant
                i <= state.accounts@.len(),
                resets@.len() == i,
                forall|k: int|
                    0 <= k < i ==> is_reset_text(
                        (#[trigger] resets@[k])@,
                        state::known_usage(
                            state.usage_cache@,
                            state.accounts@[k].id@,
                        ).weekly_refresh_at,
                        ui.zh(),
                    ),
            decreases state.accounts@.len() - i,
        {
            let usage = state.usage_cache.usage_of(state.accounts[i].id.as_str());
            resets.push(format_reset_on(ui, text::as_deref(&usage.weekly_refresh_at)));
            i += 1;
        }
        let r = render_listing(ui, state, active, styled, &resets);
        proof {
            let shown = text::views(resets@);
            assert forall|k: int| 0 <= k < shown.len() implies is_reset_text(
                #[trigger] shown[k],
                state::known_usage(
                    state.usage_cache@,
                    state.accounts@[k].id@,
                ).weekly_refresh_at,
                ui.zh(),
            ) by {
                assert(shown[k] == resets@[k]@);
            }
            assert(shows_resets(shown, *state, ui.zh()));
        }
        r
    }
}

/// Whether these are the times of the resets of the accounts, as they are shown on some
/// machine.
pub open spec fn shows_resets(resets: Seq<Seq<char>>, state: State, zh: bool) -> bool {
    &&& resets.len() == state.accounts@.len()
    &&& forall|k: int|
        0 <= k < resets.len() ==> is_reset_text(
            #[trigger] resets[k],
            state::known_usage(
                state.usage_cache@,
                state.accounts@[k].id@,
            ).weekly_refresh_at,
            zh,
        )
}

// ---------------------------------------------------------------------------
// Laws of the columns
// ---------------------------------------------------------------------------

/// Each row has a cell under every header. Under "5h" stands what is left of the five-hour
/// quota of an account with a subscription, under "Weekly" what is left of its weekly quota,
/// and next to it when that is reset.
pub proof fn law_quotas_stand_under_their_headers(
    account: AccountModel,
    usage: UsageModel,
    active: bool,
    zh: bool,
    styled: bool,
    reset: Seq<char>,
)
    requires
        account.account_type == AccountType::Subscription,
    ensures
        ({
            let row = account_row(account, usage, active, zh, styled, reset);
            let headers = wording::table_headers(zh);
            &&& row.len() == headers.len() == listed_aligns().len() == 8
            &&& headers[4] == "5h"@
            &&& row[4] == quota_text(usage.five_hour_remaining_percent, zh, styled)
            &&& headers[5] == "Weekly"@
            &&& row[5] == quota_text(usage.weekly_remaining_percent, zh, styled)
            &&& headers[6] == (if zh {
                "重置时间"@
            } else {
                "ResetOn"@
            })
            &&& row[6] == reset
        }),
{
}

/// Without colors a quota is shown as its percentage; one that is not known is said to be
/// not available.
pub proof fn law_quotas_are_shown_in_percent(
    account: AccountModel,
    usage: UsageModel,
    active: bool,
    zh: bool,
    reset: Seq<char>,
    five_hour: i64,
    weekly: i64,
)
    requires
        account.account_type == AccountType::Subscription,
    ensures
        ({
            let row = account_row(account, usage, active, zh, false, reset);
            &&& usage.five_hour_remaining_percent == Some(five_hour) ==> row[4]
                == text::signed_decimal(five_hour as int) + "%"@
            &&& usage.five_hour_remaining_percent is None ==> row[4] == wording::na(zh)
            &&& usage.weekly_remaining_percent == Some(weekly) ==> row[5] == text::signed_decimal(
                weekly as int,
            ) + "%"@
            &&& usage.weekly_remaining_percent is None ==> row[5] == wording::na(zh)
        }),
{
}

/// The other cells: the mark of the live account, the name, the type and the plan, and at
/// the end the state of the account; each under its header.
pub proof fn law_account_is_described(
    account: AccountModel,
    usage: UsageModel,
    active: bool,
    zh: bool,
    styled: bool,
    reset: Seq<char>,
)
    ensures
        ({
            let row = account_row(account, usage, active, zh, styled, reset);
            let headers = wording::table_headers(zh);
            &&& !zh ==> headers[0] == "Active"@ && headers[1] == "Email"@ && headers[2] == "Type"@
                && headers[3] == "Plan"@ && headers[7] == "Status"@
            &&& zh ==> headers[0] == "当前"@ && headers[1] == "邮箱"@ && headers[2] == "类型"@
                && headers[3] == "套餐"@ && headers[7] == "状态"@
            &&& active ==> row[0] == "✓"@
            &&& !active ==> row[0].len() == 0
            &&& account.account_type == AccountType::Subscription ==> row[1] == account.email
                && row[2] == "subscription"@
            &&& account.account_type == AccountType::Api ==> row[2] == "api"@
            &&& account.plan is Some ==> row[3] == account.plan->0
            &&& account.plan is None && usage.plan is Some ==> row[3] == usage.plan->0
            &&& account.plan is None && usage.plan is None ==> row[3] == wording::unknown(zh)
            &&& row[7] == status_text(usage, zh, styled)
        }),
{
    reveal_strlit("");
}

/// An account that is to sign in again is said to be, before any other error; an account is
/// said to be fine exactly where its last refresh did not fail.
pub proof fn law_status_tells_the_last_refresh(usage: UsageModel, zh: bool)
    ensures
        usage.needs_relogin ==> status_text(usage, zh, false) == wording::status_relogin(zh),
        !usage.needs_relogin && usage.last_sync_error is Some ==> status_text(usage, zh, false)
            == wording::status_error(zh),
        !usage.needs_relogin && usage.last_sync_error is None ==> status_text(usage, zh, false)
            == wording::status_ok(zh),
        !refresh_failed(usage) <==> !usage.needs_relogin && usage.last_sync_error is None,
{
}

/// In color, what is fine or plentiful is green and what failed or runs out is red; a quota
/// is yellow in between: from 20 percent on, and below 50.
pub proof fn law_colors_warn(percent: i64, usage: UsageModel, zh: bool)
    ensures
        percent < 20 ==> "\u{1b}[31m"@.is_prefix_of(quota_text(Some(percent), zh, true)),
        20 <= percent < 50 ==> "\u{1b}[33m"@.is_prefix_of(quota_text(Some(percent), zh, true)),
        50 <= percent ==> "\u{1b}[32m"@.is_prefix_of(quota_text(Some(percent), zh, true)),
        refresh_failed(usage) ==> "\u{1b}[31m"@.is_prefix_of(status_text(usage, zh, true)),
        !refresh_failed(usage) ==> "\u{1b}[32m"@.is_prefix_of(status_text(usage, zh, true)),
{
    lemma_style_begins(percent_text(Some(percent), zh));
    lemma_style_begins(wording::status_relogin(zh));
    lemma_style_begins(wording::status_error(zh));
    lemma_style_begins(wording::status_ok(zh));
}

proof fn lemma_style_begins(value: Seq<char>)
    ensures
        "\u{1b}[31m"@.is_prefix_of(table::styled_text(value, AnsiStyle::Red, true)),
        "\u{1b}[33m"@.is_prefix_of(table::styled_text(value, AnsiStyle::Yellow, true)),
        "\u{1b}[32m"@.is_prefix_of(table::styled_text(value, AnsiStyle::Green, true)),
{
    reveal_strlit("\u{1b}[");
    reveal_strlit("31");
    reveal_strlit("33");
    reveal_strlit("32");
    reveal_strlit("m");
    reveal_strlit("\u{1b}[31m");
    reveal_strlit("\u{1b}[33m");
    reveal_strlit("\u{1b}[32m");
    let red = table::styled_text(value, AnsiStyle::Red, true);
    let yellow = table::styled_text(value, AnsiStyle::Yellow, true);
    let green = table::styled_text(value, AnsiStyle::Green, true);
    assert("\u{1b}[31m"@ =~= red.take(5));
    assert("\u{1b}[33m"@ =~= yellow.take(5));
    assert("\u{1b}[32m"@ =~= green.take(5));
}

/// The account is marked as the live one where its email is the live one, however it is
/// written, or its remote id is, and nowhere else.
pub proof fn law_live_account_is_marked(account: AccountModel, live: LiveIdentity)
    ensures
        account.email == live.email@ ==> is_active(account, Some(live)),
        text::lowercase(account.email) == text::lowercase(live.email@) ==> is_active(
            account,
            Some(live),
        ),
        live.account_id is Some && account.account_id == Some(live.account_id->0@) ==> is_active(
            account,
            Some(live),
        ),
        text::lowercase(account.email) != text::lowercase(live.email@) && (account.account_id is None
            || live.account_id is None || account.account_id->0 != live.account_id->0@)
            ==> !is_active(account, Some(live)),
        !is_active(account, None),
{
}

/// A number is a time in seconds; texts that stand for nothing are no time.
pub proof fn law_reset_in_seconds(value: Seq<char>, seconds: i64)
    requires
        value.len() > 0,
        text::trimmed(value) == value,
    ensures
        text::parsed_i64(value) == Some(seconds) && outside::MIN_TIMESTAMP <= seconds
            <= outside::MAX_TIMESTAMP && !text::same_ignoring_case(value, "none"@)
            && !text::same_ignoring_case(value, "null"@) && !text::same_ignoring_case(value, "n/a"@)
            ==> reset_seconds(Some(value)) == Some(seconds),
        text::lowercase(value) == text::lowercase("none"@) || text::lowercase(value)
            == text::lowercase("null"@) || text::lowercase(value) == text::lowercase("n/a"@)
            ==> reset_seconds(Some(value)) is None,
        text::parsed_i64(value) is None && outside::rfc3339_instant(value) is None
            ==> reset_seconds(Some(value)) is None,
        reset_seconds(None) is None,
{
}

/// The row at each place is the one of the account at that place in the order: with what is
/// known of its usage, and with its own reset.
pub proof fn law_rows_are_those_of_the_accounts(
    accounts: Seq<AccountModel>,
    cache: Map<Seq<char>, UsageSnapshot>,
    live: Option<LiveIdentity>,
    zh: bool,
    styled: bool,
    resets: Seq<Seq<char>>,
    i: int,
)
    requires
        0 <= i < accounts.len(),
    ensures
        listed_rows(accounts, cache, live, zh, styled, resets).len() == accounts.len(),
        ({
            let place = account_order(accounts)[i];
            let account = accounts[place];
            listed_rows(accounts, cache, live, zh, styled, resets)[i] == account_row(
                account,
                state::known_usage(cache, account.id),
                is_active(account, live),
                zh,
                styled,
                resets[place],
            )
        }),
{
}

/// Every account counts as usable unless its last refresh failed; the table is shown as soon
/// as one counts, and else the hint.
#[verifier::spinoff_prover]
#[verifier::rlimit(40)]
pub proof fn law_usable_accounts_are_counted(
    accounts: Seq<AccountModel>,
    cache: Map<Seq<char>, UsageSnapshot>,
    live: Option<LiveIdentity>,
    zh: bool,
    styled: bool,
    resets: Seq<Seq<char>>,
    i: int,
)
    requires
        0 <= i < accounts.len(),
    ensures
        usable_count(accounts, cache) <= accounts.len(),
        !refresh_failed(state::known_usage(cache, accounts[i].id)) ==> usable_count(
            accounts,
            cache,
        ) > 0,
        (forall|k: int|
            0 <= k < accounts.len() ==> refresh_failed(
                state::known_usage(cache, (#[trigger] accounts[k]).id),
            )) ==> usable_count(accounts, cache) == 0 && listing(
            accounts,
            cache,
            live,
            zh,
            styled,
            resets,
        ) == wording::no_usable_account_hint(zh),
        (forall|k: int|
            0 <= k < accounts.len() ==> !refresh_failed(
                state::known_usage(cache, (#[trigger] accounts[k]).id),
            )) ==> usable_count(accounts, cache) == accounts.len(),
    decreases accounts.len(),
{
    reveal_with_fuel(usable_count, 2);
    let rest = accounts.drop_last();
    assert forall|k: int| 0 <= k < rest.len() implies #[trigger] rest[k] == accounts[k] by {}
    if rest.len() > 0 {
        let j = if i < rest.len() {
            i
        } else {
            0
        };
        if forall|k: int|
            0 <= k < accounts.len() ==> refresh_failed(
                state::known_usage(cache, (#[trigger] accounts[k]).id),
            ) {
            assert forall|k: int| 0 <= k < rest.len() implies refresh_failed(
                state::known_usage(cache, (#[trigger] rest[k]).id),
            ) by {
                assert(rest[k] == accounts[k]);
            }
        }
        if forall|k: int|
            0 <= k < accounts.len() ==> !refresh_failed(
                state::known_usage(cache, (#[trigger] accounts[k]).id),
            ) {
            assert forall|k: int| 0 <= k < rest.len() implies !refresh_failed(
                state::known_usage(cache, (#[trigger] rest[k]).id),
            ) by {
                assert(rest[k] == accounts[k]);
            }
        }
        law_usable_accounts_are_counted(rest, cache, live, zh, styled, resets, j);
    }
}

/// The names stand at the left of their column, and everything else in the middle.
pub proof fn law_names_stand_at_the_left(k: int)
    requires
        0 <= k < 8,
    ensures
        listed_aligns()[k] == (if k == 1 {
            "left"@
        } else {
            "center"@
        }),
{
}

/// A time that can be counted is shown as a local time, and nothing else is.
pub proof fn law_reset_is_a_local_time(
    shown: Seq<char>,
    value: Option<Seq<char>>,
    seconds: i64,
    zh: bool,
)
    ensures
        reset_seconds(value) == Some(seconds) && -8_334_601_228_800 <= seconds <= 8_210_266_876_799
            ==> (is_reset_text(shown, value, zh) <==> outside::is_local_text(shown, seconds as int)),
        reset_seconds(value) == Some(seconds) && !(-8_334_601_228_800 <= seconds
            <= 8_210_266_876_799) ==> (is_reset_text(shown, value, zh) <==> shown == wording::na(
            zh,
        )),
        reset_seconds(value) is None ==> (is_reset_text(shown, value, zh) <==> shown == wording::na(
            zh,
        )),
{
}

/// What is said below the table is what is said of that many accounts elsewhere.
pub proof fn law_summary_is_the_usual_one(count: usize, zh: bool)
    ensures
        summary_text(count as nat, zh) == wording::usable_account_summary(zh, count),
{
}

} // verus!
