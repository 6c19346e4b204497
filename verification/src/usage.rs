//! The usage of accounts: what the usage service says, and how it is asked.

use vstd::prelude::*;

use crate::auth;
use crate::json;
use crate::json::{Json, JsonModel};
use crate::outside;
use crate::state;
use crate::state::{
    AccountRankInput, AccountRecord, CreditsBalance, UsageCache, UsageModel, UsageSnapshot,
    CURRENT_ACCOUNT_MIN_FIVE_HOUR_PERCENT,
};
use crate::text;
use crate::text::CharClass;

verus! {

/// How many accounts are refreshed at a time at most.
pub const MAX_REFRESH_WORKERS: usize = 8;

/// Where the usage service is, unless configured otherwise.
pub const DEFAULT_BASE_URL: &'static str = "https://chatgpt.com/backend-api";

// ---------------------------------------------------------------------------
// Snapshots
// ---------------------------------------------------------------------------

/// The snapshot of a refresh that failed.
pub open spec fn error_usage(plan: Option<Seq<char>>, at: i64, error: Seq<char>) -> UsageModel {
    UsageModel { plan, last_synced_at: Some(at), last_sync_error: Some(error), ..state::blank_usage() }
}

/// The snapshot of a refresh that failed.
pub fn make_error_snapshot(plan: Option<String>, ts: i64, err: String) -> (r: UsageSnapshot)
    ensures
        r@ == error_usage(text::opt_chars(plan), ts, err@),
{
    let mut usage = UsageSnapshot::default();
    usage.plan = plan;
    usage.last_synced_at = Some(ts);
    usage.last_sync_error = Some(err);
    usage
}

/// The snapshot of an account that has to sign in again.
pub open spec fn relogin_usage(plan: Option<Seq<char>>, at: i64) -> UsageModel {
    UsageModel {
        needs_relogin: true,
        ..error_usage(plan, at, "Codex OAuth token expired or invalid. Run `codex login` again."@)
    }
}

/// The snapshot of an account that has to sign in again.
pub fn make_relogin_snapshot(plan: Option<String>, ts: i64) -> (r: UsageSnapshot)
    ensures
        r@ == relogin_usage(text::opt_chars(plan), ts),
{
    let mut usage = make_error_snapshot(
        plan,
        ts,
        "Codex OAuth token expired or invalid. Run `codex login` again.".to_owned(),
    );
    usage.needs_relogin = true;
    usage
}

/// The new value, where there is one or the old one is stale.
pub open spec fn merged_field<T>(stale: bool, old: Option<T>, new: Option<T>) -> Option<T> {
    if stale || new is Some {
        new
    } else {
        old
    }
}

/// What is known after an update: the quotas of the update alone where the update failed,
/// or else those of the update where it has them; its plan and its time where it has
/// them; and whether it failed.
pub open spec fn merged(previous: Option<UsageModel>, update: UsageModel) -> UsageModel {
    match previous {
        None => update,
        Some(old) => {
            let stale = update.needs_relogin || update.last_sync_error is Some;
            UsageModel {
                plan: merged_field(false, old.plan, update.plan),
                weekly_remaining_percent: merged_field(
                    stale,
                    old.weekly_remaining_percent,
                    update.weekly_remaining_percent,
                ),
                weekly_refresh_at: merged_field(
                    stale,
                    old.weekly_refresh_at,
                    update.weekly_refresh_at,
                ),
                five_hour_remaining_percent: merged_field(
                    stale,
                    old.five_hour_remaining_percent,
                    update.five_hour_remaining_percent,
                ),
                five_hour_refresh_at: merged_field(
                    stale,
                    old.five_hour_refresh_at,
                    update.five_hour_refresh_at,
                ),
                credits_balance: merged_field(stale, old.credits_balance, update.credits_balance),
                last_synced_at: merged_field(false, old.last_synced_at, update.last_synced_at),
                last_sync_error: update.last_sync_error,
                needs_relogin: update.needs_relogin,
                rank_input: old.rank_input,
                payload: old.payload,
            }
        },
    }
}

/// What an optional snapshot says.
pub open spec fn opt_usage(usage: Option<&UsageSnapshot>) -> Option<UsageModel> {
    match usage {
        Some(u) => Some(u@),
        None => None,
    }
}

/// What is known after an update.
pub fn merge_usage_with_previous(previous: Option<&UsageSnapshot>, update: UsageSnapshot) -> (r:
    UsageSnapshot)
    ensures
        r@ == merged(opt_usage(previous), update@),
{
    let previous = match previous {
        Some(previous) => previous,
        None => return update,
    };
    let mut merged = previous.clone();
    let stale = update.needs_relogin || update.last_sync_error.is_some();
    if update.plan.is_some() {
        merged.plan = update.plan;
    }
    if stale || update.weekly_remaining_percent.is_some() {
        merged.weekly_remaining_percent = update.weekly_remaining_percent;
    }
    if stale || update.weekly_refresh_at.is_some() {
        merged.weekly_refresh_at = update.weekly_refresh_at;
    }
    if stale || update.five_hour_remaining_percent.is_some() {
        merged.five_hour_remaining_percent = update.five_hour_remaining_percent;
    }
    if stale || update.five_hour_refresh_at.is_some() {
        merged.five_hour_refresh_at = update.five_hour_refresh_at;
    }
    if stale || update.credits_balance.is_some() {
        merged.credits_balance = update.credits_balance;
    }
    if update.last_synced_at.is_some() {
        merged.last_synced_at = update.last_synced_at;
    }
    merged.last_sync_error = update.last_sync_error;
    merged.needs_relogin = update.needs_relogin;
    merged
}

/// Whether the snapshot says nothing of quotas and credits.
pub open spec fn without_quota(usage: UsageModel) -> bool {
    &&& usage.weekly_remaining_percent is None
    &&& usage.weekly_refresh_at is None
    &&& usage.five_hour_remaining_percent is None
    &&& usage.five_hour_refresh_at is None
    &&& usage.credits_balance is None
}

/// A refresh that fails leaves no quota of an earlier one behind.
pub proof fn law_failure_clears_quota(
    previous: Option<UsageModel>,
    plan: Option<Seq<char>>,
    at: i64,
    error: Seq<char>,
)
    ensures
        without_quota(merged(previous, error_usage(plan, at, error))),
        without_quota(merged(previous, relogin_usage(plan, at))),
        merged(previous, error_usage(plan, at, error)).last_sync_error == Some(error),
        merged(previous, relogin_usage(plan, at)).needs_relogin,
{
}

/// Merging the same update once more changes nothing.
pub proof fn law_merge_is_idempotent(previous: Option<UsageModel>, update: UsageModel)
    ensures
        merged(Some(merged(previous, update)), update) == merged(previous, update),
{
}

/// An update that did not fail keeps the quotas that it does not mention, and takes
/// those that it does.
pub proof fn law_success_keeps_unmentioned_quota(previous: UsageModel, update: UsageModel)
    requires
        !update.needs_relogin,
        update.last_sync_error is None,
    ensures
        merged(Some(previous), update).weekly_remaining_percent == (
        if update.weekly_remaining_percent is Some {
            update.weekly_remaining_percent
        } else {
            previous.weekly_remaining_percent
        }),
        merged(Some(previous), update).five_hour_remaining_percent == (
        if update.five_hour_remaining_percent is Some {
            update.five_hour_remaining_percent
        } else {
            previous.five_hour_remaining_percent
        }),
        merged(Some(previous), update).last_sync_error is None,
{
}

// ---------------------------------------------------------------------------
// The address of the service
// ---------------------------------------------------------------------------

/// A configured value without the quotation marks and the white space around it.
pub open spec fn unquoted(value: Seq<char>) -> Seq<char> {
    text::trimmed(
        text::trim_of(
            text::trim_of(text::trimmed(value), CharClass::Only('"')),
            CharClass::Only('\''),
        ),
    )
}

/// The address in the lines of a configuration: the first that is not blank. A line that
/// sets nothing ends the search; what follows a hash is no part of a line.
pub open spec fn configured_base_url(lines: Seq<Seq<char>>) -> Option<Seq<char>>
    decreases lines.len(),
{
    if lines.len() == 0 {
        None
    } else {
        let line = text::trimmed(text::before_first(lines.first(), '#'));
        let rest = lines.drop_first();
        if line.len() == 0 {
            configured_base_url(rest)
        } else {
            match text::split_at_first(line, '=') {
                None => None,
                Some(pair) => if text::trimmed(pair.0) == "chatgpt_base_url"@ && unquoted(
                    pair.1,
                ).len() > 0 {
                    Some(unquoted(pair.1))
                } else {
                    configured_base_url(rest)
                },
            }
        }
    }
}

/// The address in a configuration.
pub fn parse_chatgpt_base_url(contents: &str) -> (r: Option<String>)
    ensures
        text::opt_chars(r) == configured_base_url(text::lines_of(contents@)),
{
    let lines = text::lines(contents);
    let ghost all = text::views(lines@);
    let mut i: usize = 0;
    assert(all.skip(0) =~= all);
    while i < lines.len()
        invariant
            i <= lines@.len(),
            all == text::views(lines@),
            all == text::lines_of(contents@),
            configured_base_url(all.skip(i as int)) == configured_base_url(all),
        decreases lines@.len() - i,
    {
        assert(all.skip(i as int).first() == lines@[i as int]@);
        assert(all.skip(i as int).drop_first() =~= all.skip(i + 1));
        let line = text::trim(text::head_before(lines[i].as_str(), '#'));
        i += 1;
        if line.is_empty() {
            continue ;
        }
        let (key, value) = match text::split_once(line, '=') {
            Some(pair) => pair,
            None => return None,
        };
        if !text::same_text(text::trim(key), "chatgpt_base_url") {
            continue ;
        }
        let parsed = text::trim(
            text::trim_class(
                text::trim_class(text::trim(value), CharClass::Only('"')),
                CharClass::Only('\''),
            ),
        );
        if !parsed.is_empty() {
            return Some(parsed.to_owned());
        }
    }
    None
}

/// The address without slashes at its end, or the usual one where nothing is left of it;
/// an address of ChatGPT itself ends with its path.
pub open spec fn normalized_base(base: Seq<char>) -> Seq<char> {
    let stripped = text::trim_end_of(text::trimmed(base), CharClass::Only('/'));
    let url = if stripped.len() == 0 {
        DEFAULT_BASE_URL@
    } else {
        stripped
    };
    if ("https://chatgpt.com"@.is_prefix_of(url) || "https://chat.openai.com"@.is_prefix_of(url))
        && !text::contains_text(url, "/backend-api"@) {
        url + "/backend-api"@
    } else {
        url
    }
}

/// The address in its normal form.
pub fn normalize_chatgpt_base_url(base: &str) -> (r: String)
    ensures
        r@ == normalized_base(base@),
{
    let stripped = text::trim_end_char(text::trim(base), '/');
    let mut normalized = if stripped.is_empty() {
        DEFAULT_BASE_URL.to_owned()
    } else {
        stripped.to_owned()
    };
    if (text::starts_with(normalized.as_str(), "https://chatgpt.com") || text::starts_with(
        normalized.as_str(),
        "https://chat.openai.com",
    )) && !text::contains(normalized.as_str(), "/backend-api") {
        normalized.append("/backend-api");
    }
    normalized
}

/// The address that is configured: by the environment, or else by the configuration, or
/// else the usual one.
pub open spec fn configured_base(env_url: Option<Seq<char>>, config: Option<Seq<char>>) -> Seq<
    char,
> {
    if text::non_blank(env_url) is Some {
        env_url->0
    } else {
        match config {
            Some(contents) => match configured_base_url(text::lines_of(contents)) {
                Some(url) => url,
                None => DEFAULT_BASE_URL@,
            },
            None => DEFAULT_BASE_URL@,
        }
    }
}

/// Where the usage is asked for under an address in its normal form.
pub open spec fn usage_url(normalized: Seq<char>) -> Seq<char> {
    if text::contains_text(normalized, "/backend-api"@) {
        normalized + "/wham/usage"@
    } else {
        normalized + "/api/codex/usage"@
    }
}

/// Where the usage is asked for: under the address in the environment variable, or else
/// in the configuration, or else under the usual one.
pub fn resolve_usage_url(env_url: Option<&str>, config: Option<&str>) -> (r: String)
    ensures
        r@ == usage_url(
            normalized_base(
                configured_base(text::opt_str_chars(env_url), text::opt_str_chars(config)),
            ),
        ),
{
    let base = match text::trim_non_blank(env_url) {
        Some(_) => match env_url {
            Some(url) => url.to_owned(),
            None => DEFAULT_BASE_URL.to_owned(),
        },
        None => match config {
            Some(contents) => match parse_chatgpt_base_url(contents) {
                Some(url) => url,
                None => DEFAULT_BASE_URL.to_owned(),
            },
            None => DEFAULT_BASE_URL.to_owned(),
        },
    };
    let normalized = normalize_chatgpt_base_url(base.as_str());
    if text::contains(normalized.as_str(), "/backend-api") {
        text::concat2(normalized.as_str(), "/wham/usage")
    } else {
        text::concat2(normalized.as_str(), "/api/codex/usage")
    }
}

// ---------------------------------------------------------------------------
// What the service says
// ---------------------------------------------------------------------------

/// Which quota a window of the service is.
#[derive(Clone, Copy, Debug, PartialEq, Eq, Structural)]
pub enum WindowRole {
    FiveHour,
    Weekly,
    Unknown,
}

/// What is left of a quota, and when it is reset.
pub struct WindowModel {
    pub remaining_percent: i64,
    pub reset_at: Option<Seq<char>>,
}

/// What is left of a quota, and when it is reset.
#[derive(Debug)]
pub struct WindowSnapshot {
    pub remaining_percent: i64,
    pub reset_at: Option<String>,
}

impl View for WindowSnapshot {
    type V = WindowModel;

    open spec fn view(&self) -> WindowModel {
        WindowModel {
            remaining_percent: self.remaining_percent,
            reset_at: text::opt_chars(self.reset_at),
        }
    }
}

/// A value as text: a text is itself, anything else its JSON text.
pub open spec fn value_text(value: JsonModel) -> Seq<char> {
    match value {
        JsonModel::Null => "null"@,
        JsonModel::Text(s) => s,
        _ => json::compact_text(value),
    }
}

/// A value as text: a text is itself, anything else its JSON text.
pub fn value_to_string(value: &Json) -> (r: String)
    ensures
        r@ == value_text(value@),
{
    match value {
        Json::Null => "null".to_owned(),
        Json::Text(s) => s.clone(),
        _ => value.compact(),
    }
}

/// The share of a quota that is used, in percent: all of it where nothing is said.
pub open spec fn used_percent(window: JsonModel) -> i64 {
    match json::integer_of(window.member("used_percent"@)) {
        Some(used) => if used < 0 {
            0
        } else if used > 100 {
            100
        } else {
            used
        },
        None => 100,
    }
}

/// Which quota the window is, by its length in seconds.
pub open spec fn window_role(window: JsonModel) -> WindowRole {
    match json::integer_of(window.member("limit_window_seconds"@)) {
        Some(18_000) => WindowRole::FiveHour,
        Some(604_800) => WindowRole::Weekly,
        _ => WindowRole::Unknown,
    }
}

/// What a window says.
pub open spec fn window_model(window: JsonModel) -> WindowModel {
    WindowModel {
        remaining_percent: (100 - used_percent(window)) as i64,
        reset_at: match window.member("reset_at"@) {
            Some(value) => Some(value_text(value)),
            None => None,
        },
    }
}

/// What a window says, and which quota it is.
pub fn map_window(window: &Json) -> (r: (WindowSnapshot, WindowRole))
    ensures
        r.0@ == window_model(window@),
        r.1 == window_role(window@),
        0 <= r.0.remaining_percent <= 100,
{
    let used: i64 = match json::as_integer(window.get("used_percent")) {
        Some(used) => if used < 0 {
            0
        } else if used > 100 {
            100
        } else {
            used
        },
        None => 100,
    };
    let role = match json::as_integer(window.get("limit_window_seconds")) {
        Some(18_000) => WindowRole::FiveHour,
        Some(604_800) => WindowRole::Weekly,
        _ => WindowRole::Unknown,
    };
    let reset_at = match window.get("reset_at") {
        Some(value) => Some(value_to_string(value)),
        None => None,
    };
    (WindowSnapshot { remaining_percent: 100 - used, reset_at }, role)
}

/// The quotas that are known: the five-hour one and the weekly one.
pub struct Quotas {
    pub five_hour: Option<WindowModel>,
    pub weekly: Option<WindowModel>,
}

/// The quotas after one more window: it is taken for the quota of its role, or else for
/// the one that is left. A window that does not say which it is, is taken for the
/// five-hour one first.
pub open spec fn with_window(quotas: Quotas, window: WindowModel, role: WindowRole) -> Quotas {
    if role == WindowRole::Weekly {
        if quotas.weekly is None {
            Quotas { weekly: Some(window), ..quotas }
        } else if quotas.five_hour is None {
            Quotas { five_hour: Some(window), ..quotas }
        } else {
            quotas
        }
    } else if quotas.five_hour is None {
        Quotas { five_hour: Some(window), ..quotas }
    } else if quotas.weekly is None {
        Quotas { weekly: Some(window), ..quotas }
    } else {
        quotas
    }
}

/// The quotas after the window, where it is an object.
pub open spec fn with_optional_window(quotas: Quotas, window: Option<JsonModel>) -> Quotas {
    match window {
        Some(w) => if w is Object {
            with_window(quotas, window_model(w), window_role(w))
        } else {
            quotas
        },
        None => quotas,
    }
}

/// The quotas in an answer of the service.
pub open spec fn answered_quotas(payload: JsonModel) -> Quotas {
    with_optional_window(
        with_optional_window(
            Quotas { five_hour: None, weekly: None },
            payload.nested("rate_limit"@, "primary_window"@),
        ),
        payload.nested("rate_limit"@, "secondary_window"@),
    )
}

/// What an optional window says.
pub open spec fn window_of(window: Option<WindowSnapshot>) -> Option<WindowModel> {
    match window {
        Some(w) => Some(w@),
        None => None,
    }
}

/// The quotas that are known.
pub struct QuotaSnapshots {
    pub five_hour: Option<WindowSnapshot>,
    pub weekly: Option<WindowSnapshot>,
}

impl View for QuotaSnapshots {
    type V = Quotas;

    open spec fn view(&self) -> Quotas {
        Quotas { five_hour: window_of(self.five_hour), weekly: window_of(self.weekly) }
    }
}

/// Takes one more window into account.
pub fn take_window(quotas: QuotaSnapshots, window: Option<&Json>) -> (r: QuotaSnapshots)
    ensures
        r@ == with_optional_window(quotas@, json::opt_model(window)),
{
    let window = match window {
        Some(window) => window,
        None => return quotas,
    };
    if !window.is_object() {
        return quotas;
    }
    let (snapshot, role) = map_window(window);
    let weekly_first = match role {
        WindowRole::Weekly => true,
        _ => false,
    };
    if weekly_first {
        if quotas.weekly.is_none() {
            QuotaSnapshots { five_hour: quotas.five_hour, weekly: Some(snapshot) }
        } else if quotas.five_hour.is_none() {
            QuotaSnapshots { five_hour: Some(snapshot), weekly: quotas.weekly }
        } else {
            quotas
        }
    } else if quotas.five_hour.is_none() {
        QuotaSnapshots { five_hour: Some(snapshot), weekly: quotas.weekly }
    } else if quotas.weekly.is_none() {
        QuotaSnapshots { five_hour: quotas.five_hour, weekly: Some(snapshot) }
    } else {
        quotas
    }
}

/// The balance of the credits in an answer of the service, unless they are unlimited.
pub open spec fn answered_balance(payload: JsonModel) -> Option<JsonModel> {
    if payload.nested("credits"@, "unlimited"@) == Some(JsonModel::Bool(true)) {
        None
    } else {
        payload.nested("credits"@, "balance"@)
    }
}

/// The balance of the credits; one that is given as text stands for `parsed`.
pub open spec fn balance_of(balance: Option<JsonModel>, parsed: Option<CreditsBalance>) -> Option<
    CreditsBalance,
> {
    match balance {
        Some(JsonModel::Number(n)) => match n.bits {
            Some(bits) => Some(CreditsBalance { bits }),
            None => None,
        },
        Some(JsonModel::Text(_)) => parsed,
        _ => None,
    }
}

/// The balance of the credits in an answer of the service, unless they are unlimited.
pub fn credits_balance<'a>(payload: &'a Json) -> (r: Option<&'a Json>)
    ensures
        json::opt_model(r) == answered_balance(payload@),
{
    match payload.get_nested("credits", "unlimited") {
        Some(Json::Bool(true)) => None,
        _ => payload.get_nested("credits", "balance"),
    }
}

/// The balance of the credits where it is given as text, without the white space at its
/// ends: what is left to be read as a number.
pub fn credits_balance_text<'a>(payload: &'a Json) -> (r: Option<&'a str>)
    ensures
        text::opt_str_chars(r) == match json::text_of(answered_balance(payload@)) {
            Some(balance) => Some(text::trimmed(balance)),
            None => None,
        },
{
    match json::as_text(credits_balance(payload)) {
        Some(balance) => Some(text::trim(balance)),
        None => None,
    }
}

/// What an answer of the service says.
pub open spec fn answered_usage(payload: JsonModel, parsed: Option<CreditsBalance>) -> UsageModel {
    let quotas = answered_quotas(payload);
    UsageModel {
        plan: match json::text_of(payload.member("plan_type"@)) {
            Some(plan) => Some(auth::plan_name(plan)),
            None => None,
        },
        five_hour_remaining_percent: match quotas.five_hour {
            Some(window) => Some(window.remaining_percent),
            None => None,
        },
        five_hour_refresh_at: match quotas.five_hour {
            Some(window) => window.reset_at,
            None => None,
        },
        weekly_remaining_percent: match quotas.weekly {
            Some(window) => Some(window.remaining_percent),
            None => None,
        },
        weekly_refresh_at: match quotas.weekly {
            Some(window) => window.reset_at,
            None => None,
        },
        credits_balance: balance_of(answered_balance(payload), parsed),
        ..state::blank_usage()
    }
}

/// What an answer of the service says; `parsed` is the balance of the credits where it is
/// given as text that is a number.
pub fn normalize_usage_response(payload: &Json, parsed: Option<CreditsBalance>) -> (r:
    UsageSnapshot)
    ensures
        r@ == answered_usage(payload@, parsed),
{
    let none = QuotaSnapshots { five_hour: None, weekly: None };
    let first = take_window(none, payload.get_nested("rate_limit", "primary_window"));
    let quotas = take_window(first, payload.get_nested("rate_limit", "secondary_window"));
    let mut usage = UsageSnapshot::default();
    usage.plan = match json::as_text(payload.get("plan_type")) {
        Some(plan) => Some(auth::normalize_plan(plan)),
        None => None,
    };
    usage.credits_balance = match credits_balance(payload) {
        Some(Json::Number(n)) => match n.bits() {
            Some(bits) => Some(CreditsBalance { bits }),
            None => None,
        },
        Some(Json::Text(_)) => parsed,
        _ => None,
    };
    if let Some(window) = quotas.five_hour {
        usage.five_hour_remaining_percent = Some(window.remaining_percent);
        usage.five_hour_refresh_at = window.reset_at;
    }
    if let Some(window) = quotas.weekly {
        usage.weekly_remaining_percent = Some(window.remaining_percent);
        usage.weekly_refresh_at = window.reset_at;
    }
    usage
}

/// A quota that the service reports lies between nothing and all of it.
pub proof fn law_quotas_are_percentages(payload: JsonModel, parsed: Option<CreditsBalance>)
    ensures
        answered_usage(payload, parsed).five_hour_remaining_percent matches Some(percent) ==> 0
            <= percent <= 100,
        answered_usage(payload, parsed).weekly_remaining_percent matches Some(percent) ==> 0
            <= percent <= 100,
{
}

/// A window that is null, or anything but an object, is no quota: it does not count as
/// one that is used up.
pub proof fn law_null_window_is_no_quota(payload: JsonModel, parsed: Option<CreditsBalance>)
    requires
        !(payload.nested("rate_limit"@, "primary_window"@) matches Some(w) && w is Object),
        !(payload.nested("rate_limit"@, "secondary_window"@) matches Some(w) && w is Object),
    ensures
        answered_usage(payload, parsed).five_hour_remaining_percent is None,
        answered_usage(payload, parsed).weekly_remaining_percent is None,
{
}

/// Whether the answer has these two windows, in this order.
pub open spec fn has_windows(payload: JsonModel, first: JsonModel, second: JsonModel) -> bool {
    &&& payload.nested("rate_limit"@, "primary_window"@) == Some(first)
    &&& payload.nested("rate_limit"@, "secondary_window"@) == Some(second)
}

/// Where the service names both windows, each is the quota that it is named as, in
/// whichever order they come.
pub proof fn law_named_windows_keep_their_role(
    payload: JsonModel,
    parsed: Option<CreditsBalance>,
    five_hour: JsonModel,
    weekly: JsonModel,
)
    requires
        five_hour is Object && window_role(five_hour) == WindowRole::FiveHour,
        weekly is Object && window_role(weekly) == WindowRole::Weekly,
        has_windows(payload, five_hour, weekly) || has_windows(payload, weekly, five_hour),
    ensures
        answered_usage(payload, parsed).five_hour_remaining_percent == Some(
            window_model(five_hour).remaining_percent,
        ),
        answered_usage(payload, parsed).weekly_remaining_percent == Some(
            window_model(weekly).remaining_percent,
        ),
{
}

// ---------------------------------------------------------------------------
// Ranking by quota
// ---------------------------------------------------------------------------

/// The percentage, held to the range of percentages.
pub open spec fn clamped(percent: i64) -> int {
    if percent < 0 {
        0
    } else if percent > 100 {
        100
    } else {
        percent as int
    }
}

/// The quota that counts: its own percentage, or that of the other where it is not known.
pub open spec fn counted(own: Option<i64>, other: Option<i64>) -> int {
    match own {
        Some(percent) => clamped(percent),
        None => match other {
            Some(percent) => clamped(percent),
            None => 0,
        },
    }
}

/// The ranking of an account by its quotas: the five-hour one counts before the weekly
/// one. Without any quota there is no ranking.
pub open spec fn quota_rank(five_hour: Option<i64>, weekly: Option<i64>, at: i64) -> Option<
    AccountRankInput,
> {
    if five_hour is None && weekly is None {
        None
    } else {
        Some(
            AccountRankInput {
                keep_current_priority: if five_hour matches Some(percent) && percent
                    >= CURRENT_ACCOUNT_MIN_FIVE_HOUR_PERCENT {
                    1
                } else {
                    0
                },
                selection_priority: (counted(five_hour, weekly) * 101 + counted(
                    weekly,
                    five_hour,
                )) as i64,
                freshness_priority: at,
            },
        )
    }
}

fn clamp_percent(percent: i64) -> (r: i64)
    ensures
        r == clamped(percent),
{
    if percent < 0 {
        0
    } else if percent > 100 {
        100
    } else {
        percent
    }
}

fn counted_percent(own: Option<i64>, other: Option<i64>) -> (r: i64)
    ensures
        r == counted(own, other),
        0 <= r <= 100,
{
    match own {
        Some(percent) => clamp_percent(percent),
        None => match other {
            Some(percent) => clamp_percent(percent),
            None => 0,
        },
    }
}

/// The ranking of an account by its quotas.
pub fn rank_by_quota(five_hour: Option<i64>, weekly: Option<i64>, at: i64) -> (r: Option<
    AccountRankInput,
>)
    ensures
        r == quota_rank(five_hour, weekly, at),
{
    if five_hour.is_none() && weekly.is_none() {
        return None;
    }
    let keep: i64 = match five_hour {
        Some(percent) => if percent >= CURRENT_ACCOUNT_MIN_FIVE_HOUR_PERCENT {
            1
        } else {
            0
        },
        None => 0,
    };
    let first = counted_percent(five_hour, weekly);
    let second = counted_percent(weekly, five_hour);
    Some(
        AccountRankInput {
            keep_current_priority: keep,
            selection_priority: first * 101 + second,
            freshness_priority: at,
        },
    )
}

/// A higher five-hour quota ranks higher whatever the weekly quotas are, and of two equal
/// five-hour quotas the one with the higher weekly quota does.
pub proof fn law_rank_prefers_five_hour(
    five: i64,
    weekly: i64,
    other_five: i64,
    other_weekly: i64,
    at: i64,
    other_at: i64,
)
    requires
        0 <= five <= 100,
        0 <= weekly <= 100,
        0 <= other_five <= 100,
        0 <= other_weekly <= 100,
        five > other_five || (five == other_five && weekly > other_weekly),
    ensures
        quota_rank(Some(five), Some(weekly), at)->0.selection_priority > quota_rank(
            Some(other_five),
            Some(other_weekly),
            other_at,
        )->0.selection_priority,
{
}

/// An account with any quota left can be selected, and one with none cannot.
pub proof fn law_rank_of_what_is_left(five_hour: Option<i64>, weekly: Option<i64>, at: i64)
    requires
        five_hour matches Some(percent) ==> 0 <= percent <= 100,
        weekly matches Some(percent) ==> 0 <= percent <= 100,
    ensures
        (quota_rank(five_hour, weekly, at) matches Some(rank) && (rank.keep_current_priority > 0
            || rank.selection_priority > 0)) <==> ((five_hour matches Some(percent) && percent > 0)
            || (weekly matches Some(percent) && percent > 0)),
{
}

// ---------------------------------------------------------------------------
// Refreshing several accounts at a time
// ---------------------------------------------------------------------------

/// The number of workers for so many accounts: as many as the machine runs at once, but at
/// least one and at most eight, and no more than accounts.
pub open spec fn worker_count(accounts: int, parallelism: int) -> int {
    let wanted = if parallelism < 1 {
        1
    } else if parallelism > MAX_REFRESH_WORKERS {
        MAX_REFRESH_WORKERS as int
    } else {
        parallelism
    };
    if wanted > accounts {
        accounts
    } else {
        wanted
    }
}

/// How many accounts are refreshed at a time: as many as the machine can, but at least
/// one, at most eight, and no more than there are.
pub fn bounded_refresh_worker_count(account_count: usize, available_parallelism: usize) -> (r:
    usize)
    ensures
        r == (if account_count == 0 {
            0
        } else {
            let usable = if available_parallelism == 0 {
                1
            } else if available_parallelism > MAX_REFRESH_WORKERS {
                MAX_REFRESH_WORKERS
            } else {
                available_parallelism
            };
            if usable > account_count {
                account_count
            } else {
                usable
            }
        }),
        r == worker_count(account_count as int, available_parallelism as int),
{
    if account_count == 0 {
        return 0;
    }
    let usable: usize = if available_parallelism == 0 {
        1
    } else if available_parallelism > MAX_REFRESH_WORKERS {
        MAX_REFRESH_WORKERS
    } else {
        available_parallelism
    };
    if usable > account_count {
        account_count
    } else {
        usable
    }
}

/// Whether the ranges follow on each other from `from` to `to`, none of them empty.
pub open spec fn covers(chunks: Seq<(usize, usize)>, from: int, to: int) -> bool
    decreases chunks.len(),
{
    if chunks.len() == 0 {
        from == to
    } else {
        &&& chunks.last().0 < chunks.last().1
        &&& chunks.last().1 == to
        &&& covers(chunks.drop_last(), from, chunks.last().0 as int)
    }
}

/// The number of workers that is used: at least one, and no more than accounts.
pub open spec fn used_workers(count: int, workers: int) -> int {
    if workers < 1 {
        1
    } else if workers > count {
        count
    } else {
        workers
    }
}

/// The number of accounts that a worker refreshes, rounded up.
pub open spec fn worker_share(count: int, workers: int) -> int {
    (count + used_workers(count, workers) - 1) / used_workers(count, workers)
}

/// The ranges of accounts that the workers refresh: every account is in one of them, and
/// each but the last has as many accounts as the share of a worker.
pub fn refresh_chunks(count: usize, worker_count: usize) -> (r: Vec<(usize, usize)>)
    ensures
        covers(r@, 0, count as int),
        r@.len() <= used_workers(count as int, worker_count as int),
        forall|i: int|
            0 <= i < r@.len() ==> (#[trigger] r@[i]).1 - r@[i].0 <= worker_share(
                count as int,
                worker_count as int,
            ),
        forall|i: int|
            0 <= i < r@.len() - 1 ==> (#[trigger] r@[i]).1 - r@[i].0 == worker_share(
                count as int,
                worker_count as int,
            ),
{
    let mut chunks: Vec<(usize, usize)> = Vec::new();
    if count == 0 {
        return chunks;
    }
    let workers: usize = if worker_count < 1 {
        1
    } else if worker_count > count {
        count
    } else {
        worker_count
    };
    let size: usize = (count - 1) / workers + 1;
    proof {
        lemma_share(count as int, workers as int, size as int);
    }
    let mut from: usize = 0;
    assert(chunks@.len() * size == 0) by (nonlinear_arith)
        requires
            chunks@.len() == 0,
    ;
    while from < count
        invariant
            from <= count,
            1 <= workers <= count,
            workers == used_workers(count as int, worker_count as int),
            size == (count + workers - 1) / workers as int,
            size >= 1,
            size * workers >= count,
            covers(chunks@, 0, from as int),
            from < count ==> from == chunks@.len() * size,
            from == count ==> chunks@.len() <= workers,
            forall|i: int|
                0 <= i < chunks@.len() ==> (#[trigger] chunks@[i]).1 - chunks@[i].0 <= size,
            forall|i: int|
                0 <= i < chunks@.len() && (i < chunks@.len() - 1 || from < count) ==> (
                #[trigger] chunks@[i]).1 - chunks@[i].0 == size,
        decreases count - from,
    {
        let ghost before = chunks@;
        let to: usize = if count - from < size {
            count
        } else {
            from + size
        };
        chunks.push((from, to));
        proof {
            assert(chunks@.drop_last() =~= before);
            assert((before.len() + 1) * size == before.len() * size + size) by (nonlinear_arith);
            assert(before.len() < workers) by (nonlinear_arith)
                requires
                    before.len() * size < count,
                    size * workers >= count,
                    size >= 1,
            ;
        }
        from = to;
    }
    chunks
}

proof fn lemma_share(count: int, workers: int, size: int)
    requires
        1 <= workers <= count,
        size == (count - 1) / workers + 1,
    ensures
        size == (count + workers - 1) / workers,
        size * workers >= count,
        size >= 1,
        size <= count,
{
    vstd::arithmetic::div_mod::lemma_fundamental_div_mod(count - 1, workers);
    vstd::arithmetic::div_mod::lemma_div_plus_one(count - 1, workers);
    assert(size * workers == workers * ((count - 1) / workers) + workers) by (nonlinear_arith)
        requires
            size == (count - 1) / workers + 1,
    ;
    assert((count - 1) / workers <= count - 1) by (nonlinear_arith)
        requires
            1 <= workers <= count,
    ;
    assert((count - 1) / workers >= 0) by (nonlinear_arith)
        requires
            1 <= workers <= count,
    ;
}

/// Every account is in exactly one of the ranges that cover them.
pub proof fn law_each_account_is_refreshed_once(
    chunks: Seq<(usize, usize)>,
    count: int,
    account: int,
)
    requires
        covers(chunks, 0, count),
        0 <= account < count,
    ensures
        exists|i: int|
            0 <= i < chunks.len() && (#[trigger] chunks[i]).0 <= account < chunks[i].1,
        forall|i: int, j: int|
            0 <= i < chunks.len() && 0 <= j < chunks.len() && (#[trigger] chunks[i]).0 <= account
                < chunks[i].1 && (#[trigger] chunks[j]).0 <= account < chunks[j].1 ==> i == j,
    decreases chunks.len(),
{
    lemma_covers_bounds(chunks, 0, count);
    let n = chunks.len() - 1;
    assert(chunks.len() > 0);
    let rest = chunks.drop_last();
    let start = chunks.last().0 as int;
    if account < start {
        law_each_account_is_refreshed_once(rest, start, account);
        let i = choose|i: int|
            0 <= i < rest.len() && (#[trigger] rest[i]).0 <= account < rest[i].1;
        assert(chunks[i] == rest[i]);
        assert forall|i: int, j: int|
            0 <= i < chunks.len() && 0 <= j < chunks.len() && (#[trigger] chunks[i]).0 <= account
                < chunks[i].1 && (#[trigger] chunks[j]).0 <= account < chunks[j].1 implies i
            == j by {
            assert(i < n && j < n);
            assert(chunks[i] == rest[i] && chunks[j] == rest[j]);
        }
    } else {
        assert(chunks[n].0 <= account < chunks[n].1);
        lemma_covers_bounds(rest, 0, start);
        assert forall|i: int, j: int|
            0 <= i < chunks.len() && 0 <= j < chunks.len() && (#[trigger] chunks[i]).0 <= account
                < chunks[i].1 && (#[trigger] chunks[j]).0 <= account < chunks[j].1 implies i
            == j by {
            if i < n {
                assert(chunks[i] == rest[i]);
            }
            if j < n {
                assert(chunks[j] == rest[j]);
            }
        }
    }
}

proof fn lemma_covers_bounds(chunks: Seq<(usize, usize)>, from: int, to: int)
    requires
        covers(chunks, from, to),
    ensures
        from <= to,
        forall|i: int| 0 <= i < chunks.len() ==> (#[trigger] chunks[i]).1 <= to,
    decreases chunks.len(),
{
    if chunks.len() > 0 {
        let rest = chunks.drop_last();
        lemma_covers_bounds(rest, from, chunks.last().0 as int);
        assert forall|i: int| 0 <= i < chunks.len() implies (#[trigger] chunks[i]).1 <= to by {
            if i < chunks.len() - 1 {
                assert(chunks[i] == rest[i]);
            }
        }
    }
}

/// Whether `usage` may be what the fetcher returns for the account, given the snapshot of
/// it in the cache.
pub open spec fn fetched_for<F: Fn(&AccountRecord, Option<&UsageSnapshot>) -> UsageSnapshot>(
    fetcher: F,
    account: AccountRecord,
    cache: Map<Seq<char>, UsageSnapshot>,
    usage: UsageSnapshot,
) -> bool {
    if cache.contains_key(account.id@) {
        call_ensures(fetcher, (&account, Some(&cache[account.id@])), usage)
    } else {
        call_ensures(fetcher, (&account, None::<&UsageSnapshot>), usage)
    }
}

/// Refreshes the accounts `from..to` one after the other: each is fetched with the
/// snapshot of it in the cache.
pub fn collect_refreshed_usage<F: Fn(&AccountRecord, Option<&UsageSnapshot>) -> UsageSnapshot>(
    accounts: &Vec<AccountRecord>,
    from: usize,
    to: usize,
    usage_cache: &UsageCache,
    fetcher: F,
) -> (r: Vec<(String, UsageSnapshot)>)
    requires
        from <= to <= accounts@.len(),
        forall|account: &AccountRecord, previous: Option<&UsageSnapshot>| #[trigger]
            call_requires(fetcher, (account, previous)),
    ensures
        r@.len() == to - from,
        forall|i: int|
            0 <= i < r@.len() ==> {
                &&& (#[trigger] r@[i]).0@ == accounts@[from + i].id@
                &&& fetched_for(fetcher, accounts@[from + i], usage_cache@, r@[i].1)
            },
{
    let mut refreshed: Vec<(String, UsageSnapshot)> = Vec::new();
    let mut i: usize = from;
    while i < to
        invariant
            from <= i <= to <= accounts@.len(),
            refreshed@.len() == i - from,
            forall|account: &AccountRecord, previous: Option<&UsageSnapshot>| #[trigger]
                call_requires(fetcher, (account, previous)),
            forall|k: int|
                0 <= k < refreshed@.len() ==> {
                    &&& (#[trigger] refreshed@[k]).0@ == accounts@[from + k].id@
                    &&& fetched_for(fetcher, accounts@[from + k], usage_cache@, refreshed@[k].1)
                },
        decreases to - i,
    {
        let account = &accounts[i];
        let usage = fetcher(account, usage_cache.get(account.id.as_str()));
        refreshed.push((account.id.clone(), usage));
        i += 1;
    }
    refreshed
}

// ---------------------------------------------------------------------------
// Laws
// ---------------------------------------------------------------------------

/// What is left of a quota and what is used of it make up the whole: of a window of which
/// `used` percent are used, the other percents are left. A share below nothing counts as
/// nothing, and one above the whole as the whole.
pub proof fn law_remaining_is_what_is_not_used(
    window: JsonModel,
    number: json::NumberModel,
    used: i64,
)
    requires
        window.member("used_percent"@) == Some(JsonModel::Number(number)),
        number.signed == Some(used),
    ensures
        0 <= used <= 100 ==> window_model(window).remaining_percent + used == 100,
        used < 0 ==> window_model(window).remaining_percent == 100,
        used > 100 ==> window_model(window).remaining_percent == 0,
{
}

/// A window that does not say how much of it is used, in a whole number, counts as used up.
pub proof fn law_unsaid_usage_leaves_nothing(window: JsonModel)
    requires
        !(window.member("used_percent"@) matches Some(JsonModel::Number(number))
            && number.signed is Some),
    ensures
        window_model(window).remaining_percent == 0,
{
}

/// A window of 18,000 seconds is the five-hour quota, one of 604,800 seconds the weekly one,
/// and one of any other length, or of none, is neither.
pub proof fn law_length_names_the_quota(window: JsonModel, number: json::NumberModel, seconds: i64)
    requires
        window.member("limit_window_seconds"@) == Some(JsonModel::Number(number)),
        number.signed == Some(seconds),
    ensures
        window_role(window) == WindowRole::FiveHour <==> seconds == 5 * 60 * 60,
        window_role(window) == WindowRole::Weekly <==> seconds == 7 * 24 * 60 * 60,
{
}

/// A window without a length in whole seconds is neither quota.
pub proof fn law_window_without_length_is_unnamed(window: JsonModel)
    requires
        !(window.member("limit_window_seconds"@) matches Some(JsonModel::Number(number))
            && number.signed is Some),
    ensures
        window_role(window) == WindowRole::Unknown,
{
}

/// A quota is reset when the service says: a text stands for itself, and anything else for its
/// JSON text; where nothing is said, nothing is known.
pub proof fn law_reset_is_what_the_service_says(
    window: JsonModel,
    value: JsonModel,
    text: Seq<char>,
)
    ensures
        window.member("reset_at"@) is None ==> window_model(window).reset_at is None,
        window.member("reset_at"@) == Some(value) && !(value is Text) && !(value is Null)
            ==> window_model(window).reset_at == Some(json::compact_text(value)),
        window.member("reset_at"@) == Some(JsonModel::Text(text)) ==> window_model(window).reset_at
            == Some(text),
{
}

/// Whether the window says that it is `seconds` long and that `used` percent of it are used.
pub open spec fn says(window: JsonModel, seconds: i64, used: i64) -> bool {
    &&& window is Object
    &&& window.member("limit_window_seconds"@) matches Some(JsonModel::Number(length))
    &&& length.signed == Some(seconds)
    &&& window.member("used_percent"@) matches Some(JsonModel::Number(share))
    &&& share.signed == Some(used)
}

/// Of an answer with a five-hour and a weekly window, in whichever order, the share that is not
/// used of each is what is left of that quota, and each is reset when its own window says.
#[verifier::spinoff_prover]
#[verifier::rlimit(40)]
pub proof fn law_answer_tells_both_quotas(
    payload: JsonModel,
    parsed: Option<CreditsBalance>,
    five_hour: JsonModel,
    weekly: JsonModel,
    five_used: i64,
    weekly_used: i64,
)
    requires
        says(five_hour, 18_000, five_used),
        says(weekly, 604_800, weekly_used),
        0 <= five_used <= 100,
        0 <= weekly_used <= 100,
        has_windows(payload, five_hour, weekly) || has_windows(payload, weekly, five_hour),
    ensures
        ({
            let usage = answered_usage(payload, parsed);
            &&& usage.five_hour_remaining_percent matches Some(left) && left == 100 - five_used
            &&& usage.weekly_remaining_percent matches Some(left) && left == 100 - weekly_used
            &&& usage.five_hour_refresh_at == window_model(five_hour).reset_at
            &&& usage.weekly_refresh_at == window_model(weekly).reset_at
        }),
{
}

/// Of an answer with one window, in either place, the quota that it is named as is known, and
/// the other is not; a window that is not the weekly one is taken for the five-hour one.
#[verifier::spinoff_prover]
#[verifier::rlimit(40)]
pub proof fn law_lone_window_tells_one_quota(
    payload: JsonModel,
    parsed: Option<CreditsBalance>,
    window: JsonModel,
    seconds: i64,
    used: i64,
)
    requires
        says(window, seconds, used),
        0 <= used <= 100,
        (payload.nested("rate_limit"@, "primary_window"@) == Some(window) && !(payload.nested(
            "rate_limit"@,
            "secondary_window"@,
        ) matches Some(other) && other is Object)) || (payload.nested(
            "rate_limit"@,
            "secondary_window"@,
        ) == Some(window) && !(payload.nested("rate_limit"@, "primary_window"@) matches Some(other)
            && other is Object)),
    ensures
        ({
            let usage = answered_usage(payload, parsed);
            if seconds == 604_800 {
                &&& usage.weekly_remaining_percent matches Some(left) && left == 100 - used
                &&& usage.weekly_refresh_at == window_model(window).reset_at
                &&& usage.five_hour_remaining_percent is None
                &&& usage.five_hour_refresh_at is None
            } else {
                &&& usage.five_hour_remaining_percent matches Some(left) && left == 100 - used
                &&& usage.five_hour_refresh_at == window_model(window).reset_at
                &&& usage.weekly_remaining_percent is None
                &&& usage.weekly_refresh_at is None
            }
        }),
{
}

/// No window is lost: of two windows that are both the five-hour one or unnamed the first is
/// the five-hour quota and the second the weekly one, and of two weekly ones the other way
/// round.
#[verifier::spinoff_prover]
#[verifier::rlimit(40)]
pub proof fn law_both_windows_are_taken(
    payload: JsonModel,
    parsed: Option<CreditsBalance>,
    first: JsonModel,
    second: JsonModel,
    first_seconds: i64,
    second_seconds: i64,
    first_used: i64,
    second_used: i64,
)
    requires
        says(first, first_seconds, first_used),
        says(second, second_seconds, second_used),
        0 <= first_used <= 100,
        0 <= second_used <= 100,
        has_windows(payload, first, second),
        (first_seconds == 604_800) == (second_seconds == 604_800),
    ensures
        ({
            let usage = answered_usage(payload, parsed);
            let (five, weekly) = if first_seconds == 604_800 {
                (second_used, first_used)
            } else {
                (first_used, second_used)
            };
            &&& usage.five_hour_remaining_percent matches Some(left) && left == 100 - five
            &&& usage.weekly_remaining_percent matches Some(left) && left == 100 - weekly
        }),
{
}

/// An answer says nothing of a login, of an error, of the time or of a ranking.
pub proof fn law_answer_is_no_failure(payload: JsonModel, parsed: Option<CreditsBalance>)
    ensures
        !answered_usage(payload, parsed).needs_relogin,
        answered_usage(payload, parsed).last_sync_error is None,
        answered_usage(payload, parsed).last_synced_at is None,
        answered_usage(payload, parsed).rank_input is None,
{
}

/// The plan is the one that the answer names, with a capital letter, and unknown where it
/// names none.
pub proof fn law_answer_names_the_plan(
    payload: JsonModel,
    parsed: Option<CreditsBalance>,
    plan: Seq<char>,
)
    ensures
        payload.member("plan_type"@) == Some(JsonModel::Text(plan)) ==> answered_usage(
            payload,
            parsed,
        ).plan == Some(auth::plan_name(plan)),
        !(payload.member("plan_type"@) matches Some(JsonModel::Text(_))) ==> answered_usage(
            payload,
            parsed,
        ).plan is None,
{
}

/// The credits are those that the answer gives: a number is taken as it is, a text as what it
/// is parsed to. Unlimited credits, and a balance of any other kind, are no balance.
pub proof fn law_answer_tells_the_credits(
    payload: JsonModel,
    parsed: Option<CreditsBalance>,
    number: json::NumberModel,
    bits: u64,
)
    ensures
        payload.nested("credits"@, "unlimited"@) == Some(JsonModel::Bool(true)) ==> answered_usage(
            payload,
            parsed,
        ).credits_balance is None,
        payload.nested("credits"@, "unlimited"@) != Some(JsonModel::Bool(true)) && payload.nested(
            "credits"@,
            "balance"@,
        ) == Some(JsonModel::Number(number)) && number.bits == Some(bits) ==> answered_usage(
            payload,
            parsed,
        ).credits_balance == Some(CreditsBalance { bits }),
        payload.nested("credits"@, "unlimited"@) != Some(JsonModel::Bool(true)) && (payload.nested(
            "credits"@,
            "balance"@,
        ) matches Some(JsonModel::Text(_))) ==> answered_usage(payload, parsed).credits_balance
            == parsed,
        payload.nested("credits"@, "balance"@) is None ==> answered_usage(
            payload,
            parsed,
        ).credits_balance is None,
{
}

/// The current account may be kept from 20 percent of its five-hour quota on, and not below
/// or without one; the fresher of two equal rankings is the one of the later refresh.
pub proof fn law_rank_keeps_from_twenty_percent(
    five_hour: Option<i64>,
    weekly: Option<i64>,
    at: i64,
)
    ensures
        quota_rank(five_hour, weekly, at) is None <==> five_hour is None && weekly is None,
        quota_rank(five_hour, weekly, at) matches Some(rank) ==> {
            &&& rank.freshness_priority == at
            &&& rank.keep_current_priority > 0 <==> (five_hour matches Some(percent) && percent
                >= 20)
            &&& rank.keep_current_priority >= 0 && rank.selection_priority >= 0
        },
{
}

/// A quota that is not known counts like the one that is, and a percentage out of range like
/// the nearest one in range.
pub proof fn law_unknown_quota_counts_like_the_other(percent: i64, other: i64, at: i64)
    ensures
        quota_rank(Some(percent), None, at)->0.selection_priority == quota_rank(
            Some(percent),
            Some(percent),
            at,
        )->0.selection_priority,
        quota_rank(None, Some(percent), at)->0.selection_priority == quota_rank(
            Some(percent),
            Some(percent),
            at,
        )->0.selection_priority,
        percent > 100 ==> quota_rank(Some(percent), Some(other), at)->0.selection_priority
            == quota_rank(Some(100), Some(other), at)->0.selection_priority,
        percent < 0 ==> quota_rank(Some(percent), Some(other), at)->0.selection_priority
            == quota_rank(Some(0), Some(other), at)->0.selection_priority,
{
}

/// A failed refresh records when it was, why it failed and which plan the account has, and an
/// account that is to sign in again is marked as such.
pub proof fn law_failure_is_recorded(
    previous: Option<UsageModel>,
    plan: Option<Seq<char>>,
    at: i64,
    error: Seq<char>,
)
    ensures
        merged(previous, error_usage(plan, at, error)).last_synced_at == Some(at),
        merged(previous, relogin_usage(plan, at)).last_synced_at == Some(at),
        !merged(previous, error_usage(plan, at, error)).needs_relogin,
        merged(previous, relogin_usage(plan, at)).last_sync_error is Some,
        plan is Some ==> merged(previous, error_usage(plan, at, error)).plan == plan && merged(
            previous,
            relogin_usage(plan, at),
        ).plan == plan,
        plan is None && previous is Some ==> merged(previous, error_usage(plan, at, error)).plan
            == previous->0.plan,
{
}

/// An update that did not fail takes what it says of the plan, the resets, the credits and the
/// time, and keeps what was known of the rest; without a snapshot before, it is all there is.
pub proof fn law_success_keeps_what_is_unmentioned(previous: UsageModel, update: UsageModel)
    requires
        !update.needs_relogin,
        update.last_sync_error is None,
    ensures
        merged(None, update) == update,
        ({
            let now = merged(Some(previous), update);
            &&& update.plan is Some ==> now.plan == update.plan
            &&& update.plan is None ==> now.plan == previous.plan
            &&& update.weekly_refresh_at is Some ==> now.weekly_refresh_at
                == update.weekly_refresh_at
            &&& update.weekly_refresh_at is None ==> now.weekly_refresh_at
                == previous.weekly_refresh_at
            &&& update.five_hour_refresh_at is Some ==> now.five_hour_refresh_at
                == update.five_hour_refresh_at
            &&& update.five_hour_refresh_at is None ==> now.five_hour_refresh_at
                == previous.five_hour_refresh_at
            &&& update.credits_balance is Some ==> now.credits_balance == update.credits_balance
            &&& update.credits_balance is None ==> now.credits_balance == previous.credits_balance
            &&& update.last_synced_at is Some ==> now.last_synced_at == update.last_synced_at
            &&& update.last_synced_at is None ==> now.last_synced_at == previous.last_synced_at
            &&& !now.needs_relogin
            &&& now.rank_input == previous.rank_input
            &&& now.payload == previous.payload
        }),
{
}

// ---------------------------------------------------------------------------
// Laws of the address
// ---------------------------------------------------------------------------

/// The address that a configuration sets is the one between the quotation marks.
#[verifier::spinoff_prover]
#[verifier::rlimit(40)]
pub proof fn law_configured_address_is_read(url: Seq<char>, rest: Seq<Seq<char>>)
    requires
        url.len() > 0,
        forall|i: int| 0 <= i < url.len() ==> #[trigger] url[i] != '#',
        url.first() != '"' && url.first() != '\'' && !text::is_white_space(url.first()),
        url.last() != '"' && url.last() != '\'' && !text::is_white_space(url.last()),
    ensures
        configured_base_url(seq!["chatgpt_base_url = \""@ + url + "\""@] + rest) == Some(url),
{
    reveal_strlit("chatgpt_base_url = \"");
    reveal_strlit("chatgpt_base_url");
    reveal_strlit("\"");
    let none = Seq::<char>::empty();
    let opening = "chatgpt_base_url = \""@;
    let key = "chatgpt_base_url"@;
    let line = opening + url + "\""@;
    let lines = seq![line] + rest;
    assert(lines.first() == line);
    assert(text::before_first(line, '#') == line) by {
        assert forall|i: int| 0 <= i < opening.len() implies #[trigger] opening[i] != '#' by {}
        assert forall|i: int| 0 <= i < line.len() implies #[trigger] line[i] != '#' by {
            if i < opening.len() {
                assert(line[i] == opening[i]);
            } else if i < opening.len() + url.len() {
                assert(line[i] == url[i - opening.len()]);
            }
        }
        text::law_text_is_split(line, '#', none);
    }
    assert(line.first() == 'c' && line.last() == '"');
    lemma_bare_text_is_trimmed(line);
    let head = key + seq![' '];
    let inner = seq!['"'] + url + seq!['"'];
    let tail = seq![' '] + inner;
    assert(text::split_at_first(line, '=') == Some((head, tail))) by {
        assert forall|i: int| 0 <= i < head.len() implies #[trigger] head[i] != '=' by {}
        assert(line =~= head.push('=') + tail);
        text::law_text_is_split(head, '=', tail);
    }
    assert(text::trimmed(head) == key) by {
        assert(none + key + seq![' '] =~= head);
        text::law_trimming_takes_the_white_space_around(none, key, seq![' ']);
    }
    assert(unquoted(tail) == url) by {
        assert(seq![' '] + inner + none =~= tail);
        text::law_trimming_takes_the_white_space_around(seq![' '], inner, none);
        text::lemma_trim_padded(seq!['"'], url, seq!['"'], CharClass::Only('"'));
        text::lemma_trim_padded(none, url, none, CharClass::Only('\''));
        assert(none + url + none =~= url);
        lemma_bare_text_is_trimmed(url);
    }
}

/// Blank lines and comments are passed over.
#[verifier::spinoff_prover]
#[verifier::rlimit(40)]
pub proof fn law_other_lines_are_passed_over(
    line: Seq<char>,
    comment: Seq<char>,
    rest: Seq<Seq<char>>,
)
    ensures
        text::trimmed(line).len() == 0 && (forall|i: int|
            0 <= i < line.len() ==> #[trigger] line[i] != '#') ==> configured_base_url(
            seq![line] + rest,
        ) == configured_base_url(rest),
        configured_base_url(seq![seq!['#'] + comment] + rest) == configured_base_url(rest),
        configured_base_url(Seq::empty()) is None,
{
    let none = Seq::<char>::empty();
    let lines = seq![line] + rest;
    assert(lines.first() == line);
    assert(lines.drop_first() =~= rest);
    if forall|i: int| 0 <= i < line.len() ==> #[trigger] line[i] != '#' {
        text::law_text_is_split(line, '#', none);
    }
    let commented = seq!['#'] + comment;
    let others = seq![commented] + rest;
    assert(others.first() == commented);
    assert(others.drop_first() =~= rest);
    assert(none.push('#') + comment =~= commented);
    text::law_text_is_split(none, '#', comment);
    assert(none + none + none =~= none);
    text::law_trimming_takes_the_white_space_around(none, none, none);
}

/// The address in the environment comes before that in the configuration, which comes before
/// the usual one.
pub proof fn law_environment_names_the_address(
    env_url: Seq<char>,
    contents: Seq<char>,
    other: Option<Seq<char>>,
)
    ensures
        text::trimmed(env_url).len() > 0 ==> configured_base(Some(env_url), other) == env_url,
        configured_base_url(text::lines_of(contents)) matches Some(url) ==> configured_base(
            None,
            Some(contents),
        ) == url,
        configured_base_url(text::lines_of(contents)) is None ==> configured_base(
            None,
            Some(contents),
        ) == DEFAULT_BASE_URL@,
        configured_base(None, None) == DEFAULT_BASE_URL@,
{
}

/// An address is the same with a slash at its end; to one of the service itself the path of
/// its interface is added, unless it is there, and to no other.
pub proof fn law_address_has_one_form(url: Seq<char>)
    requires
        url.len() > 0,
        text::trimmed(url) == url,
        url.last() != '/',
    ensures
        normalized_base(url.push('/')) == normalized_base(url),
        !"https://chatgpt.com"@.is_prefix_of(url) && !"https://chat.openai.com"@.is_prefix_of(url)
            ==> normalized_base(url) == url,
        text::contains_text(url, "/backend-api"@) ==> normalized_base(url) == url,
        ("https://chatgpt.com"@.is_prefix_of(url) || "https://chat.openai.com"@.is_prefix_of(url))
            && !text::contains_text(url, "/backend-api"@) ==> normalized_base(url) == url
            + "/backend-api"@,
{
    let slashed = url.push('/');
    text::lemma_trim_ends(url, CharClass::WhiteSpace);
    assert(text::trimmed(slashed) == slashed);
    reveal_with_fuel(text::trim_end_of, 2);
    assert(slashed.drop_last() =~= url);
    assert(text::trim_end_of(slashed, CharClass::Only('/')) == url);
    assert(text::trim_end_of(url, CharClass::Only('/')) == url);
}

/// The usage is asked for below the interface of the service where the address has one, and
/// else below that of Codex.
pub proof fn law_usage_has_its_place(before: Seq<char>, after: Seq<char>, other: Seq<char>)
    ensures
        usage_url(before + "/backend-api"@ + after) == before + "/backend-api"@ + after
            + "/wham/usage"@,
        !text::contains_text(other, "/backend-api"@) ==> usage_url(other) == other
            + "/api/codex/usage"@,
{
    text::law_text_contains_its_parts(before, "/backend-api"@, after);
}

/// Workers are never more than eight, than the accounts or, but for one, than the machine
/// runs at once, and as many as these bounds allow; there are none only without an account.
pub proof fn law_workers_are_bounded(accounts: int, parallelism: int, n: int)
    requires
        accounts >= 0,
    ensures
        n <= worker_count(accounts, parallelism) <==> n <= 8 && n <= accounts && (n <= parallelism
            || n <= 1),
{
}

/// The workers that are used are at least one where there is an account, no more than there
/// are accounts, and otherwise as many as are wanted; a share is enough for all accounts, and
/// one account less would not be.
pub proof fn law_shares_are_even(count: int, workers: int)
    requires
        count > 0,
    ensures
        1 <= used_workers(count, workers) <= count,
        1 <= workers <= count ==> used_workers(count, workers) == workers,
        worker_share(count, workers) * used_workers(count, workers) >= count,
        (worker_share(count, workers) - 1) * used_workers(count, workers) < count,
{
    let w = used_workers(count, workers);
    let share = worker_share(count, workers);
    let total = count + w - 1;
    vstd::arithmetic::div_mod::lemma_fundamental_div_mod(total, w);
    vstd::arithmetic::div_mod::lemma_mod_bound(total, w);
    assert(share * w == w * (total / w)) by (nonlinear_arith)
        requires
            share == total / w,
    ;
    assert((share - 1) * w == share * w - w) by (nonlinear_arith);
}

/// A line that sets something else, or sets the address to nothing, is passed over.
#[verifier::spinoff_prover]
#[verifier::rlimit(40)]
pub proof fn law_other_settings_are_passed_over(
    key: Seq<char>,
    value: Seq<char>,
    rest: Seq<Seq<char>>,
)
    requires
        key.len() > 0,
        !text::is_white_space(key.first()) && !text::is_white_space(key.last()),
        value.len() > 0,
        !text::is_white_space(value.first()) && !text::is_white_space(value.last()),
        forall|i: int| 0 <= i < key.len() ==> #[trigger] key[i] != '#' && key[i] != '=',
        forall|i: int| 0 <= i < value.len() ==> #[trigger] value[i] != '#',
        key != "chatgpt_base_url"@ || unquoted(value).len() == 0,
    ensures
        configured_base_url(seq![key.push('=') + value] + rest) == configured_base_url(rest),
{
    let line = key.push('=') + value;
    let lines = seq![line] + rest;
    assert(lines.first() == line);
    assert(lines.drop_first() =~= rest);
    assert(text::before_first(line, '#') == line) by {
        assert forall|i: int| 0 <= i < line.len() implies #[trigger] line[i] != '#' by {
            if i < key.len() {
                assert(line[i] == key[i]);
            } else if i > key.len() {
                assert(line[i] == value[i - key.len() - 1]);
            }
        }
        text::law_text_is_split(line, '#', Seq::empty());
    }
    assert(text::trimmed(line) == line) by {
        assert(line.first() == key.first());
        assert(line.last() == value.last());
        lemma_bare_text_is_trimmed(line);
    }
    assert(text::split_at_first(line, '=') == Some((key, value))) by {
        text::law_text_is_split(key, '=', value);
    }
    lemma_bare_text_is_trimmed(key);
}

/// A line that sets nothing ends the search.
pub proof fn law_line_without_a_setting_ends_the_search(line: Seq<char>, rest: Seq<Seq<char>>)
    requires
        line.len() > 0,
        !text::is_white_space(line.first()) && !text::is_white_space(line.last()),
        forall|i: int| 0 <= i < line.len() ==> #[trigger] line[i] != '#' && line[i] != '=',
    ensures
        configured_base_url(seq![line] + rest) is None,
{
    let lines = seq![line] + rest;
    assert(lines.first() == line);
    assert(text::before_first(line, '#') == line) by {
        text::law_text_is_split(line, '#', Seq::empty());
    }
    lemma_bare_text_is_trimmed(line);
    assert(text::split_at_first(line, '=') is None) by {
        text::law_text_is_split(line, '=', Seq::empty());
    }
}

proof fn lemma_bare_text_is_trimmed(s: Seq<char>)
    requires
        s.len() > 0,
        !text::is_white_space(s.first()) && !text::is_white_space(s.last()),
    ensures
        text::trimmed(s) == s,
{
}

/// A reset that is said to be nothing is shown as that word.
pub proof fn law_null_is_a_word(window: JsonModel)
    requires
        window.member("reset_at"@) == Some(JsonModel::Null),
    ensures
        window_model(window).reset_at == Some(seq!['n', 'u', 'l', 'l']),
{
    reveal_strlit("null");
    assert("null"@ =~= seq!['n', 'u', 'l', 'l']);
}

/// One percent more of the five-hour quota counts more than the whole weekly quota, and one
/// percent more of the weekly quota counts least; nothing left counts nothing. An account that
/// may be kept has one priority for that, and any other none.
pub proof fn law_each_percent_counts(five_hour: i64, weekly: i64, at: i64)
    requires
        0 <= five_hour < 100,
        0 <= weekly < 100,
    ensures
        ({
            let rank = quota_rank(Some(five_hour), Some(weekly), at)->0;
            let more = quota_rank(Some((five_hour + 1) as i64), Some(weekly), at)->0;
            let later = quota_rank(Some(five_hour), Some((weekly + 1) as i64), at)->0;
            &&& more.selection_priority == rank.selection_priority + 101
            &&& later.selection_priority == rank.selection_priority + 1
            &&& five_hour == 0 && weekly == 0 ==> rank.selection_priority == 0
            &&& rank.keep_current_priority == (if five_hour >= 20 {
                1int
            } else {
                0
            })
        }),
{
}

/// An account that is to sign in again is told how.
pub proof fn law_relogin_is_told(plan: Option<Seq<char>>, at: i64)
    ensures
        relogin_usage(plan, at).needs_relogin,
        relogin_usage(plan, at).last_sync_error == Some(
            "Codex OAuth token expired or invalid. Run `codex login` again."@,
        ),
        relogin_usage(plan, at).plan == plan,
        relogin_usage(plan, at).last_synced_at == Some(at),
{
}

} // verus!
