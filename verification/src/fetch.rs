//! Asking the usage service about one account, step by step.
//!
//! The caller performs each step and hands back what came of it. Expired tokens are
//! renewed before the first request, and once more where the service refuses them.

use vstd::prelude::*;

use crate::adapter::CodexAdapter;
use crate::auth;
use crate::json;
use crate::json::{Json, JsonModel};
use crate::outside;
use crate::state;
use crate::state::{
    AccountRecord, AccountType, CreditsBalance, State, UsageModel, UsageSnapshot,
};
use crate::text;
use crate::usage;

verus! {

/// What an answer says.
pub struct ReplyModel {
    pub status: u16,
    pub status_text: Seq<char>,
    pub body: Result<Seq<u8>, Seq<char>>,
}

/// An answer of the usage service.
#[derive(Debug)]
pub struct UsageReply {
    pub status: u16,
    /// The status as it is shown, such as `401 Unauthorized`.
    pub status_text: String,
    /// What the answer holds, or why that could not be read.
    pub body: Result<Vec<u8>, String>,
}

impl View for UsageReply {
    type V = ReplyModel;

    open spec fn view(&self) -> ReplyModel {
        ReplyModel {
            status: self.status,
            status_text: self.status_text@,
            body: match self.body {
                Ok(bytes) => Ok(bytes@),
                Err(error) => Err(error@),
            },
        }
    }
}

/// What is refreshed.
pub struct TaskModel {
    pub plan: Option<Seq<char>>,
    pub previous: Option<UsageModel>,
    pub url: Seq<char>,
    pub now: i64,
}

/// What is refreshed: the plan of the account, what was known of its usage, where it is
/// asked for, and the time.
#[derive(Debug)]
pub struct FetchTask {
    pub plan: Option<String>,
    pub previous: Option<UsageSnapshot>,
    pub url: String,
    pub now: i64,
}

impl View for FetchTask {
    type V = TaskModel;

    open spec fn view(&self) -> TaskModel {
        TaskModel {
            plan: text::opt_chars(self.plan),
            previous: match self.previous {
                Some(usage) => Some(usage@),
                None => None,
            },
            url: self.url@,
            now: self.now,
        }
    }
}

/// What the usage service is asked.
pub struct RequestModel {
    pub url: Seq<char>,
    pub authorization: Seq<char>,
    pub account_id: Option<Seq<char>>,
}

/// A request to the usage service: its address, and the values of its headers.
#[derive(Debug)]
pub struct UsageRequest {
    pub url: String,
    pub authorization: String,
    pub account_id: Option<String>,
}

impl View for UsageRequest {
    type V = RequestModel;

    open spec fn view(&self) -> RequestModel {
        RequestModel {
            url: self.url@,
            authorization: self.authorization@,
            account_id: text::opt_chars(self.account_id),
        }
    }
}

/// What is to be done next.
pub enum StepModel {
    Renew { auth: JsonModel, required: bool },
    Send { auth: JsonModel, request: RequestModel, retried: bool },
    Settle { payload: JsonModel },
    Done { usage: UsageModel },
}

/// What is to be done next.
#[derive(Debug)]
pub enum FetchStep {
    /// Renew the credentials; where this is required, nothing else can help.
    Renew { auth: Json, required: bool },
    /// Send the request.
    Send { auth: Json, request: UsageRequest, retried: bool },
    /// Read the balance of the credits off the answer.
    Settle { payload: Json },
    /// Nothing: this is the usage.
    Done { usage: UsageSnapshot },
}

impl View for FetchStep {
    type V = StepModel;

    open spec fn view(&self) -> StepModel {
        match *self {
            FetchStep::Renew { auth, required } => StepModel::Renew { auth: auth@, required },
            FetchStep::Send { auth, request, retried } => StepModel::Send {
                auth: auth@,
                request: request@,
                retried,
            },
            FetchStep::Settle { payload } => StepModel::Settle { payload: payload@ },
            FetchStep::Done { usage } => StepModel::Done { usage: usage@ },
        }
    }
}

/// The end of a refresh that failed.
pub open spec fn failure(task: TaskModel, error: Seq<char>) -> StepModel {
    StepModel::Done {
        usage: usage::merged(task.previous, usage::error_usage(task.plan, task.now, error)),
    }
}

/// The end of the refresh of an account that has to sign in again.
pub open spec fn relogin(task: TaskModel) -> StepModel {
    StepModel::Done {
        usage: usage::merged(task.previous, usage::relogin_usage(task.plan, task.now)),
    }
}

fn previous_of(task: &FetchTask) -> (r: Option<&UsageSnapshot>)
    ensures
        usage::opt_usage(r) == task@.previous,
{
    match &task.previous {
        Some(usage) => Some(usage),
        None => None,
    }
}

fn fail(task: &FetchTask, error: String) -> (r: FetchStep)
    ensures
        r@ == failure(task@, error@),
{
    let update = usage::make_error_snapshot(state::clone_text(&task.plan), task.now, error);
    FetchStep::Done { usage: usage::merge_usage_with_previous(previous_of(task), update) }
}

fn ask_for_login(task: &FetchTask) -> (r: FetchStep)
    ensures
        r@ == relogin(task@),
{
    let update = usage::make_relogin_snapshot(state::clone_text(&task.plan), task.now);
    FetchStep::Done { usage: usage::merge_usage_with_previous(previous_of(task), update) }
}

/// The request with these credentials: the access token authorizes it, and the account id
/// goes with it where it can stand in a header.
pub open spec fn request_step(task: TaskModel, auth: JsonModel, retried: bool) -> StepModel {
    match auth::token_text(auth, "access_token"@) {
        None => failure(task, "auth.json is missing tokens.access_token"@),
        Some(token) => if !outside::is_header_text("Bearer "@ + token) {
            failure(task, "invalid access_token contains non-ASCII characters"@)
        } else {
            let account_id = auth::token_text(auth, "account_id"@);
            StepModel::Send {
                auth,
                request: RequestModel {
                    url: task.url,
                    authorization: "Bearer "@ + token,
                    account_id: if account_id is Some && outside::is_header_text(account_id->0) {
                        account_id
                    } else {
                        None
                    },
                },
                retried,
            }
        },
    }
}

/// The request with these credentials.
pub fn prepare_request(task: &FetchTask, auth: Json, retried: bool) -> (r: FetchStep)
    ensures
        r@ == request_step(task@, auth@, retried),
{
    let authorization = match auth::token_field(&auth, "access_token") {
        Some(token) => text::concat2("Bearer ", token),
        None => return fail(task, "auth.json is missing tokens.access_token".to_owned()),
    };
    if !outside::header_accepts(authorization.as_str()) {
        return fail(task, "invalid access_token contains non-ASCII characters".to_owned());
    }
    let account_id = match auth::token_field(&auth, "account_id") {
        Some(id) => if outside::header_accepts(id) {
            Some(id.to_owned())
        } else {
            None
        },
        None => None,
    };
    let request = UsageRequest { url: task.url.clone(), authorization, account_id };
    FetchStep::Send { auth, request, retried }
}

/// The first step, by what reading the credentials gave: they are renewed first where
/// their access token is missing or about to expire.
pub open spec fn first_step(task: TaskModel, read: Result<JsonModel, Seq<char>>) -> StepModel {
    match read {
        Err(error) => failure(task, error),
        Ok(auth) => if auth::needs_refresh(auth, task.now) {
            StepModel::Renew { auth, required: false }
        } else {
            request_step(task, auth, false)
        },
    }
}

/// What a result of reading says.
pub open spec fn read_model(read: Result<Json, String>) -> Result<JsonModel, Seq<char>> {
    match read {
        Ok(auth) => Ok(auth@),
        Err(error) => Err(error@),
    }
}

/// The first step, by what reading the credentials gave.
pub fn start_fetch(task: &FetchTask, read: Result<Json, String>) -> (r: FetchStep)
    ensures
        r@ == first_step(task@, read_model(read)),
{
    match read {
        Err(error) => fail(task, error),
        Ok(auth) => if auth::auth_needs_token_refresh(&auth, task.now) {
            FetchStep::Renew { auth, required: false }
        } else {
            prepare_request(task, auth, false)
        },
    }
}

/// The step after a renewal: without new credentials the old ones are tried, unless they
/// were refused already.
pub open spec fn step_after_renewal(
    task: TaskModel,
    auth: JsonModel,
    required: bool,
    outcome: Option<JsonModel>,
) -> StepModel {
    match outcome {
        Some(renewed) => request_step(task, renewed, required),
        None => if required {
            relogin(task)
        } else {
            request_step(task, auth, false)
        },
    }
}

/// What an optional document says.
pub open spec fn outcome_model(outcome: Option<Json>) -> Option<JsonModel> {
    match outcome {
        Some(json) => Some(json@),
        None => None,
    }
}

/// The step after a renewal.
pub fn after_renewal(task: &FetchTask, auth: Json, required: bool, outcome: Option<Json>) -> (r:
    FetchStep)
    ensures
        r@ == step_after_renewal(task@, auth@, required, outcome_model(outcome)),
{
    match outcome {
        Some(renewed) => prepare_request(task, renewed, required),
        None => if required {
            ask_for_login(task)
        } else {
            prepare_request(task, auth, false)
        },
    }
}

/// The step after an answer: one that refuses the credentials has them renewed, but only
/// once.
pub open spec fn step_after_reply(
    task: TaskModel,
    auth: JsonModel,
    retried: bool,
    reply: Result<ReplyModel, Seq<char>>,
) -> StepModel {
    match reply {
        Err(error) => failure(task, error),
        Ok(answer) => if answer.status == 401 {
            if retried {
                relogin(task)
            } else {
                StepModel::Renew { auth, required: true }
            }
        } else if !auth::is_success(answer.status) {
            failure(task, "GET "@ + task.url + " failed: "@ + answer.status_text)
        } else {
            match answer.body {
                Err(error) => failure(task, error),
                Ok(bytes) => match json::parsed_bytes(bytes) {
                    Some(payload) => StepModel::Settle { payload },
                    None => failure(task, "error decoding response body"@),
                },
            }
        },
    }
}

/// What a result of sending says.
pub open spec fn reply_model(reply: Result<UsageReply, String>) -> Result<ReplyModel, Seq<char>> {
    match reply {
        Ok(answer) => Ok(answer@),
        Err(error) => Err(error@),
    }
}

/// The step after an answer.
pub fn after_reply(
    task: &FetchTask,
    auth: Json,
    retried: bool,
    reply: Result<UsageReply, String>,
) -> (r: FetchStep)
    ensures
        r@ == step_after_reply(task@, auth@, retried, reply_model(reply)),
{
    let answer = match reply {
        Ok(answer) => answer,
        Err(error) => return fail(task, error),
    };
    if answer.status == 401 {
        return if retried {
            ask_for_login(task)
        } else {
            FetchStep::Renew { auth, required: true }
        };
    }
    if answer.status < 200 || answer.status >= 300 {
        let mut error = text::concat3("GET ", task.url.as_str(), " failed: ");
        error.append(answer.status_text.as_str());
        return fail(task, error);
    }
    let bytes = match answer.body {
        Ok(bytes) => bytes,
        Err(error) => return fail(task, error),
    };
    match Json::parse_bytes(&bytes) {
        Some(payload) => FetchStep::Settle { payload },
        None => fail(task, "error decoding response body".to_owned()),
    }
}

/// What an answer says at that time, with the ranking that follows from it.
pub open spec fn settled_usage(payload: JsonModel, parsed: Option<CreditsBalance>, now: i64) -> UsageModel {
    let answered = usage::answered_usage(payload, parsed);
    UsageModel {
        last_synced_at: Some(now),
        rank_input: usage::quota_rank(
            answered.five_hour_remaining_percent,
            answered.weekly_remaining_percent,
            now,
        ),
        ..answered
    }
}

/// The usage by an answer; `parsed` is the balance of the credits where it is given as text
/// that is a number.
pub fn settle_fetch(task: &FetchTask, payload: &Json, parsed: Option<CreditsBalance>) -> (r:
    UsageSnapshot)
    ensures
        r@ == settled_usage(payload@, parsed, task@.now),
{
    let mut normalized = usage::normalize_usage_response(payload, parsed);
    normalized.last_synced_at = Some(task.now);
    normalized.last_sync_error = None;
    normalized.needs_relogin = false;
    normalized.rank_input = usage::rank_by_quota(
        normalized.five_hour_remaining_percent,
        normalized.weekly_remaining_percent,
        task.now,
    );
    normalized
}

/// What came of a step.
pub enum EventModel {
    Renewed(Option<JsonModel>),
    Replied(Result<ReplyModel, Seq<char>>),
    Settled(Option<CreditsBalance>),
}

/// What came of a step.
#[derive(Debug)]
pub enum FetchEvent {
    Renewed(Option<Json>),
    Replied(Result<UsageReply, String>),
    Settled(Option<CreditsBalance>),
}

impl View for FetchEvent {
    type V = EventModel;

    open spec fn view(&self) -> EventModel {
        match *self {
            FetchEvent::Renewed(outcome) => EventModel::Renewed(outcome_model(outcome)),
            FetchEvent::Replied(reply) => EventModel::Replied(reply_model(reply)),
            FetchEvent::Settled(parsed) => EventModel::Settled(parsed),
        }
    }
}

/// Whether the event can come of the step.
pub open spec fn fits(step: StepModel, event: EventModel) -> bool {
    match step {
        StepModel::Renew { .. } => event is Renewed,
        StepModel::Send { .. } => event is Replied,
        StepModel::Settle { .. } => event is Settled,
        StepModel::Done { .. } => false,
    }
}

/// The step after the event.
pub open spec fn next_step(task: TaskModel, step: StepModel, event: EventModel) -> StepModel {
    match (step, event) {
        (StepModel::Renew { auth, required }, EventModel::Renewed(outcome)) => step_after_renewal(
            task,
            auth,
            required,
            outcome,
        ),
        (StepModel::Send { auth, request, retried }, EventModel::Replied(reply)) => step_after_reply(
            task,
            auth,
            retried,
            reply,
        ),
        (StepModel::Settle { payload }, EventModel::Settled(parsed)) => StepModel::Done {
            usage: settled_usage(payload, parsed, task.now),
        },
        _ => step,
    }
}

impl CodexAdapter {
    /// The step after what came of the last one. An event that cannot come of the step
    /// leaves it as it is.
    pub fn fetch_usage_for_account(&self, task: &FetchTask, step: FetchStep, event: FetchEvent) -> (r:
        FetchStep)
        ensures
            r@ == next_step(task@, step@, event@),
    {
        match (step, event) {
            (FetchStep::Renew { auth, required }, FetchEvent::Renewed(outcome)) => after_renewal(
                task,
                auth,
                required,
                outcome,
            ),
            (FetchStep::Send { auth, request: _, retried }, FetchEvent::Replied(reply)) => {
                after_reply(task, auth, retried, reply)
            },
            (FetchStep::Settle { payload }, FetchEvent::Settled(parsed)) => FetchStep::Done {
                usage: settle_fetch(task, &payload, parsed),
            },
            (step, _) => step,
        }
    }
}

/// How many steps are left at most.
pub open spec fn steps_left(step: StepModel) -> int {
    match step {
        StepModel::Renew { required, .. } => if required {
            3
        } else {
            5
        },
        StepModel::Send { retried, .. } => if retried {
            2
        } else {
            4
        },
        StepModel::Settle { .. } => 1,
        StepModel::Done { .. } => 0,
    }
}

/// A refresh ends: every event that fits brings it nearer to its end.
pub proof fn law_fetch_makes_progress(task: TaskModel, step: StepModel, event: EventModel)
    requires
        fits(step, event),
    ensures
        0 <= steps_left(next_step(task, step, event)) < steps_left(step),
{
}

/// Whether these are the steps of a refresh, one after the other.
pub open spec fn is_fetch(task: TaskModel, steps: Seq<StepModel>, events: Seq<EventModel>) -> bool {
    &&& steps.len() == events.len() + 1
    &&& forall|i: int|
        0 <= i < events.len() ==> fits(#[trigger] steps[i], events[i]) && steps[i + 1] == next_step(
            task,
            steps[i],
            events[i],
        )
}

proof fn lemma_fetch_descends(
    task: TaskModel,
    steps: Seq<StepModel>,
    events: Seq<EventModel>,
    i: int,
    j: int,
)
    requires
        is_fetch(task, steps, events),
        0 <= i < j < steps.len(),
    ensures
        steps_left(steps[j]) < steps_left(steps[i]),
    decreases j - i,
{
    let k = j - 1;
    assert(fits(steps[k], events[k]));
    law_fetch_makes_progress(task, steps[k], events[k]);
    if i < k {
        lemma_fetch_descends(task, steps, events, i, k);
    }
}

/// However the service answers, it is asked at most twice about an account.
pub proof fn law_at_most_two_requests(
    task: TaskModel,
    steps: Seq<StepModel>,
    events: Seq<EventModel>,
    a: int,
    b: int,
    c: int,
)
    requires
        is_fetch(task, steps, events),
        0 <= a < b < c < steps.len(),
    ensures
        !(steps[a] is Send && steps[b] is Send && steps[c] is Send),
{
    lemma_fetch_descends(task, steps, events, a, b);
    lemma_fetch_descends(task, steps, events, b, c);
}

/// However the service answers, a refresh of an account has at most six steps.
pub proof fn law_fetch_is_short(task: TaskModel, steps: Seq<StepModel>, events: Seq<EventModel>)
    requires
        is_fetch(task, steps, events),
    ensures
        steps.len() <= 6,
{
    if steps.len() > 6 {
        lemma_fetch_descends(task, steps, events, 0, 1);
        lemma_fetch_descends(task, steps, events, 1, 2);
        lemma_fetch_descends(task, steps, events, 2, 3);
        lemma_fetch_descends(task, steps, events, 3, 4);
        lemma_fetch_descends(task, steps, events, 4, 5);
        lemma_fetch_descends(task, steps, events, 5, 6);
        assert(fits(steps[0], events[0]));
        assert(steps_left(steps[6]) >= 0);
    }
}

/// A second refusal of the credentials, or a refusal with no way to renew them, asks for a
/// new login and leaves no quota behind.
pub proof fn law_refusal_asks_for_login(
    task: TaskModel,
    auth: JsonModel,
    answer: ReplyModel,
)
    requires
        answer.status == 401,
    ensures
        step_after_reply(task, auth, true, Ok(answer)) == relogin(task),
        step_after_reply(task, auth, false, Ok(answer)) == (StepModel::Renew {
            auth,
            required: true,
        }),
        step_after_renewal(task, auth, true, None) == relogin(task),
        relogin(task) matches StepModel::Done { usage } && usage.needs_relogin
            && usage::without_quota(usage),
{
    usage::law_failure_clears_quota(task.previous, task.plan, task.now, ""@);
}

/// After a refresh that succeeded, the account can be selected if any of its quota is left.
pub proof fn law_settled_usage_is_ranked(
    payload: JsonModel,
    parsed: Option<CreditsBalance>,
    now: i64,
)
    ensures
        !settled_usage(payload, parsed, now).needs_relogin,
        settled_usage(payload, parsed, now).last_sync_error is None,
        settled_usage(payload, parsed, now).rank_input == usage::quota_rank(
            settled_usage(payload, parsed, now).five_hour_remaining_percent,
            settled_usage(payload, parsed, now).weekly_remaining_percent,
            now,
        ),
{
}

// ---------------------------------------------------------------------------
// The cache
// ---------------------------------------------------------------------------

/// Whether the account is refreshed by asking the service.
pub open spec fn is_fetched(account: AccountRecord) -> bool {
    account.account_type == AccountType::Subscription
}

/// The accounts that are refreshed by asking the service: those with a subscription.
pub fn accounts_to_refresh(state: &State) -> (r: Vec<AccountRecord>)
    ensures
        r@ == state.accounts@.filter(|account: AccountRecord| is_fetched(account)),
{
    let ghost keep = |account: AccountRecord| is_fetched(account);
    let mut accounts: Vec<AccountRecord> = Vec::new();
    let mut i: usize = 0;
    assert(state.accounts@.take(0).filter(keep) =~= Seq::<AccountRecord>::empty()) by {
        reveal(Seq::filter);
    }
    while i < state.accounts.len()
        invariant
            i <= state.accounts@.len(),
            keep == (|account: AccountRecord| is_fetched(account)),
            accounts@ == state.accounts@.take(i as int).filter(keep),
        decreases state.accounts@.len() - i,
    {
        let ghost before = state.accounts@.take(i as int);
        assert(state.accounts@.take(i + 1) =~= before.push(state.accounts@[i as int]));
        assert(before.push(state.accounts@[i as int]).drop_last() =~= before);
        proof {
            reveal(Seq::filter);
        }
        if state.accounts[i].is_subscription() {
            accounts.push(state.accounts[i].clone());
        }
        i += 1;
    }
    assert(state.accounts@.take(i as int) =~= state.accounts@);
    accounts
}

/// The cache without the snapshots of the API accounts among the first `n` accounts.
pub open spec fn without_api_usage(
    cache: Map<Seq<char>, UsageSnapshot>,
    accounts: Seq<AccountRecord>,
) -> Map<Seq<char>, UsageSnapshot>
    decreases accounts.len(),
{
    if accounts.len() == 0 {
        cache
    } else {
        let rest = without_api_usage(cache, accounts.drop_last());
        if accounts.last().account_type == AccountType::Api {
            rest.remove(accounts.last().id@)
        } else {
            rest
        }
    }
}

/// The cache with the snapshots set, one after the other.
pub open spec fn with_usage(
    cache: Map<Seq<char>, UsageSnapshot>,
    fetched: Seq<(String, UsageSnapshot)>,
) -> Map<Seq<char>, UsageSnapshot>
    decreases fetched.len(),
{
    if fetched.len() == 0 {
        cache
    } else {
        with_usage(cache, fetched.drop_last()).insert(fetched.last().0@, fetched.last().1)
    }
}

impl CodexAdapter {
    /// Takes what was fetched into the cache. API accounts have no usage: their
    /// snapshots are dropped.
    pub fn refresh_all_accounts(&self, state: &mut State, fetched: &Vec<(String, UsageSnapshot)>)
        ensures
            final(state).usage_cache@ == with_usage(
                without_api_usage(old(state).usage_cache@, old(state).accounts@),
                fetched@,
            ),
            final(state).accounts == old(state).accounts,
            final(state).version == old(state).version,
            final(state).repo_sync == old(state).repo_sync,
    {
        let ghost before = state.usage_cache@;
        let ghost accounts = state.accounts@;
        let mut i: usize = 0;
        while i < state.accounts.len()
            invariant
                i <= state.accounts@.len(),
                accounts == state.accounts@,
                state.accounts == old(state).accounts,
                state.version == old(state).version,
                state.repo_sync == old(state).repo_sync,
                state.usage_cache@ == without_api_usage(before, accounts.take(i as int)),
            decreases state.accounts@.len() - i,
        {
            assert(accounts.take(i + 1).drop_last() =~= accounts.take(i as int));
            if state.accounts[i].is_api() {
                let id = state.accounts[i].id.clone();
                state.usage_cache.remove(id.as_str());
            }
            i += 1;
        }
        assert(accounts.take(i as int) =~= accounts);
        let ghost dropped = state.usage_cache@;
        let mut k: usize = 0;
        while k < fetched.len()
            invariant
                k <= fetched@.len(),
                state.accounts == old(state).accounts,
                state.version == old(state).version,
                state.repo_sync == old(state).repo_sync,
                state.usage_cache@ == with_usage(dropped, fetched@.take(k as int)),
            decreases fetched@.len() - k,
        {
            assert(fetched@.take(k + 1).drop_last() =~= fetched@.take(k as int));
            state.usage_cache.insert(fetched[k].0.clone(), fetched[k].1.clone());
            k += 1;
        }
        assert(fetched@.take(k as int) =~= fetched@);
    }

    /// Takes what was fetched for one account into the cache, and returns what is then
    /// known of its usage: of an API account nothing is, whatever was fetched.
    pub fn refresh_account_usage(
        &self,
        state: &mut State,
        account: &AccountRecord,
        fetched: UsageSnapshot,
    ) -> (r: UsageSnapshot)
        ensures
            if account.account_type == AccountType::Api {
                r@ == state::blank_usage() && final(state).usage_cache@
                    == old(state).usage_cache@.remove(account.id@)
            } else {
                r == fetched && final(state).usage_cache@ == old(state).usage_cache@.insert(
                    account.id@,
                    fetched,
                )
            },
            final(state).accounts == old(state).accounts,
            final(state).version == old(state).version,
            final(state).repo_sync == old(state).repo_sync,
    {
        if account.is_api() {
            state.usage_cache.remove(account.id.as_str());
            return UsageSnapshot::default();
        }
        state.usage_cache.insert(account.id.clone(), fetched.clone());
        fetched
    }
}

proof fn lemma_api_usage_dropped(
    cache: Map<Seq<char>, UsageSnapshot>,
    accounts: Seq<AccountRecord>,
    id: Seq<char>,
)
    ensures
        without_api_usage(cache, accounts).contains_key(id) <==> (cache.contains_key(id) && forall|
            i: int,
        |
            0 <= i < accounts.len() && (#[trigger] accounts[i]).account_type == AccountType::Api
                ==> accounts[i].id@ != id),
        without_api_usage(cache, accounts).contains_key(id) ==> without_api_usage(
            cache,
            accounts,
        )[id] == cache[id],
    decreases accounts.len(),
{
    if accounts.len() > 0 {
        let rest = accounts.drop_last();
        lemma_api_usage_dropped(cache, rest, id);
        let n = accounts.len() - 1;
        assert(accounts.last() == accounts[n]);
        assert forall|i: int| 0 <= i < n implies accounts[i] == rest[i] by {}
        if without_api_usage(cache, accounts).contains_key(id) {
            assert forall|i: int|
                0 <= i < accounts.len() && (#[trigger] accounts[i]).account_type
                    == AccountType::Api implies accounts[i].id@ != id by {
                if i < n {
                    assert(rest[i].account_type == AccountType::Api);
                }
            }
        } else if cache.contains_key(id) && (forall|i: int|
            0 <= i < accounts.len() && (#[trigger] accounts[i]).account_type == AccountType::Api
                ==> accounts[i].id@ != id) {
            assert forall|i: int|
                0 <= i < rest.len() && (#[trigger] rest[i]).account_type
                    == AccountType::Api implies rest[i].id@ != id by {
                assert(accounts[i].account_type == AccountType::Api);
            }
        }
    }
}

proof fn lemma_usage_not_set(
    cache: Map<Seq<char>, UsageSnapshot>,
    fetched: Seq<(String, UsageSnapshot)>,
    id: Seq<char>,
)
    requires
        forall|k: int| 0 <= k < fetched.len() ==> (#[trigger] fetched[k]).0@ != id,
    ensures
        with_usage(cache, fetched).contains_key(id) == cache.contains_key(id),
        cache.contains_key(id) ==> with_usage(cache, fetched)[id] == cache[id],
    decreases fetched.len(),
{
    if fetched.len() > 0 {
        let rest = fetched.drop_last();
        assert forall|k: int| 0 <= k < rest.len() implies (#[trigger] rest[k]).0@ != id by {
            assert(fetched[k].0@ != id);
        }
        lemma_usage_not_set(cache, rest, id);
        assert(fetched[fetched.len() - 1].0@ != id);
    }
}

/// After a refresh an API account has no snapshot in the cache, as long as nothing was
/// fetched under its id.
pub proof fn law_api_accounts_have_no_usage(
    cache: Map<Seq<char>, UsageSnapshot>,
    accounts: Seq<AccountRecord>,
    fetched: Seq<(String, UsageSnapshot)>,
    i: int,
)
    requires
        0 <= i < accounts.len(),
        accounts[i].account_type == AccountType::Api,
        forall|k: int| 0 <= k < fetched.len() ==> (#[trigger] fetched[k]).0@ != accounts[i].id@,
    ensures
        !with_usage(without_api_usage(cache, accounts), fetched).contains_key(accounts[i].id@),
{
    lemma_api_usage_dropped(cache, accounts, accounts[i].id@);
    lemma_usage_not_set(without_api_usage(cache, accounts), fetched, accounts[i].id@);
}

/// A refresh drops or changes no snapshot but those of API accounts and those that were
/// fetched.
pub proof fn law_refresh_keeps_other_usage(
    cache: Map<Seq<char>, UsageSnapshot>,
    accounts: Seq<AccountRecord>,
    fetched: Seq<(String, UsageSnapshot)>,
    id: Seq<char>,
)
    requires
        cache.contains_key(id),
        forall|k: int|
            0 <= k < accounts.len() && (#[trigger] accounts[k]).account_type == AccountType::Api
                ==> accounts[k].id@ != id,
        forall|k: int| 0 <= k < fetched.len() ==> (#[trigger] fetched[k]).0@ != id,
    ensures
        with_usage(without_api_usage(cache, accounts), fetched).contains_key(id),
        with_usage(without_api_usage(cache, accounts), fetched)[id] == cache[id],
{
    lemma_api_usage_dropped(cache, accounts, id);
    lemma_usage_not_set(without_api_usage(cache, accounts), fetched, id);
}

// ---------------------------------------------------------------------------
// Laws of single steps
// ---------------------------------------------------------------------------

/// The service is asked with the access token of the credentials, at the address of the task;
/// the account id goes along where there is one that a header can hold.
pub proof fn law_request_carries_the_credentials(
    task: TaskModel,
    auth: JsonModel,
    retried: bool,
    token: Seq<char>,
    account_id: Seq<char>,
)
    requires
        auth.nested("tokens"@, "access_token"@) == Some(JsonModel::Text(token)),
        token.len() > 0,
        text::trimmed(token) == token,
        outside::is_header_text("Bearer "@ + token),
    ensures
        request_step(task, auth, retried) matches StepModel::Send {
            auth: kept,
            request,
            retried: again,
        } && {
            &&& kept == auth
            &&& again == retried
            &&& request.url == task.url
            &&& request.authorization == "Bearer "@ + token
            &&& auth.nested("tokens"@, "account_id"@) is None ==> request.account_id is None
            &&& auth.nested("tokens"@, "account_id"@) == Some(JsonModel::Text(account_id))
                && account_id.len() > 0 && text::trimmed(account_id) == account_id
                && outside::is_header_text(account_id) ==> request.account_id == Some(account_id)
        },
{
}

/// Without an access token, or with one that no header can hold, nothing is asked: the refresh
/// ends with an error.
pub proof fn law_nothing_is_asked_without_a_token(task: TaskModel, auth: JsonModel, retried: bool)
    requires
        match auth.nested("tokens"@, "access_token"@) {
            Some(JsonModel::Text(token)) => text::trimmed(token).len() == 0
                || !outside::is_header_text("Bearer "@ + text::trimmed(token)),
            _ => true,
        },
    ensures
        request_step(task, auth, retried) matches StepModel::Done { usage }
            && usage.last_sync_error is Some && !usage.needs_relogin && usage.last_synced_at
            == Some(task.now) && usage::without_quota(usage),
{
}

/// Credentials that cannot be read end the refresh with the reason; those that are about to
/// expire are renewed first, and any others are used as they are.
pub proof fn law_refresh_begins(task: TaskModel, auth: JsonModel, error: Seq<char>)
    ensures
        first_step(task, Err(error)) matches StepModel::Done { usage } && usage.last_sync_error
            == Some(error) && usage::without_quota(usage),
        auth::needs_refresh(auth, task.now) ==> first_step(task, Ok(auth)) == (StepModel::Renew {
            auth,
            required: false,
        }),
        !auth::needs_refresh(auth, task.now) ==> first_step(task, Ok(auth)) == request_step(
            task,
            auth,
            false,
        ),
{
}

/// Renewed credentials are used, and old ones only where they were not refused; a request after
/// a refusal is the last one.
pub proof fn law_renewed_credentials_are_used(
    task: TaskModel,
    auth: JsonModel,
    renewed: JsonModel,
    required: bool,
)
    ensures
        step_after_renewal(task, auth, required, Some(renewed)) == request_step(
            task,
            renewed,
            required,
        ),
        step_after_renewal(task, auth, false, None) == request_step(task, auth, false),
        step_after_renewal(task, auth, true, None) matches StepModel::Done { usage }
            && usage.needs_relogin,
{
}

/// An answer that is a success and holds JSON is the one that is read; anything else ends the
/// refresh with an error, which names the address and the status where there is one.
pub proof fn law_answer_is_read_or_an_error(
    task: TaskModel,
    auth: JsonModel,
    retried: bool,
    answer: ReplyModel,
    error: Seq<char>,
)
    requires
        answer.status != 401,
    ensures
        step_after_reply(task, auth, retried, Err(error)) matches StepModel::Done { usage }
            && usage.last_sync_error == Some(error) && !usage.needs_relogin,
        200 <= answer.status < 300 ==> match answer.body {
            Ok(bytes) => match json::parsed_bytes(bytes) {
                Some(payload) => step_after_reply(task, auth, retried, Ok(answer)) == (
                StepModel::Settle { payload }),
                None => step_after_reply(task, auth, retried, Ok(answer)) matches StepModel::Done {
                    usage,
                } && usage.last_sync_error is Some,
            },
            Err(reason) => step_after_reply(task, auth, retried, Ok(answer)) matches StepModel::Done {
                usage,
            } && usage.last_sync_error == Some(reason),
        },
        !(200 <= answer.status < 300) ==> (step_after_reply(
            task,
            auth,
            retried,
            Ok(answer),
        ) matches StepModel::Done { usage } && usage.last_sync_error == Some(
            "GET "@ + task.url + " failed: "@ + answer.status_text,
        ) && usage::without_quota(usage)),
{
}

/// What a refresh comes to is what the service answered, at the time of the refresh: each quota
/// is what its window leaves.
pub proof fn law_refresh_tells_both_quotas(
    task: TaskModel,
    payload: JsonModel,
    parsed: Option<CreditsBalance>,
    five_hour: JsonModel,
    weekly: JsonModel,
    five_used: i64,
    weekly_used: i64,
)
    requires
        usage::says(five_hour, 18_000, five_used),
        usage::says(weekly, 604_800, weekly_used),
        0 <= five_used <= 100,
        0 <= weekly_used <= 100,
        usage::has_windows(payload, five_hour, weekly) || usage::has_windows(
            payload,
            weekly,
            five_hour,
        ),
    ensures
        next_step(task, StepModel::Settle { payload }, EventModel::Settled(parsed))
            matches StepModel::Done { usage } && {
            &&& usage.five_hour_remaining_percent matches Some(left) && left == 100 - five_used
            &&& usage.weekly_remaining_percent matches Some(left) && left == 100 - weekly_used
            &&& usage.last_synced_at == Some(task.now)
            &&& usage.last_sync_error is None
            &&& !usage.needs_relogin
            &&& usage.rank_input matches Some(rank) && rank.freshness_priority == task.now
        },
{
    usage::law_answer_tells_both_quotas(
        payload,
        parsed,
        five_hour,
        weekly,
        five_used,
        weekly_used,
    );
}

/// What was fetched for an account is what is known of it after the refresh: of several
/// snapshots under one id the last one counts.
pub proof fn law_fetched_usage_is_known(
    cache: Map<Seq<char>, UsageSnapshot>,
    accounts: Seq<AccountRecord>,
    fetched: Seq<(String, UsageSnapshot)>,
    k: int,
)
    requires
        0 <= k < fetched.len(),
        forall|j: int| k < j < fetched.len() ==> (#[trigger] fetched[j]).0@ != fetched[k].0@,
    ensures
        with_usage(without_api_usage(cache, accounts), fetched).contains_key(fetched[k].0@),
        with_usage(without_api_usage(cache, accounts), fetched)[fetched[k].0@] == fetched[k].1,
    decreases fetched.len(),
{
    let n = fetched.len() - 1;
    let rest = fetched.drop_last();
    if k < n {
        assert forall|j: int| k < j < rest.len() implies (#[trigger] rest[j]).0@
            != rest[k].0@ by {
            assert(fetched[j].0@ != fetched[k].0@);
        }
        law_fetched_usage_is_known(cache, accounts, rest, k);
        assert(rest[k] == fetched[k]);
        assert(fetched[n].0@ != fetched[k].0@);
    }
}

/// The service is asked about every account with a subscription, and about no other.
pub proof fn law_subscriptions_are_fetched(accounts: Seq<AccountRecord>, account: AccountRecord)
    requires
        accounts.contains(account),
    ensures
        accounts.filter(|a: AccountRecord| is_fetched(a)).contains(account)
            <==> account.account_type == AccountType::Subscription,
{
    broadcast use vstd::seq_lib::group_filter_ensures;

    let keep = |a: AccountRecord| is_fetched(a);
    let i = choose|i: int| 0 <= i < accounts.len() && accounts[i] == account;
    if accounts.filter(keep).contains(account) {
        let k = choose|k: int| 0 <= k < accounts.filter(keep).len() && accounts.filter(keep)[k]
            == account;
        assert(keep(accounts.filter(keep)[k]));
    }
    if is_fetched(account) {
        assert(keep(accounts[i]));
    }
}

} // verus!
