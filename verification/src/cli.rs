//! The commands, and what each of them does, step by step.
//!
//! The caller performs the actions of a step in their order and hands back what came of
//! the last one.

use vstd::prelude::*;

use crate::account;
use crate::account::ApiLoginRequest;
use crate::adapter::CodexAdapter;
use crate::engine;
use crate::engine::SelectOptions;
use crate::listing;
use crate::pool;
use crate::state;
use crate::state::{AccountModel, AccountRecord, AccountType, State, UsageModel, UsageSnapshot};
use crate::text;
use crate::text::CharClass;
use crate::ui;
use crate::ui::Messages;
use crate::wording;

verus! {

/// The environment variable that names the repository of the account pool.
pub const POOL_REPO_ENV: &'static str = "SCODEX_POOL_REPO";

// ---------------------------------------------------------------------------
// Commands
// ---------------------------------------------------------------------------

/// What the command line says.
#[derive(Debug)]
pub struct Cli {
    pub state_dir: Option<String>,
    pub command: Option<Command>,
}

/// A command.
#[derive(Debug)]
pub enum Command {
    Launch(LaunchArgs),
    Auto(AutoArgs),
    Add(AddArgs),
    Login(LoginArgs),
    Deploy(DeployArgs),
    Push(RepoSyncArgs),
    Pull(RepoSyncArgs),
    Use(UseArgs),
    Rm(RmArgs),
    List,
    Refresh,
    Update(UpdateArgs),
    ImportAuth(ImportAuthArgs),
    ImportKnown,
    Passthrough(Vec<String>),
}

/// Select an account and start a session.
#[derive(Debug)]
pub struct LaunchArgs {
    pub no_import_known: bool,
    pub no_login: bool,
    pub dry_run: bool,
    pub no_resume: bool,
    pub no_launch: bool,
    pub extra_args: Vec<String>,
}

/// Select an account.
#[derive(Debug)]
pub struct AutoArgs {
    pub no_import_known: bool,
    pub no_login: bool,
    pub dry_run: bool,
}

/// Log in an account.
#[derive(Debug)]
pub struct LoginArgs {
    pub api_args: ApiArgs,
    pub oauth: bool,
    pub username: Option<String>,
    pub password: Option<String>,
}

/// Add an account.
#[derive(Debug)]
pub struct AddArgs {
    pub api_args: ApiArgs,
    /// Without effect: an account that is added is always switched to.
    pub switch: bool,
}

/// The options for an account with an API token.
#[derive(Debug)]
pub struct ApiArgs {
    pub api: bool,
    pub api_token: Option<String>,
    pub base_url: Option<String>,
    pub provider: Option<String>,
}

/// Copy the live credentials to another machine.
#[derive(Debug)]
pub struct DeployArgs {
    pub identity_file: Option<String>,
    pub target: String,
}

/// Push or pull the account pool.
#[derive(Debug)]
pub struct RepoSyncArgs {
    pub path: Option<String>,
    pub identity_file: Option<String>,
    pub repo: Option<String>,
}

/// Switch to an account.
#[derive(Debug)]
pub struct UseArgs {
    pub email: String,
}

/// Remove an account.
#[derive(Debug)]
pub struct RmArgs {
    pub assume_yes: bool,
    pub email: String,
}

/// Update the program.
#[derive(Debug)]
pub struct UpdateArgs {
    pub force: bool,
}

/// Import credentials.
#[derive(Debug)]
pub struct ImportAuthArgs {
    pub path: String,
}

/// Whether the command selects an account and starts a session, with no option.
pub open spec fn is_plain_launch(command: Command) -> bool {
    command matches Command::Launch(args) && !args.no_import_known && !args.no_login
        && !args.dry_run && !args.no_resume && !args.no_launch && args.extra_args@.len() == 0
}

/// The command, or else that which selects an account and starts a session.
pub fn command_or_launch(command: Option<Command>) -> (r: Command)
    ensures
        match command {
            Some(c) => r == c,
            None => r matches Command::Launch(args) && !args.no_import_known && !args.no_login
                && !args.dry_run && !args.no_resume && !args.no_launch && args.extra_args@.len()
                == 0,
        },
        command is None ==> is_plain_launch(r),
{
    match command {
        Some(command) => command,
        None => Command::Launch(
            LaunchArgs {
                no_import_known: false,
                no_login: false,
                dry_run: false,
                no_resume: false,
                no_launch: false,
                extra_args: Vec::new(),
            },
        ),
    }
}

// ---------------------------------------------------------------------------
// Logging in
// ---------------------------------------------------------------------------

/// The credentials that are filled in for the user.
#[derive(Debug)]
pub struct AutofillRequest {
    pub email: String,
    pub password: String,
}

/// How an account is logged in.
#[derive(Debug)]
pub enum LoginKind {
    Device,
    Autofill(AutofillRequest),
    ApiKey(ApiLoginRequest),
}

/// How an account is logged in.
pub enum LoginModel {
    Device,
    Autofill { email: Seq<char>, password: Seq<char> },
    ApiKey { api_token: Seq<char>, base_url: Seq<char>, provider: Seq<char> },
}

impl View for LoginKind {
    type V = LoginModel;

    open spec fn view(&self) -> LoginModel {
        match *self {
            LoginKind::Device => LoginModel::Device,
            LoginKind::Autofill(request) => LoginModel::Autofill {
                email: request.email@,
                password: request.password@,
            },
            LoginKind::ApiKey(request) => LoginModel::ApiKey {
                api_token: request.api_token@,
                base_url: request.base_url@,
                provider: request.provider@,
            },
        }
    }
}

/// The login with given credentials, or why there is none.
pub open spec fn autofill_login(args: LoginArgs, zh: bool) -> Result<LoginModel, Seq<char>> {
    if args.api_args.api {
        Err(wording::login_mode_conflict(zh))
    } else {
        match (args.username, args.password) {
            (Some(email), Some(password)) => if text::trimmed(email@).len() > 0 && password@.len()
                > 0 {
                Ok(LoginModel::Autofill { email: text::trimmed(email@), password: password@ })
            } else {
                Err(wording::login_autofill_missing_credentials(zh))
            },
            _ => Err(wording::login_autofill_missing_credentials(zh)),
        }
    }
}

/// The credentials to fill in, or why there are none.
pub fn build_autofill_request(args: &LoginArgs, ui: &Messages) -> (r: Result<
    AutofillRequest,
    &'static str,
>)
    ensures
        match r {
            Ok(request) => autofill_login(*args, ui.zh()) == Ok::<LoginModel, Seq<char>>(
                LoginKind::Autofill(request)@,
            ),
            Err(error) => autofill_login(*args, ui.zh()) == Err::<LoginModel, Seq<char>>(error@),
        },
{
    if args.api_args.api {
        return Err(ui.login_mode_conflict());
    }
    match (&args.username, &args.password) {
        (Some(email), Some(password)) => {
            let email = text::trim(email.as_str());
            if email.is_empty() || password.as_str().is_empty() {
                return Err(ui.login_autofill_missing_credentials());
            }
            Ok(AutofillRequest { email: email.to_owned(), password: password.clone() })
        },
        _ => Err(ui.login_autofill_missing_credentials()),
    }
}

/// The login with an API token, or why there is none: the token has at least eight
/// characters, not counting its prefix.
pub open spec fn api_login(args: ApiArgs, zh: bool) -> Result<LoginModel, Seq<char>> {
    match (args.api_token, args.base_url, args.provider) {
        (Some(token), Some(base_url), Some(provider)) => if account::token_body(token@).len() >= 8
            && text::trimmed(base_url@).len() > 0 && text::trimmed(provider@).len() > 0 {
            Ok(
                LoginModel::ApiKey {
                    api_token: text::trimmed(token@),
                    base_url: text::trimmed(base_url@),
                    provider: text::lowercase(text::trimmed(provider@)),
                },
            )
        } else {
            Err(wording::login_api_missing_credentials(zh))
        },
        _ => Err(wording::login_api_missing_credentials(zh)),
    }
}

/// The account with an API token, or why there is none.
pub fn build_api_login_request(args: &ApiArgs, ui: &Messages) -> (r: Result<
    ApiLoginRequest,
    &'static str,
>)
    ensures
        match r {
            Ok(request) => api_login(*args, ui.zh()) == Ok::<LoginModel, Seq<char>>(
                LoginKind::ApiKey(request)@,
            ),
            Err(error) => api_login(*args, ui.zh()) == Err::<LoginModel, Seq<char>>(error@),
        },
{
    match (&args.api_token, &args.base_url, &args.provider) {
        (Some(token), Some(base_url), Some(provider)) => {
            let body = text::chars_of(account::strip_token(token.as_str()));
            let base_url = text::trim(base_url.as_str());
            let provider = text::trim(provider.as_str());
            if body.len() < 8 || base_url.is_empty() || provider.is_empty() {
                return Err(ui.login_api_missing_credentials());
            }
            Ok(
                ApiLoginRequest {
                    api_token: text::trim(token.as_str()).to_owned(),
                    base_url: base_url.to_owned(),
                    provider: text::to_lowercase(provider),
                },
            )
        },
        _ => Err(ui.login_api_missing_credentials()),
    }
}

/// A login with an API token has the provider in lower case, nothing blank, and no white
/// space at the ends.
pub proof fn law_api_login_is_normal(args: ApiArgs, zh: bool)
    ensures
        match api_login(args, zh) {
            Ok(LoginModel::ApiKey { api_token, base_url, provider }) => {
                &&& account::is_normal_login(provider, base_url, api_token)
                &&& text::trimmed(api_token) == api_token
            },
            Ok(_) => false,
            Err(_) => true,
        },
{
    if api_login(args, zh) is Ok {
        let class = CharClass::WhiteSpace;
        let token = args.api_token->0@;
        let provider = text::trimmed(args.provider->0@);
        let lower = text::lowercase(provider);
        text::lemma_trim_idempotent(token, class);
        text::lemma_trim_idempotent(args.base_url->0@, class);
        text::lemma_trim_ends(args.provider->0@, class);
        assert(lower.first() == text::ascii_lower(provider.first()));
        assert(lower.last() == text::ascii_lower(provider.last()));
        assert(text::trimmed(lower) == lower);
        assert(text::lowercase(lower) =~= lower);
    }
}

// ---------------------------------------------------------------------------
// The repository of the account pool
// ---------------------------------------------------------------------------

/// The repository: that of the command line, or else that of the environment, or else the
/// stored one; blank ones do not count.
pub open spec fn repo_source(
    cli_repo: Option<Seq<char>>,
    env_repo: Option<Seq<char>>,
    stored_repo: Option<Seq<char>>,
) -> Option<Seq<char>> {
    if text::non_blank(cli_repo) is Some {
        text::non_blank(cli_repo)
    } else if text::non_blank(env_repo) is Some {
        text::non_blank(env_repo)
    } else {
        text::non_blank(stored_repo)
    }
}

/// The repository: that of the command line, or else that of the environment, or else the
/// stored one; blank ones do not count.
pub fn resolve_repo_source<'a>(
    cli_repo: Option<&'a str>,
    env_repo: Option<&'a str>,
    stored_repo: Option<&'a str>,
) -> (r: Option<&'a str>)
    ensures
        text::opt_str_chars(r) == repo_source(
            text::opt_str_chars(cli_repo),
            text::opt_str_chars(env_repo),
            text::opt_str_chars(stored_repo),
        ),
{
    if let Some(repo) = text::trim_non_blank(cli_repo) {
        return Some(repo);
    }
    if let Some(repo) = text::trim_non_blank(env_repo) {
        return Some(repo);
    }
    text::trim_non_blank(stored_repo)
}

/// The repository that the environment names, where that is not blank.
pub fn configured_repo_from_env(value: Option<&str>) -> (r: Option<String>)
    ensures
        text::opt_chars(r) == text::non_blank(text::opt_str_chars(value)),
{
    match text::trim_non_blank(value) {
        Some(repo) => Some(repo.to_owned()),
        None => None,
    }
}

/// The repository, and whether the command line names it, or the error where none is
/// known.
pub fn resolve_repo_for_sync(
    cli_repo: Option<&str>,
    env_repo: Option<&str>,
    state: &State,
    ui: &Messages,
) -> (r: Result<(String, bool), String>)
    ensures
        match repo_source(
            text::opt_str_chars(cli_repo),
            text::opt_str_chars(env_repo),
            text::opt_chars(state.repo_sync.pool_repo),
        ) {
            Some(repo) => r matches Ok(pair) && pair.0@ == repo && pair.1 == (text::non_blank(
                text::opt_str_chars(cli_repo),
            ) is Some),
            None => r matches Err(error) && error@ == wording::repo_sync_missing_repo(
                ui.zh(),
                POOL_REPO_ENV@,
            ),
        },
{
    let from_cli = text::trim_non_blank(cli_repo).is_some();
    let stored = text::as_deref(&state.repo_sync.pool_repo);
    match resolve_repo_source(cli_repo, env_repo, stored) {
        Some(repo) => Ok((repo.to_owned(), from_cli)),
        None => Err(ui.repo_sync_missing_repo(POOL_REPO_ENV)),
    }
}

/// The repository that is remembered: the one that the command line names, or else the one that
/// was.
pub open spec fn remembered_repo(
    stored: Option<Seq<char>>,
    repo: Seq<char>,
    from_cli: bool,
) -> Option<Seq<char>> {
    if from_cli {
        Some(repo)
    } else {
        stored
    }
}

/// Remembers the repository that the command line names, and tells whether that changed
/// the state.
pub fn persist_repo_from_cli(state: &mut State, repo: &str, repo_from_cli: bool) -> (r: bool)
    ensures
        r == (repo_from_cli && text::opt_chars(old(state).repo_sync.pool_repo) != Some(repo@)),
        text::opt_chars(final(state).repo_sync.pool_repo) == (if repo_from_cli {
            Some(repo@)
        } else {
            text::opt_chars(old(state).repo_sync.pool_repo)
        }),
        final(state).accounts == old(state).accounts,
        final(state).usage_cache@ == old(state).usage_cache@,
        final(state).version == old(state).version,
        text::opt_chars(final(state).repo_sync.pool_repo) == remembered_repo(
            text::opt_chars(old(state).repo_sync.pool_repo),
            repo@,
            repo_from_cli,
        ),
{
    if !repo_from_cli || text::is_text(text::as_deref(&state.repo_sync.pool_repo), repo) {
        return false;
    }
    state.repo_sync.pool_repo = Some(repo.to_owned());
    true
}

/// The repository of the command line comes before that of the environment, which comes
/// before the stored one.
pub proof fn law_command_line_names_the_repository(
    cli_repo: Option<Seq<char>>,
    env_repo: Option<Seq<char>>,
    stored_repo: Option<Seq<char>>,
)
    ensures
        text::non_blank(cli_repo) is Some ==> repo_source(cli_repo, env_repo, stored_repo)
            == text::non_blank(cli_repo),
        text::non_blank(cli_repo) is None && text::non_blank(env_repo) is Some ==> repo_source(
            cli_repo,
            env_repo,
            stored_repo,
        ) == text::non_blank(env_repo),
        text::non_blank(cli_repo) is None && text::non_blank(env_repo) is None ==> repo_source(
            cli_repo,
            env_repo,
            stored_repo,
        ) == text::non_blank(stored_repo),
{
}

/// A repository that was named on the command line and remembered is the one that is used
/// next time, where no other is named.
pub proof fn law_remembered_repository_is_reused(repo: Seq<char>, named: Seq<char>)
    requires
        text::non_blank(Some(named)) == Some(repo),
    ensures
        repo_source(None, None, Some(repo)) == Some(repo),
{
    text::lemma_trim_idempotent(named, CharClass::WhiteSpace);
}

// ---------------------------------------------------------------------------
// Sessions
// ---------------------------------------------------------------------------

/// The arguments of a session: with an API account responses are not stored, and apps are
/// off.
pub open spec fn session_args(account_type: AccountType, extra: Seq<Seq<char>>) -> Seq<Seq<char>> {
    match account_type {
        AccountType::Api => extra + seq![
            "-c"@,
            "disable_response_storage=true"@,
            "--disable"@,
            "apps"@,
        ],
        AccountType::Subscription => extra,
    }
}

/// The arguments of a session with an account of that type.
pub fn codex_launch_args(account_type: AccountType, extra_args: &Vec<String>) -> (r: Vec<String>)
    ensures
        text::views(r@) == session_args(account_type, text::views(extra_args@)),
{
    let mut args = text::clone_texts(extra_args);
    match account_type {
        AccountType::Api => {
            let ghost before = text::views(args@);
            args.push("-c".to_owned());
            args.push("disable_response_storage=true".to_owned());
            args.push("--disable".to_owned());
            args.push("apps".to_owned());
            assert(text::views(args@) =~= before + seq![
                "-c"@,
                "disable_response_storage=true"@,
                "--disable"@,
                "apps"@,
            ]);
            args
        },
        AccountType::Subscription => args,
    }
}

/// The line that says which account is selected, and what is left of its quotas.
pub open spec fn selection_line(
    prefix: Seq<char>,
    email: Seq<char>,
    usage: UsageModel,
    zh: bool,
) -> Seq<char> {
    prefix + " "@ + email + " [weekly="@ + listing::percent_text(
        usage.weekly_remaining_percent,
        zh,
    ) + ", 5h="@ + listing::percent_text(usage.five_hour_remaining_percent, zh) + "]"@
}

/// The line that says which account is selected.
pub fn print_selection(
    ui: &Messages,
    prefix: &str,
    account: &AccountRecord,
    usage: &UsageSnapshot,
) -> (r: String)
    ensures
        r@ == selection_line(prefix@, account@.email, usage@, ui.zh()),
{
    let mut line = text::concat3(prefix, " ", account.email.as_str());
    line.append(" [weekly=");
    line.append(listing::format_percent(ui, usage.weekly_remaining_percent).as_str());
    line.append(", 5h=");
    line.append(listing::format_percent(ui, usage.five_hour_remaining_percent).as_str());
    line.append("]");
    line
}

// ---------------------------------------------------------------------------
// Actions
// ---------------------------------------------------------------------------

/// What is to be done.
#[derive(Debug)]
pub enum Action {
    /// Print the line.
    Say(String),
    /// Store the state.
    Save,
    /// Select an account.
    Select(SelectOptions),
    /// Log in an account and put it in the pool.
    LogIn(LoginKind),
    /// Refresh the usage of the account.
    RefreshUsage(AccountRecord),
    /// Make the account the live one.
    Switch(AccountRecord),
    /// Import the credentials that are known.
    ImportKnown,
    /// Import the credentials at the path.
    ImportAuth(String),
    /// Print the question and read a line.
    Ask(String),
    /// Remove the account with this id.
    Remove(String),
    /// Remember the repository of the account pool.
    Remember(String),
    /// Copy the live credentials to another machine.
    Deploy { target: String, identity_file: Option<String> },
    /// Push the account pool.
    Push { repo: String, path: Option<String>, identity_file: Option<String> },
    /// Pull the account pool.
    Pull { repo: String, path: Option<String>, identity_file: Option<String> },
    /// Refresh the usage of all accounts.
    RefreshAll,
    /// Print the list of accounts.
    ShowAccounts,
    /// Update the program.
    SelfUpdate(bool),
    /// Start or resume a session.
    Launch { args: Vec<String>, resume: bool },
    /// Run Codex with these arguments.
    Passthrough(Vec<String>),
    /// End with this exit code.
    Finish(i32),
}

/// What is to be done.
pub enum ActionModel {
    Say(Seq<char>),
    Save,
    Select(SelectOptions),
    LogIn(LoginModel),
    RefreshUsage(AccountModel),
    Switch(AccountModel),
    ImportKnown,
    ImportAuth(Seq<char>),
    Ask(Seq<char>),
    Remove(Seq<char>),
    Remember(Seq<char>),
    Deploy { target: Seq<char>, identity_file: Option<Seq<char>> },
    Push { repo: Seq<char>, path: Option<Seq<char>>, identity_file: Option<Seq<char>> },
    Pull { repo: Seq<char>, path: Option<Seq<char>>, identity_file: Option<Seq<char>> },
    RefreshAll,
    ShowAccounts,
    SelfUpdate(bool),
    Launch { args: Seq<Seq<char>>, resume: bool },
    Passthrough(Seq<Seq<char>>),
    Finish(i32),
}

impl View for Action {
    type V = ActionModel;

    open spec fn view(&self) -> ActionModel {
        match *self {
            Action::Say(line) => ActionModel::Say(line@),
            Action::Save => ActionModel::Save,
            Action::Select(options) => ActionModel::Select(options),
            Action::LogIn(kind) => ActionModel::LogIn(kind@),
            Action::RefreshUsage(account) => ActionModel::RefreshUsage(account@),
            Action::Switch(account) => ActionModel::Switch(account@),
            Action::ImportKnown => ActionModel::ImportKnown,
            Action::ImportAuth(path) => ActionModel::ImportAuth(path@),
            Action::Ask(question) => ActionModel::Ask(question@),
            Action::Remove(id) => ActionModel::Remove(id@),
            Action::Remember(repo) => ActionModel::Remember(repo@),
            Action::Deploy { target, identity_file } => ActionModel::Deploy {
                target: target@,
                identity_file: text::opt_chars(identity_file),
            },
            Action::Push { repo, path, identity_file } => ActionModel::Push {
                repo: repo@,
                path: text::opt_chars(path),
                identity_file: text::opt_chars(identity_file),
            },
            Action::Pull { repo, path, identity_file } => ActionModel::Pull {
                repo: repo@,
                path: text::opt_chars(path),
                identity_file: text::opt_chars(identity_file),
            },
            Action::RefreshAll => ActionModel::RefreshAll,
            Action::ShowAccounts => ActionModel::ShowAccounts,
            Action::SelfUpdate(force) => ActionModel::SelfUpdate(force),
            Action::Launch { args, resume } => ActionModel::Launch {
                args: text::views(args@),
                resume,
            },
            Action::Passthrough(args) => ActionModel::Passthrough(text::views(args@)),
            Action::Finish(code) => ActionModel::Finish(code),
        }
    }
}

/// What is to be done, in order.
pub open spec fn steps(actions: Seq<Action>) -> Seq<ActionModel> {
    Seq::new(actions.len(), |i: int| actions[i]@)
}

/// What an update came to.
#[derive(Debug)]
pub struct UpdateOutcome {
    /// Whether another version was installed.
    pub updated: bool,
    pub previous_version: String,
    pub installed_version: String,
    pub executable_path: String,
}

/// What came of the last action.
#[derive(Debug)]
pub enum RunEvent {
    /// Nothing was done yet.
    Started,
    /// This account was selected.
    Selected(Option<(AccountRecord, UsageSnapshot)>),
    /// This account was logged in.
    LoggedIn(AccountRecord),
    /// The usage of the account was refreshed.
    RefreshedUsage(AccountRecord, UsageSnapshot),
    /// These accounts were imported.
    ImportedKnown(Vec<AccountRecord>),
    /// This account was imported.
    ImportedAuth(AccountRecord),
    /// The user answered.
    Answered(String),
    /// The account pool was pushed.
    Pushed { changed: bool, accounts: usize },
    /// The account pool was pulled.
    Pulled { accounts: usize },
    /// The program was updated, or not.
    Updated(UpdateOutcome),
    /// The session ended with this code.
    Ended(i32),
}

/// What the commands depend on besides the state.
#[derive(Debug)]
pub struct RunContext {
    /// Whether someone is there to answer a question.
    pub interactive: bool,
    /// The repository that the environment names.
    pub env_repo: Option<String>,
    pub windows: bool,
}

// ---------------------------------------------------------------------------
// Beginning
// ---------------------------------------------------------------------------

/// What stands before a push or a pull: a repository that the command line names is
/// remembered, unless it is already.
pub open spec fn remembering(repo: Seq<char>, from_cli: bool, stored: Option<Seq<char>>) -> Seq<
    ActionModel,
> {
    if from_cli && stored != Some(repo) {
        seq![ActionModel::Remember(repo), ActionModel::Save]
    } else {
        Seq::empty()
    }
}

/// What is done with the repository, or why nothing is.
pub open spec fn sync_steps(
    args: RepoSyncArgs,
    push: bool,
    stored: Option<Seq<char>>,
    env_repo: Option<Seq<char>>,
    zh: bool,
) -> Result<Seq<ActionModel>, Seq<char>> {
    match repo_source(text::opt_chars(args.repo), env_repo, stored) {
        Some(repo) => Ok(
            remembering(
                repo,
                text::non_blank(text::opt_chars(args.repo)) is Some,
                stored,
            ).push(
                if push {
                    ActionModel::Push {
                        repo,
                        path: text::opt_chars(args.path),
                        identity_file: text::opt_chars(args.identity_file),
                    }
                } else {
                    ActionModel::Pull {
                        repo,
                        path: text::opt_chars(args.path),
                        identity_file: text::opt_chars(args.identity_file),
                    }
                },
            ),
        ),
        None => Err(wording::repo_sync_missing_repo(zh, POOL_REPO_ENV@)),
    }
}

/// The login of a result.
pub open spec fn login_steps(login: Result<LoginModel, Seq<char>>) -> Result<
    Seq<ActionModel>,
    Seq<char>,
> {
    match login {
        Ok(kind) => Ok(seq![ActionModel::LogIn(kind)]),
        Err(error) => Err(error),
    }
}

/// How an account is selected for a session.
pub open spec fn launch_options(args: LaunchArgs) -> SelectOptions {
    SelectOptions {
        no_import_known: args.no_import_known,
        no_login: args.no_login,
        perform_switch: !args.dry_run,
    }
}

/// How an account is selected without a session.
pub open spec fn auto_options(args: AutoArgs) -> SelectOptions {
    SelectOptions {
        no_import_known: args.no_import_known,
        no_login: args.no_login,
        perform_switch: !args.dry_run,
    }
}

/// How an account is selected for other uses of Codex.
pub open spec fn passthrough_options() -> SelectOptions {
    SelectOptions { no_import_known: false, no_login: false, perform_switch: true }
}

/// What a command begins with.
pub open spec fn first_steps(
    command: Command,
    state: State,
    context: RunContext,
    zh: bool,
) -> Result<Seq<ActionModel>, Seq<char>> {
    match command {
        Command::Launch(args) => Ok(seq![ActionModel::Select(launch_options(args))]),
        Command::Auto(args) => Ok(seq![ActionModel::Select(auto_options(args))]),
        Command::Passthrough(_) => Ok(seq![ActionModel::Select(passthrough_options())]),
        Command::Login(args) => if args.api_args.api {
            login_steps(api_login(args.api_args, zh))
        } else if args.oauth {
            login_steps(autofill_login(args, zh))
        } else {
            Ok(seq![ActionModel::LogIn(LoginModel::Device)])
        },
        Command::Add(args) => if args.api_args.api {
            login_steps(api_login(args.api_args, zh))
        } else {
            Ok(seq![ActionModel::LogIn(LoginModel::Device)])
        },
        Command::Use(_) => Ok(seq![ActionModel::ImportKnown]),
        Command::Rm(_) => Ok(seq![ActionModel::ImportKnown]),
        Command::ImportKnown => Ok(seq![ActionModel::ImportKnown]),
        Command::ImportAuth(args) => Ok(seq![ActionModel::ImportAuth(args.path@)]),
        Command::Deploy(args) => Ok(
            seq![
                ActionModel::Deploy {
                    target: args.target@,
                    identity_file: text::opt_chars(args.identity_file),
                },
                ActionModel::Finish(0),
            ],
        ),
        Command::Push(args) => sync_steps(
            args,
            true,
            text::opt_chars(state.repo_sync.pool_repo),
            text::opt_chars(context.env_repo),
            zh,
        ),
        Command::Pull(args) => sync_steps(
            args,
            false,
            text::opt_chars(state.repo_sync.pool_repo),
            text::opt_chars(context.env_repo),
            zh,
        ),
        Command::List => Ok(
            seq![
                ActionModel::RefreshAll,
                ActionModel::Save,
                ActionModel::ShowAccounts,
                ActionModel::Finish(0),
            ],
        ),
        Command::Refresh => Ok(
            seq![
                ActionModel::RefreshAll,
                ActionModel::Save,
                ActionModel::ShowAccounts,
                ActionModel::Say(wording::refreshed_accounts(zh, state.accounts@.len() as usize)),
                ActionModel::Finish(0),
            ],
        ),
        Command::Update(args) => Ok(seq![ActionModel::SelfUpdate(args.force)]),
    }
}

/// What is to be done, or why nothing is.
pub open spec fn outcome(r: Result<Vec<Action>, String>) -> Result<Seq<ActionModel>, Seq<char>> {
    match r {
        Ok(actions) => Ok(steps(actions@)),
        Err(error) => Err(error@),
    }
}

fn push_step(actions: &mut Vec<Action>, action: Action)
    ensures
        steps(final(actions)@) == steps(old(actions)@).push(action@),
{
    let ghost before = steps(actions@);
    actions.push(action);
    assert(steps(actions@) =~= before.push(action@));
}

fn only(action: Action) -> (r: Vec<Action>)
    ensures
        steps(r@) == seq![action@],
{
    let mut actions: Vec<Action> = Vec::new();
    actions.push(action);
    assert(steps(actions@) =~= seq![action@]);
    actions
}

fn begin_login(login: Result<LoginKind, &'static str>) -> (r: Result<Vec<Action>, String>)
    ensures
        outcome(r) == login_steps(
            match login {
                Ok(kind) => Ok(kind@),
                Err(error) => Err(error@),
            },
        ),
{
    match login {
        Ok(kind) => Ok(only(Action::LogIn(kind))),
        Err(error) => Err(error.to_owned()),
    }
}

fn begin_api_login(args: &ApiArgs, ui: &Messages) -> (r: Result<Vec<Action>, String>)
    ensures
        outcome(r) == login_steps(api_login(*args, ui.zh())),
{
    match build_api_login_request(args, ui) {
        Ok(request) => begin_login(Ok(LoginKind::ApiKey(request))),
        Err(error) => begin_login(Err(error)),
    }
}

fn begin_sync(args: &RepoSyncArgs, push: bool, state: &State, context: &RunContext, ui: &Messages) -> (r:
    Result<Vec<Action>, String>)
    ensures
        outcome(r) == sync_steps(
            *args,
            push,
            text::opt_chars(state.repo_sync.pool_repo),
            text::opt_chars(context.env_repo),
            ui.zh(),
        ),
{
    let found = resolve_repo_for_sync(
        text::as_deref(&args.repo),
        text::as_deref(&context.env_repo),
        state,
        ui,
    );
    let (repo, from_cli) = match found {
        Ok(pair) => pair,
        Err(error) => return Err(error),
    };
    let ghost stored = text::opt_chars(state.repo_sync.pool_repo);
    let mut actions: Vec<Action> = Vec::new();
    if from_cli && !text::is_text(text::as_deref(&state.repo_sync.pool_repo), repo.as_str()) {
        actions.push(Action::Remember(repo.clone()));
        actions.push(Action::Save);
    }
    assert(steps(actions@) =~= remembering(repo@, from_cli, stored));
    let ghost before = steps(actions@);
    let path = state::clone_text(&args.path);
    let identity_file = state::clone_text(&args.identity_file);
    let last = if push {
        Action::Push { repo, path, identity_file }
    } else {
        Action::Pull { repo, path, identity_file }
    };
    actions.push(last);
    assert(steps(actions@) =~= before.push(last@));
    Ok(actions)
}

fn begin(ui: &Messages, command: &Command, state: &State, context: &RunContext) -> (r: Result<
    Vec<Action>,
    String,
>)
    ensures
        outcome(r) == first_steps(*command, *state, *context, ui.zh()),
{
    match command {
        Command::Launch(args) => Ok(
            only(
                Action::Select(
                    SelectOptions {
                        no_import_known: args.no_import_known,
                        no_login: args.no_login,
                        perform_switch: !args.dry_run,
                    },
                ),
            ),
        ),
        Command::Auto(args) => Ok(
            only(
                Action::Select(
                    SelectOptions {
                        no_import_known: args.no_import_known,
                        no_login: args.no_login,
                        perform_switch: !args.dry_run,
                    },
                ),
            ),
        ),
        Command::Passthrough(_) => Ok(
            only(
                Action::Select(
                    SelectOptions {
                        no_import_known: false,
                        no_login: false,
                        perform_switch: true,
                    },
                ),
            ),
        ),
        Command::Login(args) => if args.api_args.api {
            begin_api_login(&args.api_args, ui)
        } else if args.oauth {
            match build_autofill_request(args, ui) {
                Ok(request) => begin_login(Ok(LoginKind::Autofill(request))),
                Err(error) => begin_login(Err(error)),
            }
        } else {
            Ok(only(Action::LogIn(LoginKind::Device)))
        },
        Command::Add(args) => if args.api_args.api {
            begin_api_login(&args.api_args, ui)
        } else {
            Ok(only(Action::LogIn(LoginKind::Device)))
        },
        Command::Use(_) => Ok(only(Action::ImportKnown)),
        Command::Rm(_) => Ok(only(Action::ImportKnown)),
        Command::ImportKnown => Ok(only(Action::ImportKnown)),
        Command::ImportAuth(args) => Ok(only(Action::ImportAuth(args.path.clone()))),
        Command::Deploy(args) => {
            let mut actions = only(
                Action::Deploy {
                    target: args.target.clone(),
                    identity_file: state::clone_text(&args.identity_file),
                },
            );
            push_step(&mut actions, Action::Finish(0));
            assert(steps(actions@) =~= first_steps(*command, *state, *context, ui.zh())->Ok_0);
            Ok(actions)
        },
        Command::Push(args) => begin_sync(args, true, state, context, ui),
        Command::Pull(args) => begin_sync(args, false, state, context, ui),
        Command::List => {
            let mut actions = only(Action::RefreshAll);
            push_step(&mut actions, Action::Save);
            push_step(&mut actions, Action::ShowAccounts);
            push_step(&mut actions, Action::Finish(0));
            assert(steps(actions@) =~= first_steps(*command, *state, *context, ui.zh())->Ok_0);
            Ok(actions)
        },
        Command::Refresh => {
            let mut actions = only(Action::RefreshAll);
            push_step(&mut actions, Action::Save);
            push_step(&mut actions, Action::ShowAccounts);
            push_step(&mut actions, Action::Say(ui.refreshed_accounts(state.accounts.len())));
            push_step(&mut actions, Action::Finish(0));
            assert(steps(actions@) =~= first_steps(*command, *state, *context, ui.zh())->Ok_0);
            Ok(actions)
        },
        Command::Update(args) => Ok(only(Action::SelfUpdate(args.force))),
    }
}

// ---------------------------------------------------------------------------
// Going on
// ---------------------------------------------------------------------------

/// What follows on a selection.
pub open spec fn steps_after_selection(
    command: Command,
    selection: Option<(AccountModel, UsageModel)>,
    zh: bool,
) -> Seq<ActionModel> {
    match selection {
        None => seq![
            ActionModel::Say(wording::no_usable_account(zh)),
            ActionModel::Save,
            ActionModel::Finish(1),
        ],
        Some(pair) => {
            let would = ActionModel::Say(
                selection_line(wording::selection_would_select(zh), pair.0.email, pair.1, zh),
            );
            let switched = ActionModel::Say(
                selection_line(wording::selection_switched(zh), pair.0.email, pair.1, zh),
            );
            match command {
                Command::Launch(args) => if args.dry_run {
                    seq![would, ActionModel::Save, ActionModel::Finish(0)]
                } else if args.no_launch {
                    seq![switched, ActionModel::Save, ActionModel::Finish(0)]
                } else {
                    seq![
                        switched,
                        ActionModel::Save,
                        ActionModel::Launch {
                            args: session_args(
                                pair.0.account_type,
                                text::views(args.extra_args@),
                            ),
                            resume: !args.no_resume,
                        },
                    ]
                },
                Command::Auto(args) => if args.dry_run {
                    seq![would, ActionModel::Save, ActionModel::Finish(0)]
                } else {
                    seq![switched, ActionModel::Save, ActionModel::Finish(0)]
                },
                Command::Passthrough(args) => seq![
                    switched,
                    ActionModel::Save,
                    ActionModel::Passthrough(text::views(args@)),
                ],
                _ => Seq::empty(),
            }
        },
    }
}

/// What a selection is, in models.
pub open spec fn selection_model(selection: Option<(AccountRecord, UsageSnapshot)>) -> Option<
    (AccountModel, UsageModel),
> {
    match selection {
        Some(pair) => Some((pair.0@, pair.1@)),
        None => None,
    }
}

fn say_selection(ui: &Messages, prefix: &str, selection: &(AccountRecord, UsageSnapshot)) -> (r: Vec<
    Action,
>)
    ensures
        steps(r@) == seq![
            ActionModel::Say(
                selection_line(prefix@, selection.0@.email, selection.1@, ui.zh()),
            ),
            ActionModel::Save,
        ],
{
    let mut actions = only(Action::Say(print_selection(ui, prefix, &selection.0, &selection.1)));
    push_step(&mut actions, Action::Save);
    actions
}

/// What follows on a selection.
pub fn after_selection(
    ui: &Messages,
    command: &Command,
    selection: Option<(AccountRecord, UsageSnapshot)>,
) -> (r: Vec<Action>)
    ensures
        steps(r@) == (if is_selecting(*command) {
            steps_after_selection(*command, selection_model(selection), ui.zh())
        } else {
            Seq::empty()
        }),
{
    let dry_run = match command {
        Command::Launch(args) => args.dry_run,
        Command::Auto(args) => args.dry_run,
        Command::Passthrough(_) => false,
        _ => return no_steps(),
    };
    let selection = match selection {
        Some(selection) => selection,
        None => {
            let mut actions = only(Action::Say(ui.no_usable_account().to_owned()));
            push_step(&mut actions, Action::Save);
            push_step(&mut actions, Action::Finish(1));
            return actions;
        },
    };
    if dry_run {
        let mut actions = say_selection(ui, ui.selection_would_select(), &selection);
        push_step(&mut actions, Action::Finish(0));
        return actions;
    }
    let mut actions = say_selection(ui, ui.selection_switched(), &selection);
    match command {
        Command::Launch(args) => if args.no_launch {
            push_step(&mut actions, Action::Finish(0));
        } else {
            let session = codex_launch_args(selection.0.account_type, &args.extra_args);
            push_step(&mut actions, Action::Launch { args: session, resume: !args.no_resume });
        },
        Command::Passthrough(args) => {
            push_step(&mut actions, Action::Passthrough(text::clone_texts(args)));
        },
        _ => {
            push_step(&mut actions, Action::Finish(0));
        },
    }
    actions
}

/// Whether the command selects an account.
pub open spec fn is_selecting(command: Command) -> bool {
    command is Launch || command is Auto || command is Passthrough
}

fn no_steps() -> (r: Vec<Action>)
    ensures
        steps(r@) == Seq::<ActionModel>::empty(),
{
    let actions: Vec<Action> = Vec::new();
    assert(steps(actions@) =~= Seq::<ActionModel>::empty());
    actions
}

/// What follows on the refresh of an account that was added: it is switched to.
pub open spec fn steps_for_added(account: AccountModel, usage: UsageModel, zh: bool) -> Seq<
    ActionModel,
> {
    seq![
        ActionModel::Say(wording::added_account(zh, account.email)),
        ActionModel::Switch(account),
        ActionModel::Say(
            selection_line(wording::selection_switched(zh), account.email, usage, zh),
        ),
        ActionModel::Save,
        ActionModel::Finish(0),
    ]
}

/// What follows on the refresh of an account that was added.
pub fn finish_added_account(ui: &Messages, record: AccountRecord, usage: &UsageSnapshot) -> (r: Vec<
    Action,
>)
    ensures
        steps(r@) == steps_for_added(record@, usage@, ui.zh()),
{
    let line = print_selection(ui, ui.selection_switched(), &record, usage);
    let mut actions = only(Action::Say(ui.added_account(record.email.as_str())));
    push_step(&mut actions, Action::Switch(record));
    push_step(&mut actions, Action::Say(line));
    push_step(&mut actions, Action::Save);
    push_step(&mut actions, Action::Finish(0));
    actions
}

/// What is done where no account goes by the name.
pub open spec fn steps_for_unknown(name: Seq<char>, zh: bool) -> Seq<ActionModel> {
    seq![
        ActionModel::Say(wording::unknown_account(zh, name)),
        ActionModel::Save,
        ActionModel::Finish(1),
    ]
}

/// What removes an account.
pub open spec fn removal(account: AccountModel, zh: bool) -> Seq<ActionModel> {
    seq![
        ActionModel::Remove(account.id),
        ActionModel::Save,
        ActionModel::Say(wording::removed_account(zh, account.email)),
        ActionModel::Finish(0),
    ]
}

/// The lines that say what was imported.
pub open spec fn import_lines(imported: Seq<AccountModel>, zh: bool) -> Seq<ActionModel> {
    Seq::new(
        imported.len(),
        |i: int|
            ActionModel::Say(wording::imported_account(zh, imported[i].email, imported[i].id)),
    )
}

/// What follows on the import of the credentials that are known.
pub open spec fn steps_after_import(
    command: Command,
    pool: engine::PoolModel,
    context: RunContext,
    imported: Seq<AccountModel>,
    zh: bool,
) -> Seq<ActionModel> {
    match command {
        Command::Use(args) => match pool::named(
            state::models(pool.accounts),
            text::trimmed(args.email@),
        ) {
            None => steps_for_unknown(args.email@, zh),
            Some(account) => seq![
                ActionModel::Switch(account),
                ActionModel::Say(
                    selection_line(
                        wording::selection_switched(zh),
                        account.email,
                        state::known_usage(pool.cache, account.id),
                        zh,
                    ),
                ),
                ActionModel::Save,
                ActionModel::Finish(0),
            ],
        },
        Command::Rm(args) => match pool::matching(
            state::models(pool.accounts),
            text::trimmed(args.email@),
            None,
        ) {
            None => steps_for_unknown(args.email@, zh),
            Some(account) => if args.assume_yes {
                removal(account, zh)
            } else if !context.interactive {
                seq![
                    ActionModel::Say(wording::rm_requires_tty(zh)),
                    ActionModel::Finish(1),
                ]
            } else {
                seq![ActionModel::Ask(wording::confirm_rm(zh, account.email))]
            },
        },
        Command::ImportKnown => if imported.len() == 0 {
            seq![
                ActionModel::Say(wording::no_importable_accounts(zh)),
                ActionModel::Save,
                ActionModel::Finish(1),
            ]
        } else {
            (seq![ActionModel::Save] + import_lines(imported, zh)).push(ActionModel::Finish(0))
        },
        _ => Seq::empty(),
    }
}

fn unknown_steps(ui: &Messages, name: &str) -> (r: Vec<Action>)
    ensures
        steps(r@) == steps_for_unknown(name@, ui.zh()),
{
    let mut actions = only(Action::Say(ui.unknown_account(name)));
    push_step(&mut actions, Action::Save);
    push_step(&mut actions, Action::Finish(1));
    actions
}

fn removal_steps(ui: &Messages, account: &AccountRecord) -> (r: Vec<Action>)
    ensures
        steps(r@) == removal(account@, ui.zh()),
{
    let mut actions = only(Action::Remove(account.id.clone()));
    push_step(&mut actions, Action::Save);
    push_step(&mut actions, Action::Say(ui.removed_account(account.email.as_str())));
    push_step(&mut actions, Action::Finish(0));
    actions
}

fn imported_steps(ui: &Messages, imported: &Vec<AccountRecord>) -> (r: Vec<Action>)
    requires
        imported@.len() > 0,
    ensures
        steps(r@) == (seq![ActionModel::Save] + import_lines(
            state::models(imported@),
            ui.zh(),
        )).push(ActionModel::Finish(0)),
{
    let ghost lines = import_lines(state::models(imported@), ui.zh());
    let mut actions = only(Action::Save);
    let mut i: usize = 0;
    assert(seq![ActionModel::Save] + lines.take(0) =~= seq![ActionModel::Save]);
    while i < imported.len()
        invariant
            i <= imported@.len(),
            lines == import_lines(state::models(imported@), ui.zh()),
            steps(actions@) == seq![ActionModel::Save] + lines.take(i as int),
        decreases imported@.len() - i,
    {
        let account = &imported[i];
        let line = ui.imported_account(account.email.as_str(), account.id.as_str());
        assert(lines[i as int] == ActionModel::Say(line@));
        push_step(&mut actions, Action::Say(line));
        assert(lines.take(i + 1) =~= lines.take(i as int).push(lines[i as int]));
        assert((seq![ActionModel::Save] + lines.take(i as int)).push(lines[i as int]) =~= seq![
            ActionModel::Save,
        ] + lines.take(i + 1));
        i += 1;
    }
    assert(lines.take(i as int) =~= lines);
    push_step(&mut actions, Action::Finish(0));
    actions
}

/// What follows on the import of the credentials that are known.
pub fn after_import(
    ui: &Messages,
    command: &Command,
    state: &State,
    context: &RunContext,
    imported: &Vec<AccountRecord>,
) -> (r: Vec<Action>)
    ensures
        steps(r@) == steps_after_import(
            *command,
            engine::pool_of(*state),
            *context,
            state::models(imported@),
            ui.zh(),
        ),
{
    let adapter = CodexAdapter;
    match command {
        Command::Use(args) => match adapter.find_account_by_email(state, args.email.as_str()) {
            None => unknown_steps(ui, args.email.as_str()),
            Some(record) => {
                let usage = state.usage_cache.usage_of(record.id.as_str());
                let line = print_selection(ui, ui.selection_switched(), record, &usage);
                let mut actions = only(Action::Switch(record.clone()));
                push_step(&mut actions, Action::Say(line));
                push_step(&mut actions, Action::Save);
                push_step(&mut actions, Action::Finish(0));
                actions
            },
        },
        Command::Rm(args) => match pool::find_account_by_email(
            state,
            text::trim(args.email.as_str()),
        ) {
            None => unknown_steps(ui, args.email.as_str()),
            Some(record) => if args.assume_yes {
                removal_steps(ui, record)
            } else if !context.interactive {
                let mut actions = only(Action::Say(ui.rm_requires_tty().to_owned()));
                push_step(&mut actions, Action::Finish(1));
                actions
            } else {
                only(Action::Ask(ui.confirm_rm(record.email.as_str())))
            },
        },
        Command::ImportKnown => if imported.len() == 0 {
            let mut actions = only(Action::Say(ui.no_importable_accounts().to_owned()));
            push_step(&mut actions, Action::Save);
            push_step(&mut actions, Action::Finish(1));
            actions
        } else {
            imported_steps(ui, imported)
        },
        _ => no_steps(),
    }
}

/// What follows on the answer to the question whether an account is to be removed.
pub open spec fn steps_after_answer(
    command: Command,
    pool: engine::PoolModel,
    answer: Option<bool>,
    zh: bool,
) -> Seq<ActionModel> {
    match command {
        Command::Rm(args) => match pool::matching(
            state::models(pool.accounts),
            text::trimmed(args.email@),
            None,
        ) {
            None => steps_for_unknown(args.email@, zh),
            Some(account) => match answer {
                Some(true) => removal(account, zh),
                Some(false) => seq![
                    ActionModel::Say(wording::rm_cancelled(zh)),
                    ActionModel::Finish(0),
                ],
                None => seq![
                    ActionModel::Say(wording::invalid_yes_no(zh)),
                    ActionModel::Ask(wording::confirm_rm(zh, account.email)),
                ],
            },
        },
        _ => Seq::empty(),
    }
}

/// What follows on the answer to the question whether an account is to be removed.
pub fn after_answer(ui: &Messages, command: &Command, state: &State, answer: &str) -> (r: Vec<Action>)
    ensures
        steps(r@) == steps_after_answer(
            *command,
            engine::pool_of(*state),
            ui::yes_or_no(answer@),
            ui.zh(),
        ),
{
    match command {
        Command::Rm(args) => match pool::find_account_by_email(
            state,
            text::trim(args.email.as_str()),
        ) {
            None => unknown_steps(ui, args.email.as_str()),
            Some(record) => match ui::parse_yes_no(answer) {
                Some(true) => removal_steps(ui, record),
                Some(false) => {
                    let mut actions = only(Action::Say(ui.rm_cancelled().to_owned()));
                    push_step(&mut actions, Action::Finish(0));
                    actions
                },
                None => {
                    let mut actions = only(Action::Say(ui.invalid_yes_no().to_owned()));
                    push_step(&mut actions, Action::Ask(ui.confirm_rm(record.email.as_str())));
                    actions
                },
            },
        },
        _ => no_steps(),
    }
}

/// What follows on a push.
pub open spec fn steps_after_push(repo: Seq<char>, changed: bool, accounts: usize, zh: bool) -> Seq<
    ActionModel,
> {
    seq![
        ActionModel::Say(
            if changed {
                wording::repo_push_completed(zh, repo, accounts)
            } else {
                wording::repo_push_no_changes(zh, repo)
            },
        ),
        ActionModel::Finish(0),
    ]
}

/// What follows on a pull: the new accounts are refreshed and shown.
pub open spec fn steps_after_pull(repo: Seq<char>, accounts: usize, zh: bool) -> Seq<ActionModel> {
    seq![
        ActionModel::Save,
        ActionModel::Say(wording::repo_pull_completed(zh, repo, accounts)),
        ActionModel::RefreshAll,
        ActionModel::Save,
        ActionModel::ShowAccounts,
        ActionModel::Finish(0),
    ]
}

/// What follows on an update.
pub open spec fn steps_after_update(update: UpdateOutcome, windows: bool, zh: bool) -> Seq<
    ActionModel,
> {
    if !update.updated {
        seq![
            ActionModel::Say(
                wording::update_already_current(
                    zh,
                    update.installed_version@,
                    update.executable_path@,
                ),
            ),
            ActionModel::Finish(0),
        ]
    } else {
        let said = ActionModel::Say(
            wording::update_completed(
                zh,
                update.previous_version@,
                update.installed_version@,
                update.executable_path@,
            ),
        );
        if windows {
            seq![
                said,
                ActionModel::Say(wording::restart_terminal_hint(zh)),
                ActionModel::Finish(0),
            ]
        } else {
            seq![said, ActionModel::Finish(0)]
        }
    }
}

/// What follows on an update.
pub fn after_update(ui: &Messages, update: &UpdateOutcome, windows: bool) -> (r: Vec<Action>)
    ensures
        steps(r@) == steps_after_update(*update, windows, ui.zh()),
{
    if !update.updated {
        let line = ui.update_already_current(
            update.installed_version.as_str(),
            update.executable_path.as_str(),
        );
        let mut actions = only(Action::Say(line));
        push_step(&mut actions, Action::Finish(0));
        return actions;
    }
    let line = ui.update_completed(
        update.previous_version.as_str(),
        update.installed_version.as_str(),
        update.executable_path.as_str(),
    );
    let mut actions = only(Action::Say(line));
    if windows {
        push_step(&mut actions, Action::Say(ui.restart_terminal_hint().to_owned()));
    }
    push_step(&mut actions, Action::Finish(0));
    actions
}

/// What follows on the event; nothing, where the command does not wait for it.
pub open spec fn next_steps(
    command: Command,
    state: State,
    context: RunContext,
    event: RunEvent,
    zh: bool,
) -> Result<Seq<ActionModel>, Seq<char>> {
    let pool = engine::pool_of(state);
    let stored = text::opt_chars(state.repo_sync.pool_repo);
    let env_repo = text::opt_chars(context.env_repo);
    match event {
        RunEvent::Started => first_steps(command, state, context, zh),
        RunEvent::Selected(selection) => Ok(
            if is_selecting(command) {
                steps_after_selection(command, selection_model(selection), zh)
            } else {
                Seq::empty()
            },
        ),
        RunEvent::LoggedIn(record) => Ok(
            if command is Login || command is Add {
                seq![ActionModel::RefreshUsage(record@)]
            } else {
                Seq::empty()
            },
        ),
        RunEvent::RefreshedUsage(record, usage) => Ok(
            if command is Login || command is Add {
                steps_for_added(record@, usage@, zh)
            } else {
                Seq::empty()
            },
        ),
        RunEvent::ImportedKnown(imported) => Ok(
            steps_after_import(command, pool, context, state::models(imported@), zh),
        ),
        RunEvent::ImportedAuth(record) => Ok(
            if command is ImportAuth {
                seq![
                    ActionModel::Save,
                    ActionModel::Say(wording::imported_account(zh, record@.email, record@.id)),
                    ActionModel::Finish(0),
                ]
            } else {
                Seq::empty()
            },
        ),
        RunEvent::Answered(line) => Ok(
            steps_after_answer(command, pool, ui::yes_or_no(line@), zh),
        ),
        RunEvent::Pushed { changed, accounts } => match command {
            Command::Push(args) => match repo_source(text::opt_chars(args.repo), env_repo, stored) {
                Some(repo) => Ok(steps_after_push(repo, changed, accounts, zh)),
                None => Err(wording::repo_sync_missing_repo(zh, POOL_REPO_ENV@)),
            },
            _ => Ok(Seq::empty()),
        },
        RunEvent::Pulled { accounts } => match command {
            Command::Pull(args) => match repo_source(text::opt_chars(args.repo), env_repo, stored) {
                Some(repo) => Ok(steps_after_pull(repo, accounts, zh)),
                None => Err(wording::repo_sync_missing_repo(zh, POOL_REPO_ENV@)),
            },
            _ => Ok(Seq::empty()),
        },
        RunEvent::Updated(update) => Ok(
            if command is Update {
                steps_after_update(update, context.windows, zh)
            } else {
                Seq::empty()
            },
        ),
        RunEvent::Ended(code) => Ok(
            if command is Launch || command is Passthrough {
                seq![ActionModel::Finish(code)]
            } else {
                Seq::empty()
            },
        ),
    }
}

fn after_push(
    ui: &Messages,
    command: &Command,
    state: &State,
    context: &RunContext,
    changed: bool,
    accounts: usize,
) -> (r: Result<Vec<Action>, String>)
    ensures
        outcome(r) == next_steps(
            *command,
            *state,
            *context,
            RunEvent::Pushed { changed, accounts },
            ui.zh(),
        ),
{
    let args = match command {
        Command::Push(args) => args,
        _ => return Ok(no_steps()),
    };
    let found = resolve_repo_for_sync(
        text::as_deref(&args.repo),
        text::as_deref(&context.env_repo),
        state,
        ui,
    );
    match found {
        Ok(pair) => {
            let line = if changed {
                ui.repo_push_completed(pair.0.as_str(), accounts)
            } else {
                ui.repo_push_no_changes(pair.0.as_str())
            };
            let mut actions = only(Action::Say(line));
            push_step(&mut actions, Action::Finish(0));
            assert(steps(actions@) =~= steps_after_push(pair.0@, changed, accounts, ui.zh()));
            Ok(actions)
        },
        Err(error) => Err(error),
    }
}

fn after_pull(
    ui: &Messages,
    command: &Command,
    state: &State,
    context: &RunContext,
    accounts: usize,
) -> (r: Result<Vec<Action>, String>)
    ensures
        outcome(r) == next_steps(
            *command,
            *state,
            *context,
            RunEvent::Pulled { accounts },
            ui.zh(),
        ),
{
    let args = match command {
        Command::Pull(args) => args,
        _ => return Ok(no_steps()),
    };
    let found = resolve_repo_for_sync(
        text::as_deref(&args.repo),
        text::as_deref(&context.env_repo),
        state,
        ui,
    );
    match found {
        Ok(pair) => {
            let mut actions = only(Action::Save);
            push_step(&mut actions, Action::Say(ui.repo_pull_completed(pair.0.as_str(), accounts)));
            push_step(&mut actions, Action::RefreshAll);
            push_step(&mut actions, Action::Save);
            push_step(&mut actions, Action::ShowAccounts);
            push_step(&mut actions, Action::Finish(0));
            assert(steps(actions@) =~= steps_after_pull(pair.0@, accounts, ui.zh()));
            Ok(actions)
        },
        Err(error) => Err(error),
    }
}

/// What the command does next, after the event; nothing, where it does not wait for it.
pub fn run(
    ui: &Messages,
    command: &Command,
    state: &State,
    context: &RunContext,
    event: RunEvent,
) -> (r: Result<Vec<Action>, String>)
    ensures
        outcome(r) == next_steps(*command, *state, *context, event, ui.zh()),
{
    let adding = match command {
        Command::Login(_) => true,
        Command::Add(_) => true,
        _ => false,
    };
    match event {
        RunEvent::Started => begin(ui, command, state, context),
        RunEvent::Selected(selection) => Ok(after_selection(ui, command, selection)),
        RunEvent::LoggedIn(record) => if adding {
            Ok(only(Action::RefreshUsage(record)))
        } else {
            Ok(no_steps())
        },
        RunEvent::RefreshedUsage(record, usage) => if adding {
            Ok(finish_added_account(ui, record, &usage))
        } else {
            Ok(no_steps())
        },
        RunEvent::ImportedKnown(imported) => Ok(
            after_import(ui, command, state, context, &imported),
        ),
        RunEvent::ImportedAuth(record) => match command {
            Command::ImportAuth(_) => {
                let line = ui.imported_account(record.email.as_str(), record.id.as_str());
                let ghost said = line@;
                let mut actions = only(Action::Save);
                push_step(&mut actions, Action::Say(line));
                push_step(&mut actions, Action::Finish(0));
                assert(steps(actions@) =~= seq![
                    ActionModel::Save,
                    ActionModel::Say(said),
                    ActionModel::Finish(0),
                ]);
                Ok(actions)
            },
            _ => Ok(no_steps()),
        },
        RunEvent::Answered(line) => Ok(after_answer(ui, command, state, line.as_str())),
        RunEvent::Pushed { changed, accounts } => after_push(
            ui,
            command,
            state,
            context,
            changed,
            accounts,
        ),
        RunEvent::Pulled { accounts } => after_pull(ui, command, state, context, accounts),
        RunEvent::Updated(update) => match command {
            Command::Update(_) => Ok(after_update(ui, &update, context.windows)),
            _ => Ok(no_steps()),
        },
        RunEvent::Ended(code) => match command {
            Command::Launch(_) => Ok(only(Action::Finish(code))),
            Command::Passthrough(_) => Ok(only(Action::Finish(code))),
            _ => Ok(no_steps()),
        },
    }
}

// ---------------------------------------------------------------------------
// Laws
// ---------------------------------------------------------------------------

/// Whether one of the actions changes which account is live, or starts a session.
pub open spec fn is_effective(action: ActionModel) -> bool {
    ||| action is Switch
    ||| action is Launch
    ||| action is Passthrough
    ||| action matches ActionModel::Select(options) && options.perform_switch
}

/// A dry run neither switches accounts nor starts a session.
pub proof fn law_dry_run_has_no_effect(
    command: Command,
    state: State,
    context: RunContext,
    event: RunEvent,
    zh: bool,
    i: int,
)
    requires
        match command {
            Command::Launch(args) => args.dry_run,
            Command::Auto(args) => args.dry_run,
            _ => false,
        },
        next_steps(command, state, context, event, zh) matches Ok(actions) && 0 <= i
            < actions.len(),
    ensures
        !is_effective(next_steps(command, state, context, event, zh)->Ok_0[i]),
{
}

/// Selecting an account without a session never starts one, and neither does a launch that
/// is told not to.
pub proof fn law_no_session_unless_asked(
    command: Command,
    state: State,
    context: RunContext,
    event: RunEvent,
    zh: bool,
    i: int,
)
    requires
        match command {
            Command::Launch(args) => args.no_launch,
            Command::Auto(_) => true,
            _ => false,
        },
        next_steps(command, state, context, event, zh) matches Ok(actions) && 0 <= i
            < actions.len(),
    ensures
        !(next_steps(command, state, context, event, zh)->Ok_0[i] is Launch),
        !(next_steps(command, state, context, event, zh)->Ok_0[i] is Passthrough),
{
}

/// Whether the user wants an account removed: they said yes, or said so beforehand.
pub open spec fn is_agreed(command: Command, event: RunEvent) -> bool {
    match command {
        Command::Rm(args) => args.assume_yes || (event matches RunEvent::Answered(line)
            && ui::yes_or_no(line@) == Some(true)),
        _ => false,
    }
}

/// The account that the command is to remove.
pub open spec fn account_to_remove(command: Command, state: State) -> Option<AccountModel> {
    match command {
        Command::Rm(args) => pool::matching(
            state::models(state.accounts@),
            text::trimmed(args.email@),
            None,
        ),
        _ => None,
    }
}

/// Whether none of the actions removes an account.
pub open spec fn removes_nothing(actions: Seq<ActionModel>) -> bool {
    forall|i: int| 0 <= i < actions.len() ==> !(#[trigger] actions[i] is Remove)
}

proof fn lemma_repo_steps_remove_nothing(
    args: RepoSyncArgs,
    state: State,
    context: RunContext,
    zh: bool,
)
    ensures
        first_steps(Command::Push(args), state, context, zh) matches Ok(actions)
            ==> removes_nothing(actions),
        first_steps(Command::Pull(args), state, context, zh) matches Ok(actions)
            ==> removes_nothing(actions),
{
}

proof fn lemma_first_steps_remove_nothing(
    command: Command,
    state: State,
    context: RunContext,
    zh: bool,
)
    ensures
        first_steps(command, state, context, zh) matches Ok(actions) ==> removes_nothing(actions),
{
    match command {
        Command::Push(args) => {
            lemma_repo_steps_remove_nothing(args, state, context, zh);
        },
        Command::Pull(args) => {
            lemma_repo_steps_remove_nothing(args, state, context, zh);
        },
        _ => {},
    }
}

proof fn lemma_selection_steps_remove_nothing(
    command: Command,
    selection: Option<(AccountModel, UsageModel)>,
    zh: bool,
)
    ensures
        removes_nothing(steps_after_selection(command, selection, zh)),
{
}

proof fn lemma_import_removes(
    command: Command,
    state: State,
    context: RunContext,
    imported: Seq<AccountModel>,
    zh: bool,
    i: int,
)
    requires
        0 <= i < steps_after_import(command, engine::pool_of(state), context, imported, zh).len(),
        steps_after_import(command, engine::pool_of(state), context, imported, zh)[i] is Remove,
    ensures
        command matches Command::Rm(args) && args.assume_yes,
        account_to_remove(command, state) matches Some(account) && steps_after_import(
            command,
            engine::pool_of(state),
            context,
            imported,
            zh,
        )[i] == ActionModel::Remove(account.id),
{
    assert(removes_nothing(import_lines(imported, zh)));
}

proof fn lemma_answer_removes(
    command: Command,
    state: State,
    answer: Option<bool>,
    zh: bool,
    i: int,
)
    requires
        0 <= i < steps_after_answer(command, engine::pool_of(state), answer, zh).len(),
        steps_after_answer(command, engine::pool_of(state), answer, zh)[i] is Remove,
    ensures
        answer == Some(true),
        account_to_remove(command, state) matches Some(account) && steps_after_answer(
            command,
            engine::pool_of(state),
            answer,
            zh,
        )[i] == ActionModel::Remove(account.id),
{
}

/// An account is removed only by the command that removes one, only the account it names,
/// and only after a yes or where none is asked for.
pub proof fn law_removed_only_when_agreed(
    command: Command,
    state: State,
    context: RunContext,
    event: RunEvent,
    zh: bool,
    i: int,
)
    requires
        next_steps(command, state, context, event, zh) matches Ok(actions) && 0 <= i
            < actions.len(),
        next_steps(command, state, context, event, zh)->Ok_0[i] is Remove,
    ensures
        is_agreed(command, event),
        account_to_remove(command, state) matches Some(account) && next_steps(
            command,
            state,
            context,
            event,
            zh,
        )->Ok_0[i] == ActionModel::Remove(account.id),
{
    match event {
        RunEvent::Started => {
            lemma_first_steps_remove_nothing(command, state, context, zh);
        },
        RunEvent::Selected(selection) => {
            lemma_selection_steps_remove_nothing(command, selection_model(selection), zh);
        },
        RunEvent::ImportedKnown(imported) => {
            lemma_import_removes(command, state, context, state::models(imported@), zh, i);
        },
        RunEvent::Answered(line) => {
            lemma_answer_removes(command, state, ui::yes_or_no(line@), zh, i);
        },
        _ => {},
    }
}

/// An account that is not found is neither switched to nor removed: nothing is done but to
/// say so.
pub proof fn law_unknown_account_changes_nothing(
    command: Command,
    state: State,
    context: RunContext,
    imported: Vec<AccountRecord>,
    zh: bool,
    name: Seq<char>,
)
    requires
        match command {
            Command::Use(args) => args.email@ == name && pool::named(
                state::models(state.accounts@),
                text::trimmed(name),
            ) is None,
            Command::Rm(args) => args.email@ == name && pool::matching(
                state::models(state.accounts@),
                text::trimmed(name),
                None,
            ) is None,
            _ => false,
        },
    ensures
        next_steps(command, state, context, RunEvent::ImportedKnown(imported), zh) == Ok::<
            Seq<ActionModel>,
            Seq<char>,
        >(steps_for_unknown(name, zh)),
{
}

/// An account that was logged in or added is always switched to.
pub proof fn law_added_account_is_switched_to(
    command: Command,
    state: State,
    context: RunContext,
    record: AccountRecord,
    usage: UsageSnapshot,
    zh: bool,
)
    requires
        command is Login || command is Add,
    ensures
        next_steps(command, state, context, RunEvent::RefreshedUsage(record, usage), zh) matches Ok(
            actions,
        ) && actions[1] == ActionModel::Switch(record@),
{
}

/// Whether the command goes on only with what came of the action, or ends with it.
pub open spec fn is_waiting(action: ActionModel) -> bool {
    match action {
        ActionModel::Select(_) => true,
        ActionModel::LogIn(_) => true,
        ActionModel::RefreshUsage(_) => true,
        ActionModel::ImportKnown => true,
        ActionModel::ImportAuth(_) => true,
        ActionModel::Ask(_) => true,
        ActionModel::Push { .. } => true,
        ActionModel::Pull { .. } => true,
        ActionModel::SelfUpdate(_) => true,
        ActionModel::Launch { .. } => true,
        ActionModel::Passthrough(_) => true,
        ActionModel::Finish(_) => true,
        _ => false,
    }
}

/// Whether the last of the actions, and no other, is one that the command waits for or ends
/// with.
pub open spec fn last_waits(actions: Seq<ActionModel>) -> bool {
    forall|i: int|
        0 <= i < actions.len() ==> is_waiting(#[trigger] actions[i]) == (i == actions.len() - 1)
}

proof fn lemma_repo_steps_wait(args: RepoSyncArgs, state: State, context: RunContext, zh: bool)
    ensures
        first_steps(Command::Push(args), state, context, zh) matches Ok(actions) ==> last_waits(
            actions,
        ),
        first_steps(Command::Pull(args), state, context, zh) matches Ok(actions) ==> last_waits(
            actions,
        ),
{
}

proof fn lemma_first_steps_wait(command: Command, state: State, context: RunContext, zh: bool)
    ensures
        first_steps(command, state, context, zh) matches Ok(actions) ==> last_waits(actions),
{
    match command {
        Command::Push(args) => {
            lemma_repo_steps_wait(args, state, context, zh);
        },
        Command::Pull(args) => {
            lemma_repo_steps_wait(args, state, context, zh);
        },
        _ => {},
    }
}

proof fn lemma_selection_steps_wait(
    command: Command,
    selection: Option<(AccountModel, UsageModel)>,
    zh: bool,
)
    ensures
        last_waits(steps_after_selection(command, selection, zh)),
{
}

proof fn lemma_import_steps_wait(
    command: Command,
    pool: engine::PoolModel,
    context: RunContext,
    imported: Seq<AccountModel>,
    zh: bool,
)
    ensures
        last_waits(steps_after_import(command, pool, context, imported, zh)),
{
    let lines = import_lines(imported, zh);
    assert(lines.len() == imported.len());
    assert forall|k: int| 0 <= k < lines.len() implies !is_waiting(#[trigger] lines[k]) by {}
}

proof fn lemma_answer_steps_wait(
    command: Command,
    pool: engine::PoolModel,
    answer: Option<bool>,
    zh: bool,
)
    ensures
        last_waits(steps_after_answer(command, pool, answer, zh)),
{
}

proof fn lemma_repo_reports_wait(repo: Seq<char>, changed: bool, accounts: usize, zh: bool)
    ensures
        last_waits(steps_after_push(repo, changed, accounts, zh)),
        last_waits(steps_after_pull(repo, accounts, zh)),
{
}

proof fn lemma_update_steps_wait(update: UpdateOutcome, windows: bool, zh: bool)
    ensures
        last_waits(steps_after_update(update, windows, zh)),
{
}

proof fn lemma_added_steps_wait(account: AccountModel, usage: UsageModel, zh: bool)
    ensures
        last_waits(steps_for_added(account, usage, zh)),
{
}

/// Every step ends with one action that the command waits for or that ends it, and no
/// other action of the step does either.
pub proof fn law_only_the_last_action_waits(
    command: Command,
    state: State,
    context: RunContext,
    event: RunEvent,
    zh: bool,
)
    ensures
        next_steps(command, state, context, event, zh) matches Ok(actions) ==> last_waits(actions),
{
    let pool = engine::pool_of(state);
    let stored = text::opt_chars(state.repo_sync.pool_repo);
    let env_repo = text::opt_chars(context.env_repo);
    match event {
        RunEvent::Started => {
            lemma_first_steps_wait(command, state, context, zh);
        },
        RunEvent::Selected(selection) => {
            lemma_selection_steps_wait(command, selection_model(selection), zh);
        },
        RunEvent::ImportedKnown(imported) => {
            lemma_import_steps_wait(command, pool, context, state::models(imported@), zh);
        },
        RunEvent::Answered(line) => {
            lemma_answer_steps_wait(command, pool, ui::yes_or_no(line@), zh);
        },
        RunEvent::RefreshedUsage(record, usage) => {
            lemma_added_steps_wait(record@, usage@, zh);
        },
        RunEvent::Pushed { changed, accounts } => {
            if let Command::Push(args) = command {
                let repo = repo_source(text::opt_chars(args.repo), env_repo, stored);
                lemma_repo_reports_wait(repo->0, changed, accounts, zh);
            }
        },
        RunEvent::Pulled { accounts } => {
            if let Command::Pull(args) = command {
                let repo = repo_source(text::opt_chars(args.repo), env_repo, stored);
                lemma_repo_reports_wait(repo->0, false, accounts, zh);
            }
        },
        RunEvent::Updated(update) => {
            lemma_update_steps_wait(update, context.windows, zh);
        },
        _ => {},
    }
}

/// A repository that the command line names is remembered before it is pushed to or pulled
/// from, unless it is remembered already.
pub proof fn law_named_repository_is_remembered(
    args: RepoSyncArgs,
    state: State,
    context: RunContext,
    zh: bool,
    repo: Seq<char>,
)
    requires
        text::non_blank(text::opt_chars(args.repo)) == Some(repo),
        text::opt_chars(state.repo_sync.pool_repo) != Some(repo),
    ensures
        first_steps(Command::Push(args), state, context, zh) matches Ok(actions) && actions[0]
            == ActionModel::Remember(repo) && actions[1] == ActionModel::Save && actions[2] is Push,
        first_steps(Command::Pull(args), state, context, zh) matches Ok(actions) && actions[0]
            == ActionModel::Remember(repo) && actions[1] == ActionModel::Save && actions[2] is Pull,
{
}

// ---------------------------------------------------------------------------
// Laws of single commands
// ---------------------------------------------------------------------------

/// Where a repository is known, the last thing that a push does is to push to it, and the
/// last thing that a pull does is to pull from it: at the path and with the identity file of
/// the command line, no others. Nothing but to remember the repository comes before.
#[verifier::spinoff_prover]
#[verifier::rlimit(40)]
pub proof fn law_sync_goes_where_it_is_told(
    args: RepoSyncArgs,
    state: State,
    context: RunContext,
    zh: bool,
    repo: Seq<char>,
)
    requires
        repo_source(
            text::opt_chars(args.repo),
            text::opt_chars(context.env_repo),
            text::opt_chars(state.repo_sync.pool_repo),
        ) == Some(repo),
    ensures
        next_steps(Command::Push(args), state, context, RunEvent::Started, zh) matches Ok(actions)
            && {
            &&& actions.len() == 1 || actions.len() == 3
            &&& actions.last() matches ActionModel::Push { repo: target, path, identity_file }
            &&& target == repo
            &&& path is Some <==> args.path is Some
            &&& args.path matches Some(p) ==> path == Some(p@)
            &&& identity_file is Some <==> args.identity_file is Some
            &&& args.identity_file matches Some(f) ==> identity_file == Some(f@)
        },
        next_steps(Command::Pull(args), state, context, RunEvent::Started, zh) matches Ok(actions)
            && {
            &&& actions.len() == 1 || actions.len() == 3
            &&& actions.last() matches ActionModel::Pull { repo: target, path, identity_file }
            &&& target == repo
            &&& path is Some <==> args.path is Some
            &&& args.path matches Some(p) ==> path == Some(p@)
            &&& identity_file is Some <==> args.identity_file is Some
            &&& args.identity_file matches Some(f) ==> identity_file == Some(f@)
        },
{
}

/// A repository that is named on the command line, without white space around it, is the
/// one; where none is named there, the one of the environment is, and else the stored one.
pub proof fn law_first_named_repository_is_the_one(
    cli_repo: Seq<char>,
    env_repo: Seq<char>,
    stored: Seq<char>,
    other: Option<Seq<char>>,
    another: Option<Seq<char>>,
)
    requires
        text::trimmed(cli_repo) == cli_repo && cli_repo.len() > 0,
        text::trimmed(env_repo) == env_repo && env_repo.len() > 0,
        text::trimmed(stored) == stored && stored.len() > 0,
    ensures
        repo_source(Some(cli_repo), other, another) == Some(cli_repo),
        repo_source(None, Some(env_repo), another) == Some(env_repo),
        repo_source(None, None, Some(stored)) == Some(stored),
        repo_source(None, None, None) is None,
{
}

/// Where no repository is known, neither a push nor a pull does anything: both end with the
/// same error.
pub proof fn law_no_repository_is_an_error(
    args: RepoSyncArgs,
    state: State,
    context: RunContext,
    zh: bool,
)
    requires
        args.repo is None,
        context.env_repo is None,
        state.repo_sync.pool_repo is None,
    ensures
        next_steps(Command::Push(args), state, context, RunEvent::Started, zh) is Err,
        next_steps(Command::Pull(args), state, context, RunEvent::Started, zh) == next_steps(
            Command::Push(args),
            state,
            context,
            RunEvent::Started,
            zh,
        ),
{
}

/// A repository that is not named on the command line, or is the remembered one, is not
/// remembered anew.
pub proof fn law_other_repository_is_not_remembered(
    args: RepoSyncArgs,
    state: State,
    context: RunContext,
    zh: bool,
)
    requires
        args.repo is None || text::non_blank(text::opt_chars(args.repo)) == text::opt_chars(
            state.repo_sync.pool_repo,
        ),
    ensures
        next_steps(Command::Push(args), state, context, RunEvent::Started, zh) matches Ok(actions)
            ==> actions.len() == 1,
        next_steps(Command::Pull(args), state, context, RunEvent::Started, zh) matches Ok(actions)
            ==> actions.len() == 1,
{
}

/// With an account selected, a launch that is neither a dry run nor told not to launch ends
/// with a session: one is resumed exactly where that was not ruled out. It has the arguments
/// of the command line, and behind them, for an API account, those that such an account
/// needs.
#[verifier::spinoff_prover]
#[verifier::rlimit(40)]
pub proof fn law_launch_starts_the_session_asked_for(
    args: LaunchArgs,
    state: State,
    context: RunContext,
    account: AccountRecord,
    usage: UsageSnapshot,
    zh: bool,
)
    requires
        !args.dry_run,
        !args.no_launch,
    ensures
        next_steps(
            Command::Launch(args),
            state,
            context,
            RunEvent::Selected(Some((account, usage))),
            zh,
        ) matches Ok(actions) && {
            let extra = text::views(args.extra_args@);
            &&& actions.len() == 3
            &&& actions[0] is Say
            &&& actions[1] is Save
            &&& actions.last() matches ActionModel::Launch { args: given, resume }
            &&& resume <==> !args.no_resume
            &&& extra.is_prefix_of(given)
            &&& account.account_type == AccountType::Subscription ==> given.len() == extra.len()
            &&& account.account_type == AccountType::Api ==> given.skip(extra.len() as int)
                == seq!["-c"@, "disable_response_storage=true"@, "--disable"@, "apps"@]
        },
{
    let extra = text::views(args.extra_args@);
    let given = session_args(account.account_type, extra);
    assert(extra =~= given.take(extra.len() as int));
    if account.account_type == AccountType::Api {
        assert(given.skip(extra.len() as int) =~= seq![
            "-c"@,
            "disable_response_storage=true"@,
            "--disable"@,
            "apps"@,
        ]);
    }
}

/// With an account selected, a passthrough ends with Codex being run with exactly the
/// arguments of the command line.
pub proof fn law_passthrough_keeps_the_arguments(
    args: Vec<String>,
    state: State,
    context: RunContext,
    account: AccountRecord,
    usage: UsageSnapshot,
    zh: bool,
)
    ensures
        next_steps(
            Command::Passthrough(args),
            state,
            context,
            RunEvent::Selected(Some((account, usage))),
            zh,
        ) matches Ok(actions) && {
            &&& actions.len() == 3
            &&& actions[1] is Save
            &&& actions.last() matches ActionModel::Passthrough(given)
            &&& given.len() == args@.len()
            &&& forall|i: int| 0 <= i < args@.len() ==> #[trigger] given[i] == args@[i]@
        },
{
}

/// With an account selected, a selection without a session stores the state and ends well; a
/// dry run says what would be selected, and any other what is.
pub proof fn law_selection_without_a_session_ends_well(
    command: Command,
    state: State,
    context: RunContext,
    account: AccountRecord,
    usage: UsageSnapshot,
    zh: bool,
    dry_run: bool,
)
    requires
        match command {
            Command::Launch(args) => args.dry_run == dry_run && (dry_run || args.no_launch),
            Command::Auto(args) => args.dry_run == dry_run,
            _ => false,
        },
    ensures
        next_steps(
            command,
            state,
            context,
            RunEvent::Selected(Some((account, usage))),
            zh,
        ) matches Ok(actions) && {
            &&& actions.len() == 3
            &&& actions[0] matches ActionModel::Say(line)
            &&& dry_run ==> wording::selection_would_select(zh).is_prefix_of(line)
            &&& !dry_run ==> wording::selection_switched(zh).is_prefix_of(line)
            &&& actions[1] is Save
            &&& actions[2] == ActionModel::Finish(0)
        },
{
    let would = selection_line(
        wording::selection_would_select(zh),
        account.email@,
        usage@,
        zh,
    );
    let switched = selection_line(wording::selection_switched(zh), account.email@, usage@, zh);
    assert(wording::selection_would_select(zh) =~= would.take(
        wording::selection_would_select(zh).len() as int,
    ));
    assert(wording::selection_switched(zh) =~= switched.take(
        wording::selection_switched(zh).len() as int,
    ));
}

/// Without an account nothing is started: the state is stored, and the program ends with an
/// error code.
pub proof fn law_no_account_is_a_failure(
    command: Command,
    state: State,
    context: RunContext,
    zh: bool,
)
    requires
        command is Launch || command is Auto || command is Passthrough,
    ensures
        next_steps(command, state, context, RunEvent::Selected(None), zh) matches Ok(actions) && {
            &&& actions.len() == 3
            &&& actions[0] is Say
            &&& actions[1] is Save
            &&& actions[2] == ActionModel::Finish(1)
        },
{
}

/// The program ends with the code with which the session ended.
pub proof fn law_code_of_the_session_is_handed_on(
    command: Command,
    state: State,
    context: RunContext,
    code: i32,
    zh: bool,
)
    requires
        command is Launch || command is Passthrough,
    ensures
        next_steps(command, state, context, RunEvent::Ended(code), zh) matches Ok(actions)
            && actions.len() == 1 && actions[0] == ActionModel::Finish(code),
{
}

/// The line on a selection names the account, then what is left of its weekly quota, and
/// then what is left of its five-hour quota.
pub proof fn law_selection_line_tells_the_quotas(
    prefix: Seq<char>,
    email: Seq<char>,
    usage: UsageModel,
    zh: bool,
)
    ensures
        (prefix + " "@ + email + " [weekly="@ + listing::percent_text(
            usage.weekly_remaining_percent,
            zh,
        )).is_prefix_of(selection_line(prefix, email, usage, zh)),
        ("5h="@ + listing::percent_text(usage.five_hour_remaining_percent, zh)
            + "]"@).is_suffix_of(selection_line(prefix, email, usage, zh)),
{
    let line = selection_line(prefix, email, usage, zh);
    let head = prefix + " "@ + email + " [weekly="@ + listing::percent_text(
        usage.weekly_remaining_percent,
        zh,
    );
    let tail = "5h="@ + listing::percent_text(usage.five_hour_remaining_percent, zh) + "]"@;
    assert(head =~= line.take(head.len() as int));
    reveal_strlit(", 5h=");
    reveal_strlit("5h=");
    assert(", 5h="@ =~= seq![',', ' '] + "5h="@);
    assert(line =~= head + seq![',', ' '] + tail);
    assert(tail =~= line.skip(line.len() - tail.len()));
}

/// An account is selected as the command line says: what it rules out is not done, and a dry
/// run switches to nothing. Other uses of Codex rule nothing out.
pub proof fn law_selection_follows_the_command_line(
    launch: LaunchArgs,
    auto: AutoArgs,
    args: Vec<String>,
    state: State,
    context: RunContext,
    zh: bool,
)
    ensures
        next_steps(Command::Launch(launch), state, context, RunEvent::Started, zh) matches Ok(
            actions,
        ) && {
            &&& actions.len() == 1
            &&& actions[0] matches ActionModel::Select(options)
            &&& options.no_import_known == launch.no_import_known
            &&& options.no_login == launch.no_login
            &&& options.perform_switch == !launch.dry_run
        },
        next_steps(Command::Auto(auto), state, context, RunEvent::Started, zh) matches Ok(actions)
            && {
            &&& actions.len() == 1
            &&& actions[0] matches ActionModel::Select(options)
            &&& options.no_import_known == auto.no_import_known
            &&& options.no_login == auto.no_login
            &&& options.perform_switch == !auto.dry_run
        },
        next_steps(Command::Passthrough(args), state, context, RunEvent::Started, zh) matches Ok(
            actions,
        ) && {
            &&& actions.len() == 1
            &&& actions[0] matches ActionModel::Select(options)
            &&& !options.no_import_known && !options.no_login && options.perform_switch
        },
{
}

/// The live credentials are copied to the target and with the identity file of the command
/// line.
pub proof fn law_deploy_goes_where_it_is_told(
    args: DeployArgs,
    state: State,
    context: RunContext,
    zh: bool,
)
    ensures
        next_steps(Command::Deploy(args), state, context, RunEvent::Started, zh) matches Ok(actions)
            && {
            &&& actions.len() == 2
            &&& actions[0] matches ActionModel::Deploy { target, identity_file }
            &&& target == args.target@
            &&& identity_file is Some <==> args.identity_file is Some
            &&& args.identity_file matches Some(f) ==> identity_file == Some(f@)
            &&& actions[1] == ActionModel::Finish(0)
        },
{
}

/// An update is forced exactly where the command line says so.
pub proof fn law_update_is_forced_where_told(
    args: UpdateArgs,
    state: State,
    context: RunContext,
    zh: bool,
)
    ensures
        next_steps(Command::Update(args), state, context, RunEvent::Started, zh) matches Ok(actions)
            && actions.len() == 1 && actions[0] == ActionModel::SelfUpdate(args.force),
{
}

/// The credentials that are imported are those at the path of the command line; the account
/// is stored, and named with its email and its id.
pub proof fn law_import_reads_the_named_file(
    args: ImportAuthArgs,
    state: State,
    context: RunContext,
    record: AccountRecord,
    zh: bool,
)
    ensures
        next_steps(Command::ImportAuth(args), state, context, RunEvent::Started, zh) matches Ok(
            actions,
        ) && actions.len() == 1 && actions[0] == ActionModel::ImportAuth(args.path@),
        next_steps(
            Command::ImportAuth(args),
            state,
            context,
            RunEvent::ImportedAuth(record),
            zh,
        ) matches Ok(actions) && {
            &&& actions.len() == 3
            &&& actions[0] is Save
            &&& actions[1] == ActionModel::Say(
                wording::imported_account(zh, record.email@, record.id@),
            )
            &&& actions[2] == ActionModel::Finish(0)
        },
{
}

/// The usage of every account is refreshed before the list is shown, and stored in between.
pub proof fn law_list_is_fresh(command: Command, state: State, context: RunContext, zh: bool)
    requires
        command is List || command is Refresh,
    ensures
        next_steps(command, state, context, RunEvent::Started, zh) matches Ok(actions) && {
            &&& actions[0] is RefreshAll
            &&& actions[1] is Save
            &&& actions[2] is ShowAccounts
            &&& actions.last() == ActionModel::Finish(0)
            &&& command is List ==> actions.len() == 4
            &&& command is Refresh ==> actions.len() == 5 && actions[3] == ActionModel::Say(
                wording::refreshed_accounts(zh, state.accounts@.len() as usize),
            )
        },
{
}

/// Without the option for an API token or for a browser, an account is logged in with a
/// device code; the account that was logged in is the one that is refreshed.
pub proof fn law_login_uses_a_device_code(
    login: LoginArgs,
    added: AddArgs,
    state: State,
    context: RunContext,
    record: AccountRecord,
    zh: bool,
)
    requires
        !login.api_args.api && !login.oauth,
        !added.api_args.api,
    ensures
        next_steps(Command::Login(login), state, context, RunEvent::Started, zh) matches Ok(actions)
            && actions.len() == 1 && actions[0] == ActionModel::LogIn(LoginModel::Device),
        next_steps(Command::Add(added), state, context, RunEvent::Started, zh) matches Ok(actions)
            && actions.len() == 1 && actions[0] == ActionModel::LogIn(LoginModel::Device),
        next_steps(Command::Login(login), state, context, RunEvent::LoggedIn(record), zh) matches Ok(
            actions,
        ) && actions.len() == 1 && actions[0] == ActionModel::RefreshUsage(record@),
        next_steps(Command::Add(added), state, context, RunEvent::LoggedIn(record), zh) matches Ok(
            actions,
        ) && actions.len() == 1 && actions[0] == ActionModel::RefreshUsage(record@),
{
}

/// With the option for a browser the email and the password of the command line are filled
/// in, the email without the white space around it and the password as it is; where one of
/// them is missing, or an API token is asked for as well, there is no login.
pub proof fn law_given_credentials_are_filled_in(
    args: LoginArgs,
    state: State,
    context: RunContext,
    zh: bool,
)
    requires
        args.oauth,
        !args.api_args.api,
    ensures
        match next_steps(Command::Login(args), state, context, RunEvent::Started, zh) {
            Ok(actions) => {
                &&& actions.len() == 1
                &&& actions[0] matches ActionModel::LogIn(LoginModel::Autofill { email, password })
                &&& args.username matches Some(username)
                &&& args.password matches Some(secret)
                &&& email == text::trimmed(username@) && email.len() > 0
                &&& password == secret@ && password.len() > 0
            },
            Err(_) => args.username is None || args.password is None || text::trimmed(
                args.username->0@,
            ).len() == 0 || args.password->0@.len() == 0,
        },
        autofill_login(
            LoginArgs { api_args: ApiArgs { api: true, ..args.api_args }, ..args },
            zh,
        ) is Err,
{
}

/// With the option for an API token the account has the token, the address and the provider
/// of the command line; where one of them is missing or blank, or the token is too short,
/// there is none.
#[verifier::spinoff_prover]
#[verifier::rlimit(40)]
pub proof fn law_given_token_is_used(
    args: ApiArgs,
    state: State,
    context: RunContext,
    login: LoginArgs,
    added: AddArgs,
    zh: bool,
)
    requires
        args.api,
        login.api_args == args,
        added.api_args == args,
    ensures
        next_steps(Command::Login(login), state, context, RunEvent::Started, zh) == next_steps(
            Command::Add(added),
            state,
            context,
            RunEvent::Started,
            zh,
        ),
        match next_steps(Command::Add(added), state, context, RunEvent::Started, zh) {
            Ok(actions) => {
                &&& actions.len() == 1
                &&& actions[0] matches ActionModel::LogIn(
                    LoginModel::ApiKey { api_token, base_url, provider },
                )
                &&& args.api_token matches Some(token)
                &&& args.base_url matches Some(url)
                &&& args.provider matches Some(name)
                &&& api_token == text::trimmed(token@)
                &&& base_url == text::trimmed(url@) && base_url.len() > 0
                &&& text::same_ignoring_case(provider, text::trimmed(name@)) && provider.len() > 0
                &&& account::token_body(token@).len() >= 8
            },
            Err(_) => args.api_token is None || args.base_url is None || args.provider is None
                || account::token_body(args.api_token->0@).len() < 8 || text::trimmed(
                args.base_url->0@,
            ).len() == 0 || text::trimmed(args.provider->0@).len() == 0,
        },
{
    if api_login(args, zh) is Ok {
        let name = text::trimmed(args.provider->0@);
        assert(text::lowercase(text::lowercase(name)) =~= text::lowercase(name));
    }
}

/// The account that goes by the name of the command line is switched to, said to be, and
/// stored.
pub proof fn law_named_account_is_switched_to(
    args: UseArgs,
    state: State,
    context: RunContext,
    imported: Vec<AccountRecord>,
    account: AccountModel,
    zh: bool,
)
    requires
        pool::named(state::models(state.accounts@), text::trimmed(args.email@)) == Some(account),
    ensures
        next_steps(Command::Use(args), state, context, RunEvent::Started, zh) matches Ok(actions)
            && actions.len() == 1 && actions[0] is ImportKnown,
        next_steps(
            Command::Use(args),
            state,
            context,
            RunEvent::ImportedKnown(imported),
            zh,
        ) matches Ok(actions) && {
            &&& actions.len() == 4
            &&& actions[0] == ActionModel::Switch(account)
            &&& actions[1] == ActionModel::Say(
                selection_line(
                    wording::selection_switched(zh),
                    account.email,
                    state::known_usage(state.usage_cache@, account.id),
                    zh,
                ),
            )
            &&& actions[2] is Save
            &&& actions[3] == ActionModel::Finish(0)
        },
{
}

/// The account that goes by the email of the command line is removed, and the state stored,
/// once the user has agreed: at once where they said so beforehand, and else when they say
/// yes. On a no the account stays, and on anything else they are asked again.
pub proof fn law_agreed_account_is_removed(
    args: RmArgs,
    state: State,
    context: RunContext,
    imported: Vec<AccountRecord>,
    line: String,
    account: AccountModel,
    zh: bool,
)
    requires
        pool::matching(state::models(state.accounts@), text::trimmed(args.email@), None) == Some(
            account,
        ),
    ensures
        next_steps(
            Command::Rm(args),
            state,
            context,
            RunEvent::ImportedKnown(imported),
            zh,
        ) matches Ok(actions) && {
            &&& args.assume_yes ==> actions[0] == ActionModel::Remove(account.id)
                && actions[1] is Save && actions.last() == ActionModel::Finish(0)
            &&& !args.assume_yes && context.interactive ==> actions.len() == 1 && actions[0]
                == ActionModel::Ask(wording::confirm_rm(zh, account.email))
            &&& !args.assume_yes && !context.interactive ==> actions.last() == ActionModel::Finish(1)
        },
        next_steps(Command::Rm(args), state, context, RunEvent::Answered(line), zh) matches Ok(
            actions,
        ) && {
            &&& ui::yes_or_no(line@) == Some(true) ==> actions[0] == ActionModel::Remove(account.id)
                && actions[1] is Save && actions.last() == ActionModel::Finish(0)
            &&& ui::yes_or_no(line@) == Some(false) ==> actions.len() == 2 && actions[1]
                == ActionModel::Finish(0)
            &&& ui::yes_or_no(line@) is None ==> actions.last() == ActionModel::Ask(
                wording::confirm_rm(zh, account.email),
            )
        },
{
}

/// A name by which no account goes is a failure: it is said, and the program ends with an
/// error code.
pub proof fn law_unknown_name_is_a_failure(name: Seq<char>, zh: bool)
    ensures
        steps_for_unknown(name, zh).len() == 3,
        steps_for_unknown(name, zh)[0] == ActionModel::Say(wording::unknown_account(zh, name)),
        steps_for_unknown(name, zh)[1] is Save,
        steps_for_unknown(name, zh)[2] == ActionModel::Finish(1),
{
}

/// Each account that was imported is named, in order, with its email and its id; where none
/// was, that is a failure.
pub proof fn law_each_imported_account_is_named(
    state: State,
    context: RunContext,
    imported: Vec<AccountRecord>,
    zh: bool,
    i: int,
)
    requires
        0 <= i < imported@.len(),
    ensures
        next_steps(
            Command::ImportKnown,
            state,
            context,
            RunEvent::ImportedKnown(imported),
            zh,
        ) matches Ok(actions) && {
            &&& actions.len() == imported@.len() + 2
            &&& actions[0] is Save
            &&& actions[i + 1] == ActionModel::Say(
                wording::imported_account(zh, imported@[i].email@, imported@[i].id@),
            )
            &&& actions.last() == ActionModel::Finish(0)
        },
{
}

/// Where nothing was imported, that is a failure.
pub proof fn law_nothing_imported_is_a_failure(
    state: State,
    context: RunContext,
    imported: Vec<AccountRecord>,
    zh: bool,
)
    requires
        imported@.len() == 0,
    ensures
        next_steps(
            Command::ImportKnown,
            state,
            context,
            RunEvent::ImportedKnown(imported),
            zh,
        ) matches Ok(actions) && actions.last() == ActionModel::Finish(1) && actions[1] is Save,
{
}

/// A push tells the repository, and how many accounts went there or that nothing changed; a
/// pull stores the accounts, tells how many came and from where, and shows them once they
/// are refreshed.
pub proof fn law_sync_reports_what_was_done(
    args: RepoSyncArgs,
    state: State,
    context: RunContext,
    changed: bool,
    accounts: usize,
    repo: Seq<char>,
    zh: bool,
)
    requires
        repo_source(
            text::opt_chars(args.repo),
            text::opt_chars(context.env_repo),
            text::opt_chars(state.repo_sync.pool_repo),
        ) == Some(repo),
    ensures
        next_steps(
            Command::Push(args),
            state,
            context,
            RunEvent::Pushed { changed, accounts },
            zh,
        ) matches Ok(actions) && {
            &&& actions.len() == 2
            &&& changed ==> actions[0] == ActionModel::Say(
                wording::repo_push_completed(zh, repo, accounts),
            )
            &&& !changed ==> actions[0] == ActionModel::Say(
                wording::repo_push_no_changes(zh, repo),
            )
            &&& actions[1] == ActionModel::Finish(0)
        },
        next_steps(Command::Pull(args), state, context, RunEvent::Pulled { accounts }, zh) matches Ok(
            actions,
        ) && {
            &&& actions.len() == 6
            &&& actions[0] is Save
            &&& actions[1] == ActionModel::Say(wording::repo_pull_completed(zh, repo, accounts))
            &&& actions[2] is RefreshAll
            &&& actions[3] is Save
            &&& actions[4] is ShowAccounts
            &&& actions[5] == ActionModel::Finish(0)
        },
{
}

/// An update tells the versions and the place of the program; on Windows, and only where
/// another version was installed, there is a hint besides.
pub proof fn law_update_reports_what_was_done(
    args: UpdateArgs,
    state: State,
    context: RunContext,
    update: UpdateOutcome,
    zh: bool,
)
    ensures
        next_steps(Command::Update(args), state, context, RunEvent::Updated(update), zh) matches Ok(
            actions,
        ) && {
            &&& actions.last() == ActionModel::Finish(0)
            &&& actions.len() == (if update.updated && context.windows {
                3int
            } else {
                2
            })
            &&& !update.updated ==> actions[0] == ActionModel::Say(
                wording::update_already_current(
                    zh,
                    update.installed_version@,
                    update.executable_path@,
                ),
            )
            &&& update.updated ==> actions[0] == ActionModel::Say(
                wording::update_completed(
                    zh,
                    update.previous_version@,
                    update.installed_version@,
                    update.executable_path@,
                ),
            )
        },
{
}

/// An account that was added is named, and so is what is left of its quotas; then the state
/// is stored.
pub proof fn law_added_account_is_named(
    command: Command,
    state: State,
    context: RunContext,
    record: AccountRecord,
    usage: UsageSnapshot,
    zh: bool,
)
    requires
        command is Login || command is Add,
    ensures
        next_steps(command, state, context, RunEvent::RefreshedUsage(record, usage), zh) matches Ok(
            actions,
        ) && {
            &&& actions.len() == 5
            &&& actions[0] == ActionModel::Say(wording::added_account(zh, record.email@))
            &&& actions[2] == ActionModel::Say(
                selection_line(wording::selection_switched(zh), record.email@, usage@, zh),
            )
            &&& actions[3] is Save
            &&& actions[4] == ActionModel::Finish(0)
        },
{
}

/// A repository that is named and remembered is the one that is used the next time, and one that
/// is not named on the command line does not replace the remembered one.
pub proof fn law_remembered_repository_stays(
    stored: Option<Seq<char>>,
    repo: Seq<char>,
)
    requires
        text::trimmed(repo) == repo && repo.len() > 0,
    ensures
        repo_source(None, None, remembered_repo(stored, repo, true)) == Some(repo),
        remembered_repo(stored, repo, false) == stored,
{
}

/// Without a command and options everything is done: known credentials are imported, an account
/// is logged in where none can be used and switched to, and the last session is resumed with no
/// arguments of the user.
pub proof fn law_plain_launch_does_everything(
    command: Command,
    state: State,
    context: RunContext,
    account: AccountRecord,
    usage: UsageSnapshot,
    zh: bool,
)
    requires
        is_plain_launch(command),
        account.account_type == AccountType::Subscription,
    ensures
        next_steps(command, state, context, RunEvent::Started, zh) matches Ok(actions) && {
            &&& actions.len() == 1
            &&& actions[0] matches ActionModel::Select(options)
            &&& !options.no_import_known && !options.no_login && options.perform_switch
        },
        next_steps(
            command,
            state,
            context,
            RunEvent::Selected(Some((account, usage))),
            zh,
        ) matches Ok(actions) && {
            &&& actions.last() matches ActionModel::Launch { args, resume }
            &&& args.len() == 0
            &&& resume
        },
{
}

} // verus!
