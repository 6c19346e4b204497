//! Where the state is kept, and what is repaired when it is read.

use vstd::prelude::*;

use crate::paths;
use crate::paths::Platform;
use crate::state::{AccountModel, State};
use crate::state;
use crate::text;

verus! {

/// The name of the state directory.
pub const DEFAULT_STATE_BASENAME: &'static str = "scodex";

/// The environment variable that names the state directory.
pub const STATE_DIR_ENV: &'static str = "SCODEX_HOME";

/// A path as the user means it: below the home directory after a tilde, and otherwise
/// below the current directory unless it is absolute.
pub open spec fn expanded(
    platform: Platform,
    path: Seq<char>,
    home: Option<Seq<char>>,
    current: Option<Seq<char>>,
) -> Seq<char> {
    if path == "~"@ && home is Some {
        home->0
    } else if "~/"@.is_prefix_of(path) && home is Some {
        paths::joined(platform, home->0, path.skip(2))
    } else if paths::is_absolute(platform, path) {
        path
    } else {
        paths::joined(
            platform,
            match current {
                Some(dir) => dir,
                None => "."@,
            },
            path,
        )
    }
}

/// A path as the user means it.
pub fn expand_user_path(
    platform: Platform,
    path: &str,
    home: Option<&str>,
    current_dir: Option<&str>,
) -> (r: String)
    ensures
        r@ == expanded(
            platform,
            path@,
            text::opt_str_chars(home),
            text::opt_str_chars(current_dir),
        ),
{
    proof {
        reveal_strlit("~/");
    }
    if let Some(home) = home {
        if text::same_text(path, "~") {
            return home.to_owned();
        }
        if let Some(suffix) = text::strip_prefix(path, "~/") {
            return paths::join_path(platform, home, suffix);
        }
    }
    if paths::is_absolute_path(platform, path) {
        return path.to_owned();
    }
    match current_dir {
        Some(dir) => paths::join_path(platform, dir, path),
        None => paths::join_path(platform, ".", path),
    }
}

/// An absolute path is meant as it stands.
pub proof fn law_absolute_path_is_kept(
    platform: Platform,
    path: Seq<char>,
    home: Option<Seq<char>>,
    current: Option<Seq<char>>,
)
    requires
        paths::is_absolute(platform, path),
    ensures
        expanded(platform, path, home, current) == path,
{
    reveal_strlit("~");
    reveal_strlit("~/");
    if "~/"@.is_prefix_of(path) {
        assert(path.subrange(0, 2)[0] == "~/"@[0]);
    }
}

/// The state directory below the home directory, or else below that for data.
pub open spec fn usual_state_dir(
    platform: Platform,
    home: Option<Seq<char>>,
    data: Seq<char>,
) -> Seq<char> {
    match home {
        Some(home) => paths::joined(platform, home, "."@ + DEFAULT_STATE_BASENAME@),
        None => paths::joined(platform, data, DEFAULT_STATE_BASENAME@),
    }
}

/// The state directory below the home directory, or else below that for data.
pub fn default_state_dir_for_home(
    platform: Platform,
    home: Option<&str>,
    data_local_dir: &str,
) -> (r: String)
    ensures
        r@ == usual_state_dir(platform, text::opt_str_chars(home), data_local_dir@),
{
    match home {
        Some(home) => {
            let hidden = text::concat2(".", DEFAULT_STATE_BASENAME);
            paths::join_path(platform, home, hidden.as_str())
        },
        None => paths::join_path(platform, data_local_dir, DEFAULT_STATE_BASENAME),
    }
}

/// The state directory that is used unless another is asked for. Without a home directory
/// and one for data there is none.
pub fn default_state_dir(
    platform: Platform,
    home: Option<&str>,
    data_local_dir: Option<&str>,
) -> (r: Result<
    String,
    &'static str,
>)
    ensures
        match r {
            Ok(dir) => (home is Some || data_local_dir is Some) && dir@ == usual_state_dir(
                platform,
                text::opt_str_chars(home),
                match data_local_dir {
                    Some(data) => data@,
                    None => ""@,
                },
            ),
            Err(error) => home is None && data_local_dir is None && error@
                == "unable to resolve base directories for current user"@,
        },
{
    match (home, data_local_dir) {
        (Some(home), Some(data)) => Ok(default_state_dir_for_home(platform, Some(home), data)),
        (Some(home), None) => Ok(default_state_dir_for_home(platform, Some(home), "")),
        (None, Some(data)) => Ok(default_state_dir_for_home(platform, None, data)),
        (None, None) => Err("unable to resolve base directories for current user"),
    }
}

/// Where the state is kept: where the command line says, or else the environment, or else
/// in the usual place, where there is a directory for that.
pub open spec fn state_dir_of(
    platform: Platform,
    named: Option<Seq<char>>,
    env: Option<Seq<char>>,
    home: Option<Seq<char>>,
    data: Option<Seq<char>>,
    current: Option<Seq<char>>,
) -> Option<Seq<char>> {
    if named is Some {
        Some(expanded(platform, named->0, home, current))
    } else if env is Some {
        Some(expanded(platform, env->0, home, current))
    } else if home is Some {
        Some(usual_state_dir(platform, home, Seq::empty()))
    } else if data is Some {
        Some(usual_state_dir(platform, None, data->0))
    } else {
        None
    }
}

/// Where the state is kept: where the command line says, or else the environment, or else
/// in the usual place.
pub fn resolve_state_dir(
    platform: Platform,
    override_dir: Option<&str>,
    env_dir: Option<&str>,
    home: Option<&str>,
    data_local_dir: Option<&str>,
    current_dir: Option<&str>,
) -> (r: Result<String, &'static str>)
    ensures
        match (override_dir, env_dir) {
            (Some(path), _) => r matches Ok(dir) && dir@ == expanded(
                platform,
                path@,
                text::opt_str_chars(home),
                text::opt_str_chars(current_dir),
            ),
            (None, Some(path)) => r matches Ok(dir) && dir@ == expanded(
                platform,
                path@,
                text::opt_str_chars(home),
                text::opt_str_chars(current_dir),
            ),
            (None, None) => match r {
                Ok(dir) => (home is Some || data_local_dir is Some) && dir@ == usual_state_dir(
                    platform,
                    text::opt_str_chars(home),
                    match data_local_dir {
                        Some(data) => data@,
                        None => ""@,
                    },
                ),
                Err(error) => home is None && data_local_dir is None && error@
                    == "unable to resolve base directories for current user"@,
            },
        },
        (match r {
            Ok(dir) => Some(dir@),
            Err(_) => None,
        }) == state_dir_of(
            platform,
            text::opt_str_chars(override_dir),
            text::opt_str_chars(env_dir),
            text::opt_str_chars(home),
            text::opt_str_chars(data_local_dir),
            text::opt_str_chars(current_dir),
        ),
{
    match (override_dir, env_dir) {
        (Some(path), _) => Ok(expand_user_path(platform, path, home, current_dir)),
        (None, Some(path)) => Ok(expand_user_path(platform, path, home, current_dir)),
        (None, None) => default_state_dir(platform, home, data_local_dir),
    }
}

/// The state file in its directory, and the file it is first written to.
pub fn state_file_paths(platform: Platform, state_dir: &str) -> (r: (String, String))
    ensures
        r.0@ == paths::joined(platform, state_dir@, "state.json"@),
        r.1@ == paths::joined(platform, state_dir@, ".state.json.tmp"@),
{
    (
        paths::join_path(platform, state_dir, "state.json"),
        paths::join_path(platform, state_dir, ".state.json.tmp"),
    )
}

/// The error where a file that is needed does not exist.
pub fn ensure_exists(path: &str, found: bool, label: &str) -> (r: Result<(), String>)
    ensures
        match r {
            Ok(_) => found,
            Err(error) => !found && error@ == label@ + " not found: "@ + path@,
        },
{
    if found {
        return Ok(());
    }
    Err(text::concat3(label, " not found: ", path))
}

// ---------------------------------------------------------------------------
// Paths of accounts
// ---------------------------------------------------------------------------

/// Which files of an account exist: those in its directory, and the configuration that is
/// recorded for it.
#[derive(Clone, Copy, Debug, PartialEq, Eq, Structural)]
pub struct PathFacts {
    pub auth_exists: bool,
    pub config_exists: bool,
    pub recorded_config_exists: bool,
}

/// The file of the account in its directory.
pub open spec fn canonical_path(
    platform: Platform,
    state_dir: Seq<char>,
    id: Seq<char>,
    name: Seq<char>,
) -> Seq<char> {
    let accounts = paths::joined(platform, state_dir, "accounts"@);
    paths::joined(platform, paths::joined(platform, accounts, id), name)
}

/// The account with the paths of the files that exist in its directory, and without the
/// path of a configuration that exists nowhere.
pub open spec fn repaired(
    platform: Platform,
    account: AccountModel,
    state_dir: Seq<char>,
    facts: PathFacts,
) -> AccountModel {
    AccountModel {
        auth_path: if facts.auth_exists {
            canonical_path(platform, state_dir, account.id, "auth.json"@)
        } else {
            account.auth_path
        },
        config_path: if facts.config_exists {
            Some(canonical_path(platform, state_dir, account.id, "config.toml"@))
        } else if facts.recorded_config_exists {
            account.config_path
        } else {
            None
        },
        ..account
    }
}

/// The accounts with repaired paths.
pub open spec fn repaired_accounts(
    platform: Platform,
    accounts: Seq<AccountModel>,
    state_dir: Seq<char>,
    facts: Seq<PathFacts>,
) -> Seq<AccountModel> {
    Seq::new(accounts.len(), |i: int| repaired(platform, accounts[i], state_dir, facts[i]))
}

/// Repairs the paths of every account, and tells whether that changed anything.
pub fn normalize_state_account_paths(
    platform: Platform,
    state_dir: &str,
    state: &mut State,
    facts: &Vec<PathFacts>,
) -> (r:
    bool)
    requires
        facts@.len() == old(state).accounts@.len(),
    ensures
        state::models(final(state).accounts@) == repaired_accounts(
            platform,
            state::models(old(state).accounts@),
            state_dir@,
            facts@,
        ),
        r == (state::models(final(state).accounts@) != state::models(old(state).accounts@)),
        final(state).usage_cache@ == old(state).usage_cache@,
        final(state).version == old(state).version,
        final(state).repo_sync == old(state).repo_sync,
{
    let ghost before = state::models(state.accounts@);
    let ghost goal = repaired_accounts(platform, before, state_dir@, facts@);
    let accounts_dir = paths::join_path(platform, state_dir, "accounts");
    let mut changed = false;
    let mut i: usize = 0;
    assert(state::models(state.accounts@) =~= goal.take(0) + before.skip(0));
    assert(goal.take(0) =~= before.take(0));
    while i < state.accounts.len()
        invariant
            i <= state.accounts@.len(),
            state.accounts@.len() == before.len() == facts@.len(),
            accounts_dir@ == paths::joined(platform, state_dir@, "accounts"@),
            goal == repaired_accounts(platform, before, state_dir@, facts@),
            state::models(state.accounts@) == goal.take(i as int) + before.skip(i as int),
            changed == (goal.take(i as int) != before.take(i as int)),
            state.usage_cache@ == old(state).usage_cache@,
            state.version == old(state).version,
            state.repo_sync == old(state).repo_sync,
        decreases state.accounts@.len() - i,
    {
        let fact = facts[i];
        let mut account = state.accounts[i].clone();
        assert(account@ == state::models(state.accounts@)[i as int]);
        assert(account@ == before[i as int]);
        let home = paths::join_path(platform, accounts_dir.as_str(), account.id.as_str());
        if fact.auth_exists {
            let auth = paths::join_path(platform, home.as_str(), "auth.json");
            if !text::same_text(account.auth_path.as_str(), auth.as_str()) {
                account.auth_path = auth;
                changed = true;
            }
        }
        if fact.config_exists {
            let config = paths::join_path(platform, home.as_str(), "config.toml");
            if !text::is_text(text::as_deref(&account.config_path), config.as_str()) {
                account.config_path = Some(config);
                changed = true;
            }
        } else if account.config_path.is_some() && !fact.recorded_config_exists {
            account.config_path = None;
            changed = true;
        }
        let ghost fixed = account@;
        assert(fixed == goal[i as int]);
        let ghost so_far = state::models(state.accounts@);
        state.accounts.set(i, account);
        proof {
            assert(state::models(state.accounts@) =~= so_far.update(i as int, fixed));
            assert(state::models(state.accounts@) =~= goal.take(i + 1) + before.skip(i + 1));
            assert(goal.take(i + 1).drop_last() =~= goal.take(i as int));
            assert(before.take(i + 1).drop_last() =~= before.take(i as int));
            assert(goal.take(i + 1).last() == goal[i as int]);
            assert(before.take(i + 1).last() == before[i as int]);
            assert(goal.take(i + 1) =~= goal.take(i as int).push(goal[i as int]));
            assert(before.take(i + 1) =~= before.take(i as int).push(before[i as int]));
        }
        i += 1;
    }
    assert(goal.take(i as int) =~= goal);
    assert(before.take(i as int) =~= before);
    assert(goal.take(i as int) + before.skip(i as int) =~= goal);
    changed
}

/// Repairing the paths once more changes nothing.
pub proof fn law_repairing_is_idempotent(
    platform: Platform,
    account: AccountModel,
    state_dir: Seq<char>,
    facts: PathFacts,
)
    ensures
        repaired(platform, repaired(platform, account, state_dir, facts), state_dir, facts) == repaired(
            platform,
            account,
            state_dir,
            facts,
        ),
{
}

/// The state by what the state file holds: a fresh one where there is none, and otherwise
/// what it holds, with the paths of the accounts repaired.
pub fn load_state(
    platform: Platform,
    state_dir: &str,
    stored: Option<State>,
    facts: &Vec<PathFacts>,
) -> (r: State)
    requires
        stored matches Some(state) ==> facts@.len() == state.accounts@.len(),
    ensures
        match stored {
            Some(state) => {
                &&& state::models(r.accounts@) == repaired_accounts(
                    platform,
                    state::models(state.accounts@),
                    state_dir@,
                    facts@,
                )
                &&& r.usage_cache@ == state.usage_cache@
                &&& r.version == state.version
                &&& r.repo_sync == state.repo_sync
            },
            None => {
                &&& r.accounts@.len() == 0
                &&& r.usage_cache@ == Map::<Seq<char>, state::UsageSnapshot>::empty()
                &&& r.version == state::STATE_VERSION
                &&& r.repo_sync.pool_repo is None
            },
        },
{
    match stored {
        Some(state) => {
            let mut state = state;
            let _ = normalize_state_account_paths(platform, state_dir, &mut state, facts);
            state
        },
        None => State::default(),
    }
}

// ---------------------------------------------------------------------------
// Programs of earlier versions
// ---------------------------------------------------------------------------

/// A file that may be a program of an earlier version.
#[derive(Debug)]
pub struct OldFile {
    pub found: bool,
    /// What it holds, where that is text.
    pub contents: Option<String>,
}

/// Whether a file is a program of an earlier version: a script of this version names the
/// variable for the state directory.
pub open spec fn is_outdated(contents: Option<Seq<char>>) -> bool {
    !(contents matches Some(script) && text::contains_text(script, STATE_DIR_ENV@))
}

/// Whether a file is a program of an earlier version.
pub fn is_old_binary(contents: Option<&str>) -> (r: bool)
    ensures
        r == is_outdated(text::opt_str_chars(contents)),
{
    match contents {
        Some(contents) => !text::contains(contents, STATE_DIR_ENV),
        None => true,
    }
}

/// The paths below `home` at which earlier versions were installed.
pub fn old_binary_paths(platform: Platform, home: &str) -> (r: (String, String))
    ensures
        r.0@ == paths::joined(
            platform,
            paths::joined(platform, paths::joined(platform, home@, ".local"@), "bin"@),
            "scodex"@,
        ),
        r.1@ == paths::joined(
            platform,
            paths::joined(platform, paths::joined(platform, home@, ".local"@), "bin"@),
            "auto-codex"@,
        ),
{
    let local = paths::join_path(platform, home, ".local");
    let bin = paths::join_path(platform, local.as_str(), "bin");
    (
        paths::join_path(platform, bin.as_str(), "scodex"),
        paths::join_path(platform, bin.as_str(), "auto-codex"),
    )
}

/// Which of the two files are to be deleted: those that exist and are programs of an
/// earlier version.
pub fn migrate_old_binaries(scodex: &OldFile, auto_codex: &OldFile) -> (r: (bool, bool))
    ensures
        r.0 == (scodex.found && is_outdated(text::opt_chars(scodex.contents))),
        r.1 == (auto_codex.found && is_outdated(text::opt_chars(auto_codex.contents))),
{
    (
        scodex.found && is_old_binary(text::as_deref(&scodex.contents)),
        auto_codex.found && is_old_binary(text::as_deref(&auto_codex.contents)),
    )
}

// ---------------------------------------------------------------------------
// Laws of paths
// ---------------------------------------------------------------------------

/// A tilde stands for the home directory, alone or before a path below it; any other path
/// that is not absolute is below the current directory.
pub proof fn law_tilde_is_the_home_directory(
    platform: Platform,
    part: Seq<char>,
    home: Seq<char>,
    current: Seq<char>,
)
    ensures
        expanded(platform, "~"@, Some(home), Some(current)) == home,
        expanded(platform, "~/"@ + part, Some(home), Some(current)) == paths::joined(
            platform,
            home,
            part,
        ),
        !paths::is_absolute(platform, part) && (part.len() == 0 || part[0] != '~') ==> expanded(
            platform,
            part,
            Some(home),
            Some(current),
        ) == paths::joined(platform, current, part),
        !paths::is_absolute(platform, part) && (part.len() == 0 || part[0] != '~') ==> expanded(
            platform,
            part,
            Some(home),
            None,
        ) == paths::joined(platform, "."@, part),
{
    reveal_strlit("~");
    reveal_strlit("~/");
    let path = "~/"@ + part;
    assert("~/"@ =~= path.take(2));
    assert(path.skip(2) =~= part);
    assert(path.len() != "~"@.len());
    if part.len() == 0 || part[0] != '~' {
        if part == "~"@ {
            assert(part[0] == '~');
        }
        if "~/"@.is_prefix_of(part) {
            assert("~/"@[0] == part[0]);
        }
    }
}

/// The state directory is a hidden one below the home directory, where there is one, and
/// below the directory for data it is not hidden.
pub proof fn law_state_directory_is_below_home(
    platform: Platform,
    home: Seq<char>,
    data: Seq<char>,
)
    requires
        platform != Platform::Windows,
        home.len() > 0 && home.last() != '/',
        data.len() > 0 && data.last() != '/',
    ensures
        usual_state_dir(platform, Some(home), data) == home + "/.scodex"@,
        usual_state_dir(platform, None, data) == data + "/scodex"@,
{
    reveal_strlit(".");
    reveal_strlit("scodex");
    reveal_strlit("/scodex");
    reveal_strlit("/.scodex");
    assert(usual_state_dir(platform, Some(home), data) =~= home + "/.scodex"@);
    assert(usual_state_dir(platform, None, data) =~= data + "/scodex"@);
}

/// A file that is in the directory of the account is the one that is used; credentials that
/// are not there are left where they were, and so is a configuration that is still there. A
/// configuration that is nowhere is forgotten. Nothing else changes.
pub proof fn law_files_in_the_directory_are_used(
    platform: Platform,
    account: AccountModel,
    state_dir: Seq<char>,
    facts: PathFacts,
)
    ensures
        ({
            let after = repaired(platform, account, state_dir, facts);
            let home = paths::joined(
                platform,
                paths::joined(platform, state_dir, "accounts"@),
                account.id,
            );
            &&& facts.auth_exists ==> after.auth_path == paths::joined(
                platform,
                home,
                "auth.json"@,
            )
            &&& !facts.auth_exists ==> after.auth_path == account.auth_path
            &&& facts.config_exists ==> after.config_path == Some(
                paths::joined(platform, home, "config.toml"@),
            )
            &&& !facts.config_exists && facts.recorded_config_exists ==> after.config_path
                == account.config_path
            &&& !facts.config_exists && !facts.recorded_config_exists ==> after.config_path is None
            &&& after == AccountModel {
                auth_path: after.auth_path,
                config_path: after.config_path,
                ..account
            }
        }),
{
}

/// A script that names the variable for the state directory is not outdated; any other file
/// is, and so is one that cannot be read as text.
pub proof fn law_current_script_is_kept(before: Seq<char>, after: Seq<char>)
    ensures
        !is_outdated(Some(before + STATE_DIR_ENV@ + after)),
        is_outdated(None),
{
    text::law_text_contains_its_parts(before, STATE_DIR_ENV@, after);
}

/// The directory of the command line comes before that of the environment, and both before the
/// usual one; an absolute one is taken as it is. Without any directory there is no state.
pub proof fn law_named_state_directory_is_used(
    platform: Platform,
    named: Seq<char>,
    env: Option<Seq<char>>,
    home: Seq<char>,
    data: Option<Seq<char>>,
    current: Option<Seq<char>>,
)
    requires
        paths::is_absolute(platform, named),
    ensures
        state_dir_of(platform, Some(named), env, Some(home), data, current) == Some(named),
        state_dir_of(platform, None, Some(named), Some(home), data, current) == Some(named),
        state_dir_of(platform, None, None, Some(home), data, current) == Some(
            paths::joined(platform, home, "."@ + DEFAULT_STATE_BASENAME@),
        ),
        state_dir_of(platform, None, None, None, Some(home), current) == Some(
            paths::joined(platform, home, DEFAULT_STATE_BASENAME@),
        ),
        state_dir_of(platform, None, None, None, None, current) is None,
{
    law_absolute_path_is_kept(platform, named, Some(home), current);
}

} // verus!
