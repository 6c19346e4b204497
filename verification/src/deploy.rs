//! Copying the live credentials to another machine.

use vstd::prelude::*;

use crate::adapter::CodexAdapter;
use crate::outside;
use crate::paths;
use crate::paths::Platform;
use crate::session;
use crate::text;
use crate::text::CharClass;
use crate::ui::Messages;
use crate::wording;

verus! {

/// Where the credentials are copied to.
#[derive(Debug)]
pub struct RemoteDeployTarget {
    pub host: String,
    pub remote_dir: String,
    pub remote_file: String,
}

// ---------------------------------------------------------------------------
// Quoting for the shell
// ---------------------------------------------------------------------------

/// The text in single quotes; a single quote in it is put in double quotes of its own.
pub open spec fn quoted(value: Seq<char>) -> Seq<char> {
    "'"@ + text::replaced(value, '\'', "'\"'\"'"@) + "'"@
}

/// The text as one word for the shell.
pub fn shell_single_quote(value: &str) -> (r: String)
    ensures
        r@ == quoted(value@),
{
    let inner = text::replace_char(value, '\'', "'\"'\"'");
    text::concat3("'", inner.as_str(), "'")
}

/// What the shell is in while it reads a word.
#[derive(Clone, Copy, Debug, PartialEq, Eq, Structural)]
pub enum Quoting {
    Plain,
    Single,
    Double,
}

/// What the shell is in after a character.
pub open spec fn quoting_after(mode: Quoting, c: char) -> Quoting {
    match mode {
        Quoting::Plain => if c == '\'' {
            Quoting::Single
        } else if c == '"' {
            Quoting::Double
        } else {
            Quoting::Plain
        },
        Quoting::Single => if c == '\'' {
            Quoting::Plain
        } else {
            Quoting::Single
        },
        Quoting::Double => if c == '"' {
            Quoting::Plain
        } else {
            Quoting::Double
        },
    }
}

/// What a character adds to the word: a quotation mark that opens or closes nothing.
pub open spec fn read_char(mode: Quoting, c: char) -> Seq<char> {
    if quoting_after(mode, c) != mode {
        Seq::empty()
    } else {
        seq![c]
    }
}

/// What the shell is in after the characters.
pub open spec fn mode_after(mode: Quoting, s: Seq<char>) -> Quoting
    decreases s.len(),
{
    if s.len() == 0 {
        mode
    } else {
        quoting_after(mode_after(mode, s.drop_last()), s.last())
    }
}

/// The word that the shell reads off the characters.
pub open spec fn word_read(mode: Quoting, s: Seq<char>) -> Seq<char>
    decreases s.len(),
{
    if s.len() == 0 {
        Seq::empty()
    } else {
        word_read(mode, s.drop_last()) + read_char(mode_after(mode, s.drop_last()), s.last())
    }
}

proof fn lemma_read_concat(mode: Quoting, a: Seq<char>, b: Seq<char>)
    ensures
        mode_after(mode, a + b) == mode_after(mode_after(mode, a), b),
        word_read(mode, a + b) == word_read(mode, a) + word_read(mode_after(mode, a), b),
    decreases b.len(),
{
    if b.len() == 0 {
        assert(a + b =~= a);
        assert(word_read(mode, a) + word_read(mode_after(mode, a), b) =~= word_read(mode, a));
    } else {
        lemma_read_concat(mode, a, b.drop_last());
        assert((a + b).drop_last() =~= a + b.drop_last());
        assert(word_read(mode, a + b) =~= word_read(mode, a) + word_read(
            mode_after(mode, a),
            b,
        ));
    }
}

proof fn lemma_escaped_quote()
    ensures
        mode_after(Quoting::Single, "'\"'\"'"@) == Quoting::Single,
        word_read(Quoting::Single, "'\"'\"'"@) == seq!['\''],
{
    reveal_with_fuel(mode_after, 2);
    reveal_with_fuel(word_read, 2);
    reveal_strlit("'\"'\"'");
    let s = "'\"'\"'"@;
    assert(s.len() == 5);
    assert(s =~= seq!['\'', '"', '\'', '"', '\'']);
    let s1 = seq!['\''];
    let s2 = seq!['\'', '"'];
    let s3 = seq!['\'', '"', '\''];
    let s4 = seq!['\'', '"', '\'', '"'];
    assert(s.drop_last() =~= s4);
    assert(s4.drop_last() =~= s3);
    assert(s3.drop_last() =~= s2);
    assert(s2.drop_last() =~= s1);
    assert(s1.drop_last() =~= Seq::<char>::empty());
    assert(mode_after(Quoting::Single, s1) == Quoting::Plain);
    assert(mode_after(Quoting::Single, s2) == Quoting::Double);
    assert(mode_after(Quoting::Single, s3) == Quoting::Double);
    assert(mode_after(Quoting::Single, s4) == Quoting::Plain);
    assert(word_read(Quoting::Single, s1) =~= Seq::empty());
    assert(word_read(Quoting::Single, s2) =~= Seq::empty());
    assert(word_read(Quoting::Single, s3) =~= seq!['\'']);
    assert(word_read(Quoting::Single, s4) =~= seq!['\'']);
    assert(word_read(Quoting::Single, s) =~= seq!['\'']);
}

proof fn lemma_read_replaced(value: Seq<char>)
    ensures
        mode_after(Quoting::Single, text::replaced(value, '\'', "'\"'\"'"@)) == Quoting::Single,
        word_read(Quoting::Single, text::replaced(value, '\'', "'\"'\"'"@)) == value,
    decreases value.len(),
{
    let with = "'\"'\"'"@;
    if value.len() > 0 {
        let head = value.drop_last();
        lemma_read_replaced(head);
        let before = text::replaced(head, '\'', with);
        if value.last() == '\'' {
            lemma_escaped_quote();
            lemma_read_concat(Quoting::Single, before, with);
            assert(head + seq!['\''] =~= value);
        } else {
            assert(before.push(value.last()).drop_last() =~= before);
            assert(head + seq![value.last()] =~= value);
        }
    }
}

/// The shell reads a quoted text as one word, which is the text itself, whatever
/// characters it holds.
pub proof fn law_shell_reads_what_was_quoted(value: Seq<char>)
    ensures
        word_read(Quoting::Plain, quoted(value)) == value,
        mode_after(Quoting::Plain, quoted(value)) == Quoting::Plain,
{
    reveal_with_fuel(mode_after, 2);
    reveal_with_fuel(word_read, 2);
    reveal_strlit("'");
    let open = "'"@;
    let inner = text::replaced(value, '\'', "'\"'\"'"@);
    lemma_read_replaced(value);
    assert(open =~= seq!['\'']);
    assert(open.drop_last() =~= Seq::<char>::empty());
    assert(mode_after(Quoting::Plain, open) == Quoting::Single);
    assert(word_read(Quoting::Plain, open) =~= Seq::empty());
    assert(mode_after(Quoting::Single, open) == Quoting::Plain);
    assert(word_read(Quoting::Single, open) =~= Seq::empty());
    lemma_read_concat(Quoting::Plain, open, inner);
    lemma_read_concat(Quoting::Plain, open + inner, open);
    assert(word_read(Quoting::Plain, quoted(value)) =~= value);
}

// ---------------------------------------------------------------------------
// The target
// ---------------------------------------------------------------------------

/// The file that a path stands for: itself where it is an `auth.json`, or else one below
/// it; the path of the root consists of slashes only.
pub open spec fn remote_file(path: Seq<char>) -> Seq<char> {
    let trimmed = text::trimmed(path);
    let base = text::trim_end_of(trimmed, CharClass::Only('/'));
    if "/auth.json"@.is_suffix_of(trimmed) || trimmed == "auth.json"@ {
        trimmed
    } else if trimmed.len() == 0 {
        "auth.json"@
    } else {
        base + "/auth.json"@
    }
}

/// The file that a path stands for.
pub fn normalize_remote_auth_file(path: &str) -> (r: String)
    ensures
        r@ == remote_file(path@),
{
    let trimmed = text::trim(path);
    if text::ends_with(trimmed, "/auth.json") || text::same_text(trimmed, "auth.json") {
        return trimmed.to_owned();
    }
    let base = text::trim_end_char(trimmed, '/');
    if trimmed.is_empty() {
        "auth.json".to_owned()
    } else {
        text::concat2(base, "/auth.json")
    }
}

/// The directory of a file.
pub open spec fn parent_of(path: Seq<char>) -> Seq<char> {
    match text::before_last(text::trimmed(path), '/') {
        Some(parent) => if parent.len() == 0 {
            "/"@
        } else {
            parent
        },
        None => "."@,
    }
}

/// The directory of a file.
pub fn remote_parent_dir(path: &str) -> (r: String)
    ensures
        r@ == parent_of(path@),
{
    match text::head_before_last(text::trim(path), '/') {
        Some(parent) => if parent.is_empty() {
            "/".to_owned()
        } else {
            parent.to_owned()
        },
        None => ".".to_owned(),
    }
}

/// The host and the path of a target.
pub open spec fn target_parts(target: Seq<char>) -> Option<(Seq<char>, Seq<char>)> {
    match text::split_at_first(target, ':') {
        Some(pair) => if text::trimmed(pair.0).len() > 0 && text::trimmed(pair.1).len() > 0 {
            Some((text::trimmed(pair.0), text::trimmed(pair.1)))
        } else {
            None
        },
        None => None,
    }
}

/// Where the credentials are copied to, by a target of the form `user@host:/path`.
pub fn parse_remote_deploy_target(ui: &Messages, target: &str) -> (r: Result<
    RemoteDeployTarget,
    String,
>)
    ensures
        match target_parts(target@) {
            Some(parts) => r matches Ok(remote) && remote.host@ == parts.0 && remote.remote_file@
                == remote_file(parts.1) && remote.remote_dir@ == parent_of(remote_file(parts.1)),
            None => r matches Err(error) && error@ == wording::deploy_invalid_target(ui.zh(), target@),
        },
{
    let (host, raw_path) = match text::split_once(target, ':') {
        Some(pair) => pair,
        None => return Err(ui.deploy_invalid_target(target)),
    };
    let host = text::trim(host);
    let raw_path = text::trim(raw_path);
    if host.is_empty() || raw_path.is_empty() {
        return Err(ui.deploy_invalid_target(target));
    }
    let remote_file = normalize_remote_auth_file(raw_path);
    let remote_dir = remote_parent_dir(remote_file.as_str());
    Ok(RemoteDeployTarget { host: host.to_owned(), remote_dir, remote_file })
}

/// Credentials are only ever copied to a file with the name `auth.json`.
pub proof fn law_remote_file_is_auth_json(path: Seq<char>)
    ensures
        "auth.json"@.is_suffix_of(remote_file(path)),
        remote_file(path) == "auth.json"@ || "/auth.json"@.is_suffix_of(remote_file(path)),
{
    reveal_strlit("/auth.json");
    reveal_strlit("auth.json");
    let file = remote_file(path);
    let name = "auth.json"@;
    let below = "/auth.json"@;
    assert(below.skip(1) =~= name);
    if below.is_suffix_of(file) {
        let n = file.len() as int;
        assert(file.subrange(n - 10, n) =~= below);
        assert(file.subrange(n - 9, n) =~= file.subrange(n - 10, n).skip(1));
        assert(name =~= file.subrange(n - 9, n));
    } else if file == name {
        assert(file.subrange(0, 9) =~= name);
    } else {
        let base = text::trim_end_of(text::trimmed(path), CharClass::Only('/'));
        assert(file == base + below);
        let n = file.len() as int;
        assert(file.subrange(n - 10, n) =~= below);
    }
}

/// A path that is an `auth.json` already is taken as it is.
pub proof fn law_exact_file_is_kept(path: Seq<char>)
    requires
        "/auth.json"@.is_suffix_of(text::trimmed(path)) || text::trimmed(path) == "auth.json"@,
    ensures
        remote_file(path) == text::trimmed(path),
{
}

impl RemoteDeployTarget {
    /// The target as it is shown.
    pub fn display_target(&self) -> (r: String)
        ensures
            r@ == self.host@ + ":"@ + self.remote_file@,
    {
        text::concat3(self.host.as_str(), ":", self.remote_file.as_str())
    }

    /// The target for `scp`.
    pub fn scp_destination(&self) -> (r: String)
        ensures
            r@ == self.host@ + ":"@ + quoted(self.remote_file@),
    {
        let file = shell_single_quote(self.remote_file.as_str());
        text::concat3(self.host.as_str(), ":", file.as_str())
    }

    /// The command that prepares the directory on the other machine.
    pub fn prepare_command(&self) -> (r: String)
        ensures
            r@ == "mkdir -p "@ + quoted(self.remote_dir@),
    {
        let dir = shell_single_quote(self.remote_dir.as_str());
        text::concat2("mkdir -p ", dir.as_str())
    }
}

// ---------------------------------------------------------------------------
// The connection
// ---------------------------------------------------------------------------

/// A connection that several commands share, unless its control path is empty.
#[derive(Debug)]
pub struct SshMasterConnection {
    pub host: String,
    pub control_path: String,
}

/// The arguments by which a command uses the connection.
pub open spec fn control_args(control_path: Seq<char>) -> Seq<Seq<char>> {
    if control_path.len() == 0 {
        Seq::empty()
    } else {
        seq![
            "-o"@,
            "ControlMaster=auto"@,
            "-o"@,
            "ControlPath="@ + control_path,
            "-o"@,
            "ControlPersist=60"@,
        ]
    }
}

/// The arguments that name an identity file.
pub open spec fn identity_args(identity_file: Option<Seq<char>>) -> Seq<Seq<char>> {
    match identity_file {
        Some(path) => seq!["-i"@, path],
        None => Seq::empty(),
    }
}

/// The arguments that name an identity file.
pub fn identity_arg(identity_file: Option<&str>) -> (r: Vec<String>)
    ensures
        text::views(r@) == identity_args(text::opt_str_chars(identity_file)),
{
    let mut args: Vec<String> = Vec::new();
    if let Some(path) = identity_file {
        args.push("-i".to_owned());
        args.push(path.to_owned());
    }
    assert(text::views(args@) =~= identity_args(text::opt_str_chars(identity_file)));
    args
}

impl SshMasterConnection {
    /// The same host without a shared connection.
    pub fn without_control(&self) -> (r: SshMasterConnection)
        ensures
            r.host@ == self.host@,
            r.control_path@.len() == 0,
    {
        SshMasterConnection { host: self.host.clone(), control_path: String::new() }
    }

    /// The arguments by which a command uses the connection.
    pub fn base_args(&self) -> (r: Vec<String>)
        ensures
            text::views(r@) == control_args(self.control_path@),
    {
        let mut args: Vec<String> = Vec::new();
        if !self.control_path.as_str().is_empty() {
            args.push("-o".to_owned());
            args.push("ControlMaster=auto".to_owned());
            args.push("-o".to_owned());
            args.push(text::concat2("ControlPath=", self.control_path.as_str()));
            args.push("-o".to_owned());
            args.push("ControlPersist=60".to_owned());
        }
        assert(text::views(args@) =~= control_args(self.control_path@));
        args
    }

    fn connection_args(&self, identity_file: Option<&str>) -> (r: Vec<String>)
        ensures
            text::views(r@) == control_args(self.control_path@) + identity_args(
                text::opt_str_chars(identity_file),
            ),
    {
        let mut args = self.base_args();
        text::extend_texts(&mut args, identity_arg(identity_file));
        args
    }

    /// The arguments of `ssh` that open the connection.
    pub fn open_args(&self, identity_file: Option<&str>) -> (r: Vec<String>)
        ensures
            text::views(r@) == control_args(self.control_path@) + identity_args(
                text::opt_str_chars(identity_file),
            ) + seq!["-Nf"@, self.host@],
    {
        let mut args = self.connection_args(identity_file);
        let ghost before = text::views(args@);
        args.push("-Nf".to_owned());
        args.push(self.host.clone());
        assert(text::views(args@) =~= before + seq!["-Nf"@, self.host@]);
        args
    }

    /// The arguments of `ssh` that prepare the directory on the other machine.
    pub fn prepare_args(&self, identity_file: Option<&str>, remote: &RemoteDeployTarget) -> (r: Vec<
        String,
    >)
        ensures
            text::views(r@) == control_args(self.control_path@) + identity_args(
                text::opt_str_chars(identity_file),
            ) + seq![remote.host@, "mkdir -p "@ + quoted(remote.remote_dir@)],
    {
        let mut args = self.connection_args(identity_file);
        let ghost before = text::views(args@);
        args.push(remote.host.clone());
        args.push(remote.prepare_command());
        assert(text::views(args@) =~= before + seq![
            remote.host@,
            "mkdir -p "@ + quoted(remote.remote_dir@),
        ]);
        args
    }

    /// The arguments of `scp` that copy the credentials.
    pub fn copy_args(&self, identity_file: Option<&str>, source: &str, remote: &RemoteDeployTarget) -> (r:
        Vec<String>)
        ensures
            text::views(r@) == control_args(self.control_path@) + identity_args(
                text::opt_str_chars(identity_file),
            ) + seq![source@, remote.host@ + ":"@ + quoted(remote.remote_file@)],
    {
        let mut args = self.connection_args(identity_file);
        let ghost before = text::views(args@);
        args.push(source.to_owned());
        args.push(remote.scp_destination());
        assert(text::views(args@) =~= before + seq![
            source@,
            remote.host@ + ":"@ + quoted(remote.remote_file@),
        ]);
        args
    }

    /// The arguments of `ssh` that close the connection, where it was opened: its control
    /// path exists.
    pub fn close(&self, identity_file: Option<&str>, control_exists: bool) -> (r: Option<Vec<String>>)
        ensures
            match r {
                Some(args) => self.control_path@.len() > 0 && control_exists && text::views(args@)
                    == control_args(self.control_path@) + identity_args(
                    text::opt_str_chars(identity_file),
                ) + seq!["-O"@, "exit"@, self.host@],
                None => self.control_path@.len() == 0 || !control_exists,
            },
    {
        if self.control_path.as_str().is_empty() || !control_exists {
            return None;
        }
        let mut args = self.connection_args(identity_file);
        let ghost before = text::views(args@);
        args.push("-O".to_owned());
        args.push("exit".to_owned());
        args.push(self.host.clone());
        assert(text::views(args@) =~= before + seq!["-O"@, "exit"@, self.host@]);
        Some(args)
    }
}

// ---------------------------------------------------------------------------
// The steps
// ---------------------------------------------------------------------------

/// What is known before credentials are copied.
#[derive(Debug)]
pub struct DeployFacts {
    /// The live credentials.
    pub source: String,
    pub source_exists: bool,
    pub has_ssh: bool,
    pub has_scp: bool,
    pub identity_file: Option<String>,
    pub identity_exists: bool,
}

/// Why credentials cannot be copied.
#[derive(Debug)]
pub enum DeployError {
    MissingAuth(String),
    MissingSsh,
    MissingScp,
    InvalidTarget(String),
    IdentityNotFound(String),
}

impl DeployError {
    /// The error in words.
    pub fn message(&self, ui: &Messages) -> (r: String)
        ensures
            r@ == deploy_error_text(*self, ui.zh()),
    {
        match self {
            DeployError::MissingAuth(path) => ui.deploy_missing_auth(path.as_str()),
            DeployError::MissingSsh => ui.deploy_missing_ssh().to_owned(),
            DeployError::MissingScp => ui.deploy_missing_scp().to_owned(),
            DeployError::InvalidTarget(target) => ui.deploy_invalid_target(target.as_str()),
            DeployError::IdentityNotFound(path) => ui.deploy_identity_not_found(path.as_str()),
        }
    }
}

/// The error in words.
pub open spec fn deploy_error_text(error: DeployError, zh: bool) -> Seq<char> {
    match error {
        DeployError::MissingAuth(path) => wording::deploy_missing_auth(zh, path@),
        DeployError::MissingSsh => wording::deploy_missing_ssh(zh),
        DeployError::MissingScp => wording::deploy_missing_scp(zh),
        DeployError::InvalidTarget(target) => wording::deploy_invalid_target(zh, target@),
        DeployError::IdentityNotFound(path) => wording::deploy_identity_not_found(zh, path@),
    }
}

impl CodexAdapter {
    /// Where the live credentials are copied to, or the first reason why they cannot be:
    /// they do not exist, a program is missing, the target is none, or the identity file
    /// does not exist.
    pub fn deploy_live_auth(&self, ui: &Messages, target: &str, facts: &DeployFacts) -> (r: Result<
        RemoteDeployTarget,
        DeployError,
    >)
        ensures
            if !facts.source_exists {
                r matches Err(DeployError::MissingAuth(path)) && path@ == facts.source@
            } else if !facts.has_ssh {
                r matches Err(error) && error == DeployError::MissingSsh
            } else if !facts.has_scp {
                r matches Err(error) && error == DeployError::MissingScp
            } else if target_parts(target@) is None {
                r matches Err(DeployError::InvalidTarget(shown)) && shown@ == target@
            } else if facts.identity_file is Some && !facts.identity_exists {
                r matches Err(DeployError::IdentityNotFound(path)) && path@
                    == facts.identity_file->0@
            } else {
                let parts = target_parts(target@)->0;
                r matches Ok(remote) && remote.host@ == parts.0 && remote.remote_file@
                    == remote_file(parts.1) && remote.remote_dir@ == parent_of(
                    remote_file(parts.1),
                )
            },
            is_deploy_outcome(target@, *facts, r),
    {
        if !facts.source_exists {
            return Err(DeployError::MissingAuth(facts.source.clone()));
        }
        if !facts.has_ssh {
            return Err(DeployError::MissingSsh);
        }
        if !facts.has_scp {
            return Err(DeployError::MissingScp);
        }
        let remote = match parse_remote_deploy_target(ui, target) {
            Ok(remote) => remote,
            Err(_) => return Err(DeployError::InvalidTarget(target.to_owned())),
        };
        if let Some(path) = &facts.identity_file {
            if !facts.identity_exists {
                return Err(DeployError::IdentityNotFound(path.clone()));
            }
        }
        Ok(remote)
    }
}

/// The connection that the commands use: the shared one where it could be opened.
pub fn with_ssh_master_connection(master: SshMasterConnection, opened: bool) -> (r:
    SshMasterConnection)
    ensures
        r.host@ == master.host@,
        r.control_path@ == (if opened {
            master.control_path@
        } else {
            Seq::empty()
        }),
{
    if opened {
        master
    } else {
        let plain = master.without_control();
        assert(plain.control_path@ =~= Seq::empty());
        plain
    }
}

/// Whether this is a directory for one shared connection: below the directory for temporary
/// files, with a random name.
pub open spec fn is_control_root(platform: Platform, path: Seq<char>, temp_dir: Seq<char>) -> bool {
    exists|id: Seq<char>|
        outside::is_uuid(id) && path == #[trigger] paths::joined(
            platform,
            temp_dir,
            "scodex-ssh-"@ + id,
        )
}

/// The directory for one shared connection, and where in it the connection is controlled.
pub fn control_paths(platform: Platform, temp_dir: &str) -> (r: (String, String))
    ensures
        is_control_root(platform, r.0@, temp_dir@),
        r.1@ == paths::joined(platform, r.0@, "mux"@),
{
    let id = outside::random_id();
    let name = text::concat2("scodex-ssh-", id.as_str());
    let root = paths::join_path(platform, temp_dir, name.as_str());
    let control_path = paths::join_path(platform, root.as_str(), "mux");
    (root, control_path)
}

/// The programs and the files with which credentials are copied.
#[derive(Debug)]
pub struct DeployPlan {
    pub ssh: String,
    pub scp: String,
    pub source: String,
    pub identity_file: Option<String>,
    /// Where the shared connection is controlled.
    pub control_path: String,
    pub remote: RemoteDeployTarget,
}

/// How far the copying of credentials has come: the state says which command runs.
#[derive(Clone, Copy, Debug, PartialEq, Eq, Structural)]
pub enum DeployState {
    /// The shared connection is opened.
    Opening,
    /// The directory on the other machine is prepared.
    Preparing { opened: bool },
    /// The credentials are copied.
    Copying { opened: bool },
    /// The shared connection is closed.
    Closing { failure: Option<DeployFailure> },
    Ended { failure: Option<DeployFailure> },
}

/// Why credentials were not copied.
#[derive(Clone, Copy, Debug, PartialEq, Eq, Structural)]
pub enum DeployFailure {
    PrepareNotRun,
    PrepareFailed(i32),
    CopyNotRun,
    CopyFailed(i32),
}

/// How a command ended.
#[derive(Clone, Copy, Debug, PartialEq, Eq, Structural)]
pub enum CommandEnd {
    /// It could not be executed.
    NotRun,
    Ended { success: bool, code: Option<i32> },
}

/// What is done next to copy credentials.
#[derive(Debug)]
pub enum DeployAction {
    Run { program: String, args: Vec<String> },
    Finish(Option<DeployFailure>),
}

/// What is done next to copy credentials.
pub enum DeployActionModel {
    Run(Seq<char>, Seq<Seq<char>>),
    Finish(Option<DeployFailure>),
}

impl View for DeployAction {
    type V = DeployActionModel;

    open spec fn view(&self) -> DeployActionModel {
        match *self {
            DeployAction::Run { program, args } => DeployActionModel::Run(
                program@,
                text::views(args@),
            ),
            DeployAction::Finish(failure) => DeployActionModel::Finish(failure),
        }
    }
}

impl CommandEnd {
    /// Whether the command did what it was to do.
    pub open spec fn succeeded(self) -> bool {
        self matches CommandEnd::Ended { success: true, .. }
    }

    /// Whether the command did what it was to do.
    pub fn is_success(&self) -> (r: bool)
        ensures
            r == self.succeeded(),
    {
        match self {
            CommandEnd::NotRun => false,
            CommandEnd::Ended { success, .. } => *success,
        }
    }
}

/// The arguments of each command: how it uses the connection, with which identity, and what
/// it is to do.
pub open spec fn deploy_args(plan: DeployPlan, shared: bool, rest: Seq<Seq<char>>) -> Seq<Seq<char>> {
    (if shared {
        control_args(plan.control_path@)
    } else {
        Seq::empty()
    }) + identity_args(text::opt_chars(plan.identity_file)) + rest
}

/// The command that opens the shared connection.
pub open spec fn open_command(plan: DeployPlan) -> DeployActionModel {
    DeployActionModel::Run(
        plan.ssh@,
        deploy_args(plan, true, seq!["-Nf"@, plan.remote.host@]),
    )
}

/// The command that prepares the directory on the other machine.
pub open spec fn prepare_command(plan: DeployPlan, opened: bool) -> DeployActionModel {
    DeployActionModel::Run(
        plan.ssh@,
        deploy_args(
            plan,
            opened,
            seq![plan.remote.host@, "mkdir -p "@ + quoted(plan.remote.remote_dir@)],
        ),
    )
}

/// The command that copies the credentials.
pub open spec fn copy_command(plan: DeployPlan, opened: bool) -> DeployActionModel {
    DeployActionModel::Run(
        plan.scp@,
        deploy_args(
            plan,
            opened,
            seq![plan.source@, plan.remote.host@ + ":"@ + quoted(plan.remote.remote_file@)],
        ),
    )
}

/// The command that closes the shared connection.
pub open spec fn close_command(plan: DeployPlan) -> DeployActionModel {
    DeployActionModel::Run(
        plan.ssh@,
        deploy_args(plan, true, seq!["-O"@, "exit"@, plan.remote.host@]),
    )
}

/// The end of the copying: the shared connection is closed where there is one to close.
pub open spec fn closing(
    plan: DeployPlan,
    failure: Option<DeployFailure>,
    control_exists: bool,
) -> (DeployState, DeployActionModel) {
    if plan.control_path@.len() > 0 && control_exists {
        (DeployState::Closing { failure }, close_command(plan))
    } else {
        (DeployState::Ended { failure }, DeployActionModel::Finish(failure))
    }
}

/// What follows on the end of the command that ran.
pub open spec fn deploy_step(
    plan: DeployPlan,
    state: DeployState,
    end: CommandEnd,
    control_exists: bool,
) -> (DeployState, DeployActionModel) {
    match state {
        DeployState::Opening => {
            let opened = end.succeeded();
            (DeployState::Preparing { opened }, prepare_command(plan, opened))
        },
        DeployState::Preparing { opened } => match end {
            CommandEnd::NotRun => closing(
                plan,
                Some(DeployFailure::PrepareNotRun),
                control_exists,
            ),
            CommandEnd::Ended { success: true, .. } => (
                DeployState::Copying { opened },
                copy_command(plan, opened),
            ),
            CommandEnd::Ended { success: false, code } => closing(
                plan,
                Some(DeployFailure::PrepareFailed(session::code_or(code, 1))),
                control_exists,
            ),
        },
        DeployState::Copying { opened } => match end {
            CommandEnd::NotRun => closing(plan, Some(DeployFailure::CopyNotRun), control_exists),
            CommandEnd::Ended { success: true, .. } => closing(plan, None, control_exists),
            CommandEnd::Ended { success: false, code } => closing(
                plan,
                Some(DeployFailure::CopyFailed(session::code_or(code, 1))),
                control_exists,
            ),
        },
        DeployState::Closing { failure } => (
            DeployState::Ended { failure },
            DeployActionModel::Finish(failure),
        ),
        DeployState::Ended { failure } => (state, DeployActionModel::Finish(failure)),
    }
}

fn or_one(code: Option<i32>) -> (r: i32)
    ensures
        r == session::code_or(code, 1),
{
    match code {
        Some(code) => code,
        None => 1,
    }
}

impl DeployPlan {
    fn connection(&self) -> (r: SshMasterConnection)
        ensures
            r.host@ == self.remote.host@,
            r.control_path@ == self.control_path@,
    {
        SshMasterConnection {
            host: self.remote.host.clone(),
            control_path: self.control_path.clone(),
        }
    }

    /// The first step: the shared connection is opened.
    pub fn begin(&self) -> (r: (DeployState, DeployAction))
        ensures
            r.0 == DeployState::Opening,
            r.1@ == open_command(*self),
    {
        let args = self.connection().open_args(text::as_deref(&self.identity_file));
        (DeployState::Opening, DeployAction::Run { program: self.ssh.clone(), args })
    }

    fn prepare(&self, opened: bool) -> (r: DeployAction)
        ensures
            r@ == prepare_command(*self, opened),
    {
        let connection = with_ssh_master_connection(self.connection(), opened);
        let args = connection.prepare_args(text::as_deref(&self.identity_file), &self.remote);
        DeployAction::Run { program: self.ssh.clone(), args }
    }

    fn copy(&self, opened: bool) -> (r: DeployAction)
        ensures
            r@ == copy_command(*self, opened),
    {
        let connection = with_ssh_master_connection(self.connection(), opened);
        let args = connection.copy_args(
            text::as_deref(&self.identity_file),
            self.source.as_str(),
            &self.remote,
        );
        DeployAction::Run { program: self.scp.clone(), args }
    }

    fn finish(&self, failure: Option<DeployFailure>, control_exists: bool) -> (r: (
        DeployState,
        DeployAction,
    ))
        ensures
            (r.0, r.1@) == closing(*self, failure, control_exists),
    {
        match self.connection().close(text::as_deref(&self.identity_file), control_exists) {
            Some(args) => (
                DeployState::Closing { failure },
                DeployAction::Run { program: self.ssh.clone(), args },
            ),
            None => (DeployState::Ended { failure }, DeployAction::Finish(failure)),
        }
    }

    /// What follows on the end of the command that ran; `control_exists` tells whether the
    /// shared connection is there to be closed.
    pub fn step(&self, state: DeployState, end: CommandEnd, control_exists: bool) -> (r: (
        DeployState,
        DeployAction,
    ))
        ensures
            (r.0, r.1@) == deploy_step(*self, state, end, control_exists),
    {
        match state {
            DeployState::Opening => {
                let opened = end.is_success();
                (DeployState::Preparing { opened }, self.prepare(opened))
            },
            DeployState::Preparing { opened } => match end {
                CommandEnd::NotRun => self.finish(
                    Some(DeployFailure::PrepareNotRun),
                    control_exists,
                ),
                CommandEnd::Ended { success, code } => if success {
                    (DeployState::Copying { opened }, self.copy(opened))
                } else {
                    self.finish(Some(DeployFailure::PrepareFailed(or_one(code))), control_exists)
                },
            },
            DeployState::Copying { .. } => match end {
                CommandEnd::NotRun => self.finish(Some(DeployFailure::CopyNotRun), control_exists),
                CommandEnd::Ended { success, code } => if success {
                    self.finish(None, control_exists)
                } else {
                    self.finish(Some(DeployFailure::CopyFailed(or_one(code))), control_exists)
                },
            },
            DeployState::Closing { failure } => (
                DeployState::Ended { failure },
                DeployAction::Finish(failure),
            ),
            DeployState::Ended { failure } => (state, DeployAction::Finish(failure)),
        }
    }

    /// The failure in words.
    pub fn failure_message(&self, ui: &Messages, failure: DeployFailure) -> (r: String)
        ensures
            r@ == failure_text(*self, failure, ui.zh()),
    {
        match failure {
            DeployFailure::PrepareNotRun => text::concat2("failed to execute ", self.ssh.as_str()),
            DeployFailure::PrepareFailed(status) => ui.deploy_prepare_remote_dir_failed(status),
            DeployFailure::CopyNotRun => text::concat2("failed to execute ", self.scp.as_str()),
            DeployFailure::CopyFailed(status) => ui.deploy_copy_failed(status),
        }
    }
}

/// The failure in words.
pub open spec fn failure_text(plan: DeployPlan, failure: DeployFailure, zh: bool) -> Seq<char> {
    match failure {
        DeployFailure::PrepareNotRun => "failed to execute "@ + plan.ssh@,
        DeployFailure::PrepareFailed(status) => wording::deploy_prepare_remote_dir_failed(
            zh,
            status,
        ),
        DeployFailure::CopyNotRun => "failed to execute "@ + plan.scp@,
        DeployFailure::CopyFailed(status) => wording::deploy_copy_failed(zh, status),
    }
}

/// Whether these are the steps of a copying, up to some point: the states, and between each
/// two of them how the command ended and whether there was a connection to close.
pub open spec fn is_deployment(
    plan: DeployPlan,
    states: Seq<DeployState>,
    ends: Seq<(CommandEnd, bool)>,
) -> bool {
    &&& states.len() == ends.len() + 1
    &&& states[0] == DeployState::Opening
    &&& forall|i: int|
        0 <= i < ends.len() ==> #[trigger] states[i + 1] == deploy_step(
            plan,
            states[i],
            ends[i].0,
            ends[i].1,
        ).0
}

/// The credentials are copied only after the connection was opened, or could not be, and the
/// directory was prepared.
pub proof fn law_copied_only_after_preparing(
    plan: DeployPlan,
    states: Seq<DeployState>,
    ends: Seq<(CommandEnd, bool)>,
    i: int,
)
    requires
        is_deployment(plan, states, ends),
        0 <= i < states.len(),
        states[i] is Copying,
    ensures
        i == 2,
        states[1] is Preparing,
        ends[1].0.succeeded(),
{
    lemma_stage(plan, states, ends, i);
    if i >= 1 {
        assert(states[(i - 1) + 1] == states[i]);
        lemma_stage(plan, states, ends, i - 1);
    }
}

/// Which command runs tells how many ran before it, but for the closing of the connection.
proof fn lemma_stage(
    plan: DeployPlan,
    states: Seq<DeployState>,
    ends: Seq<(CommandEnd, bool)>,
    i: int,
)
    requires
        is_deployment(plan, states, ends),
        0 <= i < states.len(),
    ensures
        states[i] is Opening <==> i == 0,
        states[i] is Preparing <==> i == 1,
        states[i] is Copying ==> i == 2,
        states[i] is Closing ==> i == 2 || i == 3,
        i >= 4 ==> states[i] is Ended,
    decreases i,
{
    if i > 0 {
        lemma_stage(plan, states, ends, i - 1);
        assert(states[(i - 1) + 1] == states[i]);
    }
}

/// However the commands end, the connection is closed where there is one to close: a copying
/// ends with its closing, or there was none when the last command ended.
pub proof fn law_connection_is_closed(
    plan: DeployPlan,
    states: Seq<DeployState>,
    ends: Seq<(CommandEnd, bool)>,
    i: int,
)
    requires
        is_deployment(plan, states, ends),
        0 < i < states.len(),
        states[i] is Ended,
        !(states[i - 1] is Ended),
    ensures
        states[i - 1] is Closing || plan.control_path@.len() == 0 || !ends[i - 1].1,
        states[i - 1] is Closing ==> i >= 2 && deploy_step(
            plan,
            states[i - 2],
            ends[i - 2].0,
            ends[i - 2].1,
        ).1 == close_command(plan),
{
    assert(states[(i - 1) + 1] == states[i]);
    lemma_stage(plan, states, ends, i - 1);
    if states[i - 1] is Closing {
        assert(states[(i - 2) + 1] == states[i - 1]);
    }
}

/// A copying takes at most four commands.
pub proof fn law_deployment_ends(
    plan: DeployPlan,
    states: Seq<DeployState>,
    ends: Seq<(CommandEnd, bool)>,
)
    requires
        is_deployment(plan, states, ends),
        ends.len() >= 4,
    ensures
        states.last() is Ended,
{
    lemma_stage(plan, states, ends, states.len() - 1);
}

/// Credentials that are reported as copied were copied.
pub proof fn law_reported_only_when_copied(
    plan: DeployPlan,
    states: Seq<DeployState>,
    ends: Seq<(CommandEnd, bool)>,
    i: int,
)
    requires
        is_deployment(plan, states, ends),
        0 <= i < states.len(),
        states[i] == (DeployState::Ended { failure: None }) || states[i] == (DeployState::Closing {
            failure: None,
        }),
    ensures
        states.len() > 3,
        states[2] is Copying,
        ends[2].0.succeeded(),
    decreases i,
{
    lemma_stage(plan, states, ends, i);
    if i > 0 {
        lemma_stage(plan, states, ends, i - 1);
        assert(states[(i - 1) + 1] == states[i]);
        if states[i - 1] is Ended || states[i - 1] is Closing {
            law_reported_only_when_copied(plan, states, ends, i - 1);
        }
    }
}

// ---------------------------------------------------------------------------
// Laws of targets and commands
// ---------------------------------------------------------------------------

/// A target is a host and a path with a colon in between; where one of them is missing it is
/// none.
pub proof fn law_target_is_host_and_path(host: Seq<char>, path: Seq<char>)
    requires
        forall|i: int| 0 <= i < host.len() ==> #[trigger] host[i] != ':',
    ensures
        text::trimmed(host).len() > 0 && text::trimmed(path).len() > 0 ==> target_parts(
            host.push(':') + path,
        ) == Some((text::trimmed(host), text::trimmed(path))),
        text::trimmed(host).len() == 0 || text::trimmed(path).len() == 0 ==> target_parts(
            host.push(':') + path,
        ) is None,
        target_parts(host) is None,
{
    text::law_text_is_split(host, ':', path);
}

/// A directory stands for the credentials file in it, with or without a slash at its end.
#[verifier::spinoff_prover]
#[verifier::rlimit(40)]
pub proof fn law_directory_stands_for_its_file(dir: Seq<char>)
    requires
        dir.len() > 0,
        text::trimmed(dir) == dir,
        dir.last() != '/',
        !"/auth.json"@.is_suffix_of(dir),
        dir != "auth.json"@,
    ensures
        remote_file(dir) == dir + "/auth.json"@,
        remote_file(dir.push('/')) == dir + "/auth.json"@,
        parent_of(remote_file(dir)) == dir,
{
    reveal_strlit("/auth.json");
    reveal_strlit("auth.json");
    let slashed = dir.push('/');
    let class = CharClass::WhiteSpace;
    text::lemma_trim_ends(dir, class);
    assert(text::trimmed(slashed) == slashed);
    reveal_with_fuel(text::trim_end_of, 2);
    assert(slashed.drop_last() =~= dir);
    assert(text::trim_end_of(dir, CharClass::Only('/')) == dir);
    assert(text::trim_end_of(slashed, CharClass::Only('/')) == dir);
    assert(slashed != "auth.json"@) by {
        assert(slashed.last() == '/');
        assert("auth.json"@.last() == 'n');
    }
    assert(!"/auth.json"@.is_suffix_of(slashed)) by {
        if "/auth.json"@.is_suffix_of(slashed) {
            assert("/auth.json"@.last() == slashed.last());
        }
    }
    let file = dir + "/auth.json"@;
    assert(file.first() == dir.first());
    assert(file.last() == 'n');
    assert(text::trimmed(file) == file);
    let name = "auth.json"@;
    assert(file =~= dir.push('/') + name);
    text::law_text_is_split(dir, '/', name);
}

/// The directory of a file is what precedes its last slash; a file at the root is in the
/// root, and a file without a slash in the current directory.
pub proof fn law_file_is_in_its_directory(dir: Seq<char>, name: Seq<char>)
    requires
        forall|i: int| 0 <= i < name.len() ==> #[trigger] name[i] != '/',
        text::trimmed(dir.push('/') + name) == dir.push('/') + name,
        text::trimmed(name) == name,
    ensures
        dir.len() > 0 ==> parent_of(dir.push('/') + name) == dir,
        dir.len() == 0 ==> parent_of(dir.push('/') + name) == "/"@,
        parent_of(name) == "."@,
{
    text::law_text_is_split(dir, '/', name);
}

/// Every command is told the identity file, where there is one, and uses the shared
/// connection, where it was opened; a command without either has its own arguments only.
pub proof fn law_identity_goes_with_every_command(
    plan: DeployPlan,
    shared: bool,
    rest: Seq<Seq<char>>,
    file: String,
)
    ensures
        rest.is_suffix_of(deploy_args(plan, shared, rest)),
        plan.identity_file == Some(file) ==> (seq!["-i"@, file@] + rest).is_suffix_of(
            deploy_args(plan, shared, rest),
        ),
        plan.identity_file is None && (!shared || plan.control_path@.len() == 0) ==> deploy_args(
            plan,
            shared,
            rest,
        ) == rest,
        shared && plan.control_path@.len() > 0 ==> deploy_args(plan, shared, rest).take(6) == seq![
            "-o"@,
            "ControlMaster=auto"@,
            "-o"@,
            "ControlPath="@ + plan.control_path@,
            "-o"@,
            "ControlPersist=60"@,
        ],
{
    let args = deploy_args(plan, shared, rest);
    assert(rest =~= args.skip(args.len() - rest.len()));
    if plan.identity_file == Some(file) {
        let tail = seq!["-i"@, file@] + rest;
        assert(tail =~= args.skip(args.len() - tail.len()));
    }
    if plan.identity_file is None && (!shared || plan.control_path@.len() == 0) {
        assert(args =~= rest);
    }
    if shared && plan.control_path@.len() > 0 {
        assert(args.take(6) =~= control_args(plan.control_path@));
    }
}

/// The directory is made on the host of the target, and the credentials are copied to the
/// file of the target; both are quoted for the shell there.
#[verifier::spinoff_prover]
#[verifier::rlimit(40)]
pub proof fn law_credentials_are_copied_to_the_target(plan: DeployPlan, opened: bool)
    ensures
        prepare_command(plan, opened) matches DeployActionModel::Run(program, args) && {
            &&& program == plan.ssh@
            &&& args.len() >= 2
            &&& args[args.len() - 2] == plan.remote.host@
            &&& args.last() == "mkdir -p "@ + quoted(plan.remote.remote_dir@)
        },
        copy_command(plan, opened) matches DeployActionModel::Run(program, args) && {
            &&& program == plan.scp@
            &&& args.len() >= 2
            &&& args[args.len() - 2] == plan.source@
            &&& args.last() == plan.remote.host@ + ":"@ + quoted(plan.remote.remote_file@)
        },
        open_command(plan) matches DeployActionModel::Run(program, args) && program == plan.ssh@
            && args.len() >= 2 && args[args.len() - 2] == "-Nf"@ && args.last()
            == plan.remote.host@,
        close_command(plan) matches DeployActionModel::Run(program, args) && program == plan.ssh@
            && args.len() >= 3 && args[args.len() - 3] == "-O"@ && args[args.len() - 2] == "exit"@
            && args.last() == plan.remote.host@,
{
}

/// The connection is shared by the later commands exactly where it was opened; each command
/// that succeeds leads to the next.
pub proof fn law_steps_follow_each_other(
    plan: DeployPlan,
    end: CommandEnd,
    opened: bool,
    control_exists: bool,
    code: Option<i32>,
)
    ensures
        deploy_step(plan, DeployState::Opening, end, control_exists) == (
            DeployState::Preparing { opened: end.succeeded() },
            prepare_command(plan, end.succeeded()),
        ),
        deploy_step(
            plan,
            DeployState::Preparing { opened },
            CommandEnd::Ended { success: true, code },
            control_exists,
        ) == (DeployState::Copying { opened }, copy_command(plan, opened)),
{
}

/// Where a command fails, that is how the copying ends, with the status of the command; one
/// without a status counts as 1.
pub proof fn law_failures_are_reported(
    plan: DeployPlan,
    opened: bool,
    code: i32,
)
    requires
        plan.control_path@.len() == 0,
    ensures
        deploy_step(
            plan,
            DeployState::Preparing { opened },
            CommandEnd::Ended { success: false, code: Some(code) },
            false,
        ).1 == DeployActionModel::Finish(Some(DeployFailure::PrepareFailed(code))),
        deploy_step(
            plan,
            DeployState::Copying { opened },
            CommandEnd::Ended { success: false, code: Some(code) },
            false,
        ).1 == DeployActionModel::Finish(Some(DeployFailure::CopyFailed(code))),
        deploy_step(
            plan,
            DeployState::Copying { opened },
            CommandEnd::Ended { success: false, code: None },
            false,
        ).1 == DeployActionModel::Finish(Some(DeployFailure::CopyFailed(1))),
        deploy_step(plan, DeployState::Preparing { opened }, CommandEnd::NotRun, false).1
            == DeployActionModel::Finish(Some(DeployFailure::PrepareNotRun)),
        deploy_step(plan, DeployState::Copying { opened }, CommandEnd::NotRun, false).1
            == DeployActionModel::Finish(Some(DeployFailure::CopyNotRun)),
        deploy_step(
            plan,
            DeployState::Copying { opened },
            CommandEnd::Ended { success: true, code: Some(code) },
            false,
        ).1 == DeployActionModel::Finish(None),
{
}

/// What became of the copying does not change while the connection is closed.
pub proof fn law_closing_keeps_the_outcome(
    plan: DeployPlan,
    failure: Option<DeployFailure>,
    end: CommandEnd,
    control_exists: bool,
)
    ensures
        deploy_step(plan, DeployState::Closing { failure }, end, control_exists).1
            == DeployActionModel::Finish(failure),
        closing(plan, failure, true).0 is Closing <==> plan.control_path@.len() > 0,
        closing(plan, failure, false) == (
            DeployState::Ended { failure },
            DeployActionModel::Finish(failure),
        ),
{
}

/// A failure of a command that could not be run names the program; one that failed tells its
/// status. An error before that names the path or the target.
pub proof fn law_failures_name_their_cause(
    plan: DeployPlan,
    status: i32,
    path: String,
    zh: bool,
)
    ensures
        plan.ssh@.is_suffix_of(failure_text(plan, DeployFailure::PrepareNotRun, zh)),
        plan.scp@.is_suffix_of(failure_text(plan, DeployFailure::CopyNotRun, zh)),
        text::contains_text(
            failure_text(plan, DeployFailure::PrepareFailed(status), zh),
            text::signed_decimal(status as int),
        ),
        text::contains_text(
            failure_text(plan, DeployFailure::CopyFailed(status), zh),
            text::signed_decimal(status as int),
        ),
        text::contains_text(deploy_error_text(DeployError::MissingAuth(path), zh), path@),
        text::contains_text(deploy_error_text(DeployError::InvalidTarget(path), zh), path@),
        text::contains_text(deploy_error_text(DeployError::IdentityNotFound(path), zh), path@),
{
    let prepare = failure_text(plan, DeployFailure::PrepareNotRun, zh);
    let copy = failure_text(plan, DeployFailure::CopyNotRun, zh);
    assert(plan.ssh@ =~= prepare.skip(prepare.len() - plan.ssh@.len()));
    assert(plan.scp@ =~= copy.skip(copy.len() - plan.scp@.len()));
    wording::law_messages_tell_the_status(zh, status, path@);
    wording::law_messages_name_their_subject(zh, path@, path@, path@, path@, path@, path@);
}

/// Whether `r` is the target, or the first reason why nothing can be copied there.
pub open spec fn is_deploy_outcome(
    target: Seq<char>,
    facts: DeployFacts,
    r: Result<RemoteDeployTarget, DeployError>,
) -> bool {
    match r {
        Ok(remote) => {
            &&& facts.source_exists && facts.has_ssh && facts.has_scp
            &&& facts.identity_file is None || facts.identity_exists
            &&& target_parts(target) matches Some(parts)
            &&& remote.host@ == parts.0
            &&& remote.remote_file@ == remote_file(parts.1)
            &&& remote.remote_dir@ == parent_of(remote_file(parts.1))
        },
        Err(DeployError::MissingAuth(path)) => !facts.source_exists && path@ == facts.source@,
        Err(DeployError::MissingSsh) => facts.source_exists && !facts.has_ssh,
        Err(DeployError::MissingScp) => facts.source_exists && facts.has_ssh && !facts.has_scp,
        Err(DeployError::InvalidTarget(shown)) => facts.source_exists && facts.has_ssh
            && facts.has_scp && target_parts(target) is None && shown@ == target,
        Err(DeployError::IdentityNotFound(path)) => facts.source_exists && facts.has_ssh
            && facts.has_scp && target_parts(target) is Some && !facts.identity_exists
            && text::opt_chars(facts.identity_file) == Some(path@),
    }
}

/// Credentials are copied where they are there, both programs are, the target is one, and an
/// identity file that is named is there; and the first of these that does not hold is the error.
pub proof fn law_first_obstacle_is_reported(
    host: Seq<char>,
    path: Seq<char>,
    facts: DeployFacts,
    r: Result<RemoteDeployTarget, DeployError>,
)
    requires
        forall|i: int| 0 <= i < host.len() ==> #[trigger] host[i] != ':',
        text::trimmed(host) == host && host.len() > 0,
        text::trimmed(path) == path && path.len() > 0,
        is_deploy_outcome(host.push(':') + path, facts, r),
    ensures
        r is Ok <==> facts.source_exists && facts.has_ssh && facts.has_scp && (
        facts.identity_file is None || facts.identity_exists),
        r matches Ok(remote) ==> remote.host@ == host && remote.remote_file@ == remote_file(path),
        !facts.source_exists ==> (r matches Err(error) && error is MissingAuth),
        facts.source_exists && !facts.has_ssh ==> (r matches Err(error) && error is MissingSsh),
        facts.source_exists && facts.has_ssh && !facts.has_scp ==> (r matches Err(error)
            && error is MissingScp),
{
    law_target_is_host_and_path(host, path);
}

} // verus!
