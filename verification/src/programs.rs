//! Where programs are looked for, and how a missing one is installed.

use vstd::prelude::*;

use crate::adapter::CodexAdapter;
use crate::paths;
use crate::paths::Platform;
use crate::text;
use crate::ui;
use crate::ui::Messages;
use crate::wording;

verus! {

/// The directory of Codex: the one that the environment names, or else one below the home
/// directory, or else one below the current directory.
pub open spec fn codex_directory(
    platform: Platform,
    env: Option<Seq<char>>,
    home: Option<Seq<char>>,
) -> Seq<char> {
    match (env, home) {
        (Some(path), _) => path,
        (None, Some(home)) => paths::joined(platform, home, ".codex"@),
        (None, None) => ".codex"@,
    }
}

/// The directory of Codex: the one that the environment names, or else one below the home
/// directory, or else one below the current directory.
pub fn codex_home(
    platform: Platform,
    codex_home_env: Option<&str>,
    home: Option<&str>,
) -> (r: String)
    ensures
        r@ == (if codex_home_env is Some {
            codex_home_env->0@
        } else if home is Some {
            paths::joined(platform, home->0@, ".codex"@)
        } else {
            ".codex"@
        }),
        r@ == codex_directory(
            platform,
            text::opt_str_chars(codex_home_env),
            text::opt_str_chars(home),
        ),
{
    match (codex_home_env, home) {
        (Some(path), _) => path.to_owned(),
        (None, Some(home)) => paths::join_path(platform, home, ".codex"),
        (None, None) => ".codex".to_owned(),
    }
}

// ---------------------------------------------------------------------------
// Looking for programs
// ---------------------------------------------------------------------------

/// The paths of a program in the directories, in their order.
pub open spec fn in_directories(
    platform: Platform,
    dirs: Seq<Seq<char>>,
    binary: Seq<char>,
) -> Seq<Seq<char>> {
    Seq::new(dirs.len(), |i: int| paths::joined(platform, dirs[i], binary))
}

/// The paths at which a program can be, in the order in which they are tried.
pub fn find_in_path(platform: Platform, dirs: &Vec<String>, binary: &str) -> (r: Vec<String>)
    ensures
        text::views(r@) == in_directories(platform, text::views(dirs@), binary@),
{
    let ghost goal = in_directories(platform, text::views(dirs@), binary@);
    let mut paths: Vec<String> = Vec::new();
    let mut i: usize = 0;
    assert(text::views(paths@) =~= goal.take(0));
    while i < dirs.len()
        invariant
            i <= dirs@.len(),
            goal == in_directories(platform, text::views(dirs@), binary@),
            text::views(paths@) == goal.take(i as int),
        decreases dirs@.len() - i,
    {
        let ghost before = text::views(paths@);
        let path = paths::join_path(platform, dirs[i].as_str(), binary);
        assert(path@ == goal[i as int]);
        paths.push(path);
        assert(text::views(paths@) =~= before.push(goal[i as int]));
        assert(goal.take(i + 1) =~= goal.take(i as int).push(goal[i as int]));
        i += 1;
    }
    assert(goal.take(i as int) =~= goal);
    paths
}

/// The paths of programs with these names: all of the first name come first.
pub open spec fn program_paths(
    platform: Platform,
    dirs: Seq<Seq<char>>,
    names: Seq<Seq<char>>,
) -> Seq<Seq<char>>
    decreases names.len(),
{
    if names.len() == 0 {
        Seq::empty()
    } else {
        program_paths(platform, dirs, names.drop_last()) + in_directories(
            platform,
            dirs,
            names.last(),
        )
    }
}

/// The paths at which a program with one of the names can be, in the order in which they
/// are tried.
pub fn find_program(
    platform: Platform,
    dirs: &Vec<String>,
    names: &Vec<&'static str>,
) -> (r: Vec<String>)
    ensures
        text::views(r@) == program_paths(platform, text::views(dirs@), text::str_views(names@)),
{
    let ghost all = text::str_views(names@);
    let mut paths: Vec<String> = Vec::new();
    let mut i: usize = 0;
    assert(text::views(paths@) =~= program_paths(platform, text::views(dirs@), all.take(0)));
    while i < names.len()
        invariant
            i <= names@.len(),
            all == text::str_views(names@),
            text::views(paths@) == program_paths(platform, text::views(dirs@), all.take(i as int)),
        decreases names@.len() - i,
    {
        assert(all.take(i + 1).drop_last() =~= all.take(i as int));
        assert(all.take(i + 1).last() == names@[i as int]@);
        text::extend_texts(&mut paths, find_in_path(platform, dirs, names[i]));
        i += 1;
    }
    assert(all.take(i as int) =~= all);
    paths
}

/// The names that a program goes by on Windows and elsewhere.
pub open spec fn names_on(
    platform: Platform,
    windows: Seq<Seq<char>>,
    other: Seq<Seq<char>>,
) -> Seq<Seq<char>> {
    if platform == Platform::Windows {
        windows
    } else {
        other
    }
}

/// The names that Codex goes by.
pub open spec fn codex_names(platform: Platform) -> Seq<Seq<char>> {
    names_on(
        platform,
        seq!["codex.cmd"@, "codex.exe"@, "codex.bat"@, "codex"@],
        seq!["codex"@],
    )
}

/// The names that Codex goes by.
pub fn codex_binary_names(platform: Platform) -> (r: Vec<&'static str>)
    ensures
        text::str_views(r@) == codex_names(platform),
{
    let mut names: Vec<&'static str> = Vec::new();
    if platform == Platform::Windows {
        names.push("codex.cmd");
        names.push("codex.exe");
        names.push("codex.bat");
    }
    names.push("codex");
    assert(text::str_views(names@) =~= codex_names(platform));
    names
}

/// The names that `ssh` goes by.
pub fn ssh_binary_names(platform: Platform) -> (r: Vec<&'static str>)
    ensures
        text::str_views(r@) == names_on(platform, seq!["ssh.exe"@, "ssh"@], seq!["ssh"@]),
{
    let mut names: Vec<&'static str> = Vec::new();
    if platform == Platform::Windows {
        names.push("ssh.exe");
    }
    names.push("ssh");
    assert(text::str_views(names@) =~= names_on(
        platform,
        seq!["ssh.exe"@, "ssh"@],
        seq!["ssh"@],
    ));
    names
}

/// The names that `scp` goes by.
pub fn scp_binary_names(platform: Platform) -> (r: Vec<&'static str>)
    ensures
        text::str_views(r@) == names_on(platform, seq!["scp.exe"@, "scp"@], seq!["scp"@]),
{
    let mut names: Vec<&'static str> = Vec::new();
    if platform == Platform::Windows {
        names.push("scp.exe");
    }
    names.push("scp");
    assert(text::str_views(names@) =~= names_on(
        platform,
        seq!["scp.exe"@, "scp"@],
        seq!["scp"@],
    ));
    names
}

/// The names that `npm` goes by.
pub fn npm_binary_names(platform: Platform) -> (r: Vec<&'static str>)
    ensures
        text::str_views(r@) == names_on(
            platform,
            seq!["npm.cmd"@, "npm.exe"@, "npm"@],
            seq!["npm"@],
        ),
{
    let mut names: Vec<&'static str> = Vec::new();
    if platform == Platform::Windows {
        names.push("npm.cmd");
        names.push("npm.exe");
    }
    names.push("npm");
    assert(text::str_views(names@) =~= names_on(
        platform,
        seq!["npm.cmd"@, "npm.exe"@, "npm"@],
        seq!["npm"@],
    ));
    names
}

/// The directory in which npm puts programs for one user on Windows.
pub open spec fn npm_dir(platform: Platform, home: Seq<char>) -> Seq<char> {
    let data = paths::joined(platform, home, "AppData"@);
    paths::joined(platform, paths::joined(platform, data, "Roaming"@), "npm"@)
}

/// Where Codex can be below the home directory.
pub open spec fn codex_below(platform: Platform, home: Seq<char>) -> Seq<Seq<char>> {
    if platform == Platform::Windows {
        seq![
            paths::joined(platform, npm_dir(platform, home), "codex.cmd"@),
            paths::joined(platform, npm_dir(platform, home), "codex.exe"@),
        ]
    } else {
        seq![
            paths::joined(
                platform,
                paths::joined(platform, paths::joined(platform, home, ".local"@), "bin"@),
                "codex"@,
            ),
        ]
    }
}

/// Where Codex can be below the home directory.
pub fn codex_home_binary_candidates(platform: Platform, home: &str) -> (r: Vec<String>)
    ensures
        text::views(r@) == codex_below(platform, home@),
{
    let mut paths: Vec<String> = Vec::new();
    if platform == Platform::Windows {
        let data = paths::join_path(platform, home, "AppData");
        let roaming = paths::join_path(platform, data.as_str(), "Roaming");
        let npm = paths::join_path(platform, roaming.as_str(), "npm");
        paths.push(paths::join_path(platform, npm.as_str(), "codex.cmd"));
        paths.push(paths::join_path(platform, npm.as_str(), "codex.exe"));
    } else {
        let local = paths::join_path(platform, home, ".local");
        let bin = paths::join_path(platform, local.as_str(), "bin");
        paths.push(paths::join_path(platform, bin.as_str(), "codex"));
    }
    assert(text::views(paths@) =~= codex_below(platform, home@));
    paths
}

/// Where npm puts Codex, by the prefix that npm prints; nowhere, where that is blank.
pub open spec fn codex_of_npm(platform: Platform, printed: Seq<char>) -> Seq<Seq<char>> {
    let prefix = text::trimmed(printed);
    if prefix.len() == 0 {
        Seq::empty()
    } else if platform == Platform::Windows {
        seq![
            paths::joined(platform, prefix, "codex.cmd"@),
            paths::joined(platform, prefix, "codex.exe"@),
        ]
    } else {
        seq![paths::joined(platform, paths::joined(platform, prefix, "bin"@), "codex"@)]
    }
}

/// Where npm puts Codex, by the prefix that npm prints.
pub fn npm_global_codex_bin(platform: Platform, printed: &str) -> (r: Vec<String>)
    ensures
        text::views(r@) == codex_of_npm(platform, printed@),
{
    let prefix = text::trim(printed);
    let mut paths: Vec<String> = Vec::new();
    if !prefix.is_empty() {
        if platform == Platform::Windows {
            paths.push(paths::join_path(platform, prefix, "codex.cmd"));
            paths.push(paths::join_path(platform, prefix, "codex.exe"));
        } else {
            let bin = paths::join_path(platform, prefix, "bin");
            paths.push(paths::join_path(platform, bin.as_str(), "codex"));
        }
    }
    assert(text::views(paths@) =~= codex_of_npm(platform, printed@));
    paths
}

/// Where Codex is looked for before npm is asked: where the environment says, in the
/// directories, and below the home directory.
pub open spec fn codex_paths(
    platform: Platform,
    env_bin: Option<Seq<char>>,
    dirs: Seq<Seq<char>>,
    home: Option<Seq<char>>,
) -> Seq<Seq<char>> {
    (match env_bin {
        Some(path) => seq![path],
        None => Seq::empty(),
    }) + program_paths(platform, dirs, codex_names(platform)) + (match home {
        Some(home) => codex_below(platform, home),
        None => Seq::empty(),
    })
}

/// Where Codex is looked for before npm is asked, in the order in which it is tried.
pub fn find_codex_bin(
    platform: Platform,
    env_bin: Option<&str>,
    dirs: &Vec<String>,
    home: Option<&str>,
) -> (r: Vec<String>)
    ensures
        text::views(r@) == codex_paths(
            platform,
            text::opt_str_chars(env_bin),
            text::views(dirs@),
            text::opt_str_chars(home),
        ),
{
    let mut paths: Vec<String> = Vec::new();
    if let Some(path) = env_bin {
        paths.push(path.to_owned());
    }
    assert(text::views(paths@) =~= match text::opt_str_chars(env_bin) {
        Some(path) => seq![path],
        None => Seq::empty(),
    });
    text::extend_texts(&mut paths, find_program(platform, dirs, &codex_binary_names(platform)));
    match home {
        Some(home) => {
            text::extend_texts(&mut paths, codex_home_binary_candidates(platform, home));
        },
        None => {
            assert(text::views(paths@) + Seq::<Seq<char>>::empty() =~= text::views(paths@));
        },
    }
    paths
}

// ---------------------------------------------------------------------------
// Installing Codex
// ---------------------------------------------------------------------------

/// A command that installs a program.
#[derive(Debug)]
pub struct InstallCommand {
    pub program: String,
    pub args: Vec<String>,
}

impl InstallCommand {
    /// The command as it is shown.
    pub open spec fn line(self) -> Seq<char> {
        text::joined(seq![self.program@] + text::views(self.args@), " "@)
    }

    /// The command as it is shown.
    pub fn display(&self) -> (r: String)
        ensures
            r@ == self.line(),
    {
        let mut words: Vec<String> = Vec::new();
        words.push(self.program.clone());
        assert(text::views(words@) =~= seq![self.program@]);
        text::extend_texts(&mut words, text::clone_texts(&self.args));
        text::join(&words, " ")
    }
}

/// The name by which npm is run.
pub fn npm_command_name(platform: Platform) -> (r: &'static str)
    ensures
        r@ == (if platform == Platform::Windows {
            "npm.cmd"@
        } else {
            "npm"@
        }),
{
    if platform == Platform::Windows {
        "npm.cmd"
    } else {
        "npm"
    }
}

/// The command that installs Codex.
pub fn codex_install_command(platform: Platform) -> (r: InstallCommand)
    ensures
        r.program@ == (if platform == Platform::Windows {
            "npm.cmd"@
        } else {
            "npm"@
        }),
        text::views(r.args@) == seq!["install"@, "-g"@, "@openai/codex"@],
{
    let mut args: Vec<String> = Vec::new();
    args.push("install".to_owned());
    args.push("-g".to_owned());
    args.push("@openai/codex".to_owned());
    assert(text::views(args@) =~= seq!["install"@, "-g"@, "@openai/codex"@]);
    InstallCommand { program: npm_command_name(platform).to_owned(), args }
}

/// What is to be done for the installation.
#[derive(Debug)]
pub enum InstallAction {
    /// Print the line to the error output.
    Warn(String),
    /// Print the question and read a line.
    Ask(String),
    /// Run the command.
    Install,
    /// Go on: the command was run.
    Return,
    /// Fail with this error.
    Fail(String),
    /// End with this exit code.
    Exit(i32),
}

/// What is to be done for the installation.
pub enum InstallModel {
    Warn(Seq<char>),
    Ask(Seq<char>),
    Install,
    Return,
    Fail(Seq<char>),
    Exit(i32),
}

impl View for InstallAction {
    type V = InstallModel;

    open spec fn view(&self) -> InstallModel {
        match *self {
            InstallAction::Warn(line) => InstallModel::Warn(line@),
            InstallAction::Ask(question) => InstallModel::Ask(question@),
            InstallAction::Install => InstallModel::Install,
            InstallAction::Return => InstallModel::Return,
            InstallAction::Fail(error) => InstallModel::Fail(error@),
            InstallAction::Exit(code) => InstallModel::Exit(code),
        }
    }
}

/// What is to be done, in order.
pub open spec fn install_models(actions: Seq<InstallAction>) -> Seq<InstallModel> {
    Seq::new(actions.len(), |i: int| actions[i]@)
}

/// What came of the last action.
#[derive(Debug)]
pub enum InstallEvent {
    /// Nothing was done yet.
    Started {
        /// Whether the program that installs was found.
        installer_found: bool,
        /// Whether someone is there to answer a question.
        interactive: bool,
    },
    /// The user answered.
    Answered(String),
    /// The command was run.
    Installed { success: bool, status: Option<i32> },
}

/// The offer that is printed first.
pub open spec fn install_offer(line: Seq<char>, zh: bool) -> Seq<InstallModel> {
    seq![
        InstallModel::Warn(wording::missing_codex(zh)),
        InstallModel::Warn(wording::install_hint(zh)),
        InstallModel::Warn(""@),
        InstallModel::Warn(line),
        InstallModel::Warn(""@),
    ]
}

/// What is printed where the installation is left to the user.
pub open spec fn left_to_user(line: Seq<char>, zh: bool) -> Seq<InstallModel> {
    seq![
        InstallModel::Warn(wording::manual_install(zh)),
        InstallModel::Warn(""@),
        InstallModel::Warn(line),
        InstallModel::Exit(1),
    ]
}

/// What follows on the event: Codex is installed only after a yes.
pub open spec fn install_steps(
    program: Seq<char>,
    line: Seq<char>,
    event: InstallEvent,
    zh: bool,
) -> Seq<InstallModel> {
    match event {
        InstallEvent::Started { installer_found, interactive } => install_offer(line, zh) + (
        if !installer_found {
            seq![
                InstallModel::Warn(wording::codex_install_tool_missing(zh, program)),
                InstallModel::Warn(""@),
            ] + left_to_user(line, zh)
        } else if !interactive {
            seq![InstallModel::Warn(wording::manual_install(zh)), InstallModel::Exit(1)]
        } else {
            seq![InstallModel::Ask(wording::confirm_install(zh))]
        }),
        InstallEvent::Answered(answer) => match ui::yes_or_no(answer@) {
            Some(true) => seq![InstallModel::Install],
            Some(false) => left_to_user(line, zh),
            None => seq![
                InstallModel::Warn(wording::invalid_yes_no(zh)),
                InstallModel::Ask(wording::confirm_install(zh)),
            ],
        },
        InstallEvent::Installed { success, status } => if success {
            seq![InstallModel::Return]
        } else {
            seq![
                InstallModel::Fail(
                    wording::codex_install_failed(
                        zh,
                        match status {
                            Some(code) => code,
                            None => 1,
                        },
                    ),
                ),
            ]
        },
    }
}

fn push_install(actions: &mut Vec<InstallAction>, action: InstallAction)
    ensures
        install_models(final(actions)@) == install_models(old(actions)@).push(action@),
{
    let ghost before = install_models(actions@);
    actions.push(action);
    assert(install_models(actions@) =~= before.push(action@));
}

fn push_left_to_user(actions: &mut Vec<InstallAction>, ui: &Messages, line: &str)
    ensures
        install_models(final(actions)@) == install_models(old(actions)@) + left_to_user(
            line@,
            ui.zh(),
        ),
{
    let ghost before = install_models(actions@);
    push_install(actions, InstallAction::Warn(ui.manual_install().to_owned()));
    push_install(actions, InstallAction::Warn("".to_owned()));
    push_install(actions, InstallAction::Warn(line.to_owned()));
    push_install(actions, InstallAction::Exit(1));
    assert(install_models(actions@) =~= before + left_to_user(line@, ui.zh()));
}

impl CodexAdapter {
    /// What follows on the event while Codex is offered for installation.
    pub fn offer_to_install_codex(
        &self,
        ui: &Messages,
        install: &InstallCommand,
        event: InstallEvent,
    ) -> (r: Vec<InstallAction>)
        ensures
            install_models(r@) == install_steps(
                install.program@,
                install.line(),
                event,
                ui.zh(),
            ),
    {
        let line = install.display();
        let mut actions: Vec<InstallAction> = Vec::new();
        assert(install_models(actions@) =~= Seq::<InstallModel>::empty());
        match event {
            InstallEvent::Started { installer_found, interactive } => {
                push_install(&mut actions, InstallAction::Warn(ui.missing_codex().to_owned()));
                push_install(&mut actions, InstallAction::Warn(ui.install_hint().to_owned()));
                push_install(&mut actions, InstallAction::Warn("".to_owned()));
                push_install(&mut actions, InstallAction::Warn(line.clone()));
                push_install(&mut actions, InstallAction::Warn("".to_owned()));
                if !installer_found {
                    let missing = ui.codex_install_tool_missing(install.program.as_str());
                    push_install(&mut actions, InstallAction::Warn(missing));
                    push_install(&mut actions, InstallAction::Warn("".to_owned()));
                    push_left_to_user(&mut actions, ui, line.as_str());
                } else if !interactive {
                    push_install(&mut actions, InstallAction::Warn(ui.manual_install().to_owned()));
                    push_install(&mut actions, InstallAction::Exit(1));
                } else {
                    push_install(&mut actions, InstallAction::Ask(ui.confirm_install().to_owned()));
                }
            },
            InstallEvent::Answered(answer) => match ui::parse_yes_no(answer.as_str()) {
                Some(true) => {
                    push_install(&mut actions, InstallAction::Install);
                },
                Some(false) => {
                    push_left_to_user(&mut actions, ui, line.as_str());
                },
                None => {
                    push_install(&mut actions, InstallAction::Warn(ui.invalid_yes_no().to_owned()));
                    push_install(&mut actions, InstallAction::Ask(ui.confirm_install().to_owned()));
                },
            },
            InstallEvent::Installed { success, status } => {
                if success {
                    push_install(&mut actions, InstallAction::Return);
                } else {
                    let code: i32 = match status {
                        Some(code) => code,
                        None => 1,
                    };
                    push_install(&mut actions, InstallAction::Fail(ui.codex_install_failed(code)));
                }
            },
        }
        assert(install_models(actions@) =~= install_steps(
            install.program@,
            install.line(),
            event,
            ui.zh(),
        ));
        actions
    }
}

/// Codex is installed only after the user said yes.
pub proof fn law_installed_only_after_yes(
    program: Seq<char>,
    line: Seq<char>,
    event: InstallEvent,
    zh: bool,
    i: int,
)
    requires
        0 <= i < install_steps(program, line, event, zh).len(),
        install_steps(program, line, event, zh)[i] is Install,
    ensures
        event matches InstallEvent::Answered(answer) && ui::yes_or_no(answer@) == Some(true),
{
}

/// How the search for Codex goes on.
#[derive(Debug)]
pub enum BinaryStep {
    /// Codex is at this path.
    Found(String),
    /// Offer to install it.
    Offer,
    /// It is missing although it was installed; this is the error.
    Missing(String),
}

impl CodexAdapter {
    /// How the search for Codex goes on: where it is not found it is offered for
    /// installation, but only once.
    pub fn resolve_codex_bin(&self, ui: &Messages, found: Option<String>, offered: bool) -> (r:
        BinaryStep)
        ensures
            match found {
                Some(path) => r == BinaryStep::Found(path),
                None => if offered {
                    r matches BinaryStep::Missing(error) && error@
                        == wording::codex_install_still_missing(ui.zh())
                } else {
                    r == BinaryStep::Offer
                },
            },
    {
        match found {
            Some(path) => BinaryStep::Found(path),
            None => if offered {
                BinaryStep::Missing(ui.codex_install_still_missing().to_owned())
            } else {
                BinaryStep::Offer
            },
        }
    }
}

// ---------------------------------------------------------------------------
// Laws of the search and of the offer
// ---------------------------------------------------------------------------

/// A program is looked for under each name in each directory: under the first name in all of
/// them, then under the next.
pub proof fn law_names_are_tried_in_order(
    platform: Platform,
    dirs: Seq<Seq<char>>,
    names: Seq<Seq<char>>,
    i: int,
    j: int,
)
    requires
        0 <= i < names.len(),
        0 <= j < dirs.len(),
    ensures
        program_paths(platform, dirs, names).len() == names.len() * dirs.len(),
        0 <= i * dirs.len() + j < names.len() * dirs.len(),
        program_paths(platform, dirs, names)[i * dirs.len() + j] == paths::joined(
            platform,
            dirs[j],
            names[i],
        ),
{
    lemma_program_paths_len(platform, dirs, names);
    lemma_program_path_at(platform, dirs, names, i, j);
}

proof fn lemma_program_paths_len(
    platform: Platform,
    dirs: Seq<Seq<char>>,
    names: Seq<Seq<char>>,
)
    ensures
        program_paths(platform, dirs, names).len() == names.len() * dirs.len(),
    decreases names.len(),
{
    if names.len() > 0 {
        lemma_program_paths_len(platform, dirs, names.drop_last());
        let n = names.len() as int;
        let d = dirs.len() as int;
        assert((n - 1) * d + d == n * d) by (nonlinear_arith);
    } else {
        assert(0 * dirs.len() == 0) by (nonlinear_arith);
    }
}

proof fn lemma_program_path_at(
    platform: Platform,
    dirs: Seq<Seq<char>>,
    names: Seq<Seq<char>>,
    i: int,
    j: int,
)
    requires
        0 <= i < names.len(),
        0 <= j < dirs.len(),
    ensures
        0 <= i * dirs.len() + j < names.len() * dirs.len(),
        program_paths(platform, dirs, names)[i * dirs.len() + j] == paths::joined(
            platform,
            dirs[j],
            names[i],
        ),
    decreases names.len(),
{
    let n = names.len() as int;
    let d = dirs.len() as int;
    let before = names.drop_last();
    lemma_program_paths_len(platform, dirs, before);
    assert(0 <= i * d && i * d + d <= n * d) by (nonlinear_arith)
        requires
            0 <= i < n,
            0 <= d,
    ;
    if i < n - 1 {
        lemma_program_path_at(platform, dirs, before, i, j);
        assert(before[i] == names[i]);
        assert(i * d + d <= (n - 1) * d) by (nonlinear_arith)
            requires
                0 <= i < n - 1,
                0 <= d,
        ;
    } else {
        assert(i == n - 1);
    }
}

/// Codex is looked for where the environment says before anywhere else, and below the home
/// directory after everything else.
pub proof fn law_environment_names_codex_first(
    platform: Platform,
    env_bin: Seq<char>,
    dirs: Seq<Seq<char>>,
    home: Seq<char>,
)
    ensures
        codex_paths(platform, Some(env_bin), dirs, Some(home))[0] == env_bin,
        codex_paths(platform, Some(env_bin), dirs, Some(home)).skip(1) == codex_paths(
            platform,
            None,
            dirs,
            Some(home),
        ),
        codex_below(platform, home).is_suffix_of(codex_paths(platform, None, dirs, Some(home))),
        codex_paths(platform, None, dirs, None) == program_paths(
            platform,
            dirs,
            codex_names(platform),
        ),
        codex_names(platform).last() == "codex"@,
        platform == Platform::Windows ==> codex_names(platform)[0] == "codex.cmd"@,
{
    let all = codex_paths(platform, Some(env_bin), dirs, Some(home));
    let rest = codex_paths(platform, None, dirs, Some(home));
    assert(all.skip(1) =~= rest);
    assert(codex_below(platform, home) =~= rest.skip(
        rest.len() - codex_below(platform, home).len(),
    ));
    assert(codex_paths(platform, None, dirs, None) =~= program_paths(
        platform,
        dirs,
        codex_names(platform),
    ));
}

/// Where paths have no drives, Codex is looked for in the directory for programs below the
/// home directory, and in that of the prefix that npm prints.
#[verifier::spinoff_prover]
#[verifier::rlimit(40)]
pub proof fn law_codex_is_among_the_programs(
    platform: Platform,
    home: Seq<char>,
    printed: Seq<char>,
)
    requires
        platform != Platform::Windows,
        home.len() > 0 && home.last() != '/',
    ensures
        codex_below(platform, home) == seq![home + "/.local/bin/codex"@],
        text::trimmed(printed) == home ==> codex_of_npm(platform, printed) == seq![
            home + "/bin/codex"@,
        ],
        text::trimmed(printed).len() == 0 ==> codex_of_npm(platform, printed).len() == 0,
{
    reveal_strlit(".local");
    reveal_strlit("bin");
    reveal_strlit("codex");
    reveal_strlit("/.local/bin/codex");
    reveal_strlit("/bin/codex");
    let local = paths::joined(platform, home, ".local"@);
    let bin = paths::joined(platform, local, "bin"@);
    assert(paths::joined(platform, bin, "codex"@) =~= home + "/.local/bin/codex"@);
    assert(codex_below(platform, home) =~= seq![home + "/.local/bin/codex"@]);
    if text::trimmed(printed) == home {
        let below = paths::joined(platform, home, "bin"@);
        assert(paths::joined(platform, below, "codex"@) =~= home + "/bin/codex"@);
        assert(codex_of_npm(platform, printed) =~= seq![home + "/bin/codex"@]);
    }
}

/// The user is asked only where the installer is there and someone can answer; without either
/// the program ends with an error code. The command is shown in any case.
pub proof fn law_user_is_asked_where_they_can_answer(
    program: Seq<char>,
    line: Seq<char>,
    installer_found: bool,
    interactive: bool,
    zh: bool,
)
    ensures
        ({
            let actions = install_steps(
                program,
                line,
                InstallEvent::Started { installer_found, interactive },
                zh,
            );
            &&& actions[3] == InstallModel::Warn(line)
            &&& installer_found && interactive ==> actions.last() == InstallModel::Ask(
                wording::confirm_install(zh),
            )
            &&& !(installer_found && interactive) ==> actions.last() == InstallModel::Exit(1)
            &&& !installer_found ==> actions[5] == InstallModel::Warn(
                wording::codex_install_tool_missing(zh, program),
            )
        }),
{
}

/// After a yes Codex is installed, after a no that is left to the user, and after anything
/// else they are asked again. An installation that failed is an error with its status.
pub proof fn law_answer_decides_on_the_installation(
    program: Seq<char>,
    line: Seq<char>,
    answer: String,
    status: Option<i32>,
    code: i32,
    zh: bool,
)
    ensures
        ({
            let actions = install_steps(program, line, InstallEvent::Answered(answer), zh);
            &&& ui::yes_or_no(answer@) == Some(true) ==> actions == seq![InstallModel::Install]
            &&& ui::yes_or_no(answer@) == Some(false) ==> actions.last() == InstallModel::Exit(1)
            &&& ui::yes_or_no(answer@) is None ==> actions.last() == InstallModel::Ask(
                wording::confirm_install(zh),
            )
        }),
        install_steps(program, line, InstallEvent::Installed { success: true, status }, zh) == seq![
            InstallModel::Return,
        ],
        install_steps(
            program,
            line,
            InstallEvent::Installed { success: false, status: Some(code) },
            zh,
        ) == seq![InstallModel::Fail(wording::codex_install_failed(zh, code))],
        install_steps(program, line, InstallEvent::Installed { success: false, status: None }, zh)
            == seq![InstallModel::Fail(wording::codex_install_failed(zh, 1))],
{
}

/// The environment names the directory of Codex, whatever the home directory is; otherwise it
/// is a hidden one below the home directory.
pub proof fn law_environment_names_the_directory(
    platform: Platform,
    env: Seq<char>,
    home: Seq<char>,
    other: Option<Seq<char>>,
)
    requires
        platform != Platform::Windows,
        home.len() > 0 && home.last() != '/',
    ensures
        codex_directory(platform, Some(env), other) == env,
        codex_directory(platform, None, Some(home)) == home + "/.codex"@,
        codex_directory(platform, None, None) == ".codex"@,
{
    reveal_strlit(".codex");
    reveal_strlit("/.codex");
    assert(paths::joined(platform, home, ".codex"@) =~= home + "/.codex"@);
}

/// A command is shown as it is typed: each further argument behind a blank.
pub proof fn law_command_is_shown_as_it_is_typed(
    command: InstallCommand,
    longer: InstallCommand,
    arg: Seq<char>,
)
    requires
        longer.program@ == command.program@,
        text::views(longer.args@) == text::views(command.args@).push(arg),
    ensures
        longer.line() == command.line() + seq![' '] + arg,
        command.args@.len() == 0 ==> command.line() == command.program@,
{
    reveal_strlit(" ");
    assert(" "@ =~= seq![' ']);
    let words = seq![command.program@] + text::views(command.args@);
    assert(seq![longer.program@] + text::views(longer.args@) =~= words.push(arg));
    text::law_separator_stands_between(words, arg, " "@);
    if command.args@.len() == 0 {
        assert(words =~= seq![command.program@]);
    }
}

/// On Windows Codex goes by four names, of which the script of npm is tried first; npm puts it
/// in the directory for programs of the user.
#[verifier::spinoff_prover]
#[verifier::rlimit(40)]
pub proof fn law_codex_on_windows(home: Seq<char>)
    requires
        home.len() > 2,
        !paths::separates(Platform::Windows, home.last()),
    ensures
        codex_names(Platform::Windows).len() == 4,
        codex_names(Platform::Windows)[1] == "codex.exe"@,
        codex_names(Platform::Windows)[2] == "codex.bat"@,
        npm_dir(Platform::Windows, home) == home + seq!['\\'] + "AppData"@ + seq!['\\']
            + "Roaming"@ + seq!['\\'] + "npm"@,
        codex_below(Platform::Windows, home) == seq![
            npm_dir(Platform::Windows, home) + seq!['\\'] + "codex.cmd"@,
            npm_dir(Platform::Windows, home) + seq!['\\'] + "codex.exe"@,
        ],
{
    reveal_strlit("AppData");
    reveal_strlit("Roaming");
    reveal_strlit("npm");
    reveal_strlit("codex.cmd");
    reveal_strlit("codex.exe");
    lemma_below_on_windows(home, "AppData"@);
    let data = home + seq!['\\'] + "AppData"@;
    lemma_below_on_windows(data, "Roaming"@);
    let roaming = data + seq!['\\'] + "Roaming"@;
    lemma_below_on_windows(roaming, "npm"@);
    let npm = roaming + seq!['\\'] + "npm"@;
    assert(npm_dir(Platform::Windows, home) == npm);
    lemma_below_on_windows(npm, "codex.cmd"@);
    lemma_below_on_windows(npm, "codex.exe"@);
}

proof fn lemma_below_on_windows(base: Seq<char>, part: Seq<char>)
    requires
        base.len() > 2,
        !paths::separates(Platform::Windows, base.last()),
        part.len() > 2,
        !paths::separates(Platform::Windows, part.first()),
        !paths::separates(Platform::Windows, part.last()),
        part[1] != ':',
    ensures
        paths::joined(Platform::Windows, base, part) == base + seq!['\\'] + part,
        (base + seq!['\\'] + part).len() > 2,
        !paths::separates(Platform::Windows, (base + seq!['\\'] + part).last()),
{
    paths::law_part_stands_below_its_directory(Platform::Windows, base, part);
}

} // verus!
