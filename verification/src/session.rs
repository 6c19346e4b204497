//! Starting and resuming sessions of Codex.

use vstd::prelude::*;

use crate::adapter::CodexAdapter;
use crate::json;
use crate::json::{Json, JsonModel};
use crate::paths;
use crate::paths::Platform;
use crate::text;
use crate::text::CharClass;
use crate::ui::Messages;
use crate::wording;

verus! {

// ---------------------------------------------------------------------------
// Commands
// ---------------------------------------------------------------------------

/// The command of a session: it runs without asking for approval, whether or not the
/// arguments say so.
pub open spec fn launch_command(bin: Seq<char>, extra: Seq<Seq<char>>, resume: bool) -> Seq<
    Seq<char>,
> {
    (if resume {
        seq![bin, "resume"@, "--last"@]
    } else {
        seq![bin]
    }) + (if extra.contains("--yolo"@) {
        Seq::empty()
    } else {
        seq!["--yolo"@]
    }) + extra
}

fn mentions(args: &Vec<String>, word: &str) -> (r: bool)
    ensures
        r == text::views(args@).contains(word@),
{
    let ghost all = text::views(args@);
    let mut i: usize = 0;
    while i < args.len()
        invariant
            i <= args@.len(),
            all == text::views(args@),
            forall|k: int| 0 <= k < i ==> all[k] != word@,
        decreases args@.len() - i,
    {
        assert(all[i as int] == args@[i as int]@);
        if text::same_text(args[i].as_str(), word) {
            return true;
        }
        i += 1;
    }
    false
}

/// The command of a session.
pub fn build_codex_launch_command(codex_bin: &str, extra_args: &Vec<String>, resume: bool) -> (r: Vec<
    String,
>)
    ensures
        text::views(r@) == launch_command(codex_bin@, text::views(extra_args@), resume),
{
    let ghost extra = text::views(extra_args@);
    let mut command: Vec<String> = Vec::new();
    command.push(codex_bin.to_owned());
    if resume {
        command.push("resume".to_owned());
        command.push("--last".to_owned());
    }
    if !mentions(extra_args, "--yolo") {
        command.push("--yolo".to_owned());
    }
    assert(text::views(command@) =~= (if resume {
        seq![codex_bin@, "resume"@, "--last"@]
    } else {
        seq![codex_bin@]
    }) + (if extra.contains("--yolo"@) {
        Seq::empty()
    } else {
        seq!["--yolo"@]
    }));
    text::extend_texts(&mut command, text::clone_texts(extra_args));
    command
}

/// The arguments of the user are forwarded unchanged, at the end, and a session never asks
/// for approval.
pub proof fn law_arguments_are_forwarded(bin: Seq<char>, extra: Seq<Seq<char>>, resume: bool)
    ensures
        extra.is_suffix_of(launch_command(bin, extra, resume)),
        launch_command(bin, extra, resume).contains("--yolo"@),
        launch_command(bin, extra, resume)[0] == bin,
{
    let command = launch_command(bin, extra, resume);
    let n = command.len() as int;
    let k = extra.len() as int;
    assert(command.subrange(n - k, n) =~= extra);
    if extra.contains("--yolo"@) {
        let i = choose|i: int| 0 <= i < extra.len() && extra[i] == "--yolo"@;
        assert(command[n - k + i] == "--yolo"@);
    } else {
        assert(command[n - k - 1] == "--yolo"@);
    }
}

// ---------------------------------------------------------------------------
// Sessions that can be resumed
// ---------------------------------------------------------------------------

/// Whether the record begins a session in that directory that a user had.
pub open spec fn begins_session(record: JsonModel, target: Seq<char>) -> bool {
    &&& json::text_of(record.member("type"@)) == Some("session_meta"@)
    &&& json::text_of(record.nested("payload"@, "originator"@)) == Some("codex-tui"@)
    &&& json::text_of(record.nested("payload"@, "cwd"@)) == Some(target)
}

/// Whether the record begins a session in that directory that a user had.
pub fn is_session_start(record: &Json, target: &str) -> (r: bool)
    ensures
        r == begins_session(record@, target@),
{
    text::is_text(json::as_text(record.get("type")), "session_meta") && text::is_text(
        json::as_text(record.get_nested("payload", "originator")),
        "codex-tui",
    ) && text::is_text(json::as_text(record.get_nested("payload", "cwd")), target)
}

/// The line without its end.
pub open spec fn bare_line(line: Seq<char>) -> Seq<char> {
    text::trim_end_of(text::trim_end_of(line, CharClass::Only('\n')), CharClass::Only('\r'))
}

/// Whether the first line of a file tells of a session in that directory.
pub open spec fn is_resumable(first_line: Seq<char>, target: Seq<char>) -> bool {
    &&& first_line.len() > 0
    &&& json::parsed_text(bare_line(first_line)) matches Some(record)
    &&& begins_session(record, target)
}

/// Whether the first line of a file tells of a session in that directory.
pub fn is_resumable_session(first_line: &str, target: &str) -> (r: bool)
    ensures
        r == is_resumable(first_line@, target@),
{
    if first_line.is_empty() {
        return false;
    }
    let line = text::trim_end_char(text::trim_end_char(first_line, '\n'), '\r');
    match Json::parse(line) {
        Some(record) => is_session_start(&record, target),
        None => false,
    }
}

/// Whether a file is one of a session, by its name: it has the ending, and something before.
pub open spec fn names_session(name: Seq<char>) -> bool {
    ".jsonl"@.is_suffix_of(name) && name != ".jsonl"@
}

/// Whether a file is one of a session, by its name.
pub fn is_session_file(name: &str) -> (r: bool)
    ensures
        r == (".jsonl"@.is_suffix_of(name@) && name@ != ".jsonl"@),
        r == names_session(name@),
{
    text::ends_with(name, ".jsonl") && !text::same_text(name, ".jsonl")
}

/// Whether one of the files tells of a session in that directory, by their first lines.
pub fn has_resumable_session_under(first_lines: &Vec<String>, target: &str) -> (r: bool)
    ensures
        r == exists|i: int|
            0 <= i < first_lines@.len() && is_resumable(#[trigger] first_lines@[i]@, target@),
{
    let mut i: usize = 0;
    while i < first_lines.len()
        invariant
            i <= first_lines@.len(),
            forall|k: int|
                0 <= k < i ==> !is_resumable(#[trigger] first_lines@[k]@, target@),
        decreases first_lines@.len() - i,
    {
        if is_resumable_session(first_lines[i].as_str(), target) {
            assert(is_resumable(first_lines@[i as int]@, target@));
            return true;
        }
        i += 1;
    }
    false
}

// ---------------------------------------------------------------------------
// Running sessions
// ---------------------------------------------------------------------------

/// What is to be done for a session.
#[derive(Debug)]
pub enum SessionAction {
    /// Print the line.
    Say(String),
    /// Print the line to the error output.
    Warn(String),
    /// Run the command that resumes the last session.
    Resume(Vec<String>),
    /// Run the command that starts a session.
    Start(Vec<String>),
    /// The session ended with this code.
    End(i32),
}

/// What is to be done for a session.
pub enum SessionModel {
    Say(Seq<char>),
    Warn(Seq<char>),
    Resume(Seq<Seq<char>>),
    Start(Seq<Seq<char>>),
    End(i32),
}

impl View for SessionAction {
    type V = SessionModel;

    open spec fn view(&self) -> SessionModel {
        match *self {
            SessionAction::Say(line) => SessionModel::Say(line@),
            SessionAction::Warn(line) => SessionModel::Warn(line@),
            SessionAction::Resume(command) => SessionModel::Resume(text::views(command@)),
            SessionAction::Start(command) => SessionModel::Start(text::views(command@)),
            SessionAction::End(code) => SessionModel::End(code),
        }
    }
}

/// What is to be done, in order.
pub open spec fn session_models(actions: Seq<SessionAction>) -> Seq<SessionModel> {
    Seq::new(actions.len(), |i: int| actions[i]@)
}

/// What came of the last action.
#[derive(Clone, Copy, Debug)]
pub enum SessionEvent {
    /// Nothing was done yet.
    Started {
        /// Whether a session is to be resumed.
        resume: bool,
        /// Whether there is one that can be.
        has_session: bool,
    },
    /// The command that resumes a session ended.
    Resumed { success: bool, code: Option<i32> },
    /// The command that starts a session ended.
    Ended { code: Option<i32> },
}

/// The code of a command, or else another one.
pub open spec fn code_or(code: Option<i32>, other: i32) -> i32 {
    match code {
        Some(code) => code,
        None => other,
    }
}

/// What follows on the event: where the last session cannot be resumed, a new one is
/// started.
pub open spec fn session_steps(
    bin: Seq<char>,
    extra: Seq<Seq<char>>,
    event: SessionEvent,
    zh: bool,
) -> Seq<SessionModel> {
    match event {
        SessionEvent::Started { resume, has_session } => if resume && has_session {
            seq![
                SessionModel::Say(wording::resume_session(zh)),
                SessionModel::Resume(launch_command(bin, extra, true)),
            ]
        } else {
            seq![
                SessionModel::Say(wording::fresh_session(zh)),
                SessionModel::Start(launch_command(bin, extra, false)),
            ]
        },
        SessionEvent::Resumed { success, code } => if success {
            seq![SessionModel::End(code_or(code, 0))]
        } else {
            seq![
                SessionModel::Warn(wording::resume_fallback(zh)),
                SessionModel::Start(launch_command(bin, extra, false)),
            ]
        },
        SessionEvent::Ended { code } => seq![SessionModel::End(code_or(code, 1))],
    }
}

fn code_else(code: Option<i32>, other: i32) -> (r: i32)
    ensures
        r == code_or(code, other),
{
    match code {
        Some(code) => code,
        None => other,
    }
}

impl CodexAdapter {
    /// What follows on the event while a session is started or resumed.
    pub fn launch_codex(
        &self,
        ui: &Messages,
        codex_bin: &str,
        extra_args: &Vec<String>,
        event: SessionEvent,
    ) -> (r: Vec<SessionAction>)
        ensures
            session_models(r@) == session_steps(
                codex_bin@,
                text::views(extra_args@),
                event,
                ui.zh(),
            ),
    {
        let mut actions: Vec<SessionAction> = Vec::new();
        match event {
            SessionEvent::Started { resume, has_session } => {
                if resume && has_session {
                    actions.push(SessionAction::Say(ui.resume_session().to_owned()));
                    actions.push(
                        SessionAction::Resume(
                            build_codex_launch_command(codex_bin, extra_args, true),
                        ),
                    );
                } else {
                    actions.push(SessionAction::Say(ui.fresh_session().to_owned()));
                    actions.push(
                        SessionAction::Start(
                            build_codex_launch_command(codex_bin, extra_args, false),
                        ),
                    );
                }
            },
            SessionEvent::Resumed { success, code } => {
                if success {
                    actions.push(SessionAction::End(code_else(code, 0)));
                } else {
                    actions.push(SessionAction::Warn(ui.resume_fallback().to_owned()));
                    actions.push(
                        SessionAction::Start(
                            build_codex_launch_command(codex_bin, extra_args, false),
                        ),
                    );
                }
            },
            SessionEvent::Ended { code } => {
                actions.push(SessionAction::End(code_else(code, 1)));
            },
        }
        assert(session_models(actions@) =~= session_steps(
            codex_bin@,
            text::views(extra_args@),
            event,
            ui.zh(),
        ));
        actions
    }

    /// The command that runs Codex with the arguments as they are.
    pub fn run_passthrough(&self, codex_bin: &str, extra_args: &Vec<String>) -> (r: Vec<String>)
        ensures
            text::views(r@) == seq![codex_bin@] + text::views(extra_args@),
    {
        let mut command: Vec<String> = Vec::new();
        command.push(codex_bin.to_owned());
        assert(text::views(command@) =~= seq![codex_bin@]);
        text::extend_texts(&mut command, text::clone_texts(extra_args));
        command
    }

    /// The exit code for a command that ended with this code, or with none.
    pub fn exit_code(&self, code: Option<i32>) -> (r: i32)
        ensures
            r == code_or(code, 1),
    {
        code_else(code, 1)
    }

    /// Whether there is a session to resume in the directory, by the first lines of the
    /// session files. In a directory without a canonical path there is none.
    pub fn has_resumable_session(&self, first_lines: &Vec<String>, cwd: Option<&str>) -> (r: bool)
        ensures
            r == (cwd is Some && exists|i: int|
                0 <= i < first_lines@.len() && is_resumable(
                    #[trigger] first_lines@[i]@,
                    cwd->0@,
                )),
    {
        match cwd {
            Some(cwd) => has_resumable_session_under(first_lines, cwd),
            None => false,
        }
    }

    /// Where the sessions are kept, below the directory of Codex.
    pub fn sessions_root(&self, platform: Platform, codex_home: &str) -> (r: String)
        ensures
            r@ == paths::joined(platform, codex_home@, "sessions"@),
    {
        paths::join_path(platform, codex_home, "sessions")
    }
}

/// A session that is not to be resumed is not.
pub proof fn law_no_resume_starts_afresh(
    bin: Seq<char>,
    extra: Seq<Seq<char>>,
    has_session: bool,
    zh: bool,
)
    ensures
        session_steps(bin, extra, SessionEvent::Started { resume: false, has_session }, zh)
            == seq![
            SessionModel::Say(wording::fresh_session(zh)),
            SessionModel::Start(launch_command(bin, extra, false)),
        ],
{
}

/// A session is resumed exactly where that is asked for and there is one.
pub proof fn law_session_is_resumed_where_there_is_one(
    bin: Seq<char>,
    extra: Seq<Seq<char>>,
    resume: bool,
    has_session: bool,
    zh: bool,
)
    ensures
        ({
            let actions = session_steps(
                bin,
                extra,
                SessionEvent::Started { resume, has_session },
                zh,
            );
            &&& actions.len() == 2
            &&& actions[0] is Say
            &&& resume && has_session <==> actions[1] is Resume
            &&& !(resume && has_session) <==> actions[1] is Start
            &&& actions[1] matches SessionModel::Resume(command) ==> command == launch_command(
                bin,
                extra,
                true,
            )
            &&& actions[1] matches SessionModel::Start(command) ==> command == launch_command(
                bin,
                extra,
                false,
            )
        }),
{
}

/// The last session is the one that is resumed; nothing but that, the arguments, and the word
/// for no approval where they lack it stands in the command.
pub proof fn law_last_session_is_resumed(bin: Seq<char>, extra: Seq<Seq<char>>)
    ensures
        launch_command(bin, extra, true).take(3) == seq![bin, "resume"@, "--last"@],
        launch_command(bin, extra, true).len() == launch_command(bin, extra, false).len() + 2,
        launch_command(bin, extra, true).skip(3) == launch_command(bin, extra, false).skip(1),
        extra.contains("--yolo"@) ==> launch_command(bin, extra, false) == seq![bin] + extra,
        !extra.contains("--yolo"@) ==> launch_command(bin, extra, false) == seq![bin, "--yolo"@]
            + extra,
{
    let resumed = launch_command(bin, extra, true);
    let fresh = launch_command(bin, extra, false);
    assert(resumed.take(3) =~= seq![bin, "resume"@, "--last"@]);
    assert(resumed.skip(3) =~= fresh.skip(1));
    if extra.contains("--yolo"@) {
        assert(fresh =~= seq![bin] + extra);
    } else {
        assert(fresh =~= seq![bin, "--yolo"@] + extra);
    }
}

/// A session that could not be resumed is started afresh; the code of a session is handed on,
/// and one that ended without a code is a success where it was resumed and else a failure.
pub proof fn law_session_ends_with_its_code(
    bin: Seq<char>,
    extra: Seq<Seq<char>>,
    code: i32,
    status: Option<i32>,
    zh: bool,
)
    ensures
        session_steps(bin, extra, SessionEvent::Resumed { success: true, code: Some(code) }, zh)
            == seq![SessionModel::End(code)],
        session_steps(bin, extra, SessionEvent::Resumed { success: true, code: None }, zh) == seq![
            SessionModel::End(0),
        ],
        session_steps(bin, extra, SessionEvent::Ended { code: Some(code) }, zh) == seq![
            SessionModel::End(code),
        ],
        session_steps(bin, extra, SessionEvent::Ended { code: None }, zh) == seq![
            SessionModel::End(1),
        ],
        ({
            let actions = session_steps(
                bin,
                extra,
                SessionEvent::Resumed { success: false, code: status },
                zh,
            );
            &&& actions.len() == 2
            &&& actions[0] is Warn
            &&& actions[1] == SessionModel::Start(launch_command(bin, extra, false))
        }),
{
}

/// A session can be resumed only in the directory in which the user had it.
pub proof fn law_session_belongs_to_its_directory(
    record: JsonModel,
    target: Seq<char>,
    directory: Seq<char>,
)
    requires
        record.nested("payload"@, "cwd"@) == Some(JsonModel::Text(directory)),
    ensures
        directory != target ==> !begins_session(record, target),
        begins_session(record, directory) <==> record.member("type"@) == Some(
            JsonModel::Text("session_meta"@),
        ) && record.nested("payload"@, "originator"@) == Some(JsonModel::Text("codex-tui"@)),
{
}

/// The end of a line is not read.
#[verifier::spinoff_prover]
#[verifier::rlimit(40)]
pub proof fn law_end_of_line_is_not_read(line: Seq<char>)
    requires
        line.len() > 0,
        line.last() != '\n',
        line.last() != '\r',
    ensures
        bare_line(line) == line,
        bare_line(line.push('\n')) == line,
        bare_line(line.push('\r').push('\n')) == line,
{
    let feed = CharClass::Only('\n');
    let carriage = CharClass::Only('\r');
    assert(line.push('\n').drop_last() =~= line);
    let long = line.push('\r');
    assert(long.push('\n').drop_last() =~= long);
    assert(long.drop_last() =~= line);
    reveal_with_fuel(text::trim_end_of, 3);
    assert(text::trim_end_of(line, feed) == line);
    assert(text::trim_end_of(line, carriage) == line);
    assert(text::trim_end_of(long, feed) == long);
}

/// Whatever stands before the ending, a file with it is one of a session, and the ending alone
/// or another ending is not.
pub proof fn law_session_files_have_their_ending(stem: Seq<char>, other: Seq<char>)
    ensures
        stem.len() > 0 ==> names_session(stem + ".jsonl"@),
        !names_session(".jsonl"@),
        other.len() > 0 && other.last() != 'l' ==> !names_session(other),
{
    reveal_strlit(".jsonl");
    let name = stem + ".jsonl"@;
    assert(".jsonl"@ =~= name.skip(name.len() - 6));
    if stem.len() > 0 {
        assert(name.len() != ".jsonl"@.len());
    }
    if other.len() > 0 && other.last() != 'l' && ".jsonl"@.is_suffix_of(other) {
        assert(".jsonl"@.last() == other.last());
    }
}

/// A first line, with or without its end, that begins a session of the user in the directory
/// makes it one that can be resumed there; a line that is no JSON does not.
pub proof fn law_first_line_tells_of_the_session(
    line: Seq<char>,
    target: Seq<char>,
    record: JsonModel,
)
    requires
        line.len() > 0,
        line.last() != '\n',
        line.last() != '\r',
    ensures
        json::parsed_text(line) == Some(record) ==> {
            &&& is_resumable(line, target) <==> begins_session(record, target)
            &&& is_resumable(line.push('\n'), target) <==> begins_session(record, target)
        },
        json::parsed_text(line) is None ==> !is_resumable(line, target),
        !is_resumable(Seq::empty(), target),
{
    law_end_of_line_is_not_read(line);
}

} // verus!
