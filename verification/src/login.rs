//! Logging in new accounts.

use vstd::prelude::*;

use crate::adapter::CodexAdapter;
use crate::outside;
use crate::paths;
use crate::paths::Platform;
use crate::text;
use crate::ui::Messages;
use crate::wording;

verus! {

// ---------------------------------------------------------------------------
// Logging in through Codex
// ---------------------------------------------------------------------------

/// Whether this is a directory for one login: below the state directory, with a random
/// name.
pub open spec fn is_login_home(platform: Platform, path: Seq<char>, state_dir: Seq<char>) -> bool {
    exists|id: Seq<char>|
        outside::is_uuid(id) && path == #[trigger] paths::joined(
            platform,
            paths::joined(platform, state_dir, ".tmp"@),
            "scodex-login-"@ + id,
        )
}

/// The directory for one login, and the one it is made in.
pub fn tmp_login_home(platform: Platform, state_dir: &str) -> (r: (String, String))
    ensures
        r.0@ == paths::joined(platform, state_dir@, ".tmp"@),
        is_login_home(platform, r.1@, state_dir@),
{
    let root = paths::join_path(platform, state_dir, ".tmp");
    let id = outside::random_id();
    let name = text::concat2("scodex-login-", id.as_str());
    let home = paths::join_path(platform, root.as_str(), name.as_str());
    (root, home)
}

/// The command that logs in.
pub fn device_login_args() -> (r: Vec<String>)
    ensures
        text::views(r@) == seq!["login"@, "--device-auth"@],
{
    let mut args: Vec<String> = Vec::new();
    args.push("login".to_owned());
    args.push("--device-auth".to_owned());
    assert(text::views(args@) =~= seq!["login"@, "--device-auth"@]);
    args
}

/// What a login came to.
pub open spec fn login_result(
    success: bool,
    status: Option<i32>,
    auth_exists: bool,
    zh: bool,
) -> Result<(), Seq<char>> {
    if !success {
        Err(
            wording::codex_login_failed(
                zh,
                match status {
                    Some(code) => code,
                    None => 1,
                },
            ),
        )
    } else if !auth_exists {
        Err(wording::login_missing_auth(zh))
    } else {
        Ok(())
    }
}

impl CodexAdapter {
    /// What is said before a login; `ip` is the address of this machine.
    pub fn login_notice(&self, ui: &Messages, ip: &str) -> (r: Vec<String>)
        ensures
            text::views(r@) == seq![
                wording::login_start(ui.zh()),
                wording::login_open_url(ui.zh()),
                wording::login_headless_ip(ui.zh(), ip@),
                ""@,
            ],
    {
        let mut lines: Vec<String> = Vec::new();
        lines.push(ui.login_start().to_owned());
        lines.push(ui.login_open_url().to_owned());
        lines.push(ui.login_headless_ip(ip));
        lines.push("".to_owned());
        assert(text::views(lines@) =~= seq![
            wording::login_start(ui.zh()),
            wording::login_open_url(ui.zh()),
            wording::login_headless_ip(ui.zh(), ip@),
            ""@,
        ]);
        lines
    }

    /// What a login came to: the command succeeded and left credentials, or why not.
    pub fn run_device_auth_login(
        &self,
        ui: &Messages,
        success: bool,
        status: Option<i32>,
        auth_exists: bool,
    ) -> (r: Result<(), String>)
        ensures
            match r {
                Ok(_) => login_result(success, status, auth_exists, ui.zh()) is Ok,
                Err(error) => login_result(success, status, auth_exists, ui.zh()) == Err::<
                    (),
                    Seq<char>,
                >(error@),
            },
    {
        if !success {
            let code: i32 = match status {
                Some(code) => code,
                None => 1,
            };
            return Err(ui.codex_login_failed(code));
        }
        if !auth_exists {
            return Err(ui.login_missing_auth().to_owned());
        }
        Ok(())
    }

    /// What a login with given credentials came to: it left credentials, or why not.
    pub fn run_device_auth_login_autofill(&self, ui: &Messages, auth_exists: bool) -> (r: Result<
        (),
        &'static str,
    >)
        ensures
            match r {
                Ok(_) => auth_exists,
                Err(error) => !auth_exists && error@ == wording::login_missing_auth(ui.zh()),
            },
    {
        if auth_exists {
            Ok(())
        } else {
            Err(ui.login_missing_auth())
        }
    }
}

// ---------------------------------------------------------------------------
// Opening the page on which an account is made
// ---------------------------------------------------------------------------

/// The page on which an account is made.
pub const SIGNUP_URL: &'static str = "https://auth.openai.com/create-account";

/// What opening a page came to.
#[derive(Clone, Copy, Debug, PartialEq, Eq, Structural)]
pub enum BrowserOpenOutcome {
    Opened,
    NoGui,
    Failed,
}

/// What tells that there is a graphical interface: whether these variables are set.
#[derive(Clone, Copy, Debug, PartialEq, Eq, Structural)]
pub struct GuiHints {
    pub display: bool,
    pub wayland_display: bool,
    pub mir_socket: bool,
}

/// Whether a graphical interface shows by the environment alone.
pub fn requires_gui_hint(platform: Platform) -> (r: bool)
    ensures
        r == (platform == Platform::Other),
{
    match platform {
        Platform::Windows => false,
        Platform::MacOs => false,
        Platform::Other => true,
    }
}

/// Whether there is a graphical interface.
pub open spec fn has_gui(platform: Platform, hints: GuiHints) -> bool {
    platform != Platform::Other || hints.display || hints.wayland_display || hints.mir_socket
}

/// Whether there is a graphical interface.
pub fn has_gui_environment(platform: Platform, hints: &GuiHints) -> (r: bool)
    ensures
        r == has_gui(platform, *hints),
{
    match platform {
        Platform::Windows => true,
        Platform::MacOs => true,
        Platform::Other => hints.display || hints.wayland_display || hints.mir_socket,
    }
}

/// The command that opens a page, where there is one.
pub open spec fn open_command(
    platform: Platform,
    has_xdg_open: bool,
    has_gio: bool,
    url: Seq<char>,
) -> Option<(Seq<char>, Seq<Seq<char>>)> {
    match platform {
        Platform::MacOs => Some(("open"@, seq![url])),
        Platform::Windows => Some(("cmd"@, seq!["/C"@, "start"@, ""@, url])),
        Platform::Other => if has_xdg_open {
            Some(("xdg-open"@, seq![url]))
        } else if has_gio {
            Some(("gio"@, seq!["open"@, url]))
        } else {
            None
        },
    }
}

/// A command in models.
pub open spec fn command_model(command: Option<(&'static str, Vec<String>)>) -> Option<
    (Seq<char>, Seq<Seq<char>>),
> {
    match command {
        Some(pair) => Some((pair.0@, text::views(pair.1@))),
        None => None,
    }
}

/// The command that opens a page, where there is one.
pub fn browser_open_command(platform: Platform, has_xdg_open: bool, has_gio: bool, url: &str) -> (r:
    Option<(&'static str, Vec<String>)>)
    ensures
        command_model(r) == open_command(platform, has_xdg_open, has_gio, url@),
{
    let mut args: Vec<String> = Vec::new();
    match platform {
        Platform::MacOs => {
            args.push(url.to_owned());
            assert(text::views(args@) =~= seq![url@]);
            Some(("open", args))
        },
        Platform::Windows => {
            args.push("/C".to_owned());
            args.push("start".to_owned());
            args.push("".to_owned());
            args.push(url.to_owned());
            assert(text::views(args@) =~= seq!["/C"@, "start"@, ""@, url@]);
            Some(("cmd", args))
        },
        Platform::Other => if has_xdg_open {
            args.push(url.to_owned());
            assert(text::views(args@) =~= seq![url@]);
            Some(("xdg-open", args))
        } else if has_gio {
            args.push("open".to_owned());
            args.push(url.to_owned());
            assert(text::views(args@) =~= seq!["open"@, url@]);
            Some(("gio", args))
        } else {
            None
        },
    }
}

/// The command that opens the page, or the outcome where there is no graphical interface
/// or no such command.
pub fn try_open_signup_page(
    platform: Platform,
    hints: &GuiHints,
    has_xdg_open: bool,
    has_gio: bool,
    url: &str,
) -> (r: Result<(&'static str, Vec<String>), BrowserOpenOutcome>)
    ensures
        match r {
            Ok(command) => has_gui(platform, *hints) && command_model(Some(command))
                == open_command(platform, has_xdg_open, has_gio, url@),
            Err(outcome) => outcome == BrowserOpenOutcome::NoGui && (!has_gui(platform, *hints)
                || open_command(platform, has_xdg_open, has_gio, url@) is None),
        },
{
    if requires_gui_hint(platform) && !has_gui_environment(platform, hints) {
        return Err(BrowserOpenOutcome::NoGui);
    }
    match browser_open_command(platform, has_xdg_open, has_gio, url) {
        Some(command) => Ok(command),
        None => Err(BrowserOpenOutcome::NoGui),
    }
}

/// What opening a page came to, once the command was run.
pub fn after_opening(success: bool) -> (r: BrowserOpenOutcome)
    ensures
        r == (if success {
            BrowserOpenOutcome::Opened
        } else {
            BrowserOpenOutcome::Failed
        }),
{
    if success {
        BrowserOpenOutcome::Opened
    } else {
        BrowserOpenOutcome::Failed
    }
}

/// A login succeeded where its command did and the credentials are there; otherwise the error
/// is that of the command first, with its status.
pub proof fn law_login_needs_credentials(
    success: bool,
    status: Option<i32>,
    auth_exists: bool,
    code: i32,
    zh: bool,
)
    ensures
        login_result(success, status, auth_exists, zh) is Ok <==> success && auth_exists,
        success && !auth_exists ==> login_result(success, status, auth_exists, zh) == Err::<
            (),
            Seq<char>,
        >(wording::login_missing_auth(zh)),
        login_result(false, Some(code), auth_exists, zh) == Err::<(), Seq<char>>(
            wording::codex_login_failed(zh, code),
        ),
        login_result(false, None, auth_exists, zh) == login_result(false, Some(1), auth_exists, zh),
{
}

/// macOS and Windows always have a graphical interface; elsewhere one of the three displays
/// must be there.
pub proof fn law_display_means_a_gui(platform: Platform, hints: GuiHints)
    ensures
        platform == Platform::MacOs || platform == Platform::Windows ==> has_gui(platform, hints),
        platform == Platform::Other ==> (has_gui(platform, hints) <==> hints.display
            || hints.wayland_display || hints.mir_socket),
{
}

/// Whatever opens the page is handed its address, as the last argument; without a program
/// for it there is nothing that does.
pub proof fn law_page_is_handed_over(
    platform: Platform,
    has_xdg_open: bool,
    has_gio: bool,
    url: Seq<char>,
)
    ensures
        open_command(platform, has_xdg_open, has_gio, url) matches Some(command) ==> command.1.len()
            > 0 && command.1.last() == url,
        open_command(platform, has_xdg_open, has_gio, url) is None <==> platform == Platform::Other
            && !has_xdg_open && !has_gio,
        open_command(Platform::MacOs, has_xdg_open, has_gio, url) matches Some(command) && command.0 == "open"@,
        open_command(Platform::Windows, has_xdg_open, has_gio, url) matches Some(command) && command.0 == "cmd"@,
        open_command(Platform::Other, true, has_gio, url) matches Some(command) && command.0 == "xdg-open"@,
        open_command(Platform::Other, false, true, url) matches Some(command) && command.0 == "gio"@,
{
}

/// Windows and GNOME need more than the address to open a page; nothing else does.
pub proof fn law_page_is_opened_by_the_system(
    has_xdg_open: bool,
    has_gio: bool,
    url: Seq<char>,
)
    ensures
        open_command(Platform::Windows, has_xdg_open, has_gio, url) matches Some(command)
            && command.1 == seq!["/C"@, "start"@, Seq::empty(), url],
        open_command(Platform::Other, false, true, url) matches Some(command) && command.1 == seq![
            "open"@,
            url,
        ],
        open_command(Platform::MacOs, has_xdg_open, has_gio, url) matches Some(command)
            && command.1.len() == 1,
        open_command(Platform::Other, true, has_gio, url) matches Some(command) && command.1.len()
            == 1,
{
    reveal_strlit("");
    assert(""@ =~= Seq::<char>::empty());
}

/// Where paths have no drives, a login has a directory for temporary files of its own below the
/// state directory, whose name ends with a random id.
pub proof fn law_login_has_a_directory_of_its_own(
    platform: Platform,
    path: Seq<char>,
    state_dir: Seq<char>,
)
    requires
        platform != Platform::Windows,
        state_dir.len() > 0 && state_dir.last() != '/',
        is_login_home(platform, path, state_dir),
    ensures
        (state_dir + "/.tmp/scodex-login-"@).is_prefix_of(path),
        path.len() > 36,
        outside::is_uuid(path.skip(path.len() - 36)),
{
    reveal_strlit(".tmp");
    reveal_strlit("scodex-login-");
    reveal_strlit("/.tmp/scodex-login-");
    let id = choose|id: Seq<char>|
        outside::is_uuid(id) && path == #[trigger] paths::joined(
            platform,
            paths::joined(platform, state_dir, ".tmp"@),
            "scodex-login-"@ + id,
        );
    let head = state_dir + "/.tmp/scodex-login-"@;
    assert(path =~= head + id);
    assert(head =~= path.take(head.len() as int));
    assert(path.skip(path.len() - 36) =~= id);
}

} // verus!
