//! What the program says, in English and in Chinese.

use vstd::prelude::*;

use crate::text;
use crate::wording;

verus! {

/// A language of the user interface.
#[derive(Clone, Copy, Debug, PartialEq, Eq, Structural)]
pub enum UiLanguage {
    En,
    ZhHans,
}

/// What the program says in one language.
#[derive(Clone, Copy, Debug)]
pub struct Messages {
    language: UiLanguage,
}

/// The locale that counts: of those that are not blank, the one for everything, or else the
/// one for messages, or else the usual one.
pub open spec fn effective_locale(
    lc_all: Option<Seq<char>>,
    lc_messages: Option<Seq<char>>,
    lang: Option<Seq<char>>,
) -> Option<Seq<char>> {
    if text::non_blank(lc_all) is Some {
        lc_all
    } else if text::non_blank(lc_messages) is Some {
        lc_messages
    } else if text::non_blank(lang) is Some {
        lang
    } else {
        None
    }
}

/// The language of a locale: Chinese where it is one in UTF-8, or else nothing.
pub open spec fn locale_language(locale: Seq<char>) -> Option<UiLanguage> {
    let name = text::lowercase(text::trimmed(locale));
    if "zh"@.is_prefix_of(name) && (text::contains_text(name, "utf-8"@) || text::contains_text(
        name,
        "utf8"@,
    )) {
        Some(UiLanguage::ZhHans)
    } else {
        None
    }
}

/// The language by the locale that counts.
pub open spec fn language_of(
    lc_all: Option<Seq<char>>,
    lc_messages: Option<Seq<char>>,
    lang: Option<Seq<char>>,
) -> UiLanguage {
    match effective_locale(lc_all, lc_messages, lang) {
        Some(locale) => match locale_language(locale) {
            Some(language) => language,
            None => UiLanguage::En,
        },
        None => UiLanguage::En,
    }
}

/// The language of a locale: Chinese where it is one in UTF-8, or else nothing.
pub fn parse_ui_language_from_locale(locale: &str) -> (r: Option<UiLanguage>)
    ensures
        r == locale_language(locale@),
{
    let normalized = text::to_lowercase(text::trim(locale));
    if !text::starts_with(normalized.as_str(), "zh") {
        return None;
    }
    if text::contains(normalized.as_str(), "utf-8") || text::contains(
        normalized.as_str(),
        "utf8",
    ) {
        Some(UiLanguage::ZhHans)
    } else {
        None
    }
}

fn is_set(value: Option<&str>) -> (r: bool)
    ensures
        r == (text::non_blank(text::opt_str_chars(value)) is Some),
{
    text::trim_non_blank(value).is_some()
}

/// The language by the values of `LC_ALL`, `LC_MESSAGES` and `LANG`.
pub fn detect_ui_language(
    lc_all: Option<&str>,
    lc_messages: Option<&str>,
    lang: Option<&str>,
) -> (r: UiLanguage)
    ensures
        r == language_of(
            text::opt_str_chars(lc_all),
            text::opt_str_chars(lc_messages),
            text::opt_str_chars(lang),
        ),
{
    let locale = if is_set(lc_all) {
        lc_all
    } else if is_set(lc_messages) {
        lc_messages
    } else if is_set(lang) {
        lang
    } else {
        None
    };
    match locale {
        Some(locale) => match parse_ui_language_from_locale(locale) {
            Some(language) => language,
            None => UiLanguage::En,
        },
        None => UiLanguage::En,
    }
}

/// What the program says by the values of `LC_ALL`, `LC_MESSAGES` and `LANG`.
pub fn messages(lc_all: Option<&str>, lc_messages: Option<&str>, lang: Option<&str>) -> (r: Messages)
    ensures
        r.zh() == (language_of(
            text::opt_str_chars(lc_all),
            text::opt_str_chars(lc_messages),
            text::opt_str_chars(lang),
        ) == UiLanguage::ZhHans),
{
    Messages { language: detect_ui_language(lc_all, lc_messages, lang) }
}

/// The answer yes or no, in whatever case.
pub open spec fn yes_or_no(value: Seq<char>) -> Option<bool> {
    let answer = text::lowercase(text::trimmed(value));
    if answer == "y"@ || answer == "yes"@ {
        Some(true)
    } else if answer == "n"@ || answer == "no"@ {
        Some(false)
    } else {
        None
    }
}

/// The answer yes or no, in whatever case.
pub fn parse_yes_no(value: &str) -> (r: Option<bool>)
    ensures
        r == yes_or_no(value@),
{
    let answer = text::to_lowercase(text::trim(value));
    let answer = answer.as_str();
    if text::same_text(answer, "y") || text::same_text(answer, "yes") {
        Some(true)
    } else if text::same_text(answer, "n") || text::same_text(answer, "no") {
        Some(false)
    } else {
        None
    }
}

/// An error and what caused it, from the outermost on, as it is shown.
pub open spec fn error_text(chain: Seq<Seq<char>>, zh: bool) -> Seq<char> {
    if chain.len() == 0 {
        error_word(zh)
    } else {
        error_word(zh) + ": "@ + text::joined(chain, ": "@)
    }
}

/// An error and what caused it, from the outermost on, as it is shown.
pub fn format_top_level_error(ui: &Messages, chain: &Vec<String>) -> (r: String)
    ensures
        r@ == (if chain@.len() == 0 {
            error_word(ui.zh())
        } else {
            error_word(ui.zh()) + ": "@ + text::joined(text::views(chain@), ": "@)
        }),
        r@ == error_text(text::views(chain@), ui.zh()),
{
    let prefix = if ui.is_zh() {
        "错误"
    } else {
        "Error"
    };
    if chain.len() == 0 {
        return prefix.to_owned();
    }
    let causes = text::join(chain, ": ");
    text::concat3(prefix, ": ", causes.as_str())
}

/// The word for an error.
pub open spec fn error_word(zh: bool) -> Seq<char> {
    if zh {
        "错误"@
    } else {
        "Error"@
    }
}

impl Messages {
    /// Whether the language is Chinese.
    pub closed spec fn zh(self) -> bool {
        self.language == UiLanguage::ZhHans
    }

    /// What the program says in that language.
    pub fn new(language: UiLanguage) -> (r: Messages)
        ensures
            r.zh() == (language == UiLanguage::ZhHans),
    {
        Messages { language }
    }

    /// Whether the language is Chinese.
    pub fn is_zh(&self) -> (r: bool)
        ensures
            r == self.zh(),
    {
        self.language == UiLanguage::ZhHans
    }

    /// Where to log in by hand, and with which code.
    pub fn login_autofill_prompt(&self, url: &str, code: Option<&str>) -> (r: String)
        ensures
            r@ == (if self.zh() {
                match code {
                    Some(code) => "设备授权链接："@ + url@ + "\n一次性 code："@ + code@,
                    None => "设备授权链接："@ + url@,
                }
            } else {
                match code {
                    Some(code) => "Device URL: "@ + url@ + "\nOne-time code: "@ + code@,
                    None => "Device URL: "@ + url@,
                }
            }),
    {
        let zh = self.is_zh();
        let mut out = if zh {
            text::concat2("设备授权链接：", url)
        } else {
            text::concat2("Device URL: ", url)
        };
        if let Some(code) = code {
            if zh {
                out.append("\n一次性 code：");
            } else {
                out.append("\nOne-time code: ");
            }
            out.append(code);
        }
        out
    }

    /// The headers of the list of accounts.
    pub fn table_headers(&self) -> (r: [&'static str; 8])
        ensures
            text::str_views(r@) == wording::table_headers(self.zh()),
    {
        let headers = if self.is_zh() {
            ["当前", "邮箱", "类型", "套餐", "5h", "Weekly", "重置时间", "状态"]
        } else {
            ["Active", "Email", "Type", "Plan", "5h", "Weekly", "ResetOn", "Status"]
        };
        assert(text::str_views(headers@) =~= wording::table_headers(self.zh()));
        headers
    }

    /// What the program is.
    pub fn cli_about(&self) -> (r: &'static str)
        ensures
            r@ == wording::cli_about(self.zh()),
    {
        if self.is_zh() {
            "面向代理 CLI 的跨平台账号感知启动器。"
        } else {
            "Cross-platform account-aware launcher for agent CLIs."
        }
    }

    /// No account can be used.
    pub fn no_usable_account(&self) -> (r: &'static str)
        ensures
            r@ == wording::no_usable_account(self.zh()),
    {
        if self.is_zh() {
            "没有找到可用账号。"
        } else {
            "No usable account found."
        }
    }

    /// No account can be used, and how to add one.
    pub fn no_usable_account_hint(&self) -> (r: &'static str)
        ensures
            r@ == wording::no_usable_account_hint(self.zh()),
    {
        if self.is_zh() {
            "没有可用账号，请先执行 `scodex add` 添加一个账号。"
        } else {
            "No usable accounts found. Run `scodex add` to add one first."
        }
    }

    /// Nothing was there to import.
    pub fn no_importable_accounts(&self) -> (r: &'static str)
        ensures
            r@ == wording::no_importable_accounts(self.zh()),
    {
        if self.is_zh() {
            "没有找到可导入的账号。"
        } else {
            "No importable accounts found."
        }
    }

    /// An account was added.
    pub fn added_account(&self, email: &str) -> (r: String)
        ensures
            r@ == wording::added_account(self.zh(), email@),
    {
        if self.is_zh() {
            let mut out = "已添加 ".to_owned();
            out.append(email);
            out
        } else {
            let mut out = "Added ".to_owned();
            out.append(email);
            out
        }
    }

    /// No account goes by that email.
    pub fn unknown_account(&self, email: &str) -> (r: String)
        ensures
            r@ == wording::unknown_account(self.zh(), email@),
    {
        if self.is_zh() {
            let mut out = "未知账号：".to_owned();
            out.append(email);
            out
        } else {
            let mut out = "Unknown account: ".to_owned();
            out.append(email);
            out
        }
    }

    /// The question before an account is removed.
    pub fn confirm_rm(&self, email: &str) -> (r: String)
        ensures
            r@ == wording::confirm_rm(self.zh(), email@),
    {
        if self.is_zh() {
            let mut out = "确认删除账号 ".to_owned();
            out.append(email);
            out.append("？此操作不可恢复 (Y/N)：");
            out
        } else {
            let mut out = "Remove account ".to_owned();
            out.append(email);
            out.append("? This cannot be undone (Y/N): ");
            out
        }
    }

    /// Nothing was removed.
    pub fn rm_cancelled(&self) -> (r: &'static str)
        ensures
            r@ == wording::rm_cancelled(self.zh()),
    {
        if self.is_zh() {
            "已取消。"
        } else {
            "Cancelled."
        }
    }

    /// An account was removed.
    pub fn removed_account(&self, email: &str) -> (r: String)
        ensures
            r@ == wording::removed_account(self.zh(), email@),
    {
        if self.is_zh() {
            let mut out = "已移除 ".to_owned();
            out.append(email);
            out
        } else {
            let mut out = "Removed ".to_owned();
            out.append(email);
            out
        }
    }

    /// Nobody is there to answer the question.
    pub fn rm_requires_tty(&self) -> (r: &'static str)
        ensures
            r@ == wording::rm_requires_tty(self.zh()),
    {
        if self.is_zh() {
            "当前输入不是终端；请加 -y 跳过确认。"
        } else {
            "Input is not a terminal; pass -y to skip confirmation."
        }
    }

    /// How many accounts were refreshed.
    pub fn refreshed_accounts(&self, count: usize) -> (r: String)
        ensures
            r@ == wording::refreshed_accounts(self.zh(), count),
    {
        if self.is_zh() {
            let mut out = "已刷新 ".to_owned();
            out.append(text::decimal_usize(count).as_str());
            out.append(" 个账号。");
            out
        } else {
            let mut out = "Refreshed ".to_owned();
            out.append(text::decimal_usize(count).as_str());
            out.append(" account(s).");
            out
        }
    }

    /// How many accounts can be used.
    pub fn usable_account_summary(&self, count: usize) -> (r: String)
        ensures
            r@ == wording::usable_account_summary(self.zh(), count),
    {
        if self.is_zh() {
            let mut out = "共有 ".to_owned();
            out.append(text::decimal_usize(count).as_str());
            out.append(" 个可用账号");
            out
        } else {
            let mut out = text::decimal_usize(count);
            out.append(" usable account(s)");
            out
        }
    }

    /// There is no newer version.
    pub fn update_already_current(&self, version: &str, path: &str) -> (r: String)
        ensures
            r@ == wording::update_already_current(self.zh(), version@, path@),
    {
        if self.is_zh() {
            let mut out = "当前已是最新已安装版本（".to_owned();
            out.append(version);
            out.append("），位置：");
            out.append(path);
            out
        } else {
            let mut out = "Already on the latest installed version (".to_owned();
            out.append(version);
            out.append(") at ");
            out.append(path);
            out
        }
    }

    /// A newer version was installed.
    pub fn update_completed(&self, previous: &str, installed: &str, path: &str) -> (r: String)
        ensures
            r@ == wording::update_completed(self.zh(), previous@, installed@, path@),
    {
        if self.is_zh() {
            let mut out = "已将 scodex 从 ".to_owned();
            out.append(previous);
            out.append(" 更新到 ");
            out.append(installed);
            out.append("，位置：");
            out.append(path);
            out
        } else {
            let mut out = "Updated scodex from ".to_owned();
            out.append(previous);
            out.append(" to ");
            out.append(installed);
            out.append(" at ");
            out.append(path);
            out
        }
    }

    /// What to do after an update.
    pub fn restart_terminal_hint(&self) -> (r: &'static str)
        ensures
            r@ == wording::restart_terminal_hint(self.zh()),
    {
        if self.is_zh() {
            "如果当前终端仍然解析到旧二进制，请重启终端。"
        } else {
            "Restart the current terminal if it still resolves the old binary."
        }
    }

    /// An account was imported.
    pub fn imported_account(&self, email: &str, id: &str) -> (r: String)
        ensures
            r@ == wording::imported_account(self.zh(), email@, id@),
    {
        if self.is_zh() {
            let mut out = "已导入 ".to_owned();
            out.append(email);
            out.append(" -> ");
            out.append(id);
            out
        } else {
            let mut out = "Imported ".to_owned();
            out.append(email);
            out.append(" -> ");
            out.append(id);
            out
        }
    }

    /// What goes before the account that was switched to.
    pub fn selection_switched(&self) -> (r: &'static str)
        ensures
            r@ == wording::selection_switched(self.zh()),
    {
        if self.is_zh() {
            "已切换到"
        } else {
            "Switched to"
        }
    }

    /// What goes before the account that a dry run selects.
    pub fn selection_would_select(&self) -> (r: &'static str)
        ensures
            r@ == wording::selection_would_select(self.zh()),
    {
        if self.is_zh() {
            "将会选择"
        } else {
            "Would select"
        }
    }

    /// What stands for a value that is not there.
    pub fn na(&self) -> (r: &'static str)
        ensures
            r@ == wording::na(self.zh()),
    {
        if self.is_zh() {
            "无"
        } else {
            "N/A"
        }
    }

    /// What stands for a plan that is not known.
    pub fn unknown(&self) -> (r: &'static str)
        ensures
            r@ == wording::unknown(self.zh()),
    {
        if self.is_zh() {
            "未知"
        } else {
            "Unknown"
        }
    }

    /// The status of an account that can be used.
    pub fn status_ok(&self) -> (r: &'static str)
        ensures
            r@ == wording::status_ok(self.zh()),
    {
        if self.is_zh() {
            "正常"
        } else {
            "OK"
        }
    }

    /// The status of an account whose refresh failed.
    pub fn status_error(&self) -> (r: &'static str)
        ensures
            r@ == wording::status_error(self.zh()),
    {
        if self.is_zh() {
            "错误"
        } else {
            "ERROR"
        }
    }

    /// The status of an account that needs a new login.
    pub fn status_relogin(&self) -> (r: &'static str)
        ensures
            r@ == wording::status_relogin(self.zh()),
    {
        if self.is_zh() {
            "需重登"
        } else {
            "RELOGIN"
        }
    }

    /// A login starts.
    pub fn login_start(&self) -> (r: &'static str)
        ensures
            r@ == wording::login_start(self.zh()),
    {
        if self.is_zh() {
            "正在启动底层 CLI 的设备授权登录流程。"
        } else {
            "Starting the underlying CLI device-auth login flow."
        }
    }

    /// What to do with the address that is printed next.
    pub fn login_open_url(&self) -> (r: &'static str)
        ensures
            r@ == wording::login_open_url(self.zh()),
    {
        if self.is_zh() {
            "请在任意可用浏览器的设备上打开上面输出的 URL 并完成登录。"
        } else {
            "Open the printed URL on any browser-enabled machine and finish the login there."
        }
    }

    /// The address of this machine, for a login from another.
    pub fn login_headless_ip(&self, ip: &str) -> (r: String)
        ensures
            r@ == wording::login_headless_ip(self.zh(), ip@),
    {
        if self.is_zh() {
            let mut out = "当前无头主机局域网 IP：".to_owned();
            out.append(ip);
            out
        } else {
            let mut out = "Headless host LAN IP: ".to_owned();
            out.append(ip);
            out
        }
    }

    /// The last session is resumed.
    pub fn resume_session(&self) -> (r: &'static str)
        ensures
            r@ == wording::resume_session(self.zh()),
    {
        if self.is_zh() {
            "正在恢复当前目录的最近一次 CLI 会话。"
        } else {
            "Resuming the latest CLI session for this directory."
        }
    }

    /// The last session could not be resumed.
    pub fn resume_fallback(&self) -> (r: &'static str)
        ensures
            r@ == wording::resume_fallback(self.zh()),
    {
        if self.is_zh() {
            "恢复会话未能正常完成，正在回退到新会话。"
        } else {
            "Resume did not complete cleanly; falling back to a fresh CLI session."
        }
    }

    /// A new session starts.
    pub fn fresh_session(&self) -> (r: &'static str)
        ensures
            r@ == wording::fresh_session(self.zh()),
    {
        if self.is_zh() {
            "正在启动新的 CLI 会话。"
        } else {
            "Starting a fresh CLI session."
        }
    }

    /// Codex is not installed.
    pub fn missing_codex(&self) -> (r: &'static str)
        ensures
            r@ == wording::missing_codex(self.zh()),
    {
        if self.is_zh() {
            "未找到底层 CLI 可执行文件。这会导致当前包装器无法正常工作。"
        } else {
            "The underlying CLI executable was not found. The wrapper cannot function correctly."
        }
    }

    /// What goes before the command that installs Codex.
    pub fn install_hint(&self) -> (r: &'static str)
        ensures
            r@ == wording::install_hint(self.zh()),
    {
        if self.is_zh() {
            "你可以先运行下面的命令安装底层 CLI："
        } else {
            "You can install the underlying CLI by running:"
        }
    }

    /// What goes before the command, where it is left to the user.
    pub fn manual_install(&self) -> (r: &'static str)
        ensures
            r@ == wording::manual_install(self.zh()),
    {
        if self.is_zh() {
            "请先手动安装底层 CLI，然后重新运行当前包装器。"
        } else {
            "Please install the underlying CLI manually and run the wrapper again."
        }
    }

    /// The question before Codex is installed.
    pub fn confirm_install(&self) -> (r: &'static str)
        ensures
            r@ == wording::confirm_install(self.zh()),
    {
        if self.is_zh() {
            "如果你希望我现在帮你安装，请确认（Y/N）："
        } else {
            "I can try to install it for you now. Continue? (Y/N): "
        }
    }

    /// The answer was neither yes nor no.
    pub fn invalid_yes_no(&self) -> (r: &'static str)
        ensures
            r@ == wording::invalid_yes_no(self.zh()),
    {
        if self.is_zh() {
            "请输入 Y/YES/N/NO。"
        } else {
            "Please answer Y/YES/N/NO."
        }
    }

    /// Codex was installed and is not found.
    pub fn codex_install_still_missing(&self) -> (r: &'static str)
        ensures
            r@ == wording::codex_install_still_missing(self.zh()),
    {
        if self.is_zh() {
            "安装似乎已完成，但当前仍然找不到底层 CLI。请重启 shell，或显式设置对应的可执行文件路径环境变量。"
        } else {
            "Installation completed, but the underlying CLI is still not available. Restart the shell or set the executable path explicitly."
        }
    }

    /// Codex could not be installed.
    pub fn codex_install_failed(&self, status: i32) -> (r: String)
        ensures
            r@ == wording::codex_install_failed(self.zh(), status),
    {
        if self.is_zh() {
            let mut out = "底层 CLI 安装失败，退出码：".to_owned();
            out.append(text::decimal_i32(status).as_str());
            out
        } else {
            let mut out = "Underlying CLI installation failed with status ".to_owned();
            out.append(text::decimal_i32(status).as_str());
            out
        }
    }

    /// The program that installs Codex is not found.
    pub fn codex_install_tool_missing(&self, tool: &str) -> (r: String)
        ensures
            r@ == wording::codex_install_tool_missing(self.zh(), tool@),
    {
        if self.is_zh() {
            let mut out = "未找到 ".to_owned();
            out.append(tool);
            out.append("。要自动安装底层 CLI，当前机器需要先满足对应安装前置条件。");
            out
        } else {
            let mut out = tool.to_owned();
            out.append(" not found. Install the prerequisite toolchain before trying to install the underlying CLI automatically.");
            out
        }
    }

    /// The login failed.
    pub fn codex_login_failed(&self, status: i32) -> (r: String)
        ensures
            r@ == wording::codex_login_failed(self.zh(), status),
    {
        if self.is_zh() {
            let mut out = "底层 CLI 登录失败，退出码：".to_owned();
            out.append(text::decimal_i32(status).as_str());
            out
        } else {
            let mut out = "Underlying CLI login failed with status ".to_owned();
            out.append(text::decimal_i32(status).as_str());
            out
        }
    }

    /// The login left no credentials.
    pub fn login_missing_auth(&self) -> (r: &'static str)
        ensures
            r@ == wording::login_missing_auth(self.zh()),
    {
        if self.is_zh() {
            "登录流程已结束，但没有生成 auth.json。"
        } else {
            "Login finished but no auth.json was produced."
        }
    }

    /// A login with given credentials starts.
    pub fn login_autofill_start(&self) -> (r: &'static str)
        ensures
            r@ == wording::login_autofill_start(self.zh()),
    {
        if self.is_zh() {
            "正在启动底层 CLI 登录流程，并打开受控 Chrome 完成 OAuth 自动填充。"
        } else {
            "Starting the underlying CLI login flow and opening a controlled Chrome window for OAuth auto-fill."
        }
    }

    /// The login waits for consent.
    pub fn login_autofill_waiting_consent(&self) -> (r: &'static str)
        ensures
            r@ == wording::login_autofill_waiting_consent(self.zh()),
    {
        if self.is_zh() {
            "OAuth 自动填充完成。请在刚打开的 Chrome 窗口里点一次 `Authorize` 完成登录。"
        } else {
            "OAuth auto-fill complete. Click `Authorize` once in the opened Chrome window to finish."
        }
    }

    /// No browser was found for the login.
    pub fn login_autofill_no_chrome(&self) -> (r: &'static str)
        ensures
            r@ == wording::login_autofill_no_chrome(self.zh()),
    {
        if self.is_zh() {
            "未检测到 Chrome 或 Chromium，无法执行 OAuth 自动填充。请安装 Chrome，或改用 `scodex login`（不带 --oauth）。"
        } else {
            "Chrome or Chromium not detected; cannot run OAuth auto-fill. Install Chrome or run `scodex login` without --oauth."
        }
    }

    /// The login lacks an email or a password.
    pub fn login_autofill_missing_credentials(&self) -> (r: &'static str)
        ensures
            r@ == wording::login_autofill_missing_credentials(self.zh()),
    {
        if self.is_zh() {
            "使用 --oauth 时必须同时传入 --username 和 --password。"
        } else {
            "--oauth requires both --username and --password."
        }
    }

    /// The login lacks a token, an address or a provider.
    pub fn login_api_missing_credentials(&self) -> (r: &'static str)
        ensures
            r@ == wording::login_api_missing_credentials(self.zh()),
    {
        if self.is_zh() {
            "使用 --api 时必须同时传入 --API_TOKEN、--BASE_URL 和 --provider，且 token 去掉 sk- 前缀后至少 8 个字符。"
        } else {
            "--api requires --API_TOKEN, --BASE_URL, and --provider, and the token must be at least 8 characters after removing the sk- prefix."
        }
    }

    /// Two ways to log in were asked for.
    pub fn login_mode_conflict(&self) -> (r: &'static str)
        ensures
            r@ == wording::login_mode_conflict(self.zh()),
    {
        if self.is_zh() {
            "--api 和 --oauth 不能同时使用。"
        } else {
            "--api and --oauth cannot be used together."
        }
    }

    /// The copying starts.
    pub fn deploy_start(&self, target: &str) -> (r: String)
        ensures
            r@ == wording::deploy_start(self.zh(), target@),
    {
        if self.is_zh() {
            let mut out = "正在把当前凭证上传到 ".to_owned();
            out.append(target);
            out
        } else {
            let mut out = "Deploying the current credential to ".to_owned();
            out.append(target);
            out
        }
    }

    /// The credentials were copied.
    pub fn deploy_completed(&self, target: &str) -> (r: String)
        ensures
            r@ == wording::deploy_completed(self.zh(), target@),
    {
        if self.is_zh() {
            let mut out = "已把当前凭证上传到 ".to_owned();
            out.append(target);
            out
        } else {
            let mut out = "Deployed the current credential to ".to_owned();
            out.append(target);
            out
        }
    }

    /// There are no credentials to copy.
    pub fn deploy_missing_auth(&self, path: &str) -> (r: String)
        ensures
            r@ == wording::deploy_missing_auth(self.zh(), path@),
    {
        if self.is_zh() {
            let mut out = "当前可用的 auth.json 不存在：".to_owned();
            out.append(path);
            out
        } else {
            let mut out = "Current auth.json not found: ".to_owned();
            out.append(path);
            out
        }
    }

    /// The target is none.
    pub fn deploy_invalid_target(&self, target: &str) -> (r: String)
        ensures
            r@ == wording::deploy_invalid_target(self.zh(), target@),
    {
        if self.is_zh() {
            let mut out = "无效的远端目标：".to_owned();
            out.append(target);
            out.append("。请使用 user@host:/target_path");
            out
        } else {
            let mut out = "Invalid remote target: ".to_owned();
            out.append(target);
            out.append(". Use user@host:/target_path");
            out
        }
    }

    /// `ssh` is not installed.
    pub fn deploy_missing_ssh(&self) -> (r: &'static str)
        ensures
            r@ == wording::deploy_missing_ssh(self.zh()),
    {
        if self.is_zh() {
            "未找到 ssh。执行 `scodex deploy` 需要它。"
        } else {
            "ssh not found; `scodex deploy` requires it."
        }
    }

    /// `scp` is not installed.
    pub fn deploy_missing_scp(&self) -> (r: &'static str)
        ensures
            r@ == wording::deploy_missing_scp(self.zh()),
    {
        if self.is_zh() {
            "未找到 scp。执行 `scodex deploy` 需要它。"
        } else {
            "scp not found; `scodex deploy` requires it."
        }
    }

    /// There is no such identity file.
    pub fn deploy_identity_not_found(&self, path: &str) -> (r: String)
        ensures
            r@ == wording::deploy_identity_not_found(self.zh(), path@),
    {
        if self.is_zh() {
            let mut out = "SSH 身份文件不存在：".to_owned();
            out.append(path);
            out
        } else {
            let mut out = "SSH identity file not found: ".to_owned();
            out.append(path);
            out
        }
    }

    /// The directory could not be prepared.
    pub fn deploy_prepare_remote_dir_failed(&self, status: i32) -> (r: String)
        ensures
            r@ == wording::deploy_prepare_remote_dir_failed(self.zh(), status),
    {
        if self.is_zh() {
            let mut out = "远端目录准备失败，退出码：".to_owned();
            out.append(text::decimal_i32(status).as_str());
            out
        } else {
            let mut out = "Preparing the remote directory failed with status ".to_owned();
            out.append(text::decimal_i32(status).as_str());
            out
        }
    }

    /// The credentials could not be copied.
    pub fn deploy_copy_failed(&self, status: i32) -> (r: String)
        ensures
            r@ == wording::deploy_copy_failed(self.zh(), status),
    {
        if self.is_zh() {
            let mut out = "凭证复制失败，退出码：".to_owned();
            out.append(text::decimal_i32(status).as_str());
            out
        } else {
            let mut out = "Credential copy failed with status ".to_owned();
            out.append(text::decimal_i32(status).as_str());
            out
        }
    }

    /// `git` is not installed.
    pub fn repo_sync_missing_git(&self, install_command: &str) -> (r: String)
        ensures
            r@ == wording::repo_sync_missing_git(self.zh(), install_command@),
    {
        if self.is_zh() {
            let mut out = "未找到 git。执行 `scodex push` 或 `scodex pull` 需要它。请先安装 git，例如：".to_owned();
            out.append(install_command);
            out
        } else {
            let mut out = "git not found; `scodex push` and `scodex pull` require it. Install git first, for example: ".to_owned();
            out.append(install_command);
            out
        }
    }

    /// The address of the repository is none.
    pub fn repo_sync_invalid_repo(&self) -> (r: &'static str)
        ensures
            r@ == wording::repo_sync_invalid_repo(self.zh()),
    {
        if self.is_zh() {
            "仓库参数不能为空。"
        } else {
            "Repository argument must not be empty."
        }
    }

    /// No repository is known.
    pub fn repo_sync_missing_repo(&self, env_name: &str) -> (r: String)
        ensures
            r@ == wording::repo_sync_missing_repo(self.zh(), env_name@),
    {
        if self.is_zh() {
            let mut out = "未找到账号池仓库配置。请传入 `<REPO>`，或设置环境变量 `".to_owned();
            out.append(env_name);
            out.append("`，或先执行一次带 `<REPO>` 的 `scodex push/pull` 以保存本地配置。");
            out
        } else {
            let mut out = "No account-pool repository configured. Pass `<REPO>`, set `".to_owned();
            out.append(env_name);
            out.append("`, or run `scodex push/pull` once with `<REPO>` to save it locally.");
            out
        }
    }

    /// The path in the repository is none.
    pub fn repo_sync_invalid_path(&self, path: &str) -> (r: String)
        ensures
            r@ == wording::repo_sync_invalid_path(self.zh(), path@),
    {
        if self.is_zh() {
            let mut out = "无效的仓库子目录：".to_owned();
            out.append(path);
            out.append("。只允许相对路径，且不能包含 `..`。");
            out
        } else {
            let mut out = "Invalid repository subdirectory: ".to_owned();
            out.append(path);
            out.append(". Use a relative path without `..`.");
            out
        }
    }

    /// There is no key for the pool.
    pub fn repo_sync_missing_key(&self, env_name: &str) -> (r: String)
        ensures
            r@ == wording::repo_sync_missing_key(self.zh(), env_name@),
    {
        if self.is_zh() {
            let mut out = "未设置账号池加密密钥环境变量：".to_owned();
            out.append(env_name);
            out
        } else {
            let mut out = "Missing account-pool encryption key environment variable: ".to_owned();
            out.append(env_name);
            out
        }
    }

    /// The pool could not be decrypted.
    pub fn repo_sync_decrypt_failed(&self, env_name: &str) -> (r: String)
        ensures
            r@ == wording::repo_sync_decrypt_failed(self.zh(), env_name@),
    {
        if self.is_zh() {
            let mut out = "账号池解密失败。请检查 ".to_owned();
            out.append(env_name);
            out.append(" 是否正确，或确认远端仓库里的加密 bundle 没有损坏。");
            out
        } else {
            let mut out = "Failed to decrypt the account pool. Check whether ".to_owned();
            out.append(env_name);
            out.append(" is correct and whether the encrypted bundle in the repository is intact.");
            out
        }
    }

    /// The repository could not be cloned.
    pub fn repo_sync_clone_failed(&self, repo: &str, status: i32) -> (r: String)
        ensures
            r@ == wording::repo_sync_clone_failed(self.zh(), repo@, status),
    {
        if self.is_zh() {
            let mut out = "克隆仓库失败：".to_owned();
            out.append(repo);
            out.append("，退出码：");
            out.append(text::decimal_i32(status).as_str());
            out
        } else {
            let mut out = "Repository clone failed: ".to_owned();
            out.append(repo);
            out.append(", status ");
            out.append(text::decimal_i32(status).as_str());
            out
        }
    }

    /// The repository may not be read.
    pub fn repo_sync_clone_auth_failed(&self, repo: &str) -> (r: String)
        ensures
            r@ == wording::repo_sync_clone_auth_failed(self.zh(), repo@),
    {
        if self.is_zh() {
            let mut out = "无法访问仓库：".to_owned();
            out.append(repo);
            out.append("。请检查仓库 URL，以及当前 Git 凭据、SSH key 或 PAT 是否有这个私有仓库的读取权限。");
            out
        } else {
            let mut out = "Cannot access repository: ".to_owned();
            out.append(repo);
            out.append(". Check the repository URL and whether your current Git credentials, SSH key, or PAT has read access to this private repository.");
            out
        }
    }

    /// The pool could not be staged.
    pub fn repo_sync_stage_failed(&self, status: i32) -> (r: String)
        ensures
            r@ == wording::repo_sync_stage_failed(self.zh(), status),
    {
        if self.is_zh() {
            let mut out = "暂存账号池变更失败，退出码：".to_owned();
            out.append(text::decimal_i32(status).as_str());
            out
        } else {
            let mut out = "Staging account-pool changes failed with status ".to_owned();
            out.append(text::decimal_i32(status).as_str());
            out
        }
    }

    /// The state of the repository could not be read.
    pub fn repo_sync_status_failed(&self, status: i32) -> (r: String)
        ensures
            r@ == wording::repo_sync_status_failed(self.zh(), status),
    {
        if self.is_zh() {
            let mut out = "检查仓库状态失败，退出码：".to_owned();
            out.append(text::decimal_i32(status).as_str());
            out
        } else {
            let mut out = "Checking repository status failed with status ".to_owned();
            out.append(text::decimal_i32(status).as_str());
            out
        }
    }

    /// The pool could not be committed.
    pub fn repo_sync_commit_failed(&self, status: i32) -> (r: String)
        ensures
            r@ == wording::repo_sync_commit_failed(self.zh(), status),
    {
        if self.is_zh() {
            let mut out = "提交账号池变更失败，退出码：".to_owned();
            out.append(text::decimal_i32(status).as_str());
            out
        } else {
            let mut out = "Committing account-pool changes failed with status ".to_owned();
            out.append(text::decimal_i32(status).as_str());
            out
        }
    }

    /// The pool could not be pushed.
    pub fn repo_sync_push_failed(&self, repo: &str, status: i32) -> (r: String)
        ensures
            r@ == wording::repo_sync_push_failed(self.zh(), repo@, status),
    {
        if self.is_zh() {
            let mut out = "推送账号池变更失败：".to_owned();
            out.append(repo);
            out.append("，退出码：");
            out.append(text::decimal_i32(status).as_str());
            out
        } else {
            let mut out = "Pushing account-pool changes failed: ".to_owned();
            out.append(repo);
            out.append(", status ");
            out.append(text::decimal_i32(status).as_str());
            out
        }
    }

    /// The repository may not be written.
    pub fn repo_sync_push_auth_failed(&self, repo: &str) -> (r: String)
        ensures
            r@ == wording::repo_sync_push_auth_failed(self.zh(), repo@),
    {
        if self.is_zh() {
            let mut out = "无法写入仓库：".to_owned();
            out.append(repo);
            out.append("。请检查当前 Git 凭据、SSH key 或 PAT 是否有这个私有仓库的写入权限。");
            out
        } else {
            let mut out = "Cannot write to repository: ".to_owned();
            out.append(repo);
            out.append(". Check whether your current Git credentials, SSH key, or PAT has write access to this private repository.");
            out
        }
    }

    /// There is no account to push.
    pub fn repo_push_no_accounts(&self) -> (r: &'static str)
        ensures
            r@ == wording::repo_push_no_accounts(self.zh()),
    {
        if self.is_zh() {
            "当前状态目录里没有账号可推送。"
        } else {
            "No accounts found in the current state directory."
        }
    }

    /// The pushing starts.
    pub fn repo_push_start(&self, repo: &str) -> (r: String)
        ensures
            r@ == wording::repo_push_start(self.zh(), repo@),
    {
        if self.is_zh() {
            let mut out = "正在把本地账号池全量推送到 ".to_owned();
            out.append(repo);
            out
        } else {
            let mut out = "Pushing the full local account pool to ".to_owned();
            out.append(repo);
            out
        }
    }

    /// The pool was pushed.
    pub fn repo_push_completed(&self, repo: &str, count: usize) -> (r: String)
        ensures
            r@ == wording::repo_push_completed(self.zh(), repo@, count),
    {
        if self.is_zh() {
            let mut out = "已用本地账号池覆盖 ".to_owned();
            out.append(repo);
            out.append("，共 ");
            out.append(text::decimal_usize(count).as_str());
            out.append(" 个账号");
            out
        } else {
            let mut out = "Overwrote ".to_owned();
            out.append(repo);
            out.append(" with the local account pool (");
            out.append(text::decimal_usize(count).as_str());
            out.append(" account(s))");
            out
        }
    }

    /// The pool in the repository is up to date.
    pub fn repo_push_no_changes(&self, repo: &str) -> (r: String)
        ensures
            r@ == wording::repo_push_no_changes(self.zh(), repo@),
    {
        if self.is_zh() {
            let mut out = repo.to_owned();
            out.append(" 里的账号池没有差异，无需推送");
            out
        } else {
            let mut out = "No account-pool changes to push to ".to_owned();
            out.append(repo);
            out
        }
    }

    /// The pulling starts.
    pub fn repo_pull_start(&self, repo: &str) -> (r: String)
        ensures
            r@ == wording::repo_pull_start(self.zh(), repo@),
    {
        if self.is_zh() {
            let mut out = "正在从 ".to_owned();
            out.append(repo);
            out.append(" 拉取账号池，并准备覆盖本地");
            out
        } else {
            let mut out = "Pulling the account pool from ".to_owned();
            out.append(repo);
            out.append(" and preparing to overwrite local state");
            out
        }
    }

    /// The repository holds no pool.
    pub fn repo_pull_missing_bundle(&self, path: &str) -> (r: String)
        ensures
            r@ == wording::repo_pull_missing_bundle(self.zh(), path@),
    {
        if self.is_zh() {
            let mut out = "仓库里没有找到账号池目录：".to_owned();
            out.append(path);
            out
        } else {
            let mut out = "Account-pool directory not found in repository: ".to_owned();
            out.append(path);
            out
        }
    }

    /// The pool in the repository is empty.
    pub fn repo_pull_no_accounts(&self, path: &str) -> (r: String)
        ensures
            r@ == wording::repo_pull_no_accounts(self.zh(), path@),
    {
        if self.is_zh() {
            let mut out = "账号池目录里没有可导入的账号：".to_owned();
            out.append(path);
            out
        } else {
            let mut out = "No importable accounts found in account-pool directory: ".to_owned();
            out.append(path);
            out
        }
    }

    /// The pool was pulled.
    pub fn repo_pull_completed(&self, repo: &str, count: usize) -> (r: String)
        ensures
            r@ == wording::repo_pull_completed(self.zh(), repo@, count),
    {
        if self.is_zh() {
            let mut out = "已用 ".to_owned();
            out.append(repo);
            out.append(" 的账号池覆盖本地，共 ");
            out.append(text::decimal_usize(count).as_str());
            out.append(" 个账号");
            out
        } else {
            let mut out = "Overwrote the local account pool with ".to_owned();
            out.append(text::decimal_usize(count).as_str());
            out.append(" account(s) from ");
            out.append(repo);
            out
        }
    }
}

// ---------------------------------------------------------------------------
// Laws
// ---------------------------------------------------------------------------

/// The locale for everything comes before that for messages, which comes before the usual
/// one; where none is set the language is English.
pub proof fn law_first_locale_counts(
    all: Seq<char>,
    messages: Option<Seq<char>>,
    lang: Option<Seq<char>>,
)
    requires
        text::trimmed(all).len() > 0,
    ensures
        language_of(Some(all), messages, lang) == language_of(None, None, Some(all)),
        language_of(None, Some(all), lang) == language_of(None, None, Some(all)),
        language_of(None, None, Some(all)) == UiLanguage::ZhHans <==> locale_language(all) is Some,
        language_of(None, None, None) == UiLanguage::En,
        text::trimmed(Seq::<char>::empty()).len() == 0 ==> language_of(
            Some(Seq::empty()),
            None,
            Some(all),
        ) == language_of(None, None, Some(all)),
{
}

/// Chinese is spoken in a locale that begins with `zh` and is in UTF-8, however that is
/// written, and in no other.
pub proof fn law_chinese_is_spoken_in_chinese_locales(
    country: Seq<char>,
    rest: Seq<char>,
    locale: Seq<char>,
)
    ensures
        ({
            let name = "zh"@ + country + "utf-8"@ + rest;
            text::trimmed(name) == name && text::lowercase(name) == name ==> locale_language(name)
                == Some(UiLanguage::ZhHans)
        }),
        ({
            let name = "zh"@ + country + "utf8"@ + rest;
            text::trimmed(name) == name && text::lowercase(name) == name ==> locale_language(name)
                == Some(UiLanguage::ZhHans)
        }),
        !"zh"@.is_prefix_of(text::lowercase(text::trimmed(locale))) ==> locale_language(locale) is None,
        !text::contains_text(text::lowercase(text::trimmed(locale)), "utf-8"@)
            && !text::contains_text(text::lowercase(text::trimmed(locale)), "utf8"@)
            ==> locale_language(locale) is None,
{
    let dashed = "zh"@ + country + "utf-8"@ + rest;
    let plain = "zh"@ + country + "utf8"@ + rest;
    text::law_text_contains_its_parts("zh"@ + country, "utf-8"@, rest);
    text::law_text_contains_its_parts("zh"@ + country, "utf8"@, rest);
    assert("zh"@ =~= dashed.take("zh"@.len() as int));
    assert("zh"@ =~= plain.take("zh"@.len() as int));
}

/// `y` and `yes` mean yes, `n` and `no` mean no, in whatever case and with white space around
/// them; anything else is no answer.
pub proof fn law_answers(value: Seq<char>)
    ensures
        ({
            let word = text::lowercase(text::trimmed(value));
            &&& yes_or_no(value) == Some(true) <==> word == seq!['y'] || word == seq!['y', 'e', 's']
            &&& yes_or_no(value) == Some(false) <==> word == seq!['n'] || word == seq!['n', 'o']
        }),
{
    reveal_strlit("y");
    reveal_strlit("yes");
    reveal_strlit("n");
    reveal_strlit("no");
    assert("y"@ =~= seq!['y']);
    assert("yes"@ =~= seq!['y', 'e', 's']);
    assert("n"@ =~= seq!['n']);
    assert("no"@ =~= seq!['n', 'o']);
    assert(seq!['y'][0] != seq!['n'][0]);
    assert(seq!['y'][0] != seq!['n', 'o'][0]);
    assert(seq!['y', 'e', 's'][0] != seq!['n'][0]);
    assert(seq!['y', 'e', 's'][0] != seq!['n', 'o'][0]);
}

/// Each cause of an error follows what it caused, behind a colon.
pub proof fn law_causes_follow_the_error(chain: Seq<Seq<char>>, cause: Seq<char>, zh: bool)
    ensures
        error_text(chain.push(cause), zh) == error_text(chain, zh) + ": "@ + cause,
        !zh ==> error_text(Seq::empty(), zh) == "Error"@,
        zh ==> error_text(Seq::empty(), zh) == "错误"@,
{
    text::law_separator_stands_between(chain, cause, ": "@);
    if chain.len() == 0 {
        assert(chain.push(cause) =~= seq![cause]);
    } else {
        assert(error_text(chain.push(cause), zh) =~= error_text(chain, zh) + ": "@ + cause);
    }
}

} // verus!
