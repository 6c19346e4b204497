//! The wording of what the program says, in each of its languages.

use vstd::prelude::*;

use crate::text;

verus! {

/// What the program is.
pub open spec fn cli_about(zh: bool) -> Seq<char> {
    if zh {
        "面向代理 CLI 的跨平台账号感知启动器。"@
    } else {
        "Cross-platform account-aware launcher for agent CLIs."@
    }
}

/// No account can be used.
pub open spec fn no_usable_account(zh: bool) -> Seq<char> {
    if zh {
        "没有找到可用账号。"@
    } else {
        "No usable account found."@
    }
}

/// No account can be used, and how to add one.
pub open spec fn no_usable_account_hint(zh: bool) -> Seq<char> {
    if zh {
        "没有可用账号，请先执行 `scodex add` 添加一个账号。"@
    } else {
        "No usable accounts found. Run `scodex add` to add one first."@
    }
}

/// Nothing was there to import.
pub open spec fn no_importable_accounts(zh: bool) -> Seq<char> {
    if zh {
        "没有找到可导入的账号。"@
    } else {
        "No importable accounts found."@
    }
}

/// An account was added.
pub open spec fn added_account(zh: bool, email: Seq<char>) -> Seq<char> {
    if zh {
        "已添加 "@ + email
    } else {
        "Added "@ + email
    }
}

/// No account goes by that email.
pub open spec fn unknown_account(zh: bool, email: Seq<char>) -> Seq<char> {
    if zh {
        "未知账号："@ + email
    } else {
        "Unknown account: "@ + email
    }
}

/// The question before an account is removed.
pub open spec fn confirm_rm(zh: bool, email: Seq<char>) -> Seq<char> {
    if zh {
        "确认删除账号 "@ + email + "？此操作不可恢复 (Y/N)："@
    } else {
        "Remove account "@ + email + "? This cannot be undone (Y/N): "@
    }
}

/// Nothing was removed.
pub open spec fn rm_cancelled(zh: bool) -> Seq<char> {
    if zh {
        "已取消。"@
    } else {
        "Cancelled."@
    }
}

/// An account was removed.
pub open spec fn removed_account(zh: bool, email: Seq<char>) -> Seq<char> {
    if zh {
        "已移除 "@ + email
    } else {
        "Removed "@ + email
    }
}

/// Nobody is there to answer the question.
pub open spec fn rm_requires_tty(zh: bool) -> Seq<char> {
    if zh {
        "当前输入不是终端；请加 -y 跳过确认。"@
    } else {
        "Input is not a terminal; pass -y to skip confirmation."@
    }
}

/// How many accounts were refreshed.
pub open spec fn refreshed_accounts(zh: bool, count: usize) -> Seq<char> {
    if zh {
        "已刷新 "@ + text::decimal(count as nat) + " 个账号。"@
    } else {
        "Refreshed "@ + text::decimal(count as nat) + " account(s)."@
    }
}

/// How many accounts can be used.
pub open spec fn usable_account_summary(zh: bool, count: usize) -> Seq<char> {
    if zh {
        "共有 "@ + text::decimal(count as nat) + " 个可用账号"@
    } else {
        text::decimal(count as nat) + " usable account(s)"@
    }
}

/// There is no newer version.
pub open spec fn update_already_current(zh: bool, version: Seq<char>, path: Seq<char>) -> Seq<char> {
    if zh {
        "当前已是最新已安装版本（"@ + version + "），位置："@ + path
    } else {
        "Already on the latest installed version ("@ + version + ") at "@ + path
    }
}

/// A newer version was installed.
pub open spec fn update_completed(zh: bool, previous: Seq<char>, installed: Seq<char>, path: Seq<char>) -> Seq<char> {
    if zh {
        "已将 scodex 从 "@ + previous + " 更新到 "@ + installed + "，位置："@ + path
    } else {
        "Updated scodex from "@ + previous + " to "@ + installed + " at "@ + path
    }
}

/// What to do after an update.
pub open spec fn restart_terminal_hint(zh: bool) -> Seq<char> {
    if zh {
        "如果当前终端仍然解析到旧二进制，请重启终端。"@
    } else {
        "Restart the current terminal if it still resolves the old binary."@
    }
}

/// An account was imported.
pub open spec fn imported_account(zh: bool, email: Seq<char>, id: Seq<char>) -> Seq<char> {
    if zh {
        "已导入 "@ + email + " -> "@ + id
    } else {
        "Imported "@ + email + " -> "@ + id
    }
}

/// What goes before the account that was switched to.
pub open spec fn selection_switched(zh: bool) -> Seq<char> {
    if zh {
        "已切换到"@
    } else {
        "Switched to"@
    }
}

/// What goes before the account that a dry run selects.
pub open spec fn selection_would_select(zh: bool) -> Seq<char> {
    if zh {
        "将会选择"@
    } else {
        "Would select"@
    }
}

/// What stands for a value that is not there.
pub open spec fn na(zh: bool) -> Seq<char> {
    if zh {
        "无"@
    } else {
        "N/A"@
    }
}

/// What stands for a plan that is not known.
pub open spec fn unknown(zh: bool) -> Seq<char> {
    if zh {
        "未知"@
    } else {
        "Unknown"@
    }
}

/// The status of an account that can be used.
pub open spec fn status_ok(zh: bool) -> Seq<char> {
    if zh {
        "正常"@
    } else {
        "OK"@
    }
}

/// The status of an account whose refresh failed.
pub open spec fn status_error(zh: bool) -> Seq<char> {
    if zh {
        "错误"@
    } else {
        "ERROR"@
    }
}

/// The status of an account that needs a new login.
pub open spec fn status_relogin(zh: bool) -> Seq<char> {
    if zh {
        "需重登"@
    } else {
        "RELOGIN"@
    }
}

/// A login starts.
pub open spec fn login_start(zh: bool) -> Seq<char> {
    if zh {
        "正在启动底层 CLI 的设备授权登录流程。"@
    } else {
        "Starting the underlying CLI device-auth login flow."@
    }
}

/// What to do with the address that is printed next.
pub open spec fn login_open_url(zh: bool) -> Seq<char> {
    if zh {
        "请在任意可用浏览器的设备上打开上面输出的 URL 并完成登录。"@
    } else {
        "Open the printed URL on any browser-enabled machine and finish the login there."@
    }
}

/// The address of this machine, for a login from another.
pub open spec fn login_headless_ip(zh: bool, ip: Seq<char>) -> Seq<char> {
    if zh {
        "当前无头主机局域网 IP："@ + ip
    } else {
        "Headless host LAN IP: "@ + ip
    }
}

/// The last session is resumed.
pub open spec fn resume_session(zh: bool) -> Seq<char> {
    if zh {
        "正在恢复当前目录的最近一次 CLI 会话。"@
    } else {
        "Resuming the latest CLI session for this directory."@
    }
}

/// The last session could not be resumed.
pub open spec fn resume_fallback(zh: bool) -> Seq<char> {
    if zh {
        "恢复会话未能正常完成，正在回退到新会话。"@
    } else {
        "Resume did not complete cleanly; falling back to a fresh CLI session."@
    }
}

/// A new session starts.
pub open spec fn fresh_session(zh: bool) -> Seq<char> {
    if zh {
        "正在启动新的 CLI 会话。"@
    } else {
        "Starting a fresh CLI session."@
    }
}

/// Codex is not installed.
pub open spec fn missing_codex(zh: bool) -> Seq<char> {
    if zh {
        "未找到底层 CLI 可执行文件。这会导致当前包装器无法正常工作。"@
    } else {
        "The underlying CLI executable was not found. The wrapper cannot function correctly."@
    }
}

/// What goes before the command that installs Codex.
pub open spec fn install_hint(zh: bool) -> Seq<char> {
    if zh {
        "你可以先运行下面的命令安装底层 CLI："@
    } else {
        "You can install the underlying CLI by running:"@
    }
}

/// What goes before the command, where it is left to the user.
pub open spec fn manual_install(zh: bool) -> Seq<char> {
    if zh {
        "请先手动安装底层 CLI，然后重新运行当前包装器。"@
    } else {
        "Please install the underlying CLI manually and run the wrapper again."@
    }
}

/// The question before Codex is installed.
pub open spec fn confirm_install(zh: bool) -> Seq<char> {
    if zh {
        "如果你希望我现在帮你安装，请确认（Y/N）："@
    } else {
        "I can try to install it for you now. Continue? (Y/N): "@
    }
}

/// The answer was neither yes nor no.
pub open spec fn invalid_yes_no(zh: bool) -> Seq<char> {
    if zh {
        "请输入 Y/YES/N/NO。"@
    } else {
        "Please answer Y/YES/N/NO."@
    }
}

/// Codex was installed and is not found.
pub open spec fn codex_install_still_missing(zh: bool) -> Seq<char> {
    if zh {
        "安装似乎已完成，但当前仍然找不到底层 CLI。请重启 shell，或显式设置对应的可执行文件路径环境变量。"@
    } else {
        "Installation completed, but the underlying CLI is still not available. Restart the shell or set the executable path explicitly."@
    }
}

/// Codex could not be installed.
pub open spec fn codex_install_failed(zh: bool, status: i32) -> Seq<char> {
    if zh {
        "底层 CLI 安装失败，退出码："@ + text::signed_decimal(status as int)
    } else {
        "Underlying CLI installation failed with status "@ + text::signed_decimal(status as int)
    }
}

/// The program that installs Codex is not found.
pub open spec fn codex_install_tool_missing(zh: bool, tool: Seq<char>) -> Seq<char> {
    if zh {
        "未找到 "@ + tool + "。要自动安装底层 CLI，当前机器需要先满足对应安装前置条件。"@
    } else {
        tool + " not found. Install the prerequisite toolchain before trying to install the underlying CLI automatically."@
    }
}

/// The login failed.
pub open spec fn codex_login_failed(zh: bool, status: i32) -> Seq<char> {
    if zh {
        "底层 CLI 登录失败，退出码："@ + text::signed_decimal(status as int)
    } else {
        "Underlying CLI login failed with status "@ + text::signed_decimal(status as int)
    }
}

/// The login left no credentials.
pub open spec fn login_missing_auth(zh: bool) -> Seq<char> {
    if zh {
        "登录流程已结束，但没有生成 auth.json。"@
    } else {
        "Login finished but no auth.json was produced."@
    }
}

/// A login with given credentials starts.
pub open spec fn login_autofill_start(zh: bool) -> Seq<char> {
    if zh {
        "正在启动底层 CLI 登录流程，并打开受控 Chrome 完成 OAuth 自动填充。"@
    } else {
        "Starting the underlying CLI login flow and opening a controlled Chrome window for OAuth auto-fill."@
    }
}

/// The login waits for consent.
pub open spec fn login_autofill_waiting_consent(zh: bool) -> Seq<char> {
    if zh {
        "OAuth 自动填充完成。请在刚打开的 Chrome 窗口里点一次 `Authorize` 完成登录。"@
    } else {
        "OAuth auto-fill complete. Click `Authorize` once in the opened Chrome window to finish."@
    }
}

/// No browser was found for the login.
pub open spec fn login_autofill_no_chrome(zh: bool) -> Seq<char> {
    if zh {
        "未检测到 Chrome 或 Chromium，无法执行 OAuth 自动填充。请安装 Chrome，或改用 `scodex login`（不带 --oauth）。"@
    } else {
        "Chrome or Chromium not detected; cannot run OAuth auto-fill. Install Chrome or run `scodex login` without --oauth."@
    }
}

/// The login lacks an email or a password.
pub open spec fn login_autofill_missing_credentials(zh: bool) -> Seq<char> {
    if zh {
        "使用 --oauth 时必须同时传入 --username 和 --password。"@
    } else {
        "--oauth requires both --username and --password."@
    }
}

/// The login lacks a token, an address or a provider.
pub open spec fn login_api_missing_credentials(zh: bool) -> Seq<char> {
    if zh {
        "使用 --api 时必须同时传入 --API_TOKEN、--BASE_URL 和 --provider，且 token 去掉 sk- 前缀后至少 8 个字符。"@
    } else {
        "--api requires --API_TOKEN, --BASE_URL, and --provider, and the token must be at least 8 characters after removing the sk- prefix."@
    }
}

/// Two ways to log in were asked for.
pub open spec fn login_mode_conflict(zh: bool) -> Seq<char> {
    if zh {
        "--api 和 --oauth 不能同时使用。"@
    } else {
        "--api and --oauth cannot be used together."@
    }
}

/// The copying starts.
pub open spec fn deploy_start(zh: bool, target: Seq<char>) -> Seq<char> {
    if zh {
        "正在把当前凭证上传到 "@ + target
    } else {
        "Deploying the current credential to "@ + target
    }
}

/// The credentials were copied.
pub open spec fn deploy_completed(zh: bool, target: Seq<char>) -> Seq<char> {
    if zh {
        "已把当前凭证上传到 "@ + target
    } else {
        "Deployed the current credential to "@ + target
    }
}

/// There are no credentials to copy.
pub open spec fn deploy_missing_auth(zh: bool, path: Seq<char>) -> Seq<char> {
    if zh {
        "当前可用的 auth.json 不存在："@ + path
    } else {
        "Current auth.json not found: "@ + path
    }
}

/// The target is none.
pub open spec fn deploy_invalid_target(zh: bool, target: Seq<char>) -> Seq<char> {
    if zh {
        "无效的远端目标："@ + target + "。请使用 user@host:/target_path"@
    } else {
        "Invalid remote target: "@ + target + ". Use user@host:/target_path"@
    }
}

/// `ssh` is not installed.
pub open spec fn deploy_missing_ssh(zh: bool) -> Seq<char> {
    if zh {
        "未找到 ssh。执行 `scodex deploy` 需要它。"@
    } else {
        "ssh not found; `scodex deploy` requires it."@
    }
}

/// `scp` is not installed.
pub open spec fn deploy_missing_scp(zh: bool) -> Seq<char> {
    if zh {
        "未找到 scp。执行 `scodex deploy` 需要它。"@
    } else {
        "scp not found; `scodex deploy` requires it."@
    }
}

/// There is no such identity file.
pub open spec fn deploy_identity_not_found(zh: bool, path: Seq<char>) -> Seq<char> {
    if zh {
        "SSH 身份文件不存在："@ + path
    } else {
        "SSH identity file not found: "@ + path
    }
}

/// The directory could not be prepared.
pub open spec fn deploy_prepare_remote_dir_failed(zh: bool, status: i32) -> Seq<char> {
    if zh {
        "远端目录准备失败，退出码："@ + text::signed_decimal(status as int)
    } else {
        "Preparing the remote directory failed with status "@ + text::signed_decimal(status as int)
    }
}

/// The credentials could not be copied.
pub open spec fn deploy_copy_failed(zh: bool, status: i32) -> Seq<char> {
    if zh {
        "凭证复制失败，退出码："@ + text::signed_decimal(status as int)
    } else {
        "Credential copy failed with status "@ + text::signed_decimal(status as int)
    }
}

/// `git` is not installed.
pub open spec fn repo_sync_missing_git(zh: bool, install_command: Seq<char>) -> Seq<char> {
    if zh {
        "未找到 git。执行 `scodex push` 或 `scodex pull` 需要它。请先安装 git，例如："@ + install_command
    } else {
        "git not found; `scodex push` and `scodex pull` require it. Install git first, for example: "@ + install_command
    }
}

/// The address of the repository is none.
pub open spec fn repo_sync_invalid_repo(zh: bool) -> Seq<char> {
    if zh {
        "仓库参数不能为空。"@
    } else {
        "Repository argument must not be empty."@
    }
}

/// No repository is known.
pub open spec fn repo_sync_missing_repo(zh: bool, env_name: Seq<char>) -> Seq<char> {
    if zh {
        "未找到账号池仓库配置。请传入 `<REPO>`，或设置环境变量 `"@ + env_name + "`，或先执行一次带 `<REPO>` 的 `scodex push/pull` 以保存本地配置。"@
    } else {
        "No account-pool repository configured. Pass `<REPO>`, set `"@ + env_name + "`, or run `scodex push/pull` once with `<REPO>` to save it locally."@
    }
}

/// The path in the repository is none.
pub open spec fn repo_sync_invalid_path(zh: bool, path: Seq<char>) -> Seq<char> {
    if zh {
        "无效的仓库子目录："@ + path + "。只允许相对路径，且不能包含 `..`。"@
    } else {
        "Invalid repository subdirectory: "@ + path + ". Use a relative path without `..`."@
    }
}

/// There is no key for the pool.
pub open spec fn repo_sync_missing_key(zh: bool, env_name: Seq<char>) -> Seq<char> {
    if zh {
        "未设置账号池加密密钥环境变量："@ + env_name
    } else {
        "Missing account-pool encryption key environment variable: "@ + env_name
    }
}

/// The pool could not be decrypted.
pub open spec fn repo_sync_decrypt_failed(zh: bool, env_name: Seq<char>) -> Seq<char> {
    if zh {
        "账号池解密失败。请检查 "@ + env_name + " 是否正确，或确认远端仓库里的加密 bundle 没有损坏。"@
    } else {
        "Failed to decrypt the account pool. Check whether "@ + env_name + " is correct and whether the encrypted bundle in the repository is intact."@
    }
}

/// The repository could not be cloned.
pub open spec fn repo_sync_clone_failed(zh: bool, repo: Seq<char>, status: i32) -> Seq<char> {
    if zh {
        "克隆仓库失败："@ + repo + "，退出码："@ + text::signed_decimal(status as int)
    } else {
        "Repository clone failed: "@ + repo + ", status "@ + text::signed_decimal(status as int)
    }
}

/// The repository may not be read.
pub open spec fn repo_sync_clone_auth_failed(zh: bool, repo: Seq<char>) -> Seq<char> {
    if zh {
        "无法访问仓库："@ + repo + "。请检查仓库 URL，以及当前 Git 凭据、SSH key 或 PAT 是否有这个私有仓库的读取权限。"@
    } else {
        "Cannot access repository: "@ + repo + ". Check the repository URL and whether your current Git credentials, SSH key, or PAT has read access to this private repository."@
    }
}

/// The pool could not be staged.
pub open spec fn repo_sync_stage_failed(zh: bool, status: i32) -> Seq<char> {
    if zh {
        "暂存账号池变更失败，退出码："@ + text::signed_decimal(status as int)
    } else {
        "Staging account-pool changes failed with status "@ + text::signed_decimal(status as int)
    }
}

/// The state of the repository could not be read.
pub open spec fn repo_sync_status_failed(zh: bool, status: i32) -> Seq<char> {
    if zh {
        "检查仓库状态失败，退出码："@ + text::signed_decimal(status as int)
    } else {
        "Checking repository status failed with status "@ + text::signed_decimal(status as int)
    }
}

/// The pool could not be committed.
pub open spec fn repo_sync_commit_failed(zh: bool, status: i32) -> Seq<char> {
    if zh {
        "提交账号池变更失败，退出码："@ + text::signed_decimal(status as int)
    } else {
        "Committing account-pool changes failed with status "@ + text::signed_decimal(status as int)
    }
}

/// The pool could not be pushed.
pub open spec fn repo_sync_push_failed(zh: bool, repo: Seq<char>, status: i32) -> Seq<char> {
    if zh {
        "推送账号池变更失败："@ + repo + "，退出码："@ + text::signed_decimal(status as int)
    } else {
        "Pushing account-pool changes failed: "@ + repo + ", status "@ + text::signed_decimal(status as int)
    }
}

/// The repository may not be written.
pub open spec fn repo_sync_push_auth_failed(zh: bool, repo: Seq<char>) -> Seq<char> {
    if zh {
        "无法写入仓库："@ + repo + "。请检查当前 Git 凭据、SSH key 或 PAT 是否有这个私有仓库的写入权限。"@
    } else {
        "Cannot write to repository: "@ + repo + ". Check whether your current Git credentials, SSH key, or PAT has write access to this private repository."@
    }
}

/// There is no account to push.
pub open spec fn repo_push_no_accounts(zh: bool) -> Seq<char> {
    if zh {
        "当前状态目录里没有账号可推送。"@
    } else {
        "No accounts found in the current state directory."@
    }
}

/// The pushing starts.
pub open spec fn repo_push_start(zh: bool, repo: Seq<char>) -> Seq<char> {
    if zh {
        "正在把本地账号池全量推送到 "@ + repo
    } else {
        "Pushing the full local account pool to "@ + repo
    }
}

/// The pool was pushed.
pub open spec fn repo_push_completed(zh: bool, repo: Seq<char>, count: usize) -> Seq<char> {
    if zh {
        "已用本地账号池覆盖 "@ + repo + "，共 "@ + text::decimal(count as nat) + " 个账号"@
    } else {
        "Overwrote "@ + repo + " with the local account pool ("@ + text::decimal(count as nat) + " account(s))"@
    }
}

/// The pool in the repository is up to date.
pub open spec fn repo_push_no_changes(zh: bool, repo: Seq<char>) -> Seq<char> {
    if zh {
        repo + " 里的账号池没有差异，无需推送"@
    } else {
        "No account-pool changes to push to "@ + repo
    }
}

/// The pulling starts.
pub open spec fn repo_pull_start(zh: bool, repo: Seq<char>) -> Seq<char> {
    if zh {
        "正在从 "@ + repo + " 拉取账号池，并准备覆盖本地"@
    } else {
        "Pulling the account pool from "@ + repo + " and preparing to overwrite local state"@
    }
}

/// The repository holds no pool.
pub open spec fn repo_pull_missing_bundle(zh: bool, path: Seq<char>) -> Seq<char> {
    if zh {
        "仓库里没有找到账号池目录："@ + path
    } else {
        "Account-pool directory not found in repository: "@ + path
    }
}

/// The pool in the repository is empty.
pub open spec fn repo_pull_no_accounts(zh: bool, path: Seq<char>) -> Seq<char> {
    if zh {
        "账号池目录里没有可导入的账号："@ + path
    } else {
        "No importable accounts found in account-pool directory: "@ + path
    }
}

/// The pool was pulled.
pub open spec fn repo_pull_completed(zh: bool, repo: Seq<char>, count: usize) -> Seq<char> {
    if zh {
        "已用 "@ + repo + " 的账号池覆盖本地，共 "@ + text::decimal(count as nat) + " 个账号"@
    } else {
        "Overwrote the local account pool with "@ + text::decimal(count as nat) + " account(s) from "@ + repo
    }
}

/// The headers of the list of accounts.
pub open spec fn table_headers(zh: bool) -> Seq<Seq<char>> {
    if zh {
        seq!["当前"@, "邮箱"@, "类型"@, "套餐"@, "5h"@, "Weekly"@, "重置时间"@, "状态"@]
    } else {
        seq!["Active"@, "Email"@, "Type"@, "Plan"@, "5h"@, "Weekly"@, "ResetOn"@, "Status"@]
    }
}

// ---------------------------------------------------------------------------
// Laws
// ---------------------------------------------------------------------------

/// A message on an account names its email, and that on an import its id, in either language.
#[verifier::spinoff_prover]
#[verifier::rlimit(40)]
pub proof fn law_messages_name_the_account(
    zh: bool,
    email: Seq<char>,
    id: Seq<char>,
)
    ensures
        text::contains_text(added_account(zh, email), email),
        text::contains_text(unknown_account(zh, email), email),
        text::contains_text(confirm_rm(zh, email), email),
        text::contains_text(removed_account(zh, email), email),
        text::contains_text(imported_account(zh, email, id), email),
        text::contains_text(imported_account(zh, email, id), id),
{
    assert(text::contains_text(added_account(zh, email), email)) by {
        if zh {
            text::law_text_contains_its_parts("已添加 "@, email, Seq::<char>::empty());
            assert(added_account(zh, email) =~= "已添加 "@ + email + (Seq::<char>::empty()));
        }
        if !zh {
            text::law_text_contains_its_parts("Added "@, email, Seq::<char>::empty());
            assert(added_account(zh, email) =~= "Added "@ + email + (Seq::<char>::empty()));
        }
    }
    assert(text::contains_text(unknown_account(zh, email), email)) by {
        if zh {
            text::law_text_contains_its_parts("未知账号："@, email, Seq::<char>::empty());
            assert(unknown_account(zh, email) =~= "未知账号："@ + email + (Seq::<char>::empty()));
        }
        if !zh {
            text::law_text_contains_its_parts("Unknown account: "@, email, Seq::<char>::empty());
            assert(unknown_account(zh, email) =~= "Unknown account: "@ + email + (Seq::<char>::empty()));
        }
    }
    assert(text::contains_text(confirm_rm(zh, email), email)) by {
        if zh {
            text::law_text_contains_its_parts("确认删除账号 "@, email, "？此操作不可恢复 (Y/N)："@);
            assert(confirm_rm(zh, email) =~= "确认删除账号 "@ + email + ("？此操作不可恢复 (Y/N)："@));
        }
        if !zh {
            text::law_text_contains_its_parts("Remove account "@, email, "? This cannot be undone (Y/N): "@);
            assert(confirm_rm(zh, email) =~= "Remove account "@ + email + ("? This cannot be undone (Y/N): "@));
        }
    }
    assert(text::contains_text(removed_account(zh, email), email)) by {
        if zh {
            text::law_text_contains_its_parts("已移除 "@, email, Seq::<char>::empty());
            assert(removed_account(zh, email) =~= "已移除 "@ + email + (Seq::<char>::empty()));
        }
        if !zh {
            text::law_text_contains_its_parts("Removed "@, email, Seq::<char>::empty());
            assert(removed_account(zh, email) =~= "Removed "@ + email + (Seq::<char>::empty()));
        }
    }
    assert(text::contains_text(imported_account(zh, email, id), email) && text::contains_text(imported_account(zh, email, id), id)) by {
        if zh {
            text::law_text_contains_its_parts("已导入 "@, email, " -> "@ + id);
            assert(imported_account(zh, email, id) =~= "已导入 "@ + email + (" -> "@ + id));
            text::law_text_contains_its_parts("已导入 "@ + email + " -> "@, id, Seq::<char>::empty());
            assert(imported_account(zh, email, id) =~= "已导入 "@ + email + " -> "@ + id + (Seq::<char>::empty()));
        }
        if !zh {
            text::law_text_contains_its_parts("Imported "@, email, " -> "@ + id);
            assert(imported_account(zh, email, id) =~= "Imported "@ + email + (" -> "@ + id));
            text::law_text_contains_its_parts("Imported "@ + email + " -> "@, id, Seq::<char>::empty());
            assert(imported_account(zh, email, id) =~= "Imported "@ + email + " -> "@ + id + (Seq::<char>::empty()));
        }
    }
}

/// A message on a number of accounts tells it, and that on a repository names that, in either
/// language.
#[verifier::spinoff_prover]
#[verifier::rlimit(40)]
pub proof fn law_messages_tell_how_many(
    zh: bool,
    count: usize,
    repo: Seq<char>,
)
    ensures
        text::contains_text(refreshed_accounts(zh, count), text::decimal(count as nat)),
        text::contains_text(usable_account_summary(zh, count), text::decimal(count as nat)),
        text::contains_text(repo_push_completed(zh, repo, count), repo),
        text::contains_text(repo_push_completed(zh, repo, count), text::decimal(count as nat)),
        text::contains_text(repo_pull_completed(zh, repo, count), repo),
        text::contains_text(repo_pull_completed(zh, repo, count), text::decimal(count as nat)),
{
    assert(text::contains_text(refreshed_accounts(zh, count), text::decimal(count as nat))) by {
        if zh {
            text::law_text_contains_its_parts("已刷新 "@, text::decimal(count as nat), " 个账号。"@);
            assert(refreshed_accounts(zh, count) =~= "已刷新 "@ + text::decimal(count as nat) + (" 个账号。"@));
        }
        if !zh {
            text::law_text_contains_its_parts("Refreshed "@, text::decimal(count as nat), " account(s)."@);
            assert(refreshed_accounts(zh, count) =~= "Refreshed "@ + text::decimal(count as nat) + (" account(s)."@));
        }
    }
    assert(text::contains_text(usable_account_summary(zh, count), text::decimal(count as nat))) by {
        if zh {
            text::law_text_contains_its_parts("共有 "@, text::decimal(count as nat), " 个可用账号"@);
            assert(usable_account_summary(zh, count) =~= "共有 "@ + text::decimal(count as nat) + (" 个可用账号"@));
        }
        if !zh {
            text::law_text_contains_its_parts(Seq::<char>::empty(), text::decimal(count as nat), " usable account(s)"@);
            assert(usable_account_summary(zh, count) =~= Seq::<char>::empty() + text::decimal(count as nat) + (" usable account(s)"@));
        }
    }
    assert(text::contains_text(repo_push_completed(zh, repo, count), repo) && text::contains_text(repo_push_completed(zh, repo, count), text::decimal(count as nat))) by {
        if zh {
            text::law_text_contains_its_parts("已用本地账号池覆盖 "@, repo, "，共 "@ + text::decimal(count as nat) + " 个账号"@);
            assert(repo_push_completed(zh, repo, count) =~= "已用本地账号池覆盖 "@ + repo + ("，共 "@ + text::decimal(count as nat) + " 个账号"@));
            text::law_text_contains_its_parts("已用本地账号池覆盖 "@ + repo + "，共 "@, text::decimal(count as nat), " 个账号"@);
            assert(repo_push_completed(zh, repo, count) =~= "已用本地账号池覆盖 "@ + repo + "，共 "@ + text::decimal(count as nat) + (" 个账号"@));
        }
        if !zh {
            text::law_text_contains_its_parts("Overwrote "@, repo, " with the local account pool ("@ + text::decimal(count as nat) + " account(s))"@);
            assert(repo_push_completed(zh, repo, count) =~= "Overwrote "@ + repo + (" with the local account pool ("@ + text::decimal(count as nat) + " account(s))"@));
            text::law_text_contains_its_parts("Overwrote "@ + repo + " with the local account pool ("@, text::decimal(count as nat), " account(s))"@);
            assert(repo_push_completed(zh, repo, count) =~= "Overwrote "@ + repo + " with the local account pool ("@ + text::decimal(count as nat) + (" account(s))"@));
        }
    }
    assert(text::contains_text(repo_pull_completed(zh, repo, count), repo) && text::contains_text(repo_pull_completed(zh, repo, count), text::decimal(count as nat))) by {
        if zh {
            text::law_text_contains_its_parts("已用 "@, repo, " 的账号池覆盖本地，共 "@ + text::decimal(count as nat) + " 个账号"@);
            assert(repo_pull_completed(zh, repo, count) =~= "已用 "@ + repo + (" 的账号池覆盖本地，共 "@ + text::decimal(count as nat) + " 个账号"@));
            text::law_text_contains_its_parts("已用 "@ + repo + " 的账号池覆盖本地，共 "@, text::decimal(count as nat), " 个账号"@);
            assert(repo_pull_completed(zh, repo, count) =~= "已用 "@ + repo + " 的账号池覆盖本地，共 "@ + text::decimal(count as nat) + (" 个账号"@));
        }
        if !zh {
            text::law_text_contains_its_parts("Overwrote the local account pool with "@ + text::decimal(count as nat) + " account(s) from "@, repo, Seq::<char>::empty());
            assert(repo_pull_completed(zh, repo, count) =~= "Overwrote the local account pool with "@ + text::decimal(count as nat) + " account(s) from "@ + repo + (Seq::<char>::empty()));
            text::law_text_contains_its_parts("Overwrote the local account pool with "@, text::decimal(count as nat), " account(s) from "@ + repo);
            assert(repo_pull_completed(zh, repo, count) =~= "Overwrote the local account pool with "@ + text::decimal(count as nat) + (" account(s) from "@ + repo));
        }
    }
}

/// A message on an update tells the versions and the place of the program, in either language.
#[verifier::spinoff_prover]
#[verifier::rlimit(40)]
pub proof fn law_messages_tell_the_version(
    zh: bool,
    version: Seq<char>,
    path: Seq<char>,
    previous: Seq<char>,
    installed: Seq<char>,
)
    ensures
        text::contains_text(update_already_current(zh, version, path), version),
        text::contains_text(update_already_current(zh, version, path), path),
        text::contains_text(update_completed(zh, previous, installed, path), previous),
        text::contains_text(update_completed(zh, previous, installed, path), installed),
        text::contains_text(update_completed(zh, previous, installed, path), path),
{
    assert(text::contains_text(update_already_current(zh, version, path), version) && text::contains_text(update_already_current(zh, version, path), path)) by {
        if zh {
            text::law_text_contains_its_parts("当前已是最新已安装版本（"@, version, "），位置："@ + path);
            assert(update_already_current(zh, version, path) =~= "当前已是最新已安装版本（"@ + version + ("），位置："@ + path));
            text::law_text_contains_its_parts("当前已是最新已安装版本（"@ + version + "），位置："@, path, Seq::<char>::empty());
            assert(update_already_current(zh, version, path) =~= "当前已是最新已安装版本（"@ + version + "），位置："@ + path + (Seq::<char>::empty()));
        }
        if !zh {
            text::law_text_contains_its_parts("Already on the latest installed version ("@, version, ") at "@ + path);
            assert(update_already_current(zh, version, path) =~= "Already on the latest installed version ("@ + version + (") at "@ + path));
            text::law_text_contains_its_parts("Already on the latest installed version ("@ + version + ") at "@, path, Seq::<char>::empty());
            assert(update_already_current(zh, version, path) =~= "Already on the latest installed version ("@ + version + ") at "@ + path + (Seq::<char>::empty()));
        }
    }
    assert(text::contains_text(update_completed(zh, previous, installed, path), previous) && text::contains_text(update_completed(zh, previous, installed, path), installed) && text::contains_text(update_completed(zh, previous, installed, path), path)) by {
        if zh {
            text::law_text_contains_its_parts("已将 scodex 从 "@, previous, " 更新到 "@ + installed + "，位置："@ + path);
            assert(update_completed(zh, previous, installed, path) =~= "已将 scodex 从 "@ + previous + (" 更新到 "@ + installed + "，位置："@ + path));
            text::law_text_contains_its_parts("已将 scodex 从 "@ + previous + " 更新到 "@, installed, "，位置："@ + path);
            assert(update_completed(zh, previous, installed, path) =~= "已将 scodex 从 "@ + previous + " 更新到 "@ + installed + ("，位置："@ + path));
            text::law_text_contains_its_parts("已将 scodex 从 "@ + previous + " 更新到 "@ + installed + "，位置："@, path, Seq::<char>::empty());
            assert(update_completed(zh, previous, installed, path) =~= "已将 scodex 从 "@ + previous + " 更新到 "@ + installed + "，位置："@ + path + (Seq::<char>::empty()));
        }
        if !zh {
            text::law_text_contains_its_parts("Updated scodex from "@, previous, " to "@ + installed + " at "@ + path);
            assert(update_completed(zh, previous, installed, path) =~= "Updated scodex from "@ + previous + (" to "@ + installed + " at "@ + path));
            text::law_text_contains_its_parts("Updated scodex from "@ + previous + " to "@, installed, " at "@ + path);
            assert(update_completed(zh, previous, installed, path) =~= "Updated scodex from "@ + previous + " to "@ + installed + (" at "@ + path));
            text::law_text_contains_its_parts("Updated scodex from "@ + previous + " to "@ + installed + " at "@, path, Seq::<char>::empty());
            assert(update_completed(zh, previous, installed, path) =~= "Updated scodex from "@ + previous + " to "@ + installed + " at "@ + path + (Seq::<char>::empty()));
        }
    }
}

/// A message on a command that failed tells its status, in either language.
#[verifier::spinoff_prover]
#[verifier::rlimit(40)]
pub proof fn law_messages_tell_the_status(
    zh: bool,
    status: i32,
    repo: Seq<char>,
)
    ensures
        text::contains_text(codex_install_failed(zh, status), text::signed_decimal(status as int)),
        text::contains_text(codex_login_failed(zh, status), text::signed_decimal(status as int)),
        text::contains_text(deploy_prepare_remote_dir_failed(zh, status), text::signed_decimal(status as int)),
        text::contains_text(deploy_copy_failed(zh, status), text::signed_decimal(status as int)),
        text::contains_text(repo_sync_clone_failed(zh, repo, status), repo),
        text::contains_text(repo_sync_clone_failed(zh, repo, status), text::signed_decimal(status as int)),
        text::contains_text(repo_sync_stage_failed(zh, status), text::signed_decimal(status as int)),
        text::contains_text(repo_sync_status_failed(zh, status), text::signed_decimal(status as int)),
        text::contains_text(repo_sync_commit_failed(zh, status), text::signed_decimal(status as int)),
        text::contains_text(repo_sync_push_failed(zh, repo, status), repo),
        text::contains_text(repo_sync_push_failed(zh, repo, status), text::signed_decimal(status as int)),
{
    assert(text::contains_text(codex_install_failed(zh, status), text::signed_decimal(status as int))) by {
        if zh {
            text::law_text_contains_its_parts("底层 CLI 安装失败，退出码："@, text::signed_decimal(status as int), Seq::<char>::empty());
            assert(codex_install_failed(zh, status) =~= "底层 CLI 安装失败，退出码："@ + text::signed_decimal(status as int) + (Seq::<char>::empty()));
        }
        if !zh {
            text::law_text_contains_its_parts("Underlying CLI installation failed with status "@, text::signed_decimal(status as int), Seq::<char>::empty());
            assert(codex_install_failed(zh, status) =~= "Underlying CLI installation failed with status "@ + text::signed_decimal(status as int) + (Seq::<char>::empty()));
        }
    }
    assert(text::contains_text(codex_login_failed(zh, status), text::signed_decimal(status as int))) by {
        if zh {
            text::law_text_contains_its_parts("底层 CLI 登录失败，退出码："@, text::signed_decimal(status as int), Seq::<char>::empty());
            assert(codex_login_failed(zh, status) =~= "底层 CLI 登录失败，退出码："@ + text::signed_decimal(status as int) + (Seq::<char>::empty()));
        }
        if !zh {
            text::law_text_contains_its_parts("Underlying CLI login failed with status "@, text::signed_decimal(status as int), Seq::<char>::empty());
            assert(codex_login_failed(zh, status) =~= "Underlying CLI login failed with status "@ + text::signed_decimal(status as int) + (Seq::<char>::empty()));
        }
    }
    assert(text::contains_text(deploy_prepare_remote_dir_failed(zh, status), text::signed_decimal(status as int))) by {
        if zh {
            text::law_text_contains_its_parts("远端目录准备失败，退出码："@, text::signed_decimal(status as int), Seq::<char>::empty());
            assert(deploy_prepare_remote_dir_failed(zh, status) =~= "远端目录准备失败，退出码："@ + text::signed_decimal(status as int) + (Seq::<char>::empty()));
        }
        if !zh {
            text::law_text_contains_its_parts("Preparing the remote directory failed with status "@, text::signed_decimal(status as int), Seq::<char>::empty());
            assert(deploy_prepare_remote_dir_failed(zh, status) =~= "Preparing the remote directory failed with status "@ + text::signed_decimal(status as int) + (Seq::<char>::empty()));
        }
    }
    assert(text::contains_text(deploy_copy_failed(zh, status), text::signed_decimal(status as int))) by {
        if zh {
            text::law_text_contains_its_parts("凭证复制失败，退出码："@, text::signed_decimal(status as int), Seq::<char>::empty());
            assert(deploy_copy_failed(zh, status) =~= "凭证复制失败，退出码："@ + text::signed_decimal(status as int) + (Seq::<char>::empty()));
        }
        if !zh {
            text::law_text_contains_its_parts("Credential copy failed with status "@, text::signed_decimal(status as int), Seq::<char>::empty());
            assert(deploy_copy_failed(zh, status) =~= "Credential copy failed with status "@ + text::signed_decimal(status as int) + (Seq::<char>::empty()));
        }
    }
    assert(text::contains_text(repo_sync_clone_failed(zh, repo, status), repo) && text::contains_text(repo_sync_clone_failed(zh, repo, status), text::signed_decimal(status as int))) by {
        if zh {
            text::law_text_contains_its_parts("克隆仓库失败："@, repo, "，退出码："@ + text::signed_decimal(status as int));
            assert(repo_sync_clone_failed(zh, repo, status) =~= "克隆仓库失败："@ + repo + ("，退出码："@ + text::signed_decimal(status as int)));
            text::law_text_contains_its_parts("克隆仓库失败："@ + repo + "，退出码："@, text::signed_decimal(status as int), Seq::<char>::empty());
            assert(repo_sync_clone_failed(zh, repo, status) =~= "克隆仓库失败："@ + repo + "，退出码："@ + text::signed_decimal(status as int) + (Seq::<char>::empty()));
        }
        if !zh {
            text::law_text_contains_its_parts("Repository clone failed: "@, repo, ", status "@ + text::signed_decimal(status as int));
            assert(repo_sync_clone_failed(zh, repo, status) =~= "Repository clone failed: "@ + repo + (", status "@ + text::signed_decimal(status as int)));
            text::law_text_contains_its_parts("Repository clone failed: "@ + repo + ", status "@, text::signed_decimal(status as int), Seq::<char>::empty());
            assert(repo_sync_clone_failed(zh, repo, status) =~= "Repository clone failed: "@ + repo + ", status "@ + text::signed_decimal(status as int) + (Seq::<char>::empty()));
        }
    }
    assert(text::contains_text(repo_sync_stage_failed(zh, status), text::signed_decimal(status as int))) by {
        if zh {
            text::law_text_contains_its_parts("暂存账号池变更失败，退出码："@, text::signed_decimal(status as int), Seq::<char>::empty());
            assert(repo_sync_stage_failed(zh, status) =~= "暂存账号池变更失败，退出码："@ + text::signed_decimal(status as int) + (Seq::<char>::empty()));
        }
        if !zh {
            text::law_text_contains_its_parts("Staging account-pool changes failed with status "@, text::signed_decimal(status as int), Seq::<char>::empty());
            assert(repo_sync_stage_failed(zh, status) =~= "Staging account-pool changes failed with status "@ + text::signed_decimal(status as int) + (Seq::<char>::empty()));
        }
    }
    assert(text::contains_text(repo_sync_status_failed(zh, status), text::signed_decimal(status as int))) by {
        if zh {
            text::law_text_contains_its_parts("检查仓库状态失败，退出码："@, text::signed_decimal(status as int), Seq::<char>::empty());
            assert(repo_sync_status_failed(zh, status) =~= "检查仓库状态失败，退出码："@ + text::signed_decimal(status as int) + (Seq::<char>::empty()));
        }
        if !zh {
            text::law_text_contains_its_parts("Checking repository status failed with status "@, text::signed_decimal(status as int), Seq::<char>::empty());
            assert(repo_sync_status_failed(zh, status) =~= "Checking repository status failed with status "@ + text::signed_decimal(status as int) + (Seq::<char>::empty()));
        }
    }
    assert(text::contains_text(repo_sync_commit_failed(zh, status), text::signed_decimal(status as int))) by {
        if zh {
            text::law_text_contains_its_parts("提交账号池变更失败，退出码："@, text::signed_decimal(status as int), Seq::<char>::empty());
            assert(repo_sync_commit_failed(zh, status) =~= "提交账号池变更失败，退出码："@ + text::signed_decimal(status as int) + (Seq::<char>::empty()));
        }
        if !zh {
            text::law_text_contains_its_parts("Committing account-pool changes failed with status "@, text::signed_decimal(status as int), Seq::<char>::empty());
            assert(repo_sync_commit_failed(zh, status) =~= "Committing account-pool changes failed with status "@ + text::signed_decimal(status as int) + (Seq::<char>::empty()));
        }
    }
    assert(text::contains_text(repo_sync_push_failed(zh, repo, status), repo) && text::contains_text(repo_sync_push_failed(zh, repo, status), text::signed_decimal(status as int))) by {
        if zh {
            text::law_text_contains_its_parts("推送账号池变更失败："@, repo, "，退出码："@ + text::signed_decimal(status as int));
            assert(repo_sync_push_failed(zh, repo, status) =~= "推送账号池变更失败："@ + repo + ("，退出码："@ + text::signed_decimal(status as int)));
            text::law_text_contains_its_parts("推送账号池变更失败："@ + repo + "，退出码："@, text::signed_decimal(status as int), Seq::<char>::empty());
            assert(repo_sync_push_failed(zh, repo, status) =~= "推送账号池变更失败："@ + repo + "，退出码："@ + text::signed_decimal(status as int) + (Seq::<char>::empty()));
        }
        if !zh {
            text::law_text_contains_its_parts("Pushing account-pool changes failed: "@, repo, ", status "@ + text::signed_decimal(status as int));
            assert(repo_sync_push_failed(zh, repo, status) =~= "Pushing account-pool changes failed: "@ + repo + (", status "@ + text::signed_decimal(status as int)));
            text::law_text_contains_its_parts("Pushing account-pool changes failed: "@ + repo + ", status "@, text::signed_decimal(status as int), Seq::<char>::empty());
            assert(repo_sync_push_failed(zh, repo, status) =~= "Pushing account-pool changes failed: "@ + repo + ", status "@ + text::signed_decimal(status as int) + (Seq::<char>::empty()));
        }
    }
}

/// A message on an address, a path, a target or a tool names it, in either language.
#[verifier::spinoff_prover]
#[verifier::rlimit(40)]
pub proof fn law_messages_name_their_subject(
    zh: bool,
    ip: Seq<char>,
    tool: Seq<char>,
    target: Seq<char>,
    path: Seq<char>,
    install_command: Seq<char>,
    env_name: Seq<char>,
)
    ensures
        text::contains_text(login_headless_ip(zh, ip), ip),
        text::contains_text(codex_install_tool_missing(zh, tool), tool),
        text::contains_text(deploy_start(zh, target), target),
        text::contains_text(deploy_completed(zh, target), target),
        text::contains_text(deploy_missing_auth(zh, path), path),
        text::contains_text(deploy_invalid_target(zh, target), target),
        text::contains_text(deploy_identity_not_found(zh, path), path),
        text::contains_text(repo_sync_missing_git(zh, install_command), install_command),
        text::contains_text(repo_sync_missing_repo(zh, env_name), env_name),
        text::contains_text(repo_sync_invalid_path(zh, path), path),
{
    assert(text::contains_text(login_headless_ip(zh, ip), ip)) by {
        if zh {
            text::law_text_contains_its_parts("当前无头主机局域网 IP："@, ip, Seq::<char>::empty());
            assert(login_headless_ip(zh, ip) =~= "当前无头主机局域网 IP："@ + ip + (Seq::<char>::empty()));
        }
        if !zh {
            text::law_text_contains_its_parts("Headless host LAN IP: "@, ip, Seq::<char>::empty());
            assert(login_headless_ip(zh, ip) =~= "Headless host LAN IP: "@ + ip + (Seq::<char>::empty()));
        }
    }
    assert(text::contains_text(codex_install_tool_missing(zh, tool), tool)) by {
        if zh {
            text::law_text_contains_its_parts("未找到 "@, tool, "。要自动安装底层 CLI，当前机器需要先满足对应安装前置条件。"@);
            assert(codex_install_tool_missing(zh, tool) =~= "未找到 "@ + tool + ("。要自动安装底层 CLI，当前机器需要先满足对应安装前置条件。"@));
        }
        if !zh {
            text::law_text_contains_its_parts(Seq::<char>::empty(), tool, " not found. Install the prerequisite toolchain before trying to install the underlying CLI automatically."@);
            assert(codex_install_tool_missing(zh, tool) =~= Seq::<char>::empty() + tool + (" not found. Install the prerequisite toolchain before trying to install the underlying CLI automatically."@));
        }
    }
    assert(text::contains_text(deploy_start(zh, target), target)) by {
        if zh {
            text::law_text_contains_its_parts("正在把当前凭证上传到 "@, target, Seq::<char>::empty());
            assert(deploy_start(zh, target) =~= "正在把当前凭证上传到 "@ + target + (Seq::<char>::empty()));
        }
        if !zh {
            text::law_text_contains_its_parts("Deploying the current credential to "@, target, Seq::<char>::empty());
            assert(deploy_start(zh, target) =~= "Deploying the current credential to "@ + target + (Seq::<char>::empty()));
        }
    }
    assert(text::contains_text(deploy_completed(zh, target), target)) by {
        if zh {
            text::law_text_contains_its_parts("已把当前凭证上传到 "@, target, Seq::<char>::empty());
            assert(deploy_completed(zh, target) =~= "已把当前凭证上传到 "@ + target + (Seq::<char>::empty()));
        }
        if !zh {
            text::law_text_contains_its_parts("Deployed the current credential to "@, target, Seq::<char>::empty());
            assert(deploy_completed(zh, target) =~= "Deployed the current credential to "@ + target + (Seq::<char>::empty()));
        }
    }
    assert(text::contains_text(deploy_missing_auth(zh, path), path)) by {
        if zh {
            text::law_text_contains_its_parts("当前可用的 auth.json 不存在："@, path, Seq::<char>::empty());
            assert(deploy_missing_auth(zh, path) =~= "当前可用的 auth.json 不存在："@ + path + (Seq::<char>::empty()));
        }
        if !zh {
            text::law_text_contains_its_parts("Current auth.json not found: "@, path, Seq::<char>::empty());
            assert(deploy_missing_auth(zh, path) =~= "Current auth.json not found: "@ + path + (Seq::<char>::empty()));
        }
    }
    assert(text::contains_text(deploy_invalid_target(zh, target), target)) by {
        if zh {
            text::law_text_contains_its_parts("无效的远端目标："@, target, "。请使用 user@host:/target_path"@);
            assert(deploy_invalid_target(zh, target) =~= "无效的远端目标："@ + target + ("。请使用 user@host:/target_path"@));
        }
        if !zh {
            text::law_text_contains_its_parts("Invalid remote target: "@, target, ". Use user@host:/target_path"@);
            assert(deploy_invalid_target(zh, target) =~= "Invalid remote target: "@ + target + (". Use user@host:/target_path"@));
        }
    }
    assert(text::contains_text(deploy_identity_not_found(zh, path), path)) by {
        if zh {
            text::law_text_contains_its_parts("SSH 身份文件不存在："@, path, Seq::<char>::empty());
            assert(deploy_identity_not_found(zh, path) =~= "SSH 身份文件不存在："@ + path + (Seq::<char>::empty()));
        }
        if !zh {
            text::law_text_contains_its_parts("SSH identity file not found: "@, path, Seq::<char>::empty());
            assert(deploy_identity_not_found(zh, path) =~= "SSH identity file not found: "@ + path + (Seq::<char>::empty()));
        }
    }
    assert(text::contains_text(repo_sync_missing_git(zh, install_command), install_command)) by {
        if zh {
            text::law_text_contains_its_parts("未找到 git。执行 `scodex push` 或 `scodex pull` 需要它。请先安装 git，例如："@, install_command, Seq::<char>::empty());
            assert(repo_sync_missing_git(zh, install_command) =~= "未找到 git。执行 `scodex push` 或 `scodex pull` 需要它。请先安装 git，例如："@ + install_command + (Seq::<char>::empty()));
        }
        if !zh {
            text::law_text_contains_its_parts("git not found; `scodex push` and `scodex pull` require it. Install git first, for example: "@, install_command, Seq::<char>::empty());
            assert(repo_sync_missing_git(zh, install_command) =~= "git not found; `scodex push` and `scodex pull` require it. Install git first, for example: "@ + install_command + (Seq::<char>::empty()));
        }
    }
    assert(text::contains_text(repo_sync_missing_repo(zh, env_name), env_name)) by {
        if zh {
            text::law_text_contains_its_parts("未找到账号池仓库配置。请传入 `<REPO>`，或设置环境变量 `"@, env_name, "`，或先执行一次带 `<REPO>` 的 `scodex push/pull` 以保存本地配置。"@);
            assert(repo_sync_missing_repo(zh, env_name) =~= "未找到账号池仓库配置。请传入 `<REPO>`，或设置环境变量 `"@ + env_name + ("`，或先执行一次带 `<REPO>` 的 `scodex push/pull` 以保存本地配置。"@));
        }
        if !zh {
            text::law_text_contains_its_parts("No account-pool repository configured. Pass `<REPO>`, set `"@, env_name, "`, or run `scodex push/pull` once with `<REPO>` to save it locally."@);
            assert(repo_sync_missing_repo(zh, env_name) =~= "No account-pool repository configured. Pass `<REPO>`, set `"@ + env_name + ("`, or run `scodex push/pull` once with `<REPO>` to save it locally."@));
        }
    }
    assert(text::contains_text(repo_sync_invalid_path(zh, path), path)) by {
        if zh {
            text::law_text_contains_its_parts("无效的仓库子目录："@, path, "。只允许相对路径，且不能包含 `..`。"@);
            assert(repo_sync_invalid_path(zh, path) =~= "无效的仓库子目录："@ + path + ("。只允许相对路径，且不能包含 `..`。"@));
        }
        if !zh {
            text::law_text_contains_its_parts("Invalid repository subdirectory: "@, path, ". Use a relative path without `..`."@);
            assert(repo_sync_invalid_path(zh, path) =~= "Invalid repository subdirectory: "@ + path + (". Use a relative path without `..`."@));
        }
    }
}

/// A message on a repository, a variable or a path names it, in either language.
#[verifier::spinoff_prover]
#[verifier::rlimit(40)]
pub proof fn law_messages_name_what_is_missing(
    zh: bool,
    env_name: Seq<char>,
    repo: Seq<char>,
    path: Seq<char>,
)
    ensures
        text::contains_text(repo_sync_missing_key(zh, env_name), env_name),
        text::contains_text(repo_sync_decrypt_failed(zh, env_name), env_name),
        text::contains_text(repo_sync_clone_auth_failed(zh, repo), repo),
        text::contains_text(repo_sync_push_auth_failed(zh, repo), repo),
        text::contains_text(repo_push_start(zh, repo), repo),
        text::contains_text(repo_push_no_changes(zh, repo), repo),
        text::contains_text(repo_pull_start(zh, repo), repo),
        text::contains_text(repo_pull_missing_bundle(zh, path), path),
        text::contains_text(repo_pull_no_accounts(zh, path), path),
{
    assert(text::contains_text(repo_sync_missing_key(zh, env_name), env_name)) by {
        if zh {
            text::law_text_contains_its_parts("未设置账号池加密密钥环境变量："@, env_name, Seq::<char>::empty());
            assert(repo_sync_missing_key(zh, env_name) =~= "未设置账号池加密密钥环境变量："@ + env_name + (Seq::<char>::empty()));
        }
        if !zh {
            text::law_text_contains_its_parts("Missing account-pool encryption key environment variable: "@, env_name, Seq::<char>::empty());
            assert(repo_sync_missing_key(zh, env_name) =~= "Missing account-pool encryption key environment variable: "@ + env_name + (Seq::<char>::empty()));
        }
    }
    assert(text::contains_text(repo_sync_decrypt_failed(zh, env_name), env_name)) by {
        if zh {
            text::law_text_contains_its_parts("账号池解密失败。请检查 "@, env_name, " 是否正确，或确认远端仓库里的加密 bundle 没有损坏。"@);
            assert(repo_sync_decrypt_failed(zh, env_name) =~= "账号池解密失败。请检查 "@ + env_name + (" 是否正确，或确认远端仓库里的加密 bundle 没有损坏。"@));
        }
        if !zh {
            text::law_text_contains_its_parts("Failed to decrypt the account pool. Check whether "@, env_name, " is correct and whether the encrypted bundle in the repository is intact."@);
            assert(repo_sync_decrypt_failed(zh, env_name) =~= "Failed to decrypt the account pool. Check whether "@ + env_name + (" is correct and whether the encrypted bundle in the repository is intact."@));
        }
    }
    assert(text::contains_text(repo_sync_clone_auth_failed(zh, repo), repo)) by {
        if zh {
            text::law_text_contains_its_parts("无法访问仓库："@, repo, "。请检查仓库 URL，以及当前 Git 凭据、SSH key 或 PAT 是否有这个私有仓库的读取权限。"@);
            assert(repo_sync_clone_auth_failed(zh, repo) =~= "无法访问仓库："@ + repo + ("。请检查仓库 URL，以及当前 Git 凭据、SSH key 或 PAT 是否有这个私有仓库的读取权限。"@));
        }
        if !zh {
            text::law_text_contains_its_parts("Cannot access repository: "@, repo, ". Check the repository URL and whether your current Git credentials, SSH key, or PAT has read access to this private repository."@);
            assert(repo_sync_clone_auth_failed(zh, repo) =~= "Cannot access repository: "@ + repo + (". Check the repository URL and whether your current Git credentials, SSH key, or PAT has read access to this private repository."@));
        }
    }
    assert(text::contains_text(repo_sync_push_auth_failed(zh, repo), repo)) by {
        if zh {
            text::law_text_contains_its_parts("无法写入仓库："@, repo, "。请检查当前 Git 凭据、SSH key 或 PAT 是否有这个私有仓库的写入权限。"@);
            assert(repo_sync_push_auth_failed(zh, repo) =~= "无法写入仓库："@ + repo + ("。请检查当前 Git 凭据、SSH key 或 PAT 是否有这个私有仓库的写入权限。"@));
        }
        if !zh {
            text::law_text_contains_its_parts("Cannot write to repository: "@, repo, ". Check whether your current Git credentials, SSH key, or PAT has write access to this private repository."@);
            assert(repo_sync_push_auth_failed(zh, repo) =~= "Cannot write to repository: "@ + repo + (". Check whether your current Git credentials, SSH key, or PAT has write access to this private repository."@));
        }
    }
    assert(text::contains_text(repo_push_start(zh, repo), repo)) by {
        if zh {
            text::law_text_contains_its_parts("正在把本地账号池全量推送到 "@, repo, Seq::<char>::empty());
            assert(repo_push_start(zh, repo) =~= "正在把本地账号池全量推送到 "@ + repo + (Seq::<char>::empty()));
        }
        if !zh {
            text::law_text_contains_its_parts("Pushing the full local account pool to "@, repo, Seq::<char>::empty());
            assert(repo_push_start(zh, repo) =~= "Pushing the full local account pool to "@ + repo + (Seq::<char>::empty()));
        }
    }
    assert(text::contains_text(repo_push_no_changes(zh, repo), repo)) by {
        if zh {
            text::law_text_contains_its_parts(Seq::<char>::empty(), repo, " 里的账号池没有差异，无需推送"@);
            assert(repo_push_no_changes(zh, repo) =~= Seq::<char>::empty() + repo + (" 里的账号池没有差异，无需推送"@));
        }
        if !zh {
            text::law_text_contains_its_parts("No account-pool changes to push to "@, repo, Seq::<char>::empty());
            assert(repo_push_no_changes(zh, repo) =~= "No account-pool changes to push to "@ + repo + (Seq::<char>::empty()));
        }
    }
    assert(text::contains_text(repo_pull_start(zh, repo), repo)) by {
        if zh {
            text::law_text_contains_its_parts("正在从 "@, repo, " 拉取账号池，并准备覆盖本地"@);
            assert(repo_pull_start(zh, repo) =~= "正在从 "@ + repo + (" 拉取账号池，并准备覆盖本地"@));
        }
        if !zh {
            text::law_text_contains_its_parts("Pulling the account pool from "@, repo, " and preparing to overwrite local state"@);
            assert(repo_pull_start(zh, repo) =~= "Pulling the account pool from "@ + repo + (" and preparing to overwrite local state"@));
        }
    }
    assert(text::contains_text(repo_pull_missing_bundle(zh, path), path)) by {
        if zh {
            text::law_text_contains_its_parts("仓库里没有找到账号池目录："@, path, Seq::<char>::empty());
            assert(repo_pull_missing_bundle(zh, path) =~= "仓库里没有找到账号池目录："@ + path + (Seq::<char>::empty()));
        }
        if !zh {
            text::law_text_contains_its_parts("Account-pool directory not found in repository: "@, path, Seq::<char>::empty());
            assert(repo_pull_missing_bundle(zh, path) =~= "Account-pool directory not found in repository: "@ + path + (Seq::<char>::empty()));
        }
    }
    assert(text::contains_text(repo_pull_no_accounts(zh, path), path)) by {
        if zh {
            text::law_text_contains_its_parts("账号池目录里没有可导入的账号："@, path, Seq::<char>::empty());
            assert(repo_pull_no_accounts(zh, path) =~= "账号池目录里没有可导入的账号："@ + path + (Seq::<char>::empty()));
        }
        if !zh {
            text::law_text_contains_its_parts("No importable accounts found in account-pool directory: "@, path, Seq::<char>::empty());
            assert(repo_pull_no_accounts(zh, path) =~= "No importable accounts found in account-pool directory: "@ + path + (Seq::<char>::empty()));
        }
    }
}

/// An update goes from the previous version to the one that was installed, at the place that
/// ends the message; an import puts the email before the id.
#[verifier::spinoff_prover]
#[verifier::rlimit(40)]
pub proof fn law_messages_keep_the_order(
    zh: bool,
    previous: Seq<char>,
    installed: Seq<char>,
    path: Seq<char>,
)
    ensures
        zh ==> ("已将 scodex 从 "@ + previous + " 更新到 "@ + installed).is_prefix_of(
            update_completed(zh, previous, installed, path),
        ),
        !zh ==> ("Updated scodex from "@ + previous + " to "@ + installed).is_prefix_of(
            update_completed(zh, previous, installed, path),
        ),
        path.is_suffix_of(update_completed(zh, previous, installed, path)),
        path.is_suffix_of(update_already_current(zh, installed, path)),
        (previous + " -> "@ + installed).is_suffix_of(imported_account(zh, previous, installed)),
{
    let done = update_completed(zh, previous, installed, path);
    let head = if zh {
        "已将 scodex 从 "@ + previous + " 更新到 "@ + installed
    } else {
        "Updated scodex from "@ + previous + " to "@ + installed
    };
    assert(head =~= done.take(head.len() as int));
    assert(path =~= done.skip(done.len() - path.len()));
    let same = update_already_current(zh, installed, path);
    assert(path =~= same.skip(same.len() - path.len()));
    let told = imported_account(zh, previous, installed);
    let tail = previous + " -> "@ + installed;
    assert(tail =~= told.skip(told.len() - tail.len()));
}

} // verus!
