//! The help texts, in English and in Chinese.

use vstd::prelude::*;

use crate::text;

verus! {

/// What help is about.
#[derive(Clone, Copy, Debug, PartialEq, Eq, Structural)]
pub enum HelpTopic {
    Root,
    Launch,
    Auto,
    Add,
    Login,
    Deploy,
    Push,
    Pull,
    Use,
    Rm,
    List,
    Refresh,
    Update,
    ImportAuth,
    ImportKnown,
}

/// What one item of help says: its name, and what it is in English and in Chinese.
pub struct ItemModel {
    pub name: Seq<char>,
    pub desc: (Seq<char>, Seq<char>),
}

/// One item of help.
pub open spec fn item_model(name: Seq<char>, en: Seq<char>, zh: Seq<char>) -> ItemModel {
    ItemModel { name, desc: (en, zh) }
}

/// One item of help: an argument, an option, a variable or a command.
#[derive(Clone, Copy, Debug)]
pub struct HelpItem {
    pub name: &'static str,
    pub desc: (&'static str, &'static str),
}

impl View for HelpItem {
    type V = ItemModel;

    open spec fn view(&self) -> ItemModel {
        item_model(self.name@, self.desc.0@, self.desc.1@)
    }
}

/// What each item says.
pub open spec fn item_models(items: Seq<HelpItem>) -> Seq<ItemModel> {
    Seq::new(items.len(), |i: int| items[i]@)
}

/// A text in English and in Chinese.
pub open spec fn pair_model(pair: (&'static str, &'static str)) -> (Seq<char>, Seq<char>) {
    (pair.0@, pair.1@)
}

/// What each pair says.
pub open spec fn pair_models(pairs: Seq<(&'static str, &'static str)>) -> Seq<
    (Seq<char>, Seq<char>),
> {
    Seq::new(pairs.len(), |i: int| pair_model(pairs[i]))
}

/// The help of a topic.
pub struct EntryModel {
    pub usage_lines: Seq<(Seq<char>, Seq<char>)>,
    pub description: Option<(Seq<char>, Seq<char>)>,
    pub args: Seq<ItemModel>,
    pub options: Seq<ItemModel>,
    pub env: Seq<ItemModel>,
    pub commands: Seq<ItemModel>,
}

/// The help of a topic.
#[derive(Debug)]
pub struct HelpEntry {
    pub usage_lines: Vec<(&'static str, &'static str)>,
    pub description: Option<(&'static str, &'static str)>,
    pub args: Vec<HelpItem>,
    pub options: Vec<HelpItem>,
    pub env: Vec<HelpItem>,
    pub commands: Vec<HelpItem>,
}

impl View for HelpEntry {
    type V = EntryModel;

    open spec fn view(&self) -> EntryModel {
        EntryModel {
            usage_lines: pair_models(self.usage_lines@),
            description: match self.description {
                Some(pair) => Some(pair_model(pair)),
                None => None,
            },
            args: item_models(self.args@),
            options: item_models(self.options@),
            env: item_models(self.env@),
            commands: item_models(self.commands@),
        }
    }
}

fn help_item(name: &'static str, en: &'static str, zh: &'static str) -> (r: HelpItem)
    ensures
        r@ == item_model(name@, en@, zh@),
{
    HelpItem { name, desc: (en, zh) }
}

fn no_items() -> (r: Vec<HelpItem>)
    ensures
        item_models(r@) == Seq::<ItemModel>::empty(),
{
    let items: Vec<HelpItem> = Vec::new();
    assert(item_models(items@) =~= Seq::<ItemModel>::empty());
    items
}

fn help_text_pair(en: &'static str, zh: &'static str) -> (r: (&'static str, &'static str))
    ensures
        pair_model(r) == (en@, zh@),
{
    (en, zh)
}

fn usage_of(en: &'static str, zh: &'static str) -> (r: Vec<(&'static str, &'static str)>)
    ensures
        pair_models(r@) == seq![(en@, zh@)],
{
    let mut lines: Vec<(&'static str, &'static str)> = Vec::new();
    lines.push((en, zh));
    assert(pair_models(lines@) =~= seq![(en@, zh@)]);
    lines
}

fn usage_with_alias(
    en: &'static str,
    zh: &'static str,
    alias_en: &'static str,
    alias_zh: &'static str,
) -> (r: Vec<(&'static str, &'static str)>)
    ensures
        pair_models(r@) == seq![(en@, zh@), (alias_en@, alias_zh@)],
{
    let mut lines: Vec<(&'static str, &'static str)> = Vec::new();
    lines.push((en, zh));
    lines.push((alias_en, alias_zh));
    assert(pair_models(lines@) =~= seq![(en@, zh@), (alias_en@, alias_zh@)]);
    lines
}

fn build_entry(
    usage_lines: Vec<(&'static str, &'static str)>,
    description: Option<(&'static str, &'static str)>,
    args: Vec<HelpItem>,
    options: Vec<HelpItem>,
    env: Vec<HelpItem>,
    commands: Vec<HelpItem>,
) -> (r: HelpEntry)
    ensures
        r@ == (EntryModel {
            usage_lines: pair_models(usage_lines@),
            description: match description {
                Some(pair) => Some(pair_model(pair)),
                None => None,
            },
            args: item_models(args@),
            options: item_models(options@),
            env: item_models(env@),
            commands: item_models(commands@),
        }),
{
    HelpEntry { usage_lines, description, args, options, env, commands }
}

// ---------------------------------------------------------------------------
// Topics
// ---------------------------------------------------------------------------

/// The topic of a command.
pub open spec fn topic_of(name: Seq<char>) -> Option<HelpTopic> {
    if name == "launch"@ {
        Some(HelpTopic::Launch)
    } else if name == "auto"@ {
        Some(HelpTopic::Auto)
    } else if name == "add"@ {
        Some(HelpTopic::Add)
    } else if name == "login"@ {
        Some(HelpTopic::Login)
    } else if name == "deploy"@ || name == "sync"@ {
        Some(HelpTopic::Deploy)
    } else if name == "push"@ {
        Some(HelpTopic::Push)
    } else if name == "pull"@ {
        Some(HelpTopic::Pull)
    } else if name == "use"@ {
        Some(HelpTopic::Use)
    } else if name == "rm"@ {
        Some(HelpTopic::Rm)
    } else if name == "list"@ {
        Some(HelpTopic::List)
    } else if name == "refresh"@ {
        Some(HelpTopic::Refresh)
    } else if name == "update"@ || name == "upgrade"@ {
        Some(HelpTopic::Update)
    } else if name == "import-auth"@ {
        Some(HelpTopic::ImportAuth)
    } else if name == "import-known"@ {
        Some(HelpTopic::ImportKnown)
    } else {
        None
    }
}

/// The topic of a command.
pub fn command_help_topic(name: &str) -> (r: Option<HelpTopic>)
    ensures
        r == topic_of(name@),
{
    if text::same_text(name, "launch") {
        Some(HelpTopic::Launch)
    } else if text::same_text(name, "auto") {
        Some(HelpTopic::Auto)
    } else if text::same_text(name, "add") {
        Some(HelpTopic::Add)
    } else if text::same_text(name, "login") {
        Some(HelpTopic::Login)
    } else if text::same_text(name, "deploy") || text::same_text(name, "sync") {
        Some(HelpTopic::Deploy)
    } else if text::same_text(name, "push") {
        Some(HelpTopic::Push)
    } else if text::same_text(name, "pull") {
        Some(HelpTopic::Pull)
    } else if text::same_text(name, "use") {
        Some(HelpTopic::Use)
    } else if text::same_text(name, "rm") {
        Some(HelpTopic::Rm)
    } else if text::same_text(name, "list") {
        Some(HelpTopic::List)
    } else if text::same_text(name, "refresh") {
        Some(HelpTopic::Refresh)
    } else if text::same_text(name, "update") || text::same_text(name, "upgrade") {
        Some(HelpTopic::Update)
    } else if text::same_text(name, "import-auth") {
        Some(HelpTopic::ImportAuth)
    } else if text::same_text(name, "import-known") {
        Some(HelpTopic::ImportKnown)
    } else {
        None
    }
}

/// Whether an argument asks for help.
pub open spec fn asks_for_help(arg: Seq<char>) -> bool {
    arg == "-h"@ || arg == "--help"@
}

/// What help is asked for by the arguments, of which the first is the program.
pub open spec fn asked_topic(args: Seq<Seq<char>>) -> Option<HelpTopic> {
    if args.len() < 2 {
        None
    } else if asks_for_help(args[1]) {
        Some(HelpTopic::Root)
    } else if args[1] == "help"@ {
        if args.len() > 2 && topic_of(args[2]) is Some {
            topic_of(args[2])
        } else {
            Some(HelpTopic::Root)
        }
    } else if exists|i: int| 2 <= i < args.len() && asks_for_help(#[trigger] args[i]) {
        topic_of(args[1])
    } else {
        None
    }
}

/// What help is asked for by the arguments, of which the first is the program.
pub fn requested_help_topic(args: &Vec<String>) -> (r: Option<HelpTopic>)
    ensures
        r == asked_topic(text::views(args@)),
{
    let ghost all = text::views(args@);
    if args.len() < 2 {
        return None;
    }
    let first = args[1].as_str();
    assert(all[1] == first@);
    if text::same_text(first, "-h") || text::same_text(first, "--help") {
        return Some(HelpTopic::Root);
    }
    if text::same_text(first, "help") {
        if args.len() > 2 {
            assert(all[2] == args@[2]@);
            if let Some(topic) = command_help_topic(args[2].as_str()) {
                return Some(topic);
            }
        }
        return Some(HelpTopic::Root);
    }
    let topic = command_help_topic(first);
    let mut i: usize = 2;
    while i < args.len()
        invariant
            2 <= i <= args@.len(),
            all == text::views(args@),
            topic == topic_of(all[1]),
            !asks_for_help(all[1]),
            all[1] != "help"@,
            forall|k: int| 2 <= k < i ==> !asks_for_help(#[trigger] all[k]),
        decreases args@.len() - i,
    {
        assert(all[i as int] == args@[i as int]@);
        if text::same_text(args[i].as_str(), "-h") || text::same_text(
            args[i].as_str(),
            "--help",
        ) {
            assert(asks_for_help(all[i as int]));
            return topic;
        }
        i += 1;
    }
    None
}

/// The help on a command is the same whether it is asked for by `help` before its name or
/// by an option after it, whatever else stands between.
pub proof fn law_both_forms_ask_for_the_same(
    program: Seq<char>,
    name: Seq<char>,
    between: Seq<Seq<char>>,
)
    requires
        topic_of(name) is Some,
    ensures
        asked_topic(seq![program, "help"@, name]) == topic_of(name),
        asked_topic(seq![program, name] + between + seq!["-h"@]) == topic_of(name),
        asked_topic(seq![program, name] + between + seq!["--help"@]) == topic_of(name),
{
    lemma_names();
    assert(!asks_for_help(name) && name != "help"@);
    assert(!asks_for_help("help"@));
    let short = seq![program, name] + between + seq!["-h"@];
    let long = seq![program, name] + between + seq!["--help"@];
    assert(short[1] == name && long[1] == name);
    assert(asks_for_help(short[short.len() - 1]));
    assert(asks_for_help(long[long.len() - 1]));
}

proof fn lemma_names()
    ensures
        forall|name: Seq<char>| #[trigger]
            topic_of(name) is Some ==> name.len() > 0 && name[0] != '-' && name[0] != 'h',
        "help"@[0] == 'h',
        "-h"@[0] == '-',
        "--help"@[0] == '-',
        "help"@.len() > 0 && "-h"@.len() > 0 && "--help"@.len() > 0,
{
    reveal_strlit("launch");
    reveal_strlit("auto");
    reveal_strlit("add");
    reveal_strlit("login");
    reveal_strlit("deploy");
    reveal_strlit("sync");
    reveal_strlit("push");
    reveal_strlit("pull");
    reveal_strlit("use");
    reveal_strlit("rm");
    reveal_strlit("list");
    reveal_strlit("refresh");
    reveal_strlit("update");
    reveal_strlit("upgrade");
    reveal_strlit("import-auth");
    reveal_strlit("import-known");
    reveal_strlit("help");
    reveal_strlit("-h");
    reveal_strlit("--help");
    assert("launch"@[0] == 'l');
    assert("auto"@[0] == 'a');
    assert("add"@[0] == 'a');
    assert("login"@[0] == 'l');
    assert("deploy"@[0] == 'd');
    assert("sync"@[0] == 's');
    assert("push"@[0] == 'p');
    assert("pull"@[0] == 'p');
    assert("use"@[0] == 'u');
    assert("rm"@[0] == 'r');
    assert("list"@[0] == 'l');
    assert("refresh"@[0] == 'r');
    assert("update"@[0] == 'u');
    assert("upgrade"@[0] == 'u');
    assert("import-auth"@[0] == 'i');
    assert("import-known"@[0] == 'i');
    assert("help"@[0] == 'h');
    assert("-h"@[0] == '-');
    assert("--help"@[0] == '-');
}

// ---------------------------------------------------------------------------
// The texts
// ---------------------------------------------------------------------------

/// The items of the table `root_options`.
pub open spec fn root_options_model() -> Seq<ItemModel> {
    seq![
        item_model(
            "      --state-dir <STATE_DIR>"@,
            "Override the local state directory"@,
            "覆盖本地状态目录"@,
        ),
        item_model(
            "  -h, --help                  "@,
            "Print help"@,
            "显示帮助"@,
        ),
    ]
}

fn root_options() -> (r: Vec<HelpItem>)
    ensures
        item_models(r@) == root_options_model(),
{
    let mut items: Vec<HelpItem> = Vec::new();
    items.push(help_item(
        "      --state-dir <STATE_DIR>",
        "Override the local state directory",
        "覆盖本地状态目录",
    ));
    items.push(help_item(
        "  -h, --help                  ",
        "Print help",
        "显示帮助",
    ));
    assert(item_models(items@) =~= root_options_model());
    items
}

/// The items of the table `root_commands`.
pub open spec fn root_commands_model() -> Seq<ItemModel> {
    seq![
        item_model(
            "launch"@,
            "Switch to the best account and launch or resume Codex"@,
            "切换到最佳账号，并启动或恢复 Codex"@,
        ),
        item_model(
            "auto"@,
            "Switch to the best account without launching Codex"@,
            "切换到最佳账号，但不启动 Codex"@,
        ),
        item_model(
            "add"@,
            "Add one account and switch to it"@,
            "新增一个账号并切换"@,
        ),
        item_model(
            "login"@,
            "Add one account through device auth"@,
            "通过设备登录新增一个账号"@,
        ),
        item_model(
            "deploy"@,
            "Copy the current auth.json to a remote machine [alias: sync]"@,
            "把当前 auth.json 复制到远端机器 [别名：sync]"@,
        ),
        item_model(
            "push"@,
            "Push the local account pool into a Git repository"@,
            "把本地账号池推送到 Git 仓库"@,
        ),
        item_model(
            "pull"@,
            "Pull an account pool from a Git repository"@,
            "从 Git 仓库拉取账号池"@,
        ),
        item_model(
            "use"@,
            "Switch directly to a known account by email"@,
            "按邮箱直接切换到一个已知账号"@,
        ),
        item_model(
            "rm"@,
            "Remove a stored account by email"@,
            "按邮箱删除一个已保存的账号"@,
        ),
        item_model(
            "list"@,
            "Show the latest account quotas"@,
            "显示最新账号额度"@,
        ),
        item_model(
            "refresh"@,
            "Refresh live usage for all known accounts"@,
            "刷新所有已知账号的实时额度"@,
        ),
        item_model(
            "update"@,
            "Self-update scodex [alias: upgrade]"@,
            "自更新 scodex [别名：upgrade]"@,
        ),
        item_model(
            "import-auth"@,
            "Import an auth.json file or home directory"@,
            "导入 auth.json 文件或其所在 home 目录"@,
        ),
        item_model(
            "import-known"@,
            "Import the default known auth sources"@,
            "导入默认已知认证来源"@,
        ),
        item_model(
            "help"@,
            "Print this message or the help of the given subcommand(s)"@,
            "显示帮助"@,
        ),
    ]
}

fn root_commands() -> (r: Vec<HelpItem>)
    ensures
        item_models(r@) == root_commands_model(),
{
    let mut items: Vec<HelpItem> = Vec::new();
    items.push(help_item(
        "launch",
        "Switch to the best account and launch or resume Codex",
        "切换到最佳账号，并启动或恢复 Codex",
    ));
    items.push(help_item(
        "auto",
        "Switch to the best account without launching Codex",
        "切换到最佳账号，但不启动 Codex",
    ));
    items.push(help_item(
        "add",
        "Add one account and switch to it",
        "新增一个账号并切换",
    ));
    items.push(help_item(
        "login",
        "Add one account through device auth",
        "通过设备登录新增一个账号",
    ));
    items.push(help_item(
        "deploy",
        "Copy the current auth.json to a remote machine [alias: sync]",
        "把当前 auth.json 复制到远端机器 [别名：sync]",
    ));
    items.push(help_item(
        "push",
        "Push the local account pool into a Git repository",
        "把本地账号池推送到 Git 仓库",
    ));
    items.push(help_item(
        "pull",
        "Pull an account pool from a Git repository",
        "从 Git 仓库拉取账号池",
    ));
    items.push(help_item(
        "use",
        "Switch directly to a known account by email",
        "按邮箱直接切换到一个已知账号",
    ));
    items.push(help_item(
        "rm",
        "Remove a stored account by email",
        "按邮箱删除一个已保存的账号",
    ));
    items.push(help_item(
        "list",
        "Show the latest account quotas",
        "显示最新账号额度",
    ));
    items.push(help_item(
        "refresh",
        "Refresh live usage for all known accounts",
        "刷新所有已知账号的实时额度",
    ));
    items.push(help_item(
        "update",
        "Self-update scodex [alias: upgrade]",
        "自更新 scodex [别名：upgrade]",
    ));
    items.push(help_item(
        "import-auth",
        "Import an auth.json file or home directory",
        "导入 auth.json 文件或其所在 home 目录",
    ));
    items.push(help_item(
        "import-known",
        "Import the default known auth sources",
        "导入默认已知认证来源",
    ));
    items.push(help_item(
        "help",
        "Print this message or the help of the given subcommand(s)",
        "显示帮助",
    ));
    assert(item_models(items@) =~= root_commands_model());
    items
}

/// The items of the table `launch_options`.
pub open spec fn launch_options_model() -> Seq<ItemModel> {
    seq![
        item_model(
            "      --no-import-known"@,
            "Skip auto-import of known auth sources"@,
            "跳过自动导入已知认证来源"@,
        ),
        item_model(
            "      --no-login        "@,
            "Do not start device auth when no usable account exists"@,
            "当没有可用账号时，不自动发起设备登录"@,
        ),
        item_model(
            "      --dry-run         "@,
            "Show the selected account without switching or launching"@,
            "只显示会选中的账号"@,
        ),
        item_model(
            "      --no-resume       "@,
            "Always start a fresh Codex session"@,
            "总是新开 Codex 会话"@,
        ),
        item_model(
            "      --no-launch       "@,
            "Switch the account but do not start Codex"@,
            "只切换账号，不启动 Codex"@,
        ),
        item_model(
            "  -h, --help            "@,
            "Print help"@,
            "显示帮助"@,
        ),
    ]
}

fn launch_options() -> (r: Vec<HelpItem>)
    ensures
        item_models(r@) == launch_options_model(),
{
    let mut items: Vec<HelpItem> = Vec::new();
    items.push(help_item(
        "      --no-import-known",
        "Skip auto-import of known auth sources",
        "跳过自动导入已知认证来源",
    ));
    items.push(help_item(
        "      --no-login        ",
        "Do not start device auth when no usable account exists",
        "当没有可用账号时，不自动发起设备登录",
    ));
    items.push(help_item(
        "      --dry-run         ",
        "Show the selected account without switching or launching",
        "只显示会选中的账号",
    ));
    items.push(help_item(
        "      --no-resume       ",
        "Always start a fresh Codex session",
        "总是新开 Codex 会话",
    ));
    items.push(help_item(
        "      --no-launch       ",
        "Switch the account but do not start Codex",
        "只切换账号，不启动 Codex",
    ));
    items.push(help_item(
        "  -h, --help            ",
        "Print help",
        "显示帮助",
    ));
    assert(item_models(items@) =~= launch_options_model());
    items
}

/// The items of the table `auto_options`.
pub open spec fn auto_options_model() -> Seq<ItemModel> {
    seq![
        item_model(
            "      --no-import-known"@,
            "Skip auto-import of known auth sources"@,
            "跳过自动导入已知认证来源"@,
        ),
        item_model(
            "      --no-login        "@,
            "Do not start device auth when no usable account exists"@,
            "当没有可用账号时，不自动发起设备登录"@,
        ),
        item_model(
            "      --dry-run         "@,
            "Show the selected account without switching"@,
            "只显示会选中的账号，不执行切换"@,
        ),
        item_model(
            "  -h, --help            "@,
            "Print help"@,
            "显示帮助"@,
        ),
    ]
}

fn auto_options() -> (r: Vec<HelpItem>)
    ensures
        item_models(r@) == auto_options_model(),
{
    let mut items: Vec<HelpItem> = Vec::new();
    items.push(help_item(
        "      --no-import-known",
        "Skip auto-import of known auth sources",
        "跳过自动导入已知认证来源",
    ));
    items.push(help_item(
        "      --no-login        ",
        "Do not start device auth when no usable account exists",
        "当没有可用账号时，不自动发起设备登录",
    ));
    items.push(help_item(
        "      --dry-run         ",
        "Show the selected account without switching",
        "只显示会选中的账号，不执行切换",
    ));
    items.push(help_item(
        "  -h, --help            ",
        "Print help",
        "显示帮助",
    ));
    assert(item_models(items@) =~= auto_options_model());
    items
}

/// The items of the table `add_options`.
pub open spec fn add_options_model() -> Seq<ItemModel> {
    seq![
        item_model(
            "      --switch              "@,
            "Deprecated compatibility option; add always switches now"@,
            "兼容旧用法的保留选项；当前 add 总是会切换"@,
        ),
        item_model(
            "      --api                "@,
            "Add an API-key account; requires --API_TOKEN, --BASE_URL, and --provider"@,
            "新增 API key 账号，需要同时传入 --API_TOKEN、--BASE_URL 和 --provider"@,
        ),
        item_model(
            "      --API_TOKEN <TOKEN>  "@,
            "API token used when --api is set"@,
            "--api 模式下使用的 API token"@,
        ),
        item_model(
            "      --BASE_URL <URL>     "@,
            "API base URL used when --api is set"@,
            "--api 模式下使用的 API base URL"@,
        ),
        item_model(
            "      --provider <NAME>    "@,
            "Provider id used when --api is set"@,
            "--api 模式下使用的 provider id"@,
        ),
        item_model(
            "  -h, --help               "@,
            "Print help"@,
            "显示帮助"@,
        ),
    ]
}

fn add_options() -> (r: Vec<HelpItem>)
    ensures
        item_models(r@) == add_options_model(),
{
    let mut items: Vec<HelpItem> = Vec::new();
    items.push(help_item(
        "      --switch              ",
        "Deprecated compatibility option; add always switches now",
        "兼容旧用法的保留选项；当前 add 总是会切换",
    ));
    items.push(help_item(
        "      --api                ",
        "Add an API-key account; requires --API_TOKEN, --BASE_URL, and --provider",
        "新增 API key 账号，需要同时传入 --API_TOKEN、--BASE_URL 和 --provider",
    ));
    items.push(help_item(
        "      --API_TOKEN <TOKEN>  ",
        "API token used when --api is set",
        "--api 模式下使用的 API token",
    ));
    items.push(help_item(
        "      --BASE_URL <URL>     ",
        "API base URL used when --api is set",
        "--api 模式下使用的 API base URL",
    ));
    items.push(help_item(
        "      --provider <NAME>    ",
        "Provider id used when --api is set",
        "--api 模式下使用的 provider id",
    ));
    items.push(help_item(
        "  -h, --help               ",
        "Print help",
        "显示帮助",
    ));
    assert(item_models(items@) =~= add_options_model());
    items
}

/// The items of the table `login_options`.
pub open spec fn login_options_model() -> Seq<ItemModel> {
    seq![
        item_model(
            "      --api                "@,
            "Add an API-key account; requires --API_TOKEN, --BASE_URL, and --provider"@,
            "新增 API key 账号，需要同时传入 --API_TOKEN、--BASE_URL 和 --provider"@,
        ),
        item_model(
            "      --API_TOKEN <TOKEN>  "@,
            "API token used when --api is set"@,
            "--api 模式下使用的 API token"@,
        ),
        item_model(
            "      --BASE_URL <URL>     "@,
            "API base URL used when --api is set"@,
            "--api 模式下使用的 API base URL"@,
        ),
        item_model(
            "      --provider <NAME>    "@,
            "Provider id used when --api is set"@,
            "--api 模式下使用的 provider id"@,
        ),
        item_model(
            "      --oauth              "@,
            "Use the browser OAuth flow with auto-fill; requires --username and --password"@,
            "使用浏览器 OAuth 流程并自动填充，需要同时传入 --username 和 --password"@,
        ),
        item_model(
            "      --username <EMAIL>   "@,
            "Email used when --oauth is set"@,
            "--oauth 模式下使用的邮箱"@,
        ),
        item_model(
            "      --password <PASS>    "@,
            "Password used when --oauth is set (visible in ps; scope to trusted shells)"@,
            "--oauth 模式下使用的密码（会出现在 ps 中，建议仅在可信 shell 使用）"@,
        ),
        item_model(
            "  -h, --help               "@,
            "Print help"@,
            "显示帮助"@,
        ),
    ]
}

fn login_options() -> (r: Vec<HelpItem>)
    ensures
        item_models(r@) == login_options_model(),
{
    let mut items: Vec<HelpItem> = Vec::new();
    items.push(help_item(
        "      --api                ",
        "Add an API-key account; requires --API_TOKEN, --BASE_URL, and --provider",
        "新增 API key 账号，需要同时传入 --API_TOKEN、--BASE_URL 和 --provider",
    ));
    items.push(help_item(
        "      --API_TOKEN <TOKEN>  ",
        "API token used when --api is set",
        "--api 模式下使用的 API token",
    ));
    items.push(help_item(
        "      --BASE_URL <URL>     ",
        "API base URL used when --api is set",
        "--api 模式下使用的 API base URL",
    ));
    items.push(help_item(
        "      --provider <NAME>    ",
        "Provider id used when --api is set",
        "--api 模式下使用的 provider id",
    ));
    items.push(help_item(
        "      --oauth              ",
        "Use the browser OAuth flow with auto-fill; requires --username and --password",
        "使用浏览器 OAuth 流程并自动填充，需要同时传入 --username 和 --password",
    ));
    items.push(help_item(
        "      --username <EMAIL>   ",
        "Email used when --oauth is set",
        "--oauth 模式下使用的邮箱",
    ));
    items.push(help_item(
        "      --password <PASS>    ",
        "Password used when --oauth is set (visible in ps; scope to trusted shells)",
        "--oauth 模式下使用的密码（会出现在 ps 中，建议仅在可信 shell 使用）",
    ));
    items.push(help_item(
        "  -h, --help               ",
        "Print help",
        "显示帮助",
    ));
    assert(item_models(items@) =~= login_options_model());
    items
}

/// The items of the table `deploy_args`.
pub open spec fn deploy_args_model() -> Seq<ItemModel> {
    seq![
        item_model(
            "  <TARGET>"@,
            "Remote destination in the form user@host:/target_path"@,
            "远端目标，格式为 user@host:/target_path"@,
        ),
    ]
}

fn deploy_args() -> (r: Vec<HelpItem>)
    ensures
        item_models(r@) == deploy_args_model(),
{
    let mut items: Vec<HelpItem> = Vec::new();
    items.push(help_item(
        "  <TARGET>",
        "Remote destination in the form user@host:/target_path",
        "远端目标，格式为 user@host:/target_path",
    ));
    assert(item_models(items@) =~= deploy_args_model());
    items
}

/// The items of the table `deploy_options`.
pub open spec fn deploy_options_model() -> Seq<ItemModel> {
    seq![
        item_model(
            "  -i <IDENTITY_FILE>"@,
            "Pass an SSH identity file to ssh/scp"@,
            "传给 ssh/scp 的 SSH 身份文件"@,
        ),
        item_model(
            "  -h, --help        "@,
            "Print help"@,
            "显示帮助"@,
        ),
    ]
}

fn deploy_options() -> (r: Vec<HelpItem>)
    ensures
        item_models(r@) == deploy_options_model(),
{
    let mut items: Vec<HelpItem> = Vec::new();
    items.push(help_item(
        "  -i <IDENTITY_FILE>",
        "Pass an SSH identity file to ssh/scp",
        "传给 ssh/scp 的 SSH 身份文件",
    ));
    items.push(help_item(
        "  -h, --help        ",
        "Print help",
        "显示帮助",
    ));
    assert(item_models(items@) =~= deploy_options_model());
    items
}

/// The items of the table `repo_sync_args`.
pub open spec fn repo_sync_args_model() -> Seq<ItemModel> {
    seq![
        item_model(
            "  [REPO]"@,
            "Git remote URL or local repository path (CLI > SCODEX_POOL_REPO > local state)"@,
            "Git 远端 URL 或本地仓库路径（优先级：命令行 > SCODEX_POOL_REPO > 本地状态）"@,
        ),
    ]
}

fn repo_sync_args() -> (r: Vec<HelpItem>)
    ensures
        item_models(r@) == repo_sync_args_model(),
{
    let mut items: Vec<HelpItem> = Vec::new();
    items.push(help_item(
        "  [REPO]",
        "Git remote URL or local repository path (CLI > SCODEX_POOL_REPO > local state)",
        "Git 远端 URL 或本地仓库路径（优先级：命令行 > SCODEX_POOL_REPO > 本地状态）",
    ));
    assert(item_models(items@) =~= repo_sync_args_model());
    items
}

/// The items of the table `repo_sync_options`.
pub open spec fn repo_sync_options_model() -> Seq<ItemModel> {
    seq![
        item_model(
            "      --path <REPO_PATH>"@,
            "Repository subdirectory used for the account pool"@,
            "仓库内用于保存账号池的子目录"@,
        ),
        item_model(
            "  -i <IDENTITY_FILE>    "@,
            "SSH private key passed to git via GIT_SSH_COMMAND"@,
            "通过 GIT_SSH_COMMAND 传给 git 的 SSH 私钥"@,
        ),
        item_model(
            "  -h, --help            "@,
            "Print help"@,
            "显示帮助"@,
        ),
    ]
}

fn repo_sync_options() -> (r: Vec<HelpItem>)
    ensures
        item_models(r@) == repo_sync_options_model(),
{
    let mut items: Vec<HelpItem> = Vec::new();
    items.push(help_item(
        "      --path <REPO_PATH>",
        "Repository subdirectory used for the account pool",
        "仓库内用于保存账号池的子目录",
    ));
    items.push(help_item(
        "  -i <IDENTITY_FILE>    ",
        "SSH private key passed to git via GIT_SSH_COMMAND",
        "通过 GIT_SSH_COMMAND 传给 git 的 SSH 私钥",
    ));
    items.push(help_item(
        "  -h, --help            ",
        "Print help",
        "显示帮助",
    ));
    assert(item_models(items@) =~= repo_sync_options_model());
    items
}

/// The items of the table `push_env`.
pub open spec fn push_env_model() -> Seq<ItemModel> {
    seq![
        item_model(
            "SCODEX_POOL_KEY "@,
            "Symmetric key source for encrypting the account pool"@,
            "用于加密账号池的对称密钥来源"@,
        ),
        item_model(
            "SCODEX_POOL_PATH"@,
            "Repository subdirectory used for the account pool when --path is omitted"@,
            "未传 --path 时，仓库内账号池子目录来源"@,
        ),
        item_model(
            "SCODEX_POOL_REPO"@,
            "Repository URL/path used when [REPO] is omitted"@,
            "未传 [REPO] 时，账号池仓库 URL/路径来源"@,
        ),
    ]
}

fn push_env() -> (r: Vec<HelpItem>)
    ensures
        item_models(r@) == push_env_model(),
{
    let mut items: Vec<HelpItem> = Vec::new();
    items.push(help_item(
        "SCODEX_POOL_KEY ",
        "Symmetric key source for encrypting the account pool",
        "用于加密账号池的对称密钥来源",
    ));
    items.push(help_item(
        "SCODEX_POOL_PATH",
        "Repository subdirectory used for the account pool when --path is omitted",
        "未传 --path 时，仓库内账号池子目录来源",
    ));
    items.push(help_item(
        "SCODEX_POOL_REPO",
        "Repository URL/path used when [REPO] is omitted",
        "未传 [REPO] 时，账号池仓库 URL/路径来源",
    ));
    assert(item_models(items@) =~= push_env_model());
    items
}

/// The items of the table `pull_env`.
pub open spec fn pull_env_model() -> Seq<ItemModel> {
    seq![
        item_model(
            "SCODEX_POOL_KEY "@,
            "Symmetric key source for decrypting the account pool"@,
            "用于解密账号池的对称密钥来源"@,
        ),
        item_model(
            "SCODEX_POOL_PATH"@,
            "Repository subdirectory used for the account pool when --path is omitted"@,
            "未传 --path 时，仓库内账号池子目录来源"@,
        ),
        item_model(
            "SCODEX_POOL_REPO"@,
            "Repository URL/path used when [REPO] is omitted"@,
            "未传 [REPO] 时，账号池仓库 URL/路径来源"@,
        ),
    ]
}

fn pull_env() -> (r: Vec<HelpItem>)
    ensures
        item_models(r@) == pull_env_model(),
{
    let mut items: Vec<HelpItem> = Vec::new();
    items.push(help_item(
        "SCODEX_POOL_KEY ",
        "Symmetric key source for decrypting the account pool",
        "用于解密账号池的对称密钥来源",
    ));
    items.push(help_item(
        "SCODEX_POOL_PATH",
        "Repository subdirectory used for the account pool when --path is omitted",
        "未传 --path 时，仓库内账号池子目录来源",
    ));
    items.push(help_item(
        "SCODEX_POOL_REPO",
        "Repository URL/path used when [REPO] is omitted",
        "未传 [REPO] 时，账号池仓库 URL/路径来源",
    ));
    assert(item_models(items@) =~= pull_env_model());
    items
}

/// The items of the table `use_args`.
pub open spec fn use_args_model() -> Seq<ItemModel> {
    seq![
        item_model(
            "  <EMAIL>"@,
            "Account email to switch to"@,
            "要切换到的账号邮箱"@,
        ),
    ]
}

fn use_args() -> (r: Vec<HelpItem>)
    ensures
        item_models(r@) == use_args_model(),
{
    let mut items: Vec<HelpItem> = Vec::new();
    items.push(help_item(
        "  <EMAIL>",
        "Account email to switch to",
        "要切换到的账号邮箱",
    ));
    assert(item_models(items@) =~= use_args_model());
    items
}

/// The items of the table `plain_options`.
pub open spec fn plain_options_model() -> Seq<ItemModel> {
    seq![
        item_model(
            "  -h, --help"@,
            "Print help"@,
            "显示帮助"@,
        ),
    ]
}

fn plain_options() -> (r: Vec<HelpItem>)
    ensures
        item_models(r@) == plain_options_model(),
{
    let mut items: Vec<HelpItem> = Vec::new();
    items.push(help_item(
        "  -h, --help",
        "Print help",
        "显示帮助",
    ));
    assert(item_models(items@) =~= plain_options_model());
    items
}

/// The items of the table `rm_args`.
pub open spec fn rm_args_model() -> Seq<ItemModel> {
    seq![
        item_model(
            "  <EMAIL>"@,
            "Account email to remove"@,
            "要删除的账号邮箱"@,
        ),
    ]
}

fn rm_args() -> (r: Vec<HelpItem>)
    ensures
        item_models(r@) == rm_args_model(),
{
    let mut items: Vec<HelpItem> = Vec::new();
    items.push(help_item(
        "  <EMAIL>",
        "Account email to remove",
        "要删除的账号邮箱",
    ));
    assert(item_models(items@) =~= rm_args_model());
    items
}

/// The items of the table `rm_options`.
pub open spec fn rm_options_model() -> Seq<ItemModel> {
    seq![
        item_model(
            "  -y, --yes  "@,
            "Skip the interactive confirmation prompt"@,
            "跳过交互式二次确认"@,
        ),
        item_model(
            "  -h, --help "@,
            "Print help"@,
            "显示帮助"@,
        ),
    ]
}

fn rm_options() -> (r: Vec<HelpItem>)
    ensures
        item_models(r@) == rm_options_model(),
{
    let mut items: Vec<HelpItem> = Vec::new();
    items.push(help_item(
        "  -y, --yes  ",
        "Skip the interactive confirmation prompt",
        "跳过交互式二次确认",
    ));
    items.push(help_item(
        "  -h, --help ",
        "Print help",
        "显示帮助",
    ));
    assert(item_models(items@) =~= rm_options_model());
    items
}

/// The items of the table `update_options`.
pub open spec fn update_options_model() -> Seq<ItemModel> {
    seq![
        item_model(
            "  -f, --force"@,
            "Reinstall even when the current version is already latest"@,
            "即使当前版本已经最新，也强制重新安装"@,
        ),
        item_model(
            "  -h, --help "@,
            "Print help"@,
            "显示帮助"@,
        ),
    ]
}

fn update_options() -> (r: Vec<HelpItem>)
    ensures
        item_models(r@) == update_options_model(),
{
    let mut items: Vec<HelpItem> = Vec::new();
    items.push(help_item(
        "  -f, --force",
        "Reinstall even when the current version is already latest",
        "即使当前版本已经最新，也强制重新安装",
    ));
    items.push(help_item(
        "  -h, --help ",
        "Print help",
        "显示帮助",
    ));
    assert(item_models(items@) =~= update_options_model());
    items
}

/// The items of the table `import_auth_args`.
pub open spec fn import_auth_args_model() -> Seq<ItemModel> {
    seq![
        item_model(
            "  <PATH>"@,
            "Path to an auth.json file or a home directory containing it"@,
            "auth.json 文件路径，或包含该文件的 home 目录"@,
        ),
    ]
}

fn import_auth_args() -> (r: Vec<HelpItem>)
    ensures
        item_models(r@) == import_auth_args_model(),
{
    let mut items: Vec<HelpItem> = Vec::new();
    items.push(help_item(
        "  <PATH>",
        "Path to an auth.json file or a home directory containing it",
        "auth.json 文件路径，或包含该文件的 home 目录",
    ));
    assert(item_models(items@) =~= import_auth_args_model());
    items
}

/// The help of a topic.
pub open spec fn entry_model(topic: HelpTopic) -> EntryModel {
    match topic {
        HelpTopic::Root => EntryModel {
            usage_lines: seq![("  scodex [OPTIONS] [COMMAND]"@, "  scodex [选项] [命令]"@)],
            description: None,
            args: Seq::empty(),
            options: root_options_model(),
            env: Seq::empty(),
            commands: root_commands_model(),
        },
        HelpTopic::Launch => EntryModel {
            usage_lines: seq![("  scodex launch [OPTIONS] [<codex args...>]"@, "  scodex launch [选项] [<codex 参数...>]"@)],
            description: None,
            args: Seq::empty(),
            options: launch_options_model(),
            env: Seq::empty(),
            commands: Seq::empty(),
        },
        HelpTopic::Auto => EntryModel {
            usage_lines: seq![("  scodex auto [OPTIONS]"@, "  scodex auto [选项]"@)],
            description: None,
            args: Seq::empty(),
            options: auto_options_model(),
            env: Seq::empty(),
            commands: Seq::empty(),
        },
        HelpTopic::Add => EntryModel {
            usage_lines: seq![("  scodex add [OPTIONS]"@, "  scodex add [选项]"@)],
            description: Some(("Adds one account and switches to it."@, "新增一个账号，并立即切换到该账号。"@)),
            args: Seq::empty(),
            options: add_options_model(),
            env: Seq::empty(),
            commands: Seq::empty(),
        },
        HelpTopic::Login => EntryModel {
            usage_lines: seq![("  scodex login [OPTIONS]"@, "  scodex login [选项]"@)],
            description: None,
            args: Seq::empty(),
            options: login_options_model(),
            env: Seq::empty(),
            commands: Seq::empty(),
        },
        HelpTopic::Deploy => EntryModel {
            usage_lines: seq![("  scodex deploy [OPTIONS] <TARGET>"@, "  scodex deploy [选项] <TARGET>"@), ("  scodex sync [OPTIONS] <TARGET>"@, "  scodex sync [选项] <TARGET>"@)],
            description: None,
            args: deploy_args_model(),
            options: deploy_options_model(),
            env: Seq::empty(),
            commands: Seq::empty(),
        },
        HelpTopic::Push => EntryModel {
            usage_lines: seq![("  scodex push [OPTIONS] [REPO]"@, "  scodex push [选项] [REPO]"@)],
            description: None,
            args: repo_sync_args_model(),
            options: repo_sync_options_model(),
            env: push_env_model(),
            commands: Seq::empty(),
        },
        HelpTopic::Pull => EntryModel {
            usage_lines: seq![("  scodex pull [OPTIONS] [REPO]"@, "  scodex pull [选项] [REPO]"@)],
            description: None,
            args: repo_sync_args_model(),
            options: repo_sync_options_model(),
            env: pull_env_model(),
            commands: Seq::empty(),
        },
        HelpTopic::Use => EntryModel {
            usage_lines: seq![("  scodex use <EMAIL>"@, "  scodex use <EMAIL>"@)],
            description: None,
            args: use_args_model(),
            options: plain_options_model(),
            env: Seq::empty(),
            commands: Seq::empty(),
        },
        HelpTopic::Rm => EntryModel {
            usage_lines: seq![("  scodex rm [OPTIONS] <EMAIL>"@, "  scodex rm [选项] <EMAIL>"@)],
            description: None,
            args: rm_args_model(),
            options: rm_options_model(),
            env: Seq::empty(),
            commands: Seq::empty(),
        },
        HelpTopic::List => EntryModel {
            usage_lines: seq![("  scodex list"@, "  scodex list"@)],
            description: None,
            args: Seq::empty(),
            options: plain_options_model(),
            env: Seq::empty(),
            commands: Seq::empty(),
        },
        HelpTopic::Refresh => EntryModel {
            usage_lines: seq![("  scodex refresh"@, "  scodex refresh"@)],
            description: None,
            args: Seq::empty(),
            options: plain_options_model(),
            env: Seq::empty(),
            commands: Seq::empty(),
        },
        HelpTopic::Update => EntryModel {
            usage_lines: seq![("  scodex update [OPTIONS]"@, "  scodex update [选项]"@), ("  scodex upgrade [OPTIONS]"@, "  scodex upgrade [选项]"@)],
            description: None,
            args: Seq::empty(),
            options: update_options_model(),
            env: Seq::empty(),
            commands: Seq::empty(),
        },
        HelpTopic::ImportAuth => EntryModel {
            usage_lines: seq![("  scodex import-auth <PATH>"@, "  scodex import-auth <PATH>"@)],
            description: None,
            args: import_auth_args_model(),
            options: plain_options_model(),
            env: Seq::empty(),
            commands: Seq::empty(),
        },
        HelpTopic::ImportKnown => EntryModel {
            usage_lines: seq![("  scodex import-known"@, "  scodex import-known"@)],
            description: None,
            args: Seq::empty(),
            options: plain_options_model(),
            env: Seq::empty(),
            commands: Seq::empty(),
        },
    }
}

/// The help of a topic.
pub fn help_entry(topic: HelpTopic) -> (r: HelpEntry)
    ensures
        r@ == entry_model(topic),
{
    match topic {
        HelpTopic::Root => build_entry(
            usage_of("  scodex [OPTIONS] [COMMAND]", "  scodex [选项] [命令]"),
            None,
            no_items(),
            root_options(),
            no_items(),
            root_commands(),
        ),
        HelpTopic::Launch => build_entry(
            usage_of("  scodex launch [OPTIONS] [<codex args...>]", "  scodex launch [选项] [<codex 参数...>]"),
            None,
            no_items(),
            launch_options(),
            no_items(),
            no_items(),
        ),
        HelpTopic::Auto => build_entry(
            usage_of("  scodex auto [OPTIONS]", "  scodex auto [选项]"),
            None,
            no_items(),
            auto_options(),
            no_items(),
            no_items(),
        ),
        HelpTopic::Add => build_entry(
            usage_of("  scodex add [OPTIONS]", "  scodex add [选项]"),
            Some(help_text_pair("Adds one account and switches to it.", "新增一个账号，并立即切换到该账号。")),
            no_items(),
            add_options(),
            no_items(),
            no_items(),
        ),
        HelpTopic::Login => build_entry(
            usage_of("  scodex login [OPTIONS]", "  scodex login [选项]"),
            None,
            no_items(),
            login_options(),
            no_items(),
            no_items(),
        ),
        HelpTopic::Deploy => build_entry(
            usage_with_alias(
                "  scodex deploy [OPTIONS] <TARGET>",
                "  scodex deploy [选项] <TARGET>",
                "  scodex sync [OPTIONS] <TARGET>",
                "  scodex sync [选项] <TARGET>",
            ),
            None,
            deploy_args(),
            deploy_options(),
            no_items(),
            no_items(),
        ),
        HelpTopic::Push => build_entry(
            usage_of("  scodex push [OPTIONS] [REPO]", "  scodex push [选项] [REPO]"),
            None,
            repo_sync_args(),
            repo_sync_options(),
            push_env(),
            no_items(),
        ),
        HelpTopic::Pull => build_entry(
            usage_of("  scodex pull [OPTIONS] [REPO]", "  scodex pull [选项] [REPO]"),
            None,
            repo_sync_args(),
            repo_sync_options(),
            pull_env(),
            no_items(),
        ),
        HelpTopic::Use => build_entry(
            usage_of("  scodex use <EMAIL>", "  scodex use <EMAIL>"),
            None,
            use_args(),
            plain_options(),
            no_items(),
            no_items(),
        ),
        HelpTopic::Rm => build_entry(
            usage_of("  scodex rm [OPTIONS] <EMAIL>", "  scodex rm [选项] <EMAIL>"),
            None,
            rm_args(),
            rm_options(),
            no_items(),
            no_items(),
        ),
        HelpTopic::List => build_entry(
            usage_of("  scodex list", "  scodex list"),
            None,
            no_items(),
            plain_options(),
            no_items(),
            no_items(),
        ),
        HelpTopic::Refresh => build_entry(
            usage_of("  scodex refresh", "  scodex refresh"),
            None,
            no_items(),
            plain_options(),
            no_items(),
            no_items(),
        ),
        HelpTopic::Update => build_entry(
            usage_with_alias(
                "  scodex update [OPTIONS]",
                "  scodex update [选项]",
                "  scodex upgrade [OPTIONS]",
                "  scodex upgrade [选项]",
            ),
            None,
            no_items(),
            update_options(),
            no_items(),
            no_items(),
        ),
        HelpTopic::ImportAuth => build_entry(
            usage_of("  scodex import-auth <PATH>", "  scodex import-auth <PATH>"),
            None,
            import_auth_args(),
            plain_options(),
            no_items(),
            no_items(),
        ),
        HelpTopic::ImportKnown => build_entry(
            usage_of("  scodex import-known", "  scodex import-known"),
            None,
            no_items(),
            plain_options(),
            no_items(),
            no_items(),
        ),
    }
}

// ---------------------------------------------------------------------------
// Rendering
// ---------------------------------------------------------------------------

/// The text in one language.
pub open spec fn picked(pair: (Seq<char>, Seq<char>), zh: bool) -> Seq<char> {
    if zh {
        pair.1
    } else {
        pair.0
    }
}

fn pick(pair: (&'static str, &'static str), is_zh: bool) -> (r: &'static str)
    ensures
        r@ == picked(pair_model(pair), is_zh),
{
    if is_zh {
        pair.1
    } else {
        pair.0
    }
}

/// The lines that say how a command is used.
pub open spec fn usage_text(lines: Seq<(Seq<char>, Seq<char>)>, zh: bool) -> Seq<char>
    decreases lines.len(),
{
    if lines.len() == 0 {
        Seq::empty()
    } else {
        usage_text(lines.drop_last(), zh) + picked(lines.last(), zh) + "\n"@
    }
}

/// How the items of a section are laid out.
#[derive(Clone, Copy, Debug, PartialEq, Eq, Structural)]
pub enum Layout {
    /// The name indented and in a column of twelve characters.
    Commands,
    /// The name as it is.
    Plain,
    /// The name indented.
    Environment,
}

/// The text with blanks after it, up to a number of characters.
pub open spec fn padded(s: Seq<char>, len: nat) -> Seq<char> {
    if s.len() < len {
        s + text::repeated(' ', (len - s.len()) as nat)
    } else {
        s
    }
}

/// The line of an item.
pub open spec fn item_line(item: ItemModel, layout: Layout, zh: bool) -> Seq<char> {
    match layout {
        Layout::Commands => "  "@ + padded(item.name, 12) + " "@ + picked(item.desc, zh) + "\n"@,
        Layout::Plain => item.name + "  "@ + picked(item.desc, zh) + "\n"@,
        Layout::Environment => "  "@ + item.name + "  "@ + picked(item.desc, zh) + "\n"@,
    }
}

/// The lines of the items.
pub open spec fn items_text(items: Seq<ItemModel>, layout: Layout, zh: bool) -> Seq<char>
    decreases items.len(),
{
    if items.len() == 0 {
        Seq::empty()
    } else {
        items_text(items.drop_last(), layout, zh) + item_line(items.last(), layout, zh)
    }
}

/// A section with its heading, where it has items; `gap` precedes it.
pub open spec fn section(
    items: Seq<ItemModel>,
    gap: Seq<char>,
    heading: (Seq<char>, Seq<char>),
    layout: Layout,
    zh: bool,
) -> Seq<char> {
    if items.len() == 0 {
        Seq::empty()
    } else {
        gap + picked(heading, zh) + "\n"@ + items_text(items, layout, zh)
    }
}

/// What the program is, which precedes the help on all of it.
pub open spec fn about_text(topic: HelpTopic, zh: bool) -> Seq<char> {
    if topic == HelpTopic::Root {
        picked(
            (
                "Cross-platform account-aware launcher for agent CLIs."@,
                "面向代理 CLI 的跨平台账号感知启动器。"@,
            ),
            zh,
        ) + "\n"@ + "\n"@
    } else {
        Seq::empty()
    }
}

/// The paragraph that describes a command.
pub open spec fn description_text(description: Option<(Seq<char>, Seq<char>)>, zh: bool) -> Seq<
    char,
> {
    match description {
        Some(pair) => "\n"@ + picked(pair, zh) + "\n"@,
        None => Seq::empty(),
    }
}

/// The help on a topic.
pub open spec fn help_text(topic: HelpTopic, zh: bool) -> Seq<char> {
    let entry = entry_model(topic);
    about_text(topic, zh) + picked(("Usage:"@, "用法："@), zh) + "\n"@ + usage_text(
        entry.usage_lines,
        zh,
    ) + description_text(entry.description, zh) + section(
        entry.commands,
        "\n"@,
        ("Commands:"@, "命令："@),
        Layout::Commands,
        zh,
    ) + section(entry.args, "\n"@, ("Arguments:"@, "参数："@), Layout::Plain, zh) + section(
        entry.options,
        "\n"@,
        ("Options:"@, "选项："@),
        Layout::Plain,
        zh,
    ) + section(
        entry.env,
        ""@,
        ("Environment:"@, "环境变量："@),
        Layout::Environment,
        zh,
    )
}

fn render_usage(lines: &Vec<(&'static str, &'static str)>, is_zh: bool) -> (r: String)
    ensures
        r@ == usage_text(pair_models(lines@), is_zh),
{
    let ghost all = pair_models(lines@);
    let mut out = String::new();
    let mut i: usize = 0;
    while i < lines.len()
        invariant
            i <= lines@.len(),
            all == pair_models(lines@),
            out@ == usage_text(all.take(i as int), is_zh),
        decreases lines@.len() - i,
    {
        assert(all.take(i + 1).drop_last() =~= all.take(i as int));
        assert(all.take(i + 1).last() == pair_model(lines@[i as int]));
        out.append(pick(lines[i], is_zh));
        out.append("\n");
        i += 1;
    }
    assert(all.take(i as int) =~= all);
    out
}

fn pad_name(name: &str) -> (r: String)
    ensures
        r@ == padded(name@, 12),
{
    let count = text::chars_of(name).len();
    if count < 12 {
        let blanks = text::repeat(' ', (12 - count) as u128);
        text::concat2(name, blanks.as_str())
    } else {
        name.to_owned()
    }
}

fn render_item(item: &HelpItem, layout: Layout, is_zh: bool) -> (r: String)
    ensures
        r@ == item_line(item@, layout, is_zh),
{
    let desc = pick(item.desc, is_zh);
    let mut out = match layout {
        Layout::Commands => {
            let name = pad_name(item.name);
            text::concat3("  ", name.as_str(), " ")
        },
        Layout::Plain => text::concat2(item.name, "  "),
        Layout::Environment => text::concat3("  ", item.name, "  "),
    };
    out.append(desc);
    out.append("\n");
    out
}

fn render_section(
    items: &Vec<HelpItem>,
    gap: &str,
    heading: (&'static str, &'static str),
    layout: Layout,
    is_zh: bool,
) -> (r: String)
    ensures
        r@ == section(item_models(items@), gap@, pair_model(heading), layout, is_zh),
{
    if items.len() == 0 {
        return String::new();
    }
    let ghost all = item_models(items@);
    let mut out = text::concat3(gap, pick(heading, is_zh), "\n");
    let ghost start = out@;
    let mut i: usize = 0;
    assert(start + items_text(all.take(0), layout, is_zh) =~= start);
    while i < items.len()
        invariant
            i <= items@.len(),
            all == item_models(items@),
            out@ == start + items_text(all.take(i as int), layout, is_zh),
        decreases items@.len() - i,
    {
        assert(all.take(i + 1).drop_last() =~= all.take(i as int));
        assert(all.take(i + 1).last() == items@[i as int]@);
        let line = render_item(&items[i], layout, is_zh);
        let ghost before = items_text(all.take(i as int), layout, is_zh);
        out.append(line.as_str());
        assert(start + before + line@ =~= start + (before + line@));
        i += 1;
    }
    assert(all.take(i as int) =~= all);
    out
}

/// The help on a topic in Chinese or in English.
pub fn render_help_with_lang(topic: HelpTopic, is_zh: bool) -> (r: String)
    ensures
        r@ == help_text(topic, is_zh),
{
    let entry = help_entry(topic);
    let mut out = String::new();
    if topic == HelpTopic::Root {
        let about = pick(
            (
                "Cross-platform account-aware launcher for agent CLIs.",
                "面向代理 CLI 的跨平台账号感知启动器。",
            ),
            is_zh,
        );
        out = text::concat3(about, "\n", "\n");
    }
    assert(out@ =~= about_text(topic, is_zh));
    out.append(pick(("Usage:", "用法："), is_zh));
    out.append("\n");
    let usage = render_usage(&entry.usage_lines, is_zh);
    out.append(usage.as_str());
    let description = match entry.description {
        Some(pair) => text::concat3("\n", pick(pair, is_zh), "\n"),
        None => String::new(),
    };
    assert(description@ =~= description_text(entry@.description, is_zh));
    out.append(description.as_str());
    let commands = render_section(
        &entry.commands,
        "\n",
        ("Commands:", "命令："),
        Layout::Commands,
        is_zh,
    );
    out.append(commands.as_str());
    let args = render_section(
        &entry.args,
        "\n",
        ("Arguments:", "参数："),
        Layout::Plain,
        is_zh,
    );
    out.append(args.as_str());
    let options = render_section(
        &entry.options,
        "\n",
        ("Options:", "选项："),
        Layout::Plain,
        is_zh,
    );
    out.append(options.as_str());
    let env = render_section(
        &entry.env,
        "",
        ("Environment:", "环境变量："),
        Layout::Environment,
        is_zh,
    );
    out.append(env.as_str());
    out
}

/// The help on a topic in the language of the messages.
pub fn render_help(ui: &crate::ui::Messages, topic: HelpTopic) -> (r: String)
    ensures
        r@ == help_text(topic, ui.zh()),
{
    render_help_with_lang(topic, ui.is_zh())
}

// ---------------------------------------------------------------------------
// Laws
// ---------------------------------------------------------------------------

/// Whether the line shows how the command is used, in both languages.
pub open spec fn names_command(line: (Seq<char>, Seq<char>), name: Seq<char>) -> bool {
    &&& ("  scodex "@ + name).is_prefix_of(line.0)
    &&& ("  scodex "@ + name).is_prefix_of(line.1)
}

/// The help on a command, under each of its names, shows how it is used under that name.
#[verifier::spinoff_prover]
#[verifier::rlimit(40)]
pub proof fn law_help_shows_the_command_asked_for(name: Seq<char>)
    requires
        topic_of(name) is Some,
    ensures
        exists|i: int|
            0 <= i < entry_model(topic_of(name)->0).usage_lines.len() && names_command(
                #[trigger] entry_model(topic_of(name)->0).usage_lines[i],
                name,
            ),
{
    if name == "launch"@ {
        reveal_strlit("  scodex ");
        reveal_strlit("launch");
        reveal_strlit("  scodex launch [OPTIONS] [<codex args...>]");
        reveal_strlit("  scodex launch [选项] [<codex 参数...>]");
        let lines = entry_model(HelpTopic::Launch).usage_lines;
        let shown = "  scodex "@ + name;
        assert(shown =~= lines[0].0.take(shown.len() as int));
        assert(shown =~= lines[0].1.take(shown.len() as int));
        assert(names_command(lines[0], name));
    } else if name == "auto"@ {
        reveal_strlit("  scodex ");
        reveal_strlit("auto");
        reveal_strlit("  scodex auto [OPTIONS]");
        reveal_strlit("  scodex auto [选项]");
        let lines = entry_model(HelpTopic::Auto).usage_lines;
        let shown = "  scodex "@ + name;
        assert(shown =~= lines[0].0.take(shown.len() as int));
        assert(shown =~= lines[0].1.take(shown.len() as int));
        assert(names_command(lines[0], name));
    } else if name == "add"@ {
        reveal_strlit("  scodex ");
        reveal_strlit("add");
        reveal_strlit("  scodex add [OPTIONS]");
        reveal_strlit("  scodex add [选项]");
        let lines = entry_model(HelpTopic::Add).usage_lines;
        let shown = "  scodex "@ + name;
        assert(shown =~= lines[0].0.take(shown.len() as int));
        assert(shown =~= lines[0].1.take(shown.len() as int));
        assert(names_command(lines[0], name));
    } else if name == "login"@ {
        reveal_strlit("  scodex ");
        reveal_strlit("login");
        reveal_strlit("  scodex login [OPTIONS]");
        reveal_strlit("  scodex login [选项]");
        let lines = entry_model(HelpTopic::Login).usage_lines;
        let shown = "  scodex "@ + name;
        assert(shown =~= lines[0].0.take(shown.len() as int));
        assert(shown =~= lines[0].1.take(shown.len() as int));
        assert(names_command(lines[0], name));
    } else if name == "deploy"@ {
        reveal_strlit("  scodex ");
        reveal_strlit("deploy");
        reveal_strlit("  scodex deploy [OPTIONS] <TARGET>");
        reveal_strlit("  scodex deploy [选项] <TARGET>");
        let lines = entry_model(HelpTopic::Deploy).usage_lines;
        let shown = "  scodex "@ + name;
        assert(shown =~= lines[0].0.take(shown.len() as int));
        assert(shown =~= lines[0].1.take(shown.len() as int));
        assert(names_command(lines[0], name));
    } else if name == "sync"@ {
        reveal_strlit("  scodex ");
        reveal_strlit("sync");
        reveal_strlit("  scodex sync [OPTIONS] <TARGET>");
        reveal_strlit("  scodex sync [选项] <TARGET>");
        let lines = entry_model(HelpTopic::Deploy).usage_lines;
        let shown = "  scodex "@ + name;
        assert(shown =~= lines[1].0.take(shown.len() as int));
        assert(shown =~= lines[1].1.take(shown.len() as int));
        assert(names_command(lines[1], name));
    } else if name == "push"@ {
        reveal_strlit("  scodex ");
        reveal_strlit("push");
        reveal_strlit("  scodex push [OPTIONS] [REPO]");
        reveal_strlit("  scodex push [选项] [REPO]");
        let lines = entry_model(HelpTopic::Push).usage_lines;
        let shown = "  scodex "@ + name;
        assert(shown =~= lines[0].0.take(shown.len() as int));
        assert(shown =~= lines[0].1.take(shown.len() as int));
        assert(names_command(lines[0], name));
    } else if name == "pull"@ {
        reveal_strlit("  scodex ");
        reveal_strlit("pull");
        reveal_strlit("  scodex pull [OPTIONS] [REPO]");
        reveal_strlit("  scodex pull [选项] [REPO]");
        let lines = entry_model(HelpTopic::Pull).usage_lines;
        let shown = "  scodex "@ + name;
        assert(shown =~= lines[0].0.take(shown.len() as int));
        assert(shown =~= lines[0].1.take(shown.len() as int));
        assert(names_command(lines[0], name));
    } else if name == "use"@ {
        reveal_strlit("  scodex ");
        reveal_strlit("use");
        reveal_strlit("  scodex use <EMAIL>");
        let lines = entry_model(HelpTopic::Use).usage_lines;
        let shown = "  scodex "@ + name;
        assert(shown =~= lines[0].0.take(shown.len() as int));
        assert(shown =~= lines[0].1.take(shown.len() as int));
        assert(names_command(lines[0], name));
    } else if name == "rm"@ {
        reveal_strlit("  scodex ");
        reveal_strlit("rm");
        reveal_strlit("  scodex rm [OPTIONS] <EMAIL>");
        reveal_strlit("  scodex rm [选项] <EMAIL>");
        let lines = entry_model(HelpTopic::Rm).usage_lines;
        let shown = "  scodex "@ + name;
        assert(shown =~= lines[0].0.take(shown.len() as int));
        assert(shown =~= lines[0].1.take(shown.len() as int));
        assert(names_command(lines[0], name));
    } else if name == "list"@ {
        reveal_strlit("  scodex ");
        reveal_strlit("list");
        reveal_strlit("  scodex list");
        let lines = entry_model(HelpTopic::List).usage_lines;
        let shown = "  scodex "@ + name;
        assert(shown =~= lines[0].0.take(shown.len() as int));
        assert(shown =~= lines[0].1.take(shown.len() as int));
        assert(names_command(lines[0], name));
    } else if name == "refresh"@ {
        reveal_strlit("  scodex ");
        reveal_strlit("refresh");
        reveal_strlit("  scodex refresh");
        let lines = entry_model(HelpTopic::Refresh).usage_lines;
        let shown = "  scodex "@ + name;
        assert(shown =~= lines[0].0.take(shown.len() as int));
        assert(shown =~= lines[0].1.take(shown.len() as int));
        assert(names_command(lines[0], name));
    } else if name == "update"@ {
        reveal_strlit("  scodex ");
        reveal_strlit("update");
        reveal_strlit("  scodex update [OPTIONS]");
        reveal_strlit("  scodex update [选项]");
        let lines = entry_model(HelpTopic::Update).usage_lines;
        let shown = "  scodex "@ + name;
        assert(shown =~= lines[0].0.take(shown.len() as int));
        assert(shown =~= lines[0].1.take(shown.len() as int));
        assert(names_command(lines[0], name));
    } else if name == "upgrade"@ {
        reveal_strlit("  scodex ");
        reveal_strlit("upgrade");
        reveal_strlit("  scodex upgrade [OPTIONS]");
        reveal_strlit("  scodex upgrade [选项]");
        let lines = entry_model(HelpTopic::Update).usage_lines;
        let shown = "  scodex "@ + name;
        assert(shown =~= lines[1].0.take(shown.len() as int));
        assert(shown =~= lines[1].1.take(shown.len() as int));
        assert(names_command(lines[1], name));
    } else if name == "import-auth"@ {
        reveal_strlit("  scodex ");
        reveal_strlit("import-auth");
        reveal_strlit("  scodex import-auth <PATH>");
        let lines = entry_model(HelpTopic::ImportAuth).usage_lines;
        let shown = "  scodex "@ + name;
        assert(shown =~= lines[0].0.take(shown.len() as int));
        assert(shown =~= lines[0].1.take(shown.len() as int));
        assert(names_command(lines[0], name));
    } else if name == "import-known"@ {
        reveal_strlit("  scodex ");
        reveal_strlit("import-known");
        reveal_strlit("  scodex import-known");
        let lines = entry_model(HelpTopic::ImportKnown).usage_lines;
        let shown = "  scodex "@ + name;
        assert(shown =~= lines[0].0.take(shown.len() as int));
        assert(shown =~= lines[0].1.take(shown.len() as int));
        assert(names_command(lines[0], name));
    }
}

/// Help on all of the program is given where the first argument asks for it, and where help
/// is asked for on something that is no command; no help is given where no argument asks for
/// it.
pub proof fn law_help_is_given_where_asked_for(
    program: Seq<char>,
    word: Seq<char>,
    rest: Seq<Seq<char>>,
)
    ensures
        asked_topic(seq![program, "-h"@] + rest) == Some(HelpTopic::Root),
        asked_topic(seq![program, "--help"@] + rest) == Some(HelpTopic::Root),
        asked_topic(seq![program, "help"@]) == Some(HelpTopic::Root),
        topic_of(word) is None ==> asked_topic(seq![program, "help"@, word]) == Some(
            HelpTopic::Root,
        ),
        asked_topic(seq![program]) is None,
        word != "help"@ && !asks_for_help(word) && (forall|i: int|
            0 <= i < rest.len() ==> #[trigger] rest[i] != "-h"@ && rest[i] != "--help"@)
            ==> asked_topic(seq![program, word] + rest) is None,
        word != "help"@ && !asks_for_help(word) && topic_of(word) is None ==> asked_topic(
            seq![program, word] + rest,
        ) is None,
{
    reveal_strlit("-h");
    reveal_strlit("--help");
    reveal_strlit("help");
    assert("help"@.len() != "-h"@.len());
    assert("help"@.len() != "--help"@.len());
    let args = seq![program, word] + rest;
    assert(args[1] == word);
    assert((seq![program, "-h"@] + rest)[1] == "-h"@);
    assert((seq![program, "--help"@] + rest)[1] == "--help"@);
    if forall|i: int|
        0 <= i < rest.len() ==> #[trigger] rest[i] != "-h"@ && rest[i] != "--help"@ {
        assert forall|i: int| 2 <= i < args.len() implies !asks_for_help(#[trigger] args[i]) by {
            assert(args[i] == rest[i - 2]);
        }
    }
}

/// Commands with short names are described in one column.
pub proof fn law_descriptions_of_commands_line_up(item: ItemModel, zh: bool)
    requires
        item.name.len() <= 12,
    ensures
        ({
            let line = item_line(item, Layout::Commands, zh);
            let told = if zh {
                item.desc.1
            } else {
                item.desc.0
            };
            &&& line.len() == 15 + told.len() + 1
            &&& line.subrange(2, 2 + item.name.len() as int) == item.name
            &&& line.subrange(15, 15 + told.len() as int) == told
            &&& line.last() == '\n'
        }),
{
    reveal_strlit("  ");
    reveal_strlit(" ");
    reveal_strlit("\n");
    let line = item_line(item, Layout::Commands, zh);
    let told = picked(item.desc, zh);
    assert(line.subrange(2, 2 + item.name.len() as int) =~= item.name);
    assert(line.subrange(15, 15 + told.len() as int) =~= told);
}

/// Every item of a section is shown in it.
pub proof fn law_every_item_is_shown(items: Seq<ItemModel>, layout: Layout, zh: bool, k: int)
    requires
        0 <= k < items.len(),
    ensures
        text::contains_text(items_text(items, layout, zh), item_line(items[k], layout, zh)),
    decreases items.len(),
{
    let before = items_text(items.drop_last(), layout, zh);
    let last = item_line(items.last(), layout, zh);
    if k == items.len() - 1 {
        text::law_text_contains_its_parts(before, last, Seq::empty());
        assert(before + last + Seq::<char>::empty() =~= before + last);
    } else {
        law_every_item_is_shown(items.drop_last(), layout, zh, k);
        let line = item_line(items[k], layout, zh);
        let i = choose|i: int| text::stands_at(before, line, i);
        assert((before + last).subrange(i, i + line.len()) =~= before.subrange(i, i + line.len()));
        assert(text::stands_at(before + last, line, i));
    }
}

/// Each part of a help stands under its heading in the language: commands, arguments and
/// options in this order.
pub proof fn law_sections_have_their_headings(topic: HelpTopic, zh: bool)
    ensures
        ({
            let entry = entry_model(topic);
            let shown = help_text(topic, zh);
            let commands = section(
                entry.commands,
                "\n"@,
                ("Commands:"@, "命令："@),
                Layout::Commands,
                zh,
            );
            let arguments = section(entry.args, "\n"@, ("Arguments:"@, "参数："@), Layout::Plain, zh);
            let options = section(entry.options, "\n"@, ("Options:"@, "选项："@), Layout::Plain, zh);
            let variables = section(
                entry.env,
                ""@,
                ("Environment:"@, "环境变量："@),
                Layout::Environment,
                zh,
            );
            (commands + arguments + options + variables).is_suffix_of(shown)
        }),
{
    let entry = entry_model(topic);
    let shown = help_text(topic, zh);
    let commands = section(
        entry.commands,
        "\n"@,
        ("Commands:"@, "命令："@),
        Layout::Commands,
        zh,
    );
    let arguments = section(entry.args, "\n"@, ("Arguments:"@, "参数："@), Layout::Plain, zh);
    let options = section(entry.options, "\n"@, ("Options:"@, "选项："@), Layout::Plain, zh);
    let variables = section(
        entry.env,
        ""@,
        ("Environment:"@, "环境变量："@),
        Layout::Environment,
        zh,
    );
    let tail = commands + arguments + options + variables;
    let head = about_text(topic, zh) + picked(("Usage:"@, "用法："@), zh) + "\n"@ + usage_text(
        entry.usage_lines,
        zh,
    ) + description_text(entry.description, zh);
    assert(shown =~= head + tail);
    assert(tail =~= shown.skip(shown.len() - tail.len()));
}

} // verus!
