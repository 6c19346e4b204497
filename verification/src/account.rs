//! API accounts: their names, their configuration file, and records that were stored
//! before API accounts had a type of their own.

use vstd::prelude::*;

use crate::adapter::CodexAdapter;
use crate::json;
use crate::json::{Json, JsonModel};
use crate::outside;
use crate::outside::{Setting, SettingModel};
use crate::state;
use crate::state::{AccountModel, AccountRecord, AccountType, State, UsageSnapshot};
use crate::text;

verus! {

/// The line that marks a configuration file as written by this program.
pub const SCODEX_API_CONFIG_MARKER: &'static str = "# scodex-managed-api-config";

/// What precedes the account id in a configuration file written by this program.
pub const SCODEX_ACCOUNT_ID_PREFIX: &'static str = "# scodex-account-id: ";

/// What is needed to use an API account.
#[derive(Debug)]
pub struct ApiLoginRequest {
    pub api_token: String,
    pub base_url: String,
    pub provider: String,
}

// ---------------------------------------------------------------------------
// Names of API accounts
// ---------------------------------------------------------------------------

/// The token without the prefix that all of them have.
pub open spec fn token_body(token: Seq<char>) -> Seq<char> {
    match text::without_prefix(text::trimmed(token), "sk-"@) {
        Some(body) => body,
        None => text::trimmed(token),
    }
}

/// The token without the white space at its ends and without the prefix `sk-`.
pub fn strip_token<'a>(token: &'a str) -> (r: &'a str)
    ensures
        r@ == token_body(token@),
{
    let trimmed = text::trim(token);
    match text::strip_prefix(trimmed, "sk-") {
        Some(body) => body,
        None => trimmed,
    }
}

/// The last `n` characters, or all of them where there are fewer.
pub open spec fn tail_of(body: Seq<char>, n: nat) -> Seq<char> {
    if body.len() <= n {
        body
    } else {
        body.skip(body.len() - n)
    }
}

/// The last `n` characters of the token without its prefix, or all of them where there
/// are fewer.
pub fn token_tail(token: &str, n: usize) -> (r: String)
    ensures
        r@ == tail_of(token_body(token@), n as nat),
{
    let body = strip_token(token);
    let chars = text::chars_of(body);
    if chars.len() <= n {
        return body.to_owned();
    }
    assert(chars@.subrange(chars@.len() - n, chars@.len() as int) =~= chars@.skip(
        chars@.len() - n,
    ));
    text::text_of(&chars, chars.len() - n, chars.len())
}

/// The end of the token, which tells accounts of one provider apart.
pub fn api_token_suffix(api_token: &str) -> (r: String)
    ensures
        r@ == tail_of(token_body(api_token@), 6),
{
    token_tail(api_token, 6)
}

/// The name of an API account in place of an email.
pub open spec fn api_email(token: Seq<char>, provider: Seq<char>) -> Seq<char> {
    tail_of(token_body(token), 6) + "@"@ + text::lowercase(text::trimmed(provider))
}

/// The name of an API account in place of an email: the end of its token, at its provider.
pub fn api_account_email(api_token: &str, provider: &str) -> (r: String)
    ensures
        r@ == api_email(api_token@, provider@),
{
    let suffix = api_token_suffix(api_token);
    let provider = text::to_lowercase(text::trim(provider));
    text::concat3(suffix.as_str(), "@", provider.as_str())
}

/// The first `n` characters, or all of them where there are fewer.
pub open spec fn head_of(body: Seq<char>, n: nat) -> Seq<char> {
    if body.len() <= n {
        body
    } else {
        body.take(n as int)
    }
}

/// A token as it is shown.
pub open spec fn token_label(token: Seq<char>) -> Seq<char> {
    "sk-"@ + head_of(token_body(token), 4) + "-"@ + tail_of(token_body(token), 4)
}

/// A token as it is shown: its first four characters and its last four.
pub fn api_token_label(api_token: &str) -> (r: String)
    ensures
        r@ == token_label(api_token@),
{
    let chars = text::chars_of(strip_token(api_token));
    let end: usize = if chars.len() <= 4 {
        chars.len()
    } else {
        4
    };
    let head = text::text_of(&chars, 0, end);
    assert(head@ =~= head_of(token_body(api_token@), 4));
    let tail = token_tail(api_token, 4);
    let mut out = text::concat3("sk-", head.as_str(), "-");
    out.append(tail.as_str());
    out
}

/// The name by which an account is shown: that of an API account is the label of its token,
/// at its provider.
pub open spec fn shown_name(account: AccountModel) -> Seq<char> {
    if account.account_type == AccountType::Api && account.api_token_label is Some
        && account.api_provider is Some {
        account.api_token_label->0 + "@"@ + account.api_provider->0
    } else {
        account.email
    }
}

/// The name by which an account is shown.
pub fn account_name(account: &AccountRecord) -> (r: String)
    ensures
        r@ == shown_name(account@),
{
    if account.is_api() {
        if let (Some(label), Some(provider)) = (&account.api_token_label, &account.api_provider) {
            return text::concat3(label.as_str(), "@", provider.as_str());
        }
    }
    account.email.clone()
}

/// Of a token of more than six characters, the label shows four from each end, and the
/// name of the account its last six.
pub proof fn law_shown_part_of_token(token: Seq<char>)
    requires
        token_body(token).len() > 6,
    ensures
        head_of(token_body(token), 4).len() == 4,
        tail_of(token_body(token), 4).len() == 4,
        tail_of(token_body(token), 6).len() == 6,
{
}

/// Neither name depends on the prefix of the token or on white space around it.
pub proof fn law_token_prefix_is_ignored(
    before: Seq<char>,
    body: Seq<char>,
    after: Seq<char>,
    provider: Seq<char>,
)
    requires
        text::all_of(before, text::CharClass::WhiteSpace),
        text::all_of(after, text::CharClass::WhiteSpace),
        body.len() > 0,
        text::trimmed(body) == body,
        !"sk-"@.is_prefix_of(body),
    ensures
        token_body(before + body + after) == body,
        token_body(before + ("sk-"@ + body) + after) == body,
        api_email(before + ("sk-"@ + body) + after, provider) == api_email(body, provider),
        token_label(before + ("sk-"@ + body) + after) == token_label(body),
{
    reveal_strlit("sk-");
    let class = text::CharClass::WhiteSpace;
    let prefixed = "sk-"@ + body;
    text::lemma_trim_ends(body, class);
    assert(prefixed.first() == 's');
    assert(prefixed.last() == body.last());
    text::lemma_trim_padded(before, body, after, class);
    text::lemma_trim_padded(before, prefixed, after, class);
    assert("sk-"@ =~= prefixed.take(3));
    assert("sk-"@.is_prefix_of(prefixed));
    assert(prefixed.skip(3) =~= body);
}

// ---------------------------------------------------------------------------
// The configuration file
// ---------------------------------------------------------------------------

/// The settings for an API account: `openai` is known to Codex, any other provider is
/// described in a table of its own.
pub open spec fn api_settings(provider: Seq<char>, base_url: Seq<char>) -> SettingModel {
    if text::same_ignoring_case(provider, "openai"@) {
        SettingModel::Table(
            seq![
                ("model_provider"@, SettingModel::Text("openai"@)),
                ("openai_base_url"@, SettingModel::Text(base_url)),
                ("forced_login_method"@, SettingModel::Text("api"@)),
            ],
        )
    } else {
        SettingModel::Table(
            seq![
                ("model_provider"@, SettingModel::Text(provider)),
                ("forced_login_method"@, SettingModel::Text("api"@)),
                (
                    "model_providers"@,
                    SettingModel::Table(
                        seq![(text::lowercase(provider), provider_settings(provider, base_url))],
                    ),
                ),
            ],
        )
    }
}

/// The table that describes a provider.
pub open spec fn provider_settings(provider: Seq<char>, base_url: Seq<char>) -> SettingModel {
    SettingModel::Table(
        seq![
            ("name"@, SettingModel::Text(provider)),
            ("base_url"@, SettingModel::Text(base_url)),
            ("requires_openai_auth"@, SettingModel::Flag(true)),
            ("wire_api"@, SettingModel::Text("responses"@)),
        ],
    )
}

/// What each of the settings holds.
pub open spec fn table_model(fields: Seq<(String, Setting)>) -> Seq<(Seq<char>, SettingModel)> {
    Seq::new(fields.len(), |i: int| (fields[i].0@, fields[i].1@))
}

proof fn lemma_table_model(fields: Vec<(String, Setting)>)
    ensures
        Setting::Table(fields)@ == SettingModel::Table(table_model(fields@)),
{
    assert(Setting::Table(fields)@->Table_0 =~= table_model(fields@));
}

fn text_setting(name: &str, value: &str) -> (r: (String, Setting))
    ensures
        r.0@ == name@,
        r.1@ == SettingModel::Text(value@),
{
    (name.to_owned(), Setting::Text(value.to_owned()))
}

/// The settings for an API account.
pub fn build_settings(provider: &str, base_url: &str) -> (r: Setting)
    ensures
        r@ == api_settings(provider@, base_url@),
{
    let mut fields: Vec<(String, Setting)> = Vec::new();
    if text::eq_ignore_case(provider, "openai") {
        fields.push(text_setting("model_provider", "openai"));
        fields.push(text_setting("openai_base_url", base_url));
        fields.push(text_setting("forced_login_method", "api"));
    } else {
        let mut entry: Vec<(String, Setting)> = Vec::new();
        entry.push(text_setting("name", provider));
        entry.push(text_setting("base_url", base_url));
        entry.push(("requires_openai_auth".to_owned(), Setting::Flag(true)));
        entry.push(text_setting("wire_api", "responses"));
        proof {
            lemma_table_model(entry);
            assert(table_model(entry@) =~= provider_settings(provider@, base_url@)->Table_0);
        }
        let mut providers: Vec<(String, Setting)> = Vec::new();
        providers.push((text::to_lowercase(provider), Setting::Table(entry)));
        proof {
            lemma_table_model(providers);
            assert(table_model(providers@) =~= seq![
                (text::lowercase(provider@), provider_settings(provider@, base_url@)),
            ]);
        }
        fields.push(text_setting("model_provider", provider));
        fields.push(text_setting("forced_login_method", "api"));
        fields.push(("model_providers".to_owned(), Setting::Table(providers)));
    }
    proof {
        lemma_table_model(fields);
        assert(table_model(fields@) =~= api_settings(provider@, base_url@)->Table_0);
    }
    Setting::Table(fields)
}

/// The lines that precede the settings in a configuration file.
pub open spec fn config_header(account_id: Seq<char>) -> Seq<char> {
    SCODEX_API_CONFIG_MARKER@ + "\n"@ + SCODEX_ACCOUNT_ID_PREFIX@ + account_id + "\n"@
}

/// The lines that precede the settings: the marker, and the id of the account.
pub fn build_config_header(account_id: &str) -> (r: String)
    ensures
        r@ == config_header(account_id@),
{
    let mut header = text::concat3(SCODEX_API_CONFIG_MARKER, "\n", SCODEX_ACCOUNT_ID_PREFIX);
    header.append(account_id);
    header.append("\n");
    header
}

/// The configuration file of an API account.
pub open spec fn api_config(
    account_id: Seq<char>,
    provider: Seq<char>,
    base_url: Seq<char>,
) -> Seq<char> {
    config_header(account_id) + outside::pretty_toml(
        api_settings(text::trimmed(provider), text::trimmed(base_url)),
    )
}

/// Whether the provider and the address can be printed in a configuration file: neither
/// has too many quotation marks in a row.
pub open spec fn is_printable(provider: Seq<char>, base_url: Seq<char>) -> bool {
    &&& !outside::has_long_run(text::trimmed(provider))
    &&& !outside::has_long_run(text::trimmed(base_url))
}

/// Whether the provider and the address can stand between quotation marks as they are.
pub open spec fn is_quotable(provider: Seq<char>, base_url: Seq<char>) -> bool {
    &&& outside::is_quotable(text::trimmed(provider))
    &&& outside::is_quotable(text::trimmed(base_url))
}

/// Whether each of the settings of the API account stands in its configuration file in a
/// line of its own.
pub open spec fn lists_api_settings(provider: Seq<char>, base_url: Seq<char>) -> bool {
    let settings = api_settings(text::trimmed(provider), text::trimmed(base_url));
    outside::lists_settings(outside::pretty_toml(settings), settings)
}

/// The settings that are no tables: for `openai`, and for another provider.
spec fn is_api_setting(
    provider: Seq<char>,
    base_url: Seq<char>,
    key: Seq<char>,
    value: SettingModel,
) -> bool {
    let login = (key, value) == ("forced_login_method"@, SettingModel::Text("api"@));
    if text::same_ignoring_case(provider, "openai"@) {
        ||| (key, value) == ("model_provider"@, SettingModel::Text("openai"@))
        ||| (key, value) == ("openai_base_url"@, SettingModel::Text(base_url))
        ||| login
    } else {
        ||| (key, value) == ("model_provider"@, SettingModel::Text(provider))
        ||| login
        ||| (key, value) == ("name"@, SettingModel::Text(provider))
        ||| (key, value) == ("base_url"@, SettingModel::Text(base_url))
        ||| (key, value) == ("requires_openai_auth"@, SettingModel::Flag(true))
        ||| (key, value) == ("wire_api"@, SettingModel::Text("responses"@))
    }
}

proof fn lemma_has_setting(
    provider: Seq<char>,
    base_url: Seq<char>,
    key: Seq<char>,
    value: SettingModel,
)
    requires
        !(value is Table),
    ensures
        outside::has_setting(api_settings(provider, base_url), key, value) == is_api_setting(
            provider,
            base_url,
            key,
            value,
        ),
{
    let settings = api_settings(provider, base_url);
    let fields = settings->Table_0;
    reveal_with_fuel(outside::has_setting, 2);
    if text::same_ignoring_case(provider, "openai"@) {
        assert(fields == seq![fields[0], fields[1], fields[2]]);
        if is_api_setting(provider, base_url, key, value) {
            assert(fields[0] == (key, value) || fields[1] == (key, value) || fields[2] == (
                key,
                value,
            ));
        }
    } else {
        let entry = provider_settings(provider, base_url);
        let e = entry->Table_0;
        let providers = fields[2].1;
        assert(e == seq![e[0], e[1], e[2], e[3]]);
        assert(providers == SettingModel::Table(seq![(text::lowercase(provider), entry)]));
        assert(providers->Table_0[0].1 == entry);
        assert(outside::has_setting(entry, key, value) == (e[0] == (key, value) || e[1] == (
            key,
            value,
        ) || e[2] == (key, value) || e[3] == (key, value)));
        assert(outside::has_setting(providers, key, value) == outside::has_setting(
            entry,
            key,
            value,
        ));
        assert(fields == seq![fields[0], fields[1], fields[2]]);
        assert(outside::has_setting(settings, key, value) == (fields[0] == (key, value)
            || fields[1] == (key, value) || outside::has_setting(fields[2].1, key, value)));
    }
}

proof fn lemma_api_settings(provider: Seq<char>, base_url: Seq<char>)
    ensures
        outside::keys_are_distinct(api_settings(provider, base_url)),
        outside::is_quotable(provider) && outside::is_quotable(base_url)
            ==> outside::texts_are_quotable(api_settings(provider, base_url)),
        !outside::has_long_run(provider) && !outside::has_long_run(base_url)
            ==> outside::runs_are_short(api_settings(provider, base_url)),
{
    lemma_setting_keys();
    reveal_strlit("model_providers");
    reveal_strlit("openai");
    reveal_strlit("api");
    reveal_strlit("responses");
    let settings = api_settings(provider, base_url);
    let fields = settings->Table_0;
    assert("model_providers"@.len() == 15);
    reveal_with_fuel(outside::keys_are_distinct, 2);
    if !text::same_ignoring_case(provider, "openai"@) {
        let entry = provider_settings(provider, base_url);
        let e = entry->Table_0;
        assert(e[0].0 != e[1].0 && e[0].0 != e[2].0 && e[0].0 != e[3].0 && e[1].0 != e[2].0 && e[1].0
            != e[3].0 && e[2].0 != e[3].0);
        assert(outside::keys_are_distinct(entry));
        assert(outside::keys_are_distinct(fields[2].1));
    }
    assert(fields[0].0 != fields[1].0 && fields[0].0 != fields[2].0 && fields[1].0 != fields[2].0);
    assert(outside::keys_are_distinct(settings));
    if outside::is_quotable(provider) && outside::is_quotable(base_url) {
        assert forall|key: Seq<char>, s: Seq<char>| #[trigger]
            outside::has_setting(settings, key, SettingModel::Text(s)) implies outside::is_quotable(
            s,
        ) by {
            lemma_has_setting(provider, base_url, key, SettingModel::Text(s));
        }
    }
    if !outside::has_long_run(provider) && !outside::has_long_run(base_url) {
        assert forall|key: Seq<char>, s: Seq<char>| #[trigger]
            outside::has_setting(
                settings,
                key,
                SettingModel::Text(s),
            ) implies !outside::has_long_run(s) by {
            lemma_has_setting(provider, base_url, key, SettingModel::Text(s));
            assert("openai"@.len() == 6 && "api"@.len() == 3 && "responses"@.len() == 9);
        }
    }
}

fn has_run_of(chars: &Vec<char>, c: char) -> (r: bool)
    ensures
        r == exists|at: int| outside::is_long_run(chars@, c, at),
{
    let mut run: usize = 0;
    let mut i: usize = 0;
    while i < chars.len()
        invariant
            run <= i <= chars@.len(),
            run < 256,
            forall|k: int| i - run <= k < i ==> #[trigger] chars@[k] == c,
            run < i ==> chars@[i - run - 1] != c,
            forall|at: int| #[trigger] outside::is_long_run(chars@, c, at) ==> at + 256 > i,
        decreases chars@.len() - i,
    {
        if chars[i] == c {
            run += 1;
            if run == 256 {
                assert(outside::is_long_run(chars@, c, i + 1 - 256));
                return true;
            }
        } else {
            run = 0;
        }
        proof {
            assert forall|at: int| #[trigger] outside::is_long_run(chars@, c, at) implies at + 256
                > i + 1 by {
                if at + 256 == i + 1 {
                    assert(chars@[i - run] == c);
                }
            }
        }
        i += 1;
    }
    false
}

/// Whether the text has no more quotation marks in a row than can be printed.
pub fn has_short_runs(s: &str) -> (r: bool)
    ensures
        r == !outside::has_long_run(s@),
{
    let chars = text::chars_of(s);
    !has_run_of(&chars, '"') && !has_run_of(&chars, '\'')
}

/// Whether the configuration file of the API account can be printed.
pub fn can_print(request: &ApiLoginRequest) -> (r: bool)
    ensures
        r == is_printable(request.provider@, request.base_url@),
{
    has_short_runs(text::trim(request.provider.as_str())) && has_short_runs(
        text::trim(request.base_url.as_str()),
    )
}

/// The error where the configuration file of an API account cannot be printed.
#[derive(Clone, Copy, Debug, PartialEq, Eq, Structural)]
pub struct Unprintable;

impl Unprintable {
    /// The error in words.
    pub fn message(&self) -> (r: &'static str)
        ensures
            r@ == "the provider or the base URL has too many quotation marks in a row"@,
    {
        "the provider or the base URL has too many quotation marks in a row"
    }
}

/// The configuration file of an API account: its header, and its settings as TOML.
pub fn build_api_config(account_id: &str, request: &ApiLoginRequest) -> (r: String)
    requires
        is_printable(request.provider@, request.base_url@),
    ensures
        r@ == api_config(account_id@, request.provider@, request.base_url@),
        is_quotable(request.provider@, request.base_url@) ==> lists_api_settings(
            request.provider@,
            request.base_url@,
        ),
{
    let settings = build_settings(
        text::trim(request.provider.as_str()),
        text::trim(request.base_url.as_str()),
    );
    proof {
        lemma_api_settings(text::trimmed(request.provider@), text::trimmed(request.base_url@));
    }
    let body = outside::print_toml(&outside::to_toml(&settings));
    let mut config = build_config_header(account_id);
    config.append(body.as_str());
    config
}

/// The id in the first line that names one.
pub open spec fn named_id(lines: Seq<Seq<char>>) -> Option<Seq<char>>
    decreases lines.len(),
{
    if lines.len() == 0 {
        None
    } else {
        match text::non_blank(
            text::without_prefix(lines.first(), SCODEX_ACCOUNT_ID_PREFIX@),
        ) {
            Some(id) => Some(id),
            None => named_id(lines.drop_first()),
        }
    }
}

/// Whether a configuration was written by this program.
pub open spec fn is_managed(contents: Seq<char>) -> bool {
    text::contains_text(contents, SCODEX_API_CONFIG_MARKER@)
}

/// The id of the account that a configuration was written for.
pub open spec fn managed_id(contents: Seq<char>) -> Option<Seq<char>> {
    if is_managed(contents) {
        named_id(text::lines_of(contents))
    } else {
        None
    }
}

/// Whether the configuration was written by this program. One that cannot be read was not.
pub fn is_scodex_managed_config(contents: Option<&str>) -> (r: bool)
    ensures
        r == (contents matches Some(text) && is_managed(text@)),
{
    match contents {
        Some(contents) => text::contains(contents, SCODEX_API_CONFIG_MARKER),
        None => false,
    }
}

/// The id of the account that the configuration was written for, where it was written by
/// this program.
pub fn read_managed_config_account_id(contents: Option<&str>) -> (r: Option<String>)
    ensures
        text::opt_chars(r) == match contents {
            Some(text) => managed_id(text@),
            None => None,
        },
{
    let contents = match contents {
        Some(contents) => contents,
        None => return None,
    };
    if !text::contains(contents, SCODEX_API_CONFIG_MARKER) {
        return None;
    }
    first_named_id(contents)
}

fn first_named_id(contents: &str) -> (r: Option<String>)
    ensures
        text::opt_chars(r) == named_id(text::lines_of(contents@)),
{
    let lines = text::lines(contents);
    let ghost all = text::views(lines@);
    let mut i: usize = 0;
    assert(all.skip(0) =~= all);
    while i < lines.len()
        invariant
            i <= lines@.len(),
            all == text::views(lines@),
            all == text::lines_of(contents@),
            named_id(all.skip(i as int)) == named_id(all),
        decreases lines@.len() - i,
    {
        assert(all.skip(i as int).first() == lines@[i as int]@);
        assert(all.skip(i as int).drop_first() =~= all.skip(i + 1));
        if let Some(id) = text::trim_non_blank(
            text::strip_prefix(lines[i].as_str(), SCODEX_ACCOUNT_ID_PREFIX),
        ) {
            return Some(id.to_owned());
        }
        i += 1;
    }
    None
}

proof fn lemma_strlits()
    ensures
        SCODEX_API_CONFIG_MARKER@.len() == 27,
        SCODEX_ACCOUNT_ID_PREFIX@.len() == 21,
        "\n"@ == seq!['\n'],
        forall|k: int|
            0 <= k < 27 ==> #[trigger] SCODEX_API_CONFIG_MARKER@[k] != '\n'
                && SCODEX_API_CONFIG_MARKER@[k] != '\r',
        forall|k: int|
            0 <= k < 21 ==> #[trigger] SCODEX_ACCOUNT_ID_PREFIX@[k] != '\n'
                && SCODEX_ACCOUNT_ID_PREFIX@[k] != '\r',
        SCODEX_API_CONFIG_MARKER@[9] != SCODEX_ACCOUNT_ID_PREFIX@[9],
{
    reveal_strlit("# scodex-managed-api-config");
    reveal_strlit("# scodex-account-id: ");
    reveal_strlit("\n");
    assert("\n"@ =~= seq!['\n']);
}

proof fn lemma_trim_last_space(s: Seq<char>)
    requires
        s.len() > 0,
        text::is_white_space(s.last()),
    ensures
        text::trimmed(s.drop_last()) == text::trimmed(s),
    decreases s.len(),
{
    let class = text::CharClass::WhiteSpace;
    if text::is_white_space(s.first()) {
        if s.len() == 1 {
            assert(s.drop_last() =~= s.drop_first());
        } else {
            assert(s.drop_last().drop_first() =~= s.drop_first().drop_last());
            lemma_trim_last_space(s.drop_first());
        }
    } else {
        assert(s.drop_last().first() == s.first());
    }
}

/// The lines of a configuration file: those of its header, and those of its settings.
proof fn lemma_config_lines(account_id: Seq<char>, body: Seq<char>)
    requires
        forall|i: int| 0 <= i < account_id.len() ==> #[trigger] account_id[i] != '\n',
    ensures
        text::stands_at(config_header(account_id) + body, SCODEX_API_CONFIG_MARKER@, 0),
        text::lines_of(config_header(account_id) + body) == seq![
            SCODEX_API_CONFIG_MARKER@,
            text::without_return(SCODEX_ACCOUNT_ID_PREFIX@ + account_id),
        ] + text::lines_of(body),
{
    lemma_strlits();
    let marker = SCODEX_API_CONFIG_MARKER@;
    let named = SCODEX_ACCOUNT_ID_PREFIX@ + account_id;
    let contents = config_header(account_id) + body;
    let rest = named + "\n"@ + body;
    assert(contents =~= marker + "\n"@ + rest);
    assert(contents.subrange(0, 27) =~= marker);
    text::lemma_first_position_unique(contents, '\n', 27);
    assert(contents.take(27) =~= marker);
    assert(text::without_return(marker) == marker);
    assert(contents.skip(28) =~= rest);
    assert(text::lines_of(contents) == seq![marker] + text::lines_of(rest));
    text::lemma_first_position_unique(rest, '\n', named.len() as int);
    assert(rest.take(named.len() as int) =~= named);
    assert(rest.skip(named.len() as int + 1) =~= body);
    assert(text::lines_of(rest) == seq![text::without_return(named)] + text::lines_of(body));
    assert(text::lines_of(contents) =~= seq![marker, text::without_return(named)]
        + text::lines_of(body));
}

/// What was written for an account names that account when it is read: the configuration
/// file of an API account gives back its id, whatever its settings are.
pub proof fn law_config_names_its_account(
    account_id: Seq<char>,
    provider: Seq<char>,
    base_url: Seq<char>,
)
    requires
        text::trimmed(account_id).len() > 0,
        forall|i: int| 0 <= i < account_id.len() ==> #[trigger] account_id[i] != '\n',
    ensures
        is_managed(api_config(account_id, provider, base_url)),
        managed_id(api_config(account_id, provider, base_url)) == Some(text::trimmed(account_id)),
{
    lemma_strlits();
    let body = outside::pretty_toml(
        api_settings(text::trimmed(provider), text::trimmed(base_url)),
    );
    lemma_config_lines(account_id, body);
    let marker = SCODEX_API_CONFIG_MARKER@;
    let named = SCODEX_ACCOUNT_ID_PREFIX@ + account_id;
    let lines = text::lines_of(api_config(account_id, provider, base_url));
    let line = text::without_return(named);
    assert(lines.drop_first() =~= seq![line] + text::lines_of(body));
    assert(lines.first() == marker);
    assert(!SCODEX_ACCOUNT_ID_PREFIX@.is_prefix_of(marker)) by {
        if SCODEX_ACCOUNT_ID_PREFIX@.is_prefix_of(marker) {
            assert(SCODEX_ACCOUNT_ID_PREFIX@[9] == marker.subrange(0, 21)[9]);
        }
    }
    assert(lines.drop_first().first() == line);
    let prefix = SCODEX_ACCOUNT_ID_PREFIX@;
    if account_id.last() == '\r' {
        assert(line =~= prefix + account_id.drop_last());
        assert(line.subrange(0, 21) =~= prefix);
        assert(line.skip(21) =~= account_id.drop_last());
        lemma_trim_last_space(account_id);
    } else {
        assert(named.last() == account_id.last());
        assert(line == named);
        assert(line.subrange(0, 21) =~= prefix);
        assert(line.skip(21) =~= account_id);
    }
    assert(named_id(lines.drop_first()) == Some(text::trimmed(account_id)));
    assert(text::without_prefix(lines.first(), prefix) is None);
}

// ---------------------------------------------------------------------------
// Reading a configuration
// ---------------------------------------------------------------------------

/// The character that an escape stands for.
pub open spec fn escape_of(c: char) -> Option<char> {
    if c == '\\' || c == '"' {
        Some(c)
    } else if c == 'n' {
        Some('\n')
    } else if c == 'r' {
        Some('\r')
    } else if c == 't' {
        Some('\t')
    } else {
        None
    }
}

/// The text with its escapes replaced by what they stand for.
pub open spec fn unescaped(s: Seq<char>) -> Option<Seq<char>>
    decreases s.len(),
{
    if s.len() == 0 {
        Some(Seq::empty())
    } else if s[0] != '\\' {
        match unescaped(s.skip(1)) {
            Some(rest) => Some(seq![s[0]] + rest),
            None => None,
        }
    } else if s.len() == 1 {
        None
    } else {
        match (escape_of(s[1]), unescaped(s.skip(2))) {
            (Some(c), Some(rest)) => Some(seq![c] + rest),
            _ => None,
        }
    }
}

/// The text that a quoted text stands for.
pub open spec fn quoted_text(raw: Seq<char>) -> Option<Seq<char>> {
    match text::without_prefix(raw, "\""@) {
        Some(rest) => match text::without_suffix(rest, "\""@) {
            Some(inner) => unescaped(inner),
            None => None,
        },
        None => None,
    }
}

/// What `rest` stands for, after what `out` holds.
pub open spec fn after_prefix(out: Seq<char>, rest: Option<Seq<char>>) -> Option<Seq<char>> {
    match rest {
        Some(s) => Some(out + s),
        None => None,
    }
}

fn unescape(inner: &str) -> (r: Option<String>)
    ensures
        text::opt_chars(r) == unescaped(inner@),
{
    let chars = text::chars_of(inner);
    let mut out = String::new();
    let mut i: usize = 0;
    assert(chars@.skip(0) =~= chars@);
    assert(after_prefix(out@, unescaped(chars@)) == unescaped(chars@)) by {
        if let Some(s) = unescaped(chars@) {
            assert(out@ + s =~= s);
        }
    }
    while i < chars.len()
        invariant
            i <= chars@.len(),
            chars@ == inner@,
            after_prefix(out@, unescaped(chars@.skip(i as int))) == unescaped(chars@),
        decreases chars@.len() - i,
    {
        let ghost rest = chars@.skip(i as int);
        let ghost before = out@;
        let c = chars[i];
        if c != '\\' {
            out.push(c);
            assert(rest.skip(1) =~= chars@.skip(i + 1));
            proof {
                if let Some(s) = unescaped(chars@.skip(i + 1)) {
                    assert(before + (seq![c] + s) =~= out@ + s);
                }
            }
            i += 1;
            continue ;
        }
        if i + 1 >= chars.len() {
            return None;
        }
        let escaped = chars[i + 1];
        let plain = if escaped == '\\' || escaped == '"' {
            escaped
        } else if escaped == 'n' {
            '\n'
        } else if escaped == 'r' {
            '\r'
        } else if escaped == 't' {
            '\t'
        } else {
            return None;
        };
        out.push(plain);
        assert(rest.skip(2) =~= chars@.skip(i + 2));
        proof {
            if let Some(s) = unescaped(chars@.skip(i + 2)) {
                assert(before + (seq![plain] + s) =~= out@ + s);
            }
        }
        i += 2;
    }
    assert(out@ + Seq::<char>::empty() =~= out@);
    Some(out)
}

/// The text that a quoted text stands for, where its quotation marks are in place and it
/// has no escapes but the usual ones.
pub fn parse_toml_basic_string(raw: &str) -> (r: Option<String>)
    ensures
        text::opt_chars(r) == quoted_text(raw@),
{
    match text::strip_prefix(raw, "\"") {
        Some(rest) => match text::strip_suffix(rest, "\"") {
            Some(inner) => unescape(inner),
            None => None,
        },
        None => None,
    }
}

/// A text without backslashes stands for itself.
pub proof fn law_plain_text_needs_no_escape(s: Seq<char>)
    requires
        forall|i: int| 0 <= i < s.len() ==> #[trigger] s[i] != '\\',
    ensures
        unescaped(s) == Some(s),
    decreases s.len(),
{
    if s.len() > 0 {
        assert forall|i: int| 0 <= i < s.skip(1).len() implies #[trigger] s.skip(1)[i] != '\\' by {
            assert(s[i + 1] != '\\');
        }
        law_plain_text_needs_no_escape(s.skip(1));
        assert(seq![s[0]] + s.skip(1) =~= s);
    }
}

/// What a line sets the key to.
pub open spec fn set_by_line(line: Seq<char>, key: Seq<char>) -> Option<Seq<char>> {
    match text::without_prefix(text::trimmed(line), key + " = "@) {
        Some(raw) => quoted_text(text::trimmed(raw)),
        None => None,
    }
}

/// What the first line that does so sets the key to.
pub open spec fn set_by(lines: Seq<Seq<char>>, key: Seq<char>) -> Option<Seq<char>>
    decreases lines.len(),
{
    if lines.len() == 0 {
        None
    } else {
        match set_by_line(lines.first(), key) {
            Some(value) => Some(value),
            None => set_by(lines.drop_first(), key),
        }
    }
}

/// What the configuration sets the key to.
pub fn parse_config_string(contents: &str, key: &str) -> (r: Option<String>)
    ensures
        text::opt_chars(r) == set_by(text::lines_of(contents@), key@),
{
    let lines = text::lines(contents);
    let prefix = text::concat2(key, " = ");
    let ghost all = text::views(lines@);
    let mut i: usize = 0;
    assert(all.skip(0) =~= all);
    while i < lines.len()
        invariant
            i <= lines@.len(),
            all == text::views(lines@),
            all == text::lines_of(contents@),
            prefix@ == key@ + " = "@,
            set_by(all.skip(i as int), key@) == set_by(all, key@),
        decreases lines@.len() - i,
    {
        assert(all.skip(i as int).first() == lines@[i as int]@);
        assert(all.skip(i as int).drop_first() =~= all.skip(i + 1));
        if let Some(raw) = text::strip_prefix(text::trim(lines[i].as_str()), prefix.as_str()) {
            if let Some(value) = parse_toml_basic_string(text::trim(raw)) {
                return Some(value);
            }
        }
        i += 1;
    }
    None
}

// ---------------------------------------------------------------------------
// Normalizing records
// ---------------------------------------------------------------------------

/// What the files of an API account say of it.
pub struct ApiDetails {
    pub email: Seq<char>,
    pub provider: Seq<char>,
    pub base_url: Seq<char>,
    pub token_label: Seq<char>,
}

/// What the files of an API account say of it.
#[derive(Debug)]
pub struct InferredApiAccount {
    pub email: String,
    pub provider: String,
    pub base_url: String,
    pub token_label: String,
}

impl View for InferredApiAccount {
    type V = ApiDetails;

    open spec fn view(&self) -> ApiDetails {
        ApiDetails {
            email: self.email@,
            provider: self.provider@,
            base_url: self.base_url@,
            token_label: self.token_label@,
        }
    }
}

/// The value, where it is not empty.
pub open spec fn filled(value: Option<Seq<char>>) -> Option<Seq<char>> {
    match value {
        Some(s) if s.len() > 0 => Some(s),
        _ => None,
    }
}

/// The provider that a configuration names, or `openai`.
pub open spec fn named_provider(config: Seq<char>) -> Seq<char> {
    match filled(set_by(text::lines_of(config), "model_provider"@)) {
        Some(provider) => provider,
        None => "openai"@,
    }
}

/// The address that a configuration names for its provider.
pub open spec fn named_base_url(config: Seq<char>) -> Option<Seq<char>> {
    filled(
        set_by(
            text::lines_of(config),
            if text::same_ignoring_case(named_provider(config), "openai"@) {
                "openai_base_url"@
            } else {
                "base_url"@
            },
        ),
    )
}

/// What the credentials and the configuration of an account say of it as an API account:
/// nothing, unless the configuration was written by this program and names an address,
/// and the credentials hold a key.
pub open spec fn inferred(config: Seq<char>, auth: JsonModel) -> Option<ApiDetails> {
    let token = text::non_blank(json::text_of(auth.member("OPENAI_API_KEY"@)));
    let base_url = named_base_url(config);
    if is_managed(config) && token is Some && base_url is Some {
        let provider = text::lowercase(named_provider(config));
        Some(
            ApiDetails {
                email: api_email(token->0, provider),
                provider,
                base_url: base_url->0,
                token_label: token_label(token->0),
            },
        )
    } else {
        None
    }
}

/// What the files of an account say of it as an API account.
pub open spec fn inferred_from(config: Option<Seq<char>>, auth: Option<Seq<char>>) -> Option<
    ApiDetails,
> {
    match (config, auth) {
        (Some(config), Some(auth)) => match json::parsed_text(auth) {
            Some(auth) => inferred(config, auth),
            None => None,
        },
        _ => None,
    }
}

fn filled_text(value: Option<String>) -> (r: Option<String>)
    ensures
        text::opt_chars(r) == filled(text::opt_chars(value)),
{
    match value {
        Some(s) => if s.as_str().is_empty() {
            None
        } else {
            Some(s)
        },
        None => None,
    }
}

/// What the configuration and the credentials say of an API account.
pub fn infer_from_documents(config: &str, auth: &Json) -> (r: Option<InferredApiAccount>)
    ensures
        match r {
            Some(details) => inferred(config@, auth@) == Some(details@),
            None => inferred(config@, auth@) is None,
        },
{
    if !text::contains(config, SCODEX_API_CONFIG_MARKER) {
        return None;
    }
    let token = match text::trim_non_blank(json::as_text(auth.get("OPENAI_API_KEY"))) {
        Some(token) => token,
        None => return None,
    };
    let provider = match filled_text(parse_config_string(config, "model_provider")) {
        Some(provider) => provider,
        None => "openai".to_owned(),
    };
    let named = if text::eq_ignore_case(provider.as_str(), "openai") {
        parse_config_string(config, "openai_base_url")
    } else {
        parse_config_string(config, "base_url")
    };
    let base_url = match filled_text(named) {
        Some(base_url) => base_url,
        None => return None,
    };
    let provider = text::to_lowercase(provider.as_str());
    let token_label = api_token_label(token);
    let email = api_account_email(token, provider.as_str());
    Some(InferredApiAccount { email, provider, base_url, token_label })
}

/// What the files of an account say of it as an API account. A file is missing where it
/// does not exist or cannot be read.
pub fn infer_api_account_details(config: Option<&str>, auth: Option<&str>) -> (r: Option<
    InferredApiAccount,
>)
    ensures
        match r {
            Some(details) => inferred_from(
                text::opt_str_chars(config),
                text::opt_str_chars(auth),
            ) == Some(details@),
            None => inferred_from(text::opt_str_chars(config), text::opt_str_chars(auth)) is None,
        },
{
    match (config, auth) {
        (Some(config), Some(auth)) => match Json::parse(auth) {
            Some(auth) => infer_from_documents(config, &auth),
            None => None,
        },
        _ => None,
    }
}

/// Where every line that sets the key sets it to the value, and one does, the key is set to
/// the value.
proof fn lemma_set_by(lines: Seq<Seq<char>>, key: Seq<char>, value: Seq<char>, n: int)
    requires
        0 <= n < lines.len(),
        set_by_line(lines[n], key) == Some(value),
        forall|i: int|
            0 <= i < lines.len() ==> {
                ||| set_by_line(#[trigger] lines[i], key) is None
                ||| set_by_line(lines[i], key) == Some(value)
            },
    ensures
        set_by(lines, key) == Some(value),
    decreases lines.len(),
{
    if set_by_line(lines.first(), key) is None {
        let rest = lines.drop_first();
        assert(rest[n - 1] == lines[n]);
        assert forall|i: int| 0 <= i < rest.len() implies set_by_line(#[trigger] rest[i], key) is None
            || set_by_line(rest[i], key) == Some(value) by {
            assert(rest[i] == lines[i + 1]);
        }
        lemma_set_by(rest, key, value, n - 1);
    } else {
        assert(lines.first() == lines[0]);
    }
}

/// A line that is written for a text is read as that text.
proof fn lemma_written_line_is_read(key: Seq<char>, value: Seq<char>)
    requires
        outside::is_bare_key(key),
        outside::is_quotable(value),
    ensures
        set_by_line(
            key + " = "@ + outside::written_value(SettingModel::Text(value)),
            key,
        ) == Some(value),
{
    reveal_strlit(" = ");
    reveal_strlit("\"");
    let prefix = key + " = "@;
    let raw = outside::written_value(SettingModel::Text(value));
    let line = prefix + raw;
    assert(line.first() == key[0]);
    assert(raw.last() == '"');
    assert(line.last() == '"');
    assert(text::trimmed(line) == line);
    assert(line.take(prefix.len() as int) =~= prefix);
    assert(prefix.is_prefix_of(line));
    assert(line.skip(prefix.len() as int) =~= raw);
    assert(raw.first() == '"');
    assert(text::trimmed(raw) == raw);
    let rest = value + "\""@;
    assert("\""@.is_prefix_of(raw));
    assert(raw.skip(1) =~= rest);
    assert("\""@.is_suffix_of(rest));
    assert(rest.take(rest.len() - 1) =~= value);
    law_plain_text_needs_no_escape(value);
}

/// A line of the header sets nothing.
proof fn lemma_header_sets_nothing(line: Seq<char>, key: Seq<char>)
    requires
        line.len() > 0,
        line.first() == '#',
        outside::is_bare_key(key),
    ensures
        set_by_line(line, key) is None,
{
    let prefix = key + " = "@;
    let trimmed = text::trimmed(line);
    assert(text::trim_start_of(line, text::CharClass::WhiteSpace) == line);
    text::lemma_trim_keeps_start(line, text::CharClass::WhiteSpace);
    if prefix.is_prefix_of(trimmed) {
        assert(prefix[0] == key[0]);
        assert(trimmed.subrange(0, prefix.len() as int)[0] == trimmed[0]);
    }
}

/// What a setting of an API account is read as.
proof fn lemma_setting_is_read(
    account_id: Seq<char>,
    provider: Seq<char>,
    base_url: Seq<char>,
    key: Seq<char>,
    value: Seq<char>,
)
    requires
        forall|i: int| 0 <= i < account_id.len() ==> #[trigger] account_id[i] != '\n',
        lists_api_settings(provider, base_url),
        outside::is_bare_key(key),
        outside::is_quotable(value),
        forall|v: SettingModel|
            !(v is Table) ==> (#[trigger] is_api_setting(
                text::trimmed(provider),
                text::trimmed(base_url),
                key,
                v,
            ) <==> v == SettingModel::Text(value)),
    ensures
        set_by(text::lines_of(api_config(account_id, provider, base_url)), key) == Some(value),
{
    let p = text::trimmed(provider);
    let u = text::trimmed(base_url);
    let settings = api_settings(p, u);
    let body = outside::pretty_toml(settings);
    let listed = text::lines_of(body);
    let lines = text::lines_of(api_config(account_id, provider, base_url));
    lemma_config_lines(account_id, body);
    lemma_strlits();
    reveal_strlit("# scodex-managed-api-config");
    reveal_strlit("# scodex-account-id: ");
    let written = key + " = "@ + outside::written_value(SettingModel::Text(value));
    lemma_written_line_is_read(key, value);
    lemma_has_setting(p, u, key, SettingModel::Text(value));
    assert(is_api_setting(p, u, key, SettingModel::Text(value)));
    assert(listed.contains(written));
    let j = choose|j: int| 0 <= j < listed.len() && listed[j] == written;
    assert(lines[j + 2] == listed[j]);
    assert forall|i: int| 0 <= i < lines.len() implies set_by_line(#[trigger] lines[i], key) is None
        || set_by_line(lines[i], key) == Some(value) by {
        if i < 2 {
            let named = SCODEX_ACCOUNT_ID_PREFIX@ + account_id;
            assert(named[0] == '#');
            assert(lines[i].first() == '#');
            lemma_header_sets_nothing(lines[i], key);
        } else {
            assert(lines[i] == listed[i - 2]);
            if (key + " = "@).is_prefix_of(text::trimmed(lines[i])) {
                let v = choose|v: SettingModel| #[trigger]
                    outside::has_setting(settings, key, v) && !(v is Table) && listed[i - 2] == key
                        + " = "@ + outside::written_value(v);
                lemma_has_setting(p, u, key, v);
                assert(is_api_setting(p, u, key, v));
            }
        }
    }
    lemma_set_by(lines, key, value, j + 2);
}

/// The files that are written for an API account tell its provider, its address, its token
/// and its name when they are read.
pub proof fn law_api_files_tell_the_account(
    account_id: Seq<char>,
    provider: Seq<char>,
    base_url: Seq<char>,
    token: Seq<char>,
    auth: JsonModel,
)
    requires
        forall|i: int| 0 <= i < account_id.len() ==> #[trigger] account_id[i] != '\n',
        is_normal_login(provider, base_url, token),
        is_quotable(provider, base_url),
        lists_api_settings(provider, base_url),
        json::text_of(auth.member("OPENAI_API_KEY"@)) == Some(token),
    ensures
        inferred(api_config(account_id, provider, base_url), auth) == Some(
            ApiDetails {
                email: api_email(token, provider),
                provider,
                base_url,
                token_label: token_label(token),
            },
        ),
{
    let config = api_config(account_id, provider, base_url);
    let lines = text::lines_of(config);
    lemma_config_lines(
        account_id,
        outside::pretty_toml(api_settings(text::trimmed(provider), text::trimmed(base_url))),
    );
    assert(is_managed(config));
    lemma_setting_keys();
    let openai = text::same_ignoring_case(provider, "openai"@);
    if openai {
        lemma_openai_in_lower_case(provider);
    }
    lemma_setting_is_read(account_id, provider, base_url, "model_provider"@, provider);
    assert(named_provider(config) == provider);
    if openai {
        lemma_setting_is_read(account_id, provider, base_url, "openai_base_url"@, base_url);
    } else {
        lemma_setting_is_read(account_id, provider, base_url, "base_url"@, base_url);
    }
    assert(named_base_url(config) == Some(base_url));
    text::lemma_trim_idempotent(token, text::CharClass::WhiteSpace);
    assert(token_body(text::trimmed(token)) == token_body(token));
}

/// Whether the provider, the address and the token are as a login leaves them: the provider
/// in lower case, it and the address without white space at their ends, and none blank.
pub open spec fn is_normal_login(
    provider: Seq<char>,
    base_url: Seq<char>,
    token: Seq<char>,
) -> bool {
    &&& text::trimmed(provider) == provider
    &&& text::lowercase(provider) == provider
    &&& provider.len() > 0
    &&& text::trimmed(base_url) == base_url
    &&& base_url.len() > 0
    &&& text::trimmed(token).len() > 0
}

proof fn lemma_setting_keys()
    ensures
        outside::is_bare_key("model_provider"@),
        outside::is_bare_key("openai_base_url"@),
        outside::is_bare_key("base_url"@),
        "model_provider"@.len() == 14,
        "openai_base_url"@.len() == 15,
        "base_url"@.len() == 8,
        "forced_login_method"@.len() == 19,
        "name"@.len() == 4,
        "requires_openai_auth"@.len() == 20,
        "wire_api"@.len() == 8,
        "base_url"@[0] == 'b',
        "wire_api"@[0] == 'w',
{
    reveal_strlit("model_provider");
    reveal_strlit("openai_base_url");
    reveal_strlit("forced_login_method");
    reveal_strlit("name");
    reveal_strlit("base_url");
    reveal_strlit("requires_openai_auth");
    reveal_strlit("wire_api");
}

proof fn lemma_openai_in_lower_case(provider: Seq<char>)
    requires
        text::same_ignoring_case(provider, "openai"@),
        text::lowercase(provider) == provider,
    ensures
        provider == "openai"@,
{
    reveal_strlit("openai");
    assert(text::lowercase("openai"@) =~= "openai"@);
}

/// The account as the API account that its files say it is.
pub open spec fn as_api_account(account: AccountModel, details: ApiDetails) -> AccountModel {
    AccountModel {
        account_type: AccountType::Api,
        account_id: None,
        plan: None,
        email: details.email,
        api_provider: Some(details.provider),
        api_base_url: Some(details.base_url),
        api_token_label: Some(details.token_label),
        ..account
    }
}

/// The account as what its files say it is.
pub open spec fn normalized_account(account: AccountModel, details: Option<ApiDetails>) -> AccountModel {
    match details {
        Some(details) => as_api_account(account, details),
        None => account,
    }
}

/// What optional details say.
pub open spec fn details_of(details: Option<InferredApiAccount>) -> Option<ApiDetails> {
    match details {
        Some(d) => Some(d@),
        None => None,
    }
}

fn set_text(slot: Option<String>, value: String) -> (r: (Option<String>, bool))
    ensures
        text::opt_chars(r.0) == Some(value@),
        r.1 == (text::opt_chars(slot) != Some(value@)),
{
    if text::is_text(text::as_deref(&slot), value.as_str()) {
        (slot, false)
    } else {
        (Some(value), true)
    }
}

/// Makes the account what its files say it is, and tells whether that changed anything.
pub fn normalize_account_record(account: AccountRecord, details: Option<InferredApiAccount>) -> (r:
    (AccountRecord, bool))
    ensures
        r.0@ == normalized_account(account@, details_of(details)),
        r.1 == (r.0@ != account@),
{
    let details = match details {
        Some(details) => details,
        None => return (account, false),
    };
    let ghost before = account@;
    let mut account = account;
    let mut changed = false;
    if account.account_type != AccountType::Api {
        account.account_type = AccountType::Api;
        changed = true;
    }
    if account.account_id.is_some() {
        account.account_id = None;
        changed = true;
    }
    if account.plan.is_some() {
        account.plan = None;
        changed = true;
    }
    if !text::same_text(account.email.as_str(), details.email.as_str()) {
        account.email = details.email;
        changed = true;
    }
    let (provider, provider_changed) = set_text(account.api_provider, details.provider);
    account.api_provider = provider;
    let (base_url, base_url_changed) = set_text(account.api_base_url, details.base_url);
    account.api_base_url = base_url;
    let (label, label_changed) = set_text(account.api_token_label, details.token_label);
    account.api_token_label = label;
    (account, changed || provider_changed || base_url_changed || label_changed)
}

/// Normalizing an account once more changes nothing.
pub proof fn law_normalizing_is_idempotent(account: AccountModel, details: Option<ApiDetails>)
    ensures
        normalized_account(normalized_account(account, details), details) == normalized_account(
            account,
            details,
        ),
{
}

/// Normalizing an account never touches its id, its files or its times.
pub proof fn law_normalizing_keeps_the_files(account: AccountModel, details: Option<ApiDetails>)
    ensures
        normalized_account(account, details).id == account.id,
        normalized_account(account, details).auth_path == account.auth_path,
        normalized_account(account, details).config_path == account.config_path,
        normalized_account(account, details).added_at == account.added_at,
        normalized_account(account, details).updated_at == account.updated_at,
{
}

/// What the files of an account hold, as far as they can be read.
#[derive(Debug)]
pub struct AccountFiles {
    pub auth: Option<String>,
    pub config: Option<String>,
}

/// What the files say of the account as an API account; one without a configuration is none.
pub open spec fn inferred_for(account: AccountModel, files: AccountFiles) -> Option<ApiDetails> {
    if account.config_path is None {
        None
    } else {
        inferred_from(text::opt_chars(files.config), text::opt_chars(files.auth))
    }
}

/// The accounts as what their files say they are.
pub open spec fn normalized_accounts(
    accounts: Seq<AccountModel>,
    files: Seq<AccountFiles>,
) -> Seq<AccountModel> {
    Seq::new(
        accounts.len(),
        |i: int| normalized_account(accounts[i], inferred_for(accounts[i], files[i])),
    )
}

/// Whether the first account with that id is an API account.
pub open spec fn is_api_id(accounts: Seq<AccountModel>, id: Seq<char>) -> bool
    decreases accounts.len(),
{
    if accounts.len() == 0 {
        false
    } else if accounts.first().id == id {
        accounts.first().account_type == AccountType::Api
    } else {
        is_api_id(accounts.drop_first(), id)
    }
}

fn is_api_account_id(accounts: &Vec<AccountRecord>, id: &str) -> (r: bool)
    ensures
        r == is_api_id(state::models(accounts@), id@),
{
    let ghost all = state::models(accounts@);
    let mut i: usize = 0;
    assert(all.skip(0) =~= all);
    while i < accounts.len()
        invariant
            i <= accounts@.len(),
            all == state::models(accounts@),
            is_api_id(all.skip(i as int), id@) == is_api_id(all, id@),
        decreases accounts@.len() - i,
    {
        assert(all.skip(i as int).first() == accounts@[i as int]@);
        assert(all.skip(i as int).drop_first() =~= all.skip(i + 1));
        if text::same_text(accounts[i].id.as_str(), id) {
            return accounts[i].is_api();
        }
        i += 1;
    }
    false
}

/// The cache without the snapshots of API accounts.
pub open spec fn without_api_snapshots(
    cache: Map<Seq<char>, UsageSnapshot>,
    accounts: Seq<AccountModel>,
) -> Map<Seq<char>, UsageSnapshot> {
    cache.restrict(Set::new(|id: Seq<char>| !is_api_id(accounts, id)))
}

/// Drops the snapshots of API accounts.
fn drop_api_snapshots(state: &mut State)
    ensures
        final(state).usage_cache@ == without_api_snapshots(
            old(state).usage_cache@,
            state::models(old(state).accounts@),
        ),
        final(state).accounts == old(state).accounts,
        final(state).version == old(state).version,
        final(state).repo_sync == old(state).repo_sync,
{
    let ghost before = state.usage_cache@;
    let ghost accounts = state::models(state.accounts@);
    let ids = api_snapshot_ids(state);
    let mut i: usize = 0;
    assert(before.remove_keys(text::views(ids@).take(0).to_set()) =~= before);
    while i < ids.len()
        invariant
            i <= ids@.len(),
            state.accounts == old(state).accounts,
            state.version == old(state).version,
            state.repo_sync == old(state).repo_sync,
            state.usage_cache@ == before.remove_keys(text::views(ids@).take(i as int).to_set()),
        decreases ids@.len() - i,
    {
        let ghost taken = text::views(ids@).take(i as int);
        let ghost more = text::views(ids@).take(i + 1);
        let ghost current = state.usage_cache@;
        state.usage_cache.remove(ids[i].as_str());
        proof {
            assert(more =~= taken.push(ids@[i as int]@));
            assert forall|k: Seq<char>|
                more.to_set().contains(k) == (taken.to_set().contains(k) || k
                    == ids@[i as int]@) by {
                if taken.contains(k) {
                    let j = choose|j: int| 0 <= j < taken.len() && taken[j] == k;
                    assert(more[j] == k);
                }
                if k == ids@[i as int]@ {
                    assert(more[i as int] == k);
                }
                if more.contains(k) {
                    let j = choose|j: int| 0 <= j < more.len() && more[j] == k;
                    if j < i {
                        assert(taken[j] == k);
                    }
                }
            }
            assert(current.remove(ids@[i as int]@) =~= before.remove_keys(more.to_set()));
        }
        i += 1;
    }
    proof {
        let all = text::views(ids@);
        assert(all.take(i as int) =~= all);
        assert forall|k: Seq<char>| before.contains_key(k) implies all.to_set().contains(k)
            == is_api_id(accounts, k) by {
            if is_api_id(accounts, k) {
                assert(all.contains(k));
            }
            if all.contains(k) {
                let j = choose|j: int| 0 <= j < all.len() && all[j] == k;
                assert(ids@[j]@ == k);
            }
        }
        assert(before.remove_keys(all.to_set()) =~= without_api_snapshots(before, accounts));
    }
}

/// The ids of the snapshots of API accounts.
fn api_snapshot_ids(state: &State) -> (r: Vec<String>)
    ensures
        forall|k: Seq<char>|
            state.usage_cache@.contains_key(k) && is_api_id(state::models(state.accounts@), k) ==> #[trigger] text::views(
                r@,
            ).contains(k),
        forall|i: int|
            0 <= i < r@.len() ==> is_api_id(
                state::models(state.accounts@),
                (#[trigger] r@[i])@,
            ),
{
    let ghost accounts = state::models(state.accounts@);
    let entries = state.usage_cache.entries();
    let mut ids: Vec<String> = Vec::new();
    let mut i: usize = 0;
    while i < entries.len()
        invariant
            i <= entries@.len(),
            accounts == state::models(state.accounts@),
            forall|k: int|
                0 <= k < i && is_api_id(accounts, (#[trigger] entries@[k]).0@) ==> text::views(
                    ids@,
                ).contains(entries@[k].0@),
            forall|k: int| 0 <= k < ids@.len() ==> is_api_id(accounts, (#[trigger] ids@[k])@),
        decreases entries@.len() - i,
    {
        let ghost before = text::views(ids@);
        if is_api_account_id(&state.accounts, entries[i].0.as_str()) {
            ids.push(entries[i].0.clone());
            proof {
                let after = text::views(ids@);
                assert(after =~= before.push(entries@[i as int].0@));
                assert(after[before.len() as int] == entries@[i as int].0@);
                assert forall|k: int|
                    0 <= k < i && is_api_id(accounts, (#[trigger] entries@[k]).0@) implies after.contains(
                    entries@[k].0@,
                ) by {
                    let j = choose|j: int| 0 <= j < before.len() && before[j] == entries@[k].0@;
                    assert(after[j] == entries@[k].0@);
                }
            }
        }
        i += 1;
    }
    proof {
        assert forall|k: Seq<char>|
            state.usage_cache@.contains_key(k) && is_api_id(accounts, k) implies #[trigger] text::views(
            ids@,
        ).contains(k) by {
            assert(state::map_of(entries@).contains_key(k));
            let j = choose|j: int| state::key_at(entries@, k, j);
            assert(state::key_at(entries@, k, j));
            assert(entries@[j].0@ == k);
        }
    }
    ids
}

impl CodexAdapter {
    /// Makes every account what its files say it is, and tells whether that changed
    /// anything. Where it did, the snapshots of API accounts are dropped.
    pub fn normalize_account_records(&self, state: &mut State, files: Vec<AccountFiles>) -> (r: bool)
        requires
            files@.len() == old(state).accounts@.len(),
        ensures
            state::models(final(state).accounts@) == normalized_accounts(
                state::models(old(state).accounts@),
                files@,
            ),
            r == (state::models(final(state).accounts@) != state::models(old(state).accounts@)),
            final(state).usage_cache@ == (if r {
                without_api_snapshots(
                    old(state).usage_cache@,
                    state::models(final(state).accounts@),
                )
            } else {
                old(state).usage_cache@
            }),
            final(state).version == old(state).version,
            final(state).repo_sync == old(state).repo_sync,
    {
        let ghost before = state::models(state.accounts@);
        let ghost goal = normalized_accounts(before, files@);
        let mut changed = false;
        let mut i: usize = 0;
        let mut normalized: Vec<AccountRecord> = Vec::new();
        assert(goal.take(0) =~= before.take(0));
        while i < state.accounts.len()
            invariant
                i <= state.accounts@.len(),
                *state == *old(state),
                files@.len() == state.accounts@.len(),
                before == state::models(state.accounts@),
                goal == normalized_accounts(before, files@),
                state::models(normalized@) == goal.take(i as int),
                changed == (goal.take(i as int) != before.take(i as int)),
            decreases state.accounts@.len() - i,
        {
            let account = state.accounts[i].clone();
            let ghost old_account = account@;
            let details = if account.config_path.is_none() {
                None
            } else {
                infer_api_account_details(
                    text::as_deref(&files[i].config),
                    text::as_deref(&files[i].auth),
                )
            };
            assert(details_of(details) == inferred_for(before[i as int], files@[i as int]));
            let (account, account_changed) = normalize_account_record(account, details);
            let ghost so_far = state::models(normalized@);
            normalized.push(account);
            proof {
                assert(state::models(normalized@) =~= so_far.push(goal[i as int]));
                assert(goal.take(i + 1) =~= goal.take(i as int).push(goal[i as int]));
                assert(before.take(i + 1) =~= before.take(i as int).push(before[i as int]));
                assert(goal.take(i + 1).drop_last() =~= goal.take(i as int));
                assert(before.take(i + 1).drop_last() =~= before.take(i as int));
                assert(goal.take(i + 1).last() == goal[i as int]);
                assert(before.take(i + 1).last() == before[i as int]);
            }
            changed = changed || account_changed;
            i += 1;
        }
        assert(goal.take(i as int) =~= goal);
        assert(before.take(i as int) =~= before);
        state.accounts = normalized;
        if changed {
            drop_api_snapshots(state);
        }
        changed
    }
}

// ---------------------------------------------------------------------------
// Laws of names and settings
// ---------------------------------------------------------------------------

/// Of a token that is long enough, the label shows its first four characters and its last
/// four, not counting the prefix.
pub proof fn law_label_shows_the_ends_of_the_token(token: Seq<char>, i: int)
    requires
        token_body(token).len() >= 8,
        0 <= i < 4,
    ensures
        token_label(token).len() == 12,
        token_label(token).take(3) == "sk-"@,
        token_label(token)[3 + i] == token_body(token)[i],
        token_label(token)[7] == '-',
        token_label(token)[8 + i] == token_body(token)[token_body(token).len() - 4 + i],
{
    reveal_strlit("sk-");
    reveal_strlit("-");
    assert(token_label(token).take(3) =~= "sk-"@);
}

/// The name of an API account is made of the last six characters of its token and of its
/// provider in lower case, with an at sign in between.
pub proof fn law_api_account_is_named_by_token_and_provider(
    token: Seq<char>,
    provider: Seq<char>,
    i: int,
)
    requires
        token_body(token).len() >= 6,
        0 <= i < 6,
    ensures
        api_email(token, provider)[i] == token_body(token)[token_body(token).len() - 6 + i],
        api_email(token, provider)[6] == '@',
        api_email(token, provider).skip(7) == text::lowercase(text::trimmed(provider)),
{
    reveal_strlit("@");
    assert(api_email(token, provider).skip(7) =~= text::lowercase(text::trimmed(provider)));
}

/// A subscription is shown by its email, and an API account by the label of its token and
/// its provider, as far as both are known.
pub proof fn law_accounts_are_shown_by_name(account: AccountModel)
    ensures
        account.account_type == AccountType::Subscription ==> shown_name(account) == account.email,
        account.api_token_label is None || account.api_provider is None ==> shown_name(account)
            == account.email,
        account.account_type == AccountType::Api && account.api_token_label is Some
            && account.api_provider is Some ==> shown_name(account) == account.api_token_label->0
            + "@"@ + account.api_provider->0,
{
}

/// Codex is told the provider and its address, and to log in with a token; of a provider that
/// it does not know it is also told the name and how to talk to it.
pub proof fn law_settings_name_provider_and_address(provider: Seq<char>, base_url: Seq<char>)
    ensures
        outside::has_setting(
            api_settings(provider, base_url),
            "forced_login_method"@,
            SettingModel::Text("api"@),
        ),
        text::same_ignoring_case(provider, "openai"@) ==> outside::has_setting(
            api_settings(provider, base_url),
            "model_provider"@,
            SettingModel::Text("openai"@),
        ) && outside::has_setting(
            api_settings(provider, base_url),
            "openai_base_url"@,
            SettingModel::Text(base_url),
        ),
        !text::same_ignoring_case(provider, "openai"@) ==> {
            let settings = api_settings(provider, base_url);
            &&& outside::has_setting(settings, "model_provider"@, SettingModel::Text(provider))
            &&& outside::has_setting(settings, "name"@, SettingModel::Text(provider))
            &&& outside::has_setting(settings, "base_url"@, SettingModel::Text(base_url))
            &&& outside::has_setting(settings, "requires_openai_auth"@, SettingModel::Flag(true))
            &&& outside::has_setting(settings, "wire_api"@, SettingModel::Text("responses"@))
        },
{
    let login = SettingModel::Text("api"@);
    lemma_has_setting(provider, base_url, "forced_login_method"@, login);
    lemma_has_setting(provider, base_url, "model_provider"@, SettingModel::Text("openai"@));
    lemma_has_setting(provider, base_url, "openai_base_url"@, SettingModel::Text(base_url));
    lemma_has_setting(provider, base_url, "model_provider"@, SettingModel::Text(provider));
    lemma_has_setting(provider, base_url, "name"@, SettingModel::Text(provider));
    lemma_has_setting(provider, base_url, "base_url"@, SettingModel::Text(base_url));
    lemma_has_setting(provider, base_url, "requires_openai_auth"@, SettingModel::Flag(true));
    lemma_has_setting(provider, base_url, "wire_api"@, SettingModel::Text("responses"@));
}

/// An escape stands for one character: the ends of lines and the tab for themselves, and the
/// backslash and the quotation mark for what they are. Any other escape is an error.
pub proof fn law_escapes_are_read(c: char, rest: Seq<char>, value: Seq<char>)
    requires
        unescaped(rest) == Some(value),
    ensures
        unescaped(seq!['\\', 'n'] + rest) == Some(seq!['\n'] + value),
        unescaped(seq!['\\', 'r'] + rest) == Some(seq!['\r'] + value),
        unescaped(seq!['\\', 't'] + rest) == Some(seq!['\t'] + value),
        unescaped(seq!['\\', '"'] + rest) == Some(seq!['"'] + value),
        unescaped(seq!['\\', '\\'] + rest) == Some(seq!['\\'] + value),
        c != 'n' && c != 'r' && c != 't' && c != '"' && c != '\\' ==> unescaped(
            seq!['\\', c] + rest,
        ) is None,
{
    assert((seq!['\\', 'n'] + rest).skip(2) =~= rest);
    assert((seq!['\\', 'r'] + rest).skip(2) =~= rest);
    assert((seq!['\\', 't'] + rest).skip(2) =~= rest);
    assert((seq!['\\', '"'] + rest).skip(2) =~= rest);
    assert((seq!['\\', '\\'] + rest).skip(2) =~= rest);
    assert((seq!['\\', c] + rest).skip(2) =~= rest);
}

/// What stands between quotation marks is the text, and what lacks one of them is none.
pub proof fn law_quoted_text_is_read(s: Seq<char>)
    requires
        forall|i: int| 0 <= i < s.len() ==> #[trigger] s[i] != '\\',
    ensures
        quoted_text("\""@ + s + "\""@) == Some(s),
        s.len() > 0 && s[0] != '"' ==> quoted_text(s) is None,
        s.len() > 0 && s.last() != '"' ==> quoted_text(s) is None,
{
    reveal_strlit("\"");
    law_plain_text_needs_no_escape(s);
    text::law_ends_can_be_taken_away(s + "\""@, "\""@);
    text::law_ends_can_be_taken_away(s, "\""@);
    assert("\""@ + s + "\""@ =~= "\""@ + (s + "\""@));
    if s.len() > 0 && s[0] != '"' {
        assert(!"\""@.is_prefix_of(s)) by {
            if "\""@.is_prefix_of(s) {
                assert("\""@[0] == s[0]);
            }
        }
    }
    if s.len() > 0 && s.last() != '"' {
        if "\""@.is_prefix_of(s) {
            let rest = s.skip(1);
            if "\""@.is_suffix_of(rest) {
                assert("\""@.len() == 1);
                assert(rest.len() >= 1);
                assert(rest.last() == s.last());
                assert("\""@[0] == rest[rest.len() - 1]);
            }
        }
    }
}

/// Files tell of an API account only where this program wrote the configuration, it names an
/// address, and the credentials hold a key; then the account is that of the key and of the
/// provider.
pub proof fn law_files_must_tell_all_of_an_api_account(
    config: Seq<char>,
    auth: JsonModel,
    token: Seq<char>,
)
    requires
        text::trimmed(token) == token,
    ensures
        !is_managed(config) ==> inferred(config, auth) is None,
        named_base_url(config) is None ==> inferred(config, auth) is None,
        auth.member("OPENAI_API_KEY"@) is None ==> inferred(config, auth) is None,
        is_managed(config) && named_base_url(config) is Some && token.len() > 0 && auth.member(
            "OPENAI_API_KEY"@,
        ) == Some(JsonModel::Text(token)) ==> (inferred(config, auth) matches Some(details) && {
            &&& text::same_ignoring_case(details.provider, named_provider(config))
            &&& details.email == api_email(token, details.provider)
            &&& Some(details.base_url) == named_base_url(config)
            &&& details.token_label == token_label(token)
        }),
{
    assert(text::lowercase(text::lowercase(named_provider(config))) =~= text::lowercase(
        named_provider(config),
    ));
}

/// An account that turns out to be an API account has no plan and no remote id, and is what
/// its files say; an account without a configuration stays what it was.
pub proof fn law_files_decide_what_an_account_is(
    account: AccountModel,
    details: ApiDetails,
    files: AccountFiles,
)
    ensures
        ({
            let api = normalized_account(account, Some(details));
            &&& api.account_type == AccountType::Api
            &&& api.plan is None && api.account_id is None
            &&& api.email == details.email
            &&& api.api_provider == Some(details.provider)
            &&& api.api_base_url == Some(details.base_url)
            &&& api.api_token_label == Some(details.token_label)
        }),
        normalized_account(account, None) == account,
        account.config_path is None ==> inferred_for(account, files) is None,
        account.config_path is Some && files.config is Some && files.auth is Some ==> inferred_for(
            account,
            files,
        ) == inferred_from(Some(files.config->0@), Some(files.auth->0@)),
{
}

/// Where ids are distinct, the snapshots of API accounts are dropped and all others stay.
pub proof fn law_api_snapshots_are_dropped(
    cache: Map<Seq<char>, UsageSnapshot>,
    accounts: Seq<AccountModel>,
    k: int,
)
    requires
        0 <= k < accounts.len(),
        forall|i: int, j: int|
            0 <= i < j < accounts.len() ==> (#[trigger] accounts[i]).id != (
            #[trigger] accounts[j]).id,
    ensures
        accounts[k].account_type == AccountType::Api ==> !without_api_snapshots(
            cache,
            accounts,
        ).contains_key(accounts[k].id),
        accounts[k].account_type == AccountType::Subscription && cache.contains_key(accounts[k].id)
            ==> without_api_snapshots(cache, accounts).contains_key(accounts[k].id)
            && without_api_snapshots(cache, accounts)[accounts[k].id] == cache[accounts[k].id],
{
    lemma_api_id(accounts, k);
}

proof fn lemma_api_id(accounts: Seq<AccountModel>, k: int)
    requires
        0 <= k < accounts.len(),
        forall|i: int, j: int|
            0 <= i < j < accounts.len() ==> (#[trigger] accounts[i]).id != (
            #[trigger] accounts[j]).id,
    ensures
        is_api_id(accounts, accounts[k].id) == (accounts[k].account_type == AccountType::Api),
    decreases accounts.len(),
{
    if k > 0 {
        let rest = accounts.drop_first();
        assert(accounts[0].id != accounts[k].id);
        assert(rest[k - 1] == accounts[k]);
        assert forall|i: int, j: int| 0 <= i < j < rest.len() implies (#[trigger] rest[i]).id != (
        #[trigger] rest[j]).id by {
            assert(rest[i] == accounts[i + 1]);
            assert(rest[j] == accounts[j + 1]);
        }
        lemma_api_id(rest, k - 1);
    }
}

/// A configuration that names no provider is one for `openai`, whose address has a key of its
/// own; any other provider has its address under the usual key.
pub proof fn law_openai_is_the_usual_provider(config: Seq<char>)
    ensures
        set_by(text::lines_of(config), "model_provider"@) is None ==> named_provider(config)
            == "openai"@,
        set_by(text::lines_of(config), "model_provider"@) is Some && set_by(
            text::lines_of(config),
            "model_provider"@,
        )->0.len() > 0 ==> named_provider(config) == set_by(
            text::lines_of(config),
            "model_provider"@,
        )->0,
        text::lowercase(named_provider(config)) == text::lowercase("openai"@)
            ==> named_base_url(config) == filled(
            set_by(text::lines_of(config), "openai_base_url"@),
        ),
        text::lowercase(named_provider(config)) != text::lowercase("openai"@)
            ==> named_base_url(config) == filled(set_by(text::lines_of(config), "base_url"@)),
{
}

} // verus!
