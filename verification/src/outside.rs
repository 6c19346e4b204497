//! The calls into outside crates, each behind a function that states what is relied on.

use base64::engine::general_purpose::URL_SAFE_NO_PAD;
use base64::Engine;
use chrono::{DateTime, Local, SecondsFormat, Utc};
use reqwest::header::HeaderValue;
use unicode_width::UnicodeWidthStr;
use uuid::Uuid;
use vstd::prelude::*;

verus! {

// ---------------------------------------------------------------------------
// base64
// ---------------------------------------------------------------------------

/// The bytes that a text stands for in the URL-safe base64 alphabet without padding,
/// or nothing where it is no such text.
pub uninterp spec fn base64_decoded(text: Seq<char>) -> Option<Seq<u8>>;

/// `base64`'s `URL_SAFE_NO_PAD.decode`. Claimed is only that the outcome depends on
/// nothing but the text.
#[verifier::external_body]
pub(crate) fn decode_base64(text: &str) -> (r: Option<Vec<u8>>)
    ensures
        match r {
            Some(bytes) => base64_decoded(text@) == Some(bytes@),
            None => base64_decoded(text@) is None,
        },
{
    URL_SAFE_NO_PAD.decode(text).ok()
}

// ---------------------------------------------------------------------------
// chrono
// ---------------------------------------------------------------------------

/// The first second that `chrono` can represent: the start of the year -262143.
pub const MIN_TIMESTAMP: i64 = -8_334_601_228_800;

/// The last second that `chrono` can represent: the end of the year 262142.
pub const MAX_TIMESTAMP: i64 = 8_210_266_876_799;

/// The instant that an RFC 3339 text stands for: its seconds since 1970, its
/// nanoseconds since 1970 where they fit in 64 bits, and its milliseconds since 1970.
pub uninterp spec fn rfc3339_instant(text: Seq<char>) -> Option<(i64, Option<i64>, i64)>;

/// `chrono::DateTime::parse_from_rfc3339`, with `timestamp`, `timestamp_nanos_opt` and
/// `timestamp_millis` of the outcome. Claimed is only that they depend on nothing but
/// the text.
#[verifier::external_body]
pub(crate) fn parse_rfc3339(text: &str) -> (r: Option<(i64, Option<i64>, i64)>)
    ensures
        r == rfc3339_instant(text@),
{
    let parsed = DateTime::parse_from_rfc3339(text).ok()?;
    Some((parsed.timestamp(), parsed.timestamp_nanos_opt(), parsed.timestamp_millis()))
}

/// The month and the day of the month, both counted from one, of the day that is so many
/// days after the first of 1970. Years are counted from March, in eras of 400.
pub open spec fn month_and_day(days: int) -> (int, int) {
    let day_of_era = (days + 719_468) % 146_097;
    let year_of_era = (day_of_era - day_of_era / 1_460 + day_of_era / 36_524 - day_of_era / 146_096)
        / 365;
    let day_of_year = day_of_era - (365 * year_of_era + year_of_era / 4 - year_of_era / 100);
    let month = (5 * day_of_year + 2) / 153;
    let day = day_of_year - (153 * month + 2) / 5 + 1;
    (if month < 10 {
        month + 3
    } else {
        month - 9
    }, day)
}

/// A number below a hundred in two digits.
pub open spec fn two_digits(n: int) -> Seq<char> {
    seq![crate::text::digit(n / 10), crate::text::digit(n % 10)]
}

/// The time as `MM-DD HH:MM` where clocks are so many seconds ahead of UTC.
pub open spec fn local_text(seconds: int, offset: int) -> Seq<char> {
    let local = seconds + offset;
    let date = month_and_day(local / 86_400);
    let time = local % 86_400;
    two_digits(date.0) + seq!['-'] + two_digits(date.1) + seq![' '] + two_digits(time / 3_600)
        + seq![':'] + two_digits(time % 3_600 / 60)
}

/// Whether the text is the time as `MM-DD HH:MM` in some time zone: none is a day or more
/// away from UTC.
pub open spec fn is_local_text(text: Seq<char>, seconds: int) -> bool {
    exists|offset: int|
        -86_400 < offset < 86_400 && text == #[trigger] local_text(seconds, offset)
}

/// `chrono::DateTime::from_timestamp`, then `format("%m-%d %H:%M")` in the time zone of
/// the machine. Claimed is on which seconds it succeeds, and that the text is the time in
/// some time zone; which one that is depends on the machine. A machine whose time zone is
/// set to a day or more away from UTC is not provided for: there `chrono` has no local time.
#[verifier::external_body]
pub(crate) fn local_stamp(seconds: i64) -> (r: Option<String>)
    ensures
        r is Some <==> MIN_TIMESTAMP <= seconds <= MAX_TIMESTAMP,
        r matches Some(stamp) ==> is_local_text(stamp@, seconds as int),
{
    let instant = DateTime::<Utc>::from_timestamp(seconds, 0)?;
    Some(instant.with_timezone(&Local).format("%m-%d %H:%M").to_string())
}

/// Whether the text ends in the shape `-MM-DDTHH:MM:SS.nnnnnnnnnZ`, behind a year of at
/// least four characters.
pub open spec fn is_utc_stamp(s: Seq<char>) -> bool {
    let t = s.skip(s.len() - 26);
    &&& s.len() >= 30
    &&& t[0] == '-' && t[3] == '-' && t[6] == 'T'
    &&& t[9] == ':' && t[12] == ':' && t[15] == '.' && t[25] == 'Z'
    &&& forall|i: int|
        0 <= i < 25 && i != 0 && i != 3 && i != 6 && i != 9 && i != 12 && i != 15 ==> '0'
            <= #[trigger] t[i] <= '9'
}

/// `chrono::Utc::now`, printed by `to_rfc3339_opts` with nanoseconds. Claimed is the shape
/// of the text, which it has at every time.
#[verifier::external_body]
pub(crate) fn utc_stamp() -> (r: String)
    ensures
        is_utc_stamp(r@),
{
    Utc::now().to_rfc3339_opts(SecondsFormat::Nanos, true)
}

// ---------------------------------------------------------------------------
// uuid
// ---------------------------------------------------------------------------

/// Whether the text has the shape of a hyphenated UUID in lower case.
pub open spec fn is_uuid(s: Seq<char>) -> bool {
    &&& s.len() == 36
    &&& forall|i: int|
        0 <= i < 36 ==> if i == 8 || i == 13 || i == 18 || i == 23 {
            #[trigger] s[i] == '-'
        } else {
            '0' <= s[i] <= '9' || 'a' <= s[i] <= 'f'
        }
}

/// `uuid::Uuid::new_v4`, printed in its hyphenated form. Claimed is the shape of the
/// text: the digits are random.
#[verifier::external_body]
pub(crate) fn random_id() -> (r: String)
    ensures
        is_uuid(r@),
{
    Uuid::new_v4().to_string()
}

// ---------------------------------------------------------------------------
// unicode-width
// ---------------------------------------------------------------------------

/// The number of columns that a text takes on a terminal, by `unicode-width`.
pub uninterp spec fn text_width(text: Seq<char>) -> usize;

/// `unicode_width::UnicodeWidthStr::width`. Claimed is only that the width depends on
/// nothing but the text.
#[verifier::external_body]
pub(crate) fn width(text: &str) -> (r: usize)
    ensures
        r == text_width(text@),
{
    UnicodeWidthStr::width(text)
}

// ---------------------------------------------------------------------------
// HTTP headers
// ---------------------------------------------------------------------------

/// Whether the character may stand in the value of a header: any but the control
/// characters of ASCII, of which only the tab may.
pub open spec fn is_header_char(c: char) -> bool {
    c == '\t' || (' ' <= c && c != '\u{7f}')
}

/// Whether the text can be the value of a header.
pub open spec fn is_header_text(s: Seq<char>) -> bool {
    forall|i: int| 0 <= i < s.len() ==> is_header_char(#[trigger] s[i])
}

/// `reqwest::header::HeaderValue::from_str`: whether it takes the text. Claimed is that
/// it refuses the control characters of ASCII, but for the tab, and nothing else: the
/// bytes of every other character are 32 or more, and not 127.
#[verifier::external_body]
pub(crate) fn header_accepts(text: &str) -> (r: bool)
    ensures
        r == is_header_text(text@),
{
    HeaderValue::from_str(text).is_ok()
}

// ---------------------------------------------------------------------------
// toml
// ---------------------------------------------------------------------------

#[verifier::external_type_specification]
#[verifier::external_body]
pub struct ExTomlValue(toml::Value);

/// A setting of a configuration file.
pub enum Setting {
    Text(String),
    Flag(bool),
    Table(Vec<(String, Setting)>),
}

/// What a setting holds.
pub enum SettingModel {
    Text(Seq<char>),
    Flag(bool),
    Table(Seq<(Seq<char>, SettingModel)>),
}

/// What a setting holds.
pub open spec fn setting_model(setting: Setting) -> SettingModel
    decreases setting,
{
    match setting {
        Setting::Text(s) => SettingModel::Text(s@),
        Setting::Flag(b) => SettingModel::Flag(b),
        Setting::Table(fields) => SettingModel::Table(
            Seq::new(
                fields@.len(),
                |i: int|
                    if 0 <= i < fields@.len() {
                        (fields@[i].0@, setting_model(fields@[i].1))
                    } else {
                        (Seq::empty(), SettingModel::Flag(false))
                    },
            ),
        ),
    }
}

impl View for Setting {
    type V = SettingModel;

    open spec fn view(&self) -> SettingModel {
        setting_model(*self)
    }
}

/// What a value of `toml` holds.
pub uninterp spec fn toml_model(value: toml::Value) -> SettingModel;

/// The text that `toml::to_string_pretty` prints for a table with these contents.
pub uninterp spec fn pretty_toml(model: SettingModel) -> Seq<char>;

/// Whether a key is written without quotation marks.
pub open spec fn is_bare_key(key: Seq<char>) -> bool {
    &&& key.len() > 0
    &&& forall|i: int|
        0 <= i < key.len() ==> {
            let c = #[trigger] key[i];
            'a' <= c <= 'z' || 'A' <= c <= 'Z' || '0' <= c <= '9' || c == '-' || c == '_'
        }
}

/// Whether a text can stand between quotation marks as it is.
pub open spec fn is_quotable(s: Seq<char>) -> bool {
    forall|i: int|
        0 <= i < s.len() ==> {
            let c = #[trigger] s[i];
            c != '"' && c != '\\' && c as u32 >= 0x20 && c as u32 != 0x7f
        }
}

/// How a setting that is no table is written.
pub open spec fn written_value(value: SettingModel) -> Seq<char> {
    match value {
        SettingModel::Text(s) => "\""@ + s + "\""@,
        SettingModel::Flag(true) => "true"@,
        _ => "false"@,
    }
}

/// Whether the key is set to the value, in the table or in one within it.
pub open spec fn has_setting(model: SettingModel, key: Seq<char>, value: SettingModel) -> bool
    decreases model,
{
    match model {
        SettingModel::Table(fields) => exists|i: int|
            0 <= i < fields.len() && (#[trigger] fields[i] == (key, value) || has_setting(
                fields[i].1,
                key,
                value,
            )),
        _ => false,
    }
}

/// Whether every text among the settings can stand between quotation marks as it is.
pub open spec fn texts_are_quotable(model: SettingModel) -> bool {
    forall|key: Seq<char>, s: Seq<char>|
        #[trigger] has_setting(model, key, SettingModel::Text(s)) ==> is_quotable(s)
}

/// Whether the character stands in the text from there on, as often as the printer of texts
/// cannot count.
pub open spec fn is_long_run(s: Seq<char>, c: char, at: int) -> bool {
    &&& 0 <= at && at + 256 <= s.len()
    &&& forall|i: int| at <= i < at + 256 ==> #[trigger] s[i] == c
}

/// Whether a quotation mark of either kind stands in the text so often in a row that the
/// printer of texts cannot count it.
pub open spec fn has_long_run(s: Seq<char>) -> bool {
    ||| exists|at: int| is_long_run(s, '"', at)
    ||| exists|at: int| is_long_run(s, '\'', at)
}

/// Whether the printer of texts can count the quotation marks of every text among the
/// settings.
pub open spec fn runs_are_short(model: SettingModel) -> bool {
    forall|key: Seq<char>, s: Seq<char>|
        #[trigger] has_setting(model, key, SettingModel::Text(s)) ==> !has_long_run(s)
}

/// Whether no table has two settings of one name.
pub open spec fn keys_are_distinct(model: SettingModel) -> bool
    decreases model,
{
    match model {
        SettingModel::Table(fields) => {
            &&& forall|i: int, j: int|
                0 <= i < j < fields.len() ==> (#[trigger] fields[i]).0 != (#[trigger] fields[j]).0
            &&& forall|i: int|
                0 <= i < fields.len() ==> keys_are_distinct((#[trigger] fields[i]).1)
        },
        _ => true,
    }
}

/// Whether each setting with a bare key stands in the text in a line of its own, and no
/// line looks like that of another.
pub open spec fn lists_settings(text: Seq<char>, model: SettingModel) -> bool {
    let lines = crate::text::lines_of(text);
    &&& forall|key: Seq<char>, value: SettingModel| #[trigger]
        has_setting(model, key, value) && is_bare_key(key) && !(value is Table) ==> lines.contains(
            key + " = "@ + written_value(value),
        )
    &&& forall|i: int, key: Seq<char>|
        #![trigger lines[i], is_bare_key(key)]
        0 <= i < lines.len() && is_bare_key(key) && (key + " = "@).is_prefix_of(
            crate::text::trimmed(lines[i]),
        ) ==> exists|value: SettingModel| #[trigger]
            has_setting(model, key, value) && !(value is Table) && lines[i] == key + " = "@
                + written_value(value)
}

/// Builds the `toml::Value` of a setting, variant by variant. Claimed is that the value
/// prints as what the setting holds does, and that it holds the same where no table has two
/// settings of one name: a table keeps the order of its settings.
#[verifier::external_body]
pub(crate) fn to_toml(setting: &Setting) -> (r: toml::Value)
    ensures
        toml_model(r) is Table <==> setting@ is Table,
        pretty_toml(toml_model(r)) == pretty_toml(setting@),
        keys_are_distinct(setting@) ==> toml_model(r) == setting@,
{
    match setting {
        Setting::Text(s) => toml::Value::String(s.clone()),
        Setting::Flag(b) => toml::Value::Boolean(*b),
        Setting::Table(t) => toml::Value::Table(t.iter().map(|f| (f.0.clone(), to_toml(&f.1))).collect()),
    }
}

/// `toml::to_string_pretty`. Claimed is that a table of texts, flags and tables is
/// printed, and that the text depends on nothing but what the table holds: the errors
/// of the serializer are for other types, for keys that are no text and for a document
/// that is no table. Where every text can stand between quotation marks as it is, each
/// text and each flag stands in a line of its own, behind its key; the other lines are
/// blank or the headings of tables. The printer counts equal quotation marks in a row, and
/// its counter holds up to 255 of them.
#[verifier::external_body]
pub(crate) fn print_toml(value: &toml::Value) -> (r: String)
    requires
        toml_model(*value) is Table,
        runs_are_short(toml_model(*value)),
    ensures
        r@ == pretty_toml(toml_model(*value)),
        texts_are_quotable(toml_model(*value)) ==> lists_settings(r@, toml_model(*value)),
{
    toml::to_string_pretty(value).expect("a table can be printed")
}

} // verus!
