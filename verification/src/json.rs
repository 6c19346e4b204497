//! JSON documents as plain values, with the parsing and printing of `serde_json`.

use serde_json::Value;
use vstd::prelude::*;

use crate::text;

verus! {

// ---------------------------------------------------------------------------
// The values of serde_json
// ---------------------------------------------------------------------------

#[verifier::external_type_specification]
#[verifier::external_body]
pub struct ExValue(serde_json::Value);

#[verifier::external_type_specification]
#[verifier::external_body]
pub struct ExNumber(serde_json::Number);

/// What a JSON number is to the code that reads it.
pub struct NumberModel {
    /// The number, where it is an integer of 64 bits with sign.
    pub signed: Option<i64>,
    /// The number, where it is an integer of 64 bits without sign.
    pub unsigned: Option<u64>,
    /// The bits of the double that is nearest to it.
    pub bits: Option<u64>,
    /// That double, rounded toward zero and held to the range of 64 bits with sign.
    pub truncated: Option<i64>,
    /// The number as JSON text.
    pub text: Seq<char>,
}

/// What a JSON document holds.
pub enum JsonModel {
    Null,
    Bool(bool),
    Number(NumberModel),
    Text(Seq<char>),
    Array(Seq<JsonModel>),
    Object(Seq<(Seq<char>, JsonModel)>),
}

/// A JSON number. The fields are read off one number of `serde_json`, which it keeps.
#[derive(Debug)]
pub struct JsonNumber {
    number: serde_json::Number,
    signed: Option<i64>,
    unsigned: Option<u64>,
    bits: Option<u64>,
    truncated: Option<i64>,
    text: String,
}

impl View for JsonNumber {
    type V = NumberModel;

    closed spec fn view(&self) -> NumberModel {
        NumberModel {
            signed: self.signed,
            unsigned: self.unsigned,
            bits: self.bits,
            truncated: self.truncated,
            text: self.text@,
        }
    }
}

impl JsonNumber {
    /// The number as an integer with sign, where it is one.
    pub fn signed(&self) -> (r: Option<i64>)
        ensures
            r == self@.signed,
    {
        self.signed
    }

    /// The number as an integer without sign, where it is one.
    pub fn unsigned(&self) -> (r: Option<u64>)
        ensures
            r == self@.unsigned,
    {
        self.unsigned
    }

    /// The bits of the nearest double.
    pub fn bits(&self) -> (r: Option<u64>)
        ensures
            r == self@.bits,
    {
        self.bits
    }

    /// The nearest double, rounded toward zero.
    pub fn truncated(&self) -> (r: Option<i64>)
        ensures
            r == self@.truncated,
    {
        self.truncated
    }

    /// The number as JSON text.
    pub fn text(&self) -> (r: &str)
        ensures
            r@ == self@.text,
    {
        self.text.as_str()
    }
}

/// A JSON document.
#[derive(Debug)]
pub enum Json {
    Null,
    Bool(bool),
    Number(JsonNumber),
    Text(String),
    Array(Vec<Json>),
    Object(Vec<(String, Json)>),
}

impl View for Json {
    type V = JsonModel;

    open spec fn view(&self) -> JsonModel {
        model_of(*self)
    }
}

/// What a document holds.
pub open spec fn model_of(value: Json) -> JsonModel
    decreases value,
{
    match value {
        Json::Null => JsonModel::Null,
        Json::Bool(b) => JsonModel::Bool(b),
        Json::Number(n) => JsonModel::Number(n@),
        Json::Text(s) => JsonModel::Text(s@),
        Json::Array(items) => JsonModel::Array(
            Seq::new(
                items@.len(),
                |i: int|
                    if 0 <= i < items@.len() {
                        model_of(items@[i])
                    } else {
                        JsonModel::Null
                    },
            ),
        ),
        Json::Object(fields) => JsonModel::Object(
            Seq::new(
                fields@.len(),
                |i: int|
                    if 0 <= i < fields@.len() {
                        (fields@[i].0@, model_of(fields@[i].1))
                    } else {
                        (Seq::empty(), JsonModel::Null)
                    },
            ),
        ),
    }
}

/// What a value of `serde_json` holds: its variant, its members and its items in
/// order, and of a number what `as_i64`, `as_u64`, `as_f64` and its JSON text give.
pub uninterp spec fn value_model(value: Value) -> JsonModel;

/// What `serde_json::from_str` makes of a text, or nothing where it is no JSON.
pub uninterp spec fn parsed_text(text: Seq<char>) -> Option<JsonModel>;

/// What `serde_json::from_slice` makes of the bytes, or nothing where they are no JSON.
pub uninterp spec fn parsed_bytes(bytes: Seq<u8>) -> Option<JsonModel>;

/// The compact JSON text that `serde_json` prints for the value with these contents:
/// its objects are in the order of their keys, and of a repeated key keep the last member.
pub uninterp spec fn compact_text(model: JsonModel) -> Seq<char>;

/// The indented JSON text that `serde_json` prints for the value with these contents.
pub uninterp spec fn pretty_text(model: JsonModel) -> Seq<char>;

/// How deeply arrays and objects may be nested in a text that `serde_json` reads.
pub const MAX_NESTING: u8 = 127;

/// Whether no two members have the same name.
pub open spec fn names_are_distinct(fields: Seq<(Seq<char>, JsonModel)>) -> bool {
    forall|i: int, j: int|
        0 <= i < j < fields.len() ==> (#[trigger] fields[i]).0 != (#[trigger] fields[j]).0
}

/// Whether the document can be written and read without loss: it is nested at most that
/// deeply, its numbers are integers, and no object has two members of one name.
pub open spec fn is_plain(model: JsonModel, depth: nat) -> bool
    decreases depth,
{
    match model {
        JsonModel::Number(n) => n.signed is Some || n.unsigned is Some,
        JsonModel::Array(items) => depth > 0 && forall|i: int|
            0 <= i < items.len() ==> is_plain(#[trigger] items[i], (depth - 1) as nat),
        JsonModel::Object(fields) => depth > 0 && names_are_distinct(fields) && forall|i: int|
            0 <= i < fields.len() ==> is_plain((#[trigger] fields[i]).1, (depth - 1) as nat),
        _ => true,
    }
}

/// Whether two documents differ in nothing but the order of the members of their objects,
/// down to that depth.
pub open spec fn same_contents(left: JsonModel, right: JsonModel, depth: nat) -> bool
    decreases depth,
{
    match (left, right) {
        (JsonModel::Array(l), JsonModel::Array(r)) => depth > 0 && l.len() == r.len() && forall|
            i: int,
        |
            0 <= i < l.len() ==> same_contents(#[trigger] l[i], r[i], (depth - 1) as nat),
        (JsonModel::Object(l), JsonModel::Object(r)) => depth > 0 && l.len() == r.len() && forall|
            key: Seq<char>,
        |
            match (#[trigger] lookup(l, key), lookup(r, key)) {
                (Some(x), Some(y)) => same_contents(x, y, (depth - 1) as nat),
                (None, None) => true,
                _ => false,
            },
        _ => left == right,
    }
}

/// `serde_json::from_str::<Value>`: the value that the text stands for. Claimed is
/// only that it depends on nothing but the text; the grammar is left to the crate.
#[verifier::external_body]
fn value_from_text(text: &str) -> (r: Option<Value>)
    ensures
        match r {
            Some(value) => parsed_text(text@) == Some(value_model(value)),
            None => parsed_text(text@) is None,
        },
{
    serde_json::from_str(text).ok()
}

/// `serde_json::from_slice::<Value>`: the value that the bytes stand for. Claimed is
/// only that it depends on nothing but the bytes.
#[verifier::external_body]
fn value_from_bytes(bytes: &Vec<u8>) -> (r: Option<Value>)
    ensures
        match r {
            Some(value) => parsed_bytes(bytes@) == Some(value_model(value)),
            None => parsed_bytes(bytes@) is None,
        },
{
    serde_json::from_slice(bytes).ok()
}

/// Reads a `serde_json::Value` into a document, variant by variant, with what the
/// methods of `serde_json::Number` say of its numbers. Claimed is that the document
/// holds what the value holds.
#[verifier::external_body]
fn from_value(value: Value) -> (r: Json)
    ensures
        r@ == value_model(value),
{
    match value {
        Value::Null => Json::Null,
        Value::Bool(b) => Json::Bool(b),
        Value::Number(n) => Json::Number(JsonNumber {
            number: n.clone(), signed: n.as_i64(), unsigned: n.as_u64(),
            bits: n.as_f64().map(|x| x.to_bits()),
            truncated: n.as_f64().map(|x| x as i64), text: n.to_string(),
        }),
        Value::String(s) => Json::Text(s),
        Value::Array(a) => Json::Array(a.into_iter().map(from_value).collect()),
        Value::Object(o) => Json::Object(o.into_iter().map(|(k, v)| (k, from_value(v))).collect()),
    }
}

/// Builds the `serde_json::Value` of a document, variant by variant; a number is the
/// one that the document was read with. Claimed is that the value prints, in both forms, as
/// what the document holds does, and that of a plain document it holds the same but for the
/// order of members, which is that of their names.
#[verifier::external_body]
fn to_value(json: &Json) -> (r: Value)
    ensures
        compact_text(value_model(r)) == compact_text(json@),
        pretty_text(value_model(r)) == pretty_text(json@),
        is_plain(json@, MAX_NESTING as nat) ==> is_plain(value_model(r), MAX_NESTING as nat)
            && same_contents(value_model(r), json@, MAX_NESTING as nat),
{
    match json {
        Json::Null => Value::Null,
        Json::Bool(b) => Value::Bool(*b),
        Json::Number(n) => Value::Number(n.number.clone()),
        Json::Text(s) => Value::String(s.clone()),
        Json::Array(a) => Value::Array(a.iter().map(to_value).collect()),
        Json::Object(o) => Value::Object(o.iter().map(|f| (f.0.clone(), to_value(&f.1))).collect()),
    }
}

/// `Value::to_string`: the compact JSON text of a value. Claimed is that it depends on
/// nothing but what the value holds, and that the text of a plain value is read as that
/// value.
#[verifier::external_body]
fn value_text(value: &Value) -> (r: String)
    ensures
        r@ == compact_text(value_model(*value)),
        is_plain(value_model(*value), MAX_NESTING as nat) ==> parsed_text(r@) == Some(
            value_model(*value),
        ),
{
    value.to_string()
}

/// `serde_json::to_string_pretty`: the indented JSON text of a value; on a value, whose
/// keys are all strings, it does not fail. Claimed is that the text depends on nothing
/// but what the value holds, and that the text of a plain value is read as that value, also
/// with a line feed after it.
#[verifier::external_body]
fn value_pretty_text(value: &Value) -> (r: String)
    ensures
        r@ == pretty_text(value_model(*value)),
        is_plain(value_model(*value), MAX_NESTING as nat) ==> parsed_text(r@) == Some(
            value_model(*value),
        ) && parsed_text(r@.push('\n')) == Some(value_model(*value)),
{
    serde_json::to_string_pretty(value).expect("a value can be printed")
}

/// Whether the text is read as the document, but for the order of members.
pub open spec fn reads_as(text: Seq<char>, model: JsonModel) -> bool {
    parsed_text(text) matches Some(read) && same_contents(read, model, MAX_NESTING as nat)
}

// ---------------------------------------------------------------------------
// Reading documents
// ---------------------------------------------------------------------------

/// The first member of that name.
pub open spec fn lookup(fields: Seq<(Seq<char>, JsonModel)>, key: Seq<char>) -> Option<JsonModel>
    decreases fields.len(),
{
    if fields.len() == 0 {
        None
    } else if fields.first().0 == key {
        Some(fields.first().1)
    } else {
        lookup(fields.drop_first(), key)
    }
}

impl JsonModel {
    /// The member of that name, where this is an object that has one.
    pub open spec fn member(self, key: Seq<char>) -> Option<JsonModel> {
        match self {
            JsonModel::Object(fields) => lookup(fields, key),
            _ => None,
        }
    }

    /// The member `inner` of the member `outer`.
    pub open spec fn nested(self, outer: Seq<char>, inner: Seq<char>) -> Option<JsonModel> {
        match self.member(outer) {
            Some(value) => value.member(inner),
            None => None,
        }
    }
}

/// The text, where the value is one.
pub open spec fn text_of(value: Option<JsonModel>) -> Option<Seq<char>> {
    match value {
        Some(JsonModel::Text(s)) => Some(s),
        _ => None,
    }
}

/// The integer with sign, where the value is one.
pub open spec fn integer_of(value: Option<JsonModel>) -> Option<i64> {
    match value {
        Some(JsonModel::Number(n)) => n.signed,
        _ => None,
    }
}

/// What an optional document holds.
pub open spec fn opt_model(value: Option<&Json>) -> Option<JsonModel> {
    match value {
        Some(v) => Some(v@),
        None => None,
    }
}

impl Json {
    /// The document that the text stands for, where it is JSON.
    pub fn parse(text: &str) -> (r: Option<Json>)
        ensures
            match r {
                Some(json) => parsed_text(text@) == Some(json@),
                None => parsed_text(text@) is None,
            },
    {
        match value_from_text(text) {
            Some(value) => Some(from_value(value)),
            None => None,
        }
    }

    /// The document that the bytes stand for, where they are JSON.
    pub fn parse_bytes(bytes: &Vec<u8>) -> (r: Option<Json>)
        ensures
            match r {
                Some(json) => parsed_bytes(bytes@) == Some(json@),
                None => parsed_bytes(bytes@) is None,
            },
    {
        match value_from_bytes(bytes) {
            Some(value) => Some(from_value(value)),
            None => None,
        }
    }

    /// The document as compact JSON text. That of a plain document is read as the same.
    pub fn compact(&self) -> (r: String)
        ensures
            r@ == compact_text(self@),
            is_plain(self@, MAX_NESTING as nat) ==> reads_as(r@, self@),
    {
        value_text(&to_value(self))
    }

    /// The document as indented JSON text. That of a plain document is read as the same,
    /// also with a line feed after it.
    pub fn pretty(&self) -> (r: String)
        ensures
            r@ == pretty_text(self@),
            is_plain(self@, MAX_NESTING as nat) ==> reads_as(r@, self@) && reads_as(
                r@.push('\n'),
                self@,
            ),
    {
        value_pretty_text(&to_value(self))
    }

    /// The member of that name, where this is an object that has one.
    pub fn get(&self, key: &str) -> (r: Option<&Json>)
        ensures
            opt_model(r) == self@.member(key@),
    {
        match self {
            Json::Object(fields) => {
                let ghost model = self@->Object_0;
                let mut i: usize = 0;
                assert(model.skip(0) =~= model);
                while i < fields.len()
                    invariant
                        i <= fields@.len(),
                        *self == Json::Object(*fields),
                        model == self@->Object_0,
                        model.len() == fields@.len(),
                        forall|k: int|
                            0 <= k < fields@.len() ==> #[trigger] model[k] == (
                                fields@[k].0@,
                                fields@[k].1@,
                            ),
                        lookup(model.skip(i as int), key@) == self@.member(key@),
                    decreases fields@.len() - i,
                {
                    assert(model.skip(i as int).first() == model[i as int]);
                    if text::same_text(fields[i].0.as_str(), key) {
                        return Some(&fields[i].1);
                    }
                    assert(model.skip(i as int).drop_first() =~= model.skip(i + 1));
                    i += 1;
                }
                None
            },
            _ => None,
        }
    }

    /// The member `inner` of the member `outer`.
    pub fn get_nested(&self, outer: &str, inner: &str) -> (r: Option<&Json>)
        ensures
            opt_model(r) == self@.nested(outer@, inner@),
    {
        match self.get(outer) {
            Some(value) => value.get(inner),
            None => None,
        }
    }

    /// Whether this is an object.
    pub fn is_object(&self) -> (r: bool)
        ensures
            r == (self@ is Object),
    {
        matches!(self, Json::Object(_))
    }
}

/// The text, where the value is one.
pub fn as_text(value: Option<&Json>) -> (r: Option<&str>)
    ensures
        text::opt_str_chars(r) == text_of(opt_model(value)),
{
    match value {
        Some(Json::Text(s)) => Some(s.as_str()),
        _ => None,
    }
}

/// The integer with sign, where the value is one.
pub fn as_integer(value: Option<&Json>) -> (r: Option<i64>)
    ensures
        r == integer_of(opt_model(value)),
{
    match value {
        Some(Json::Number(n)) => n.signed(),
        _ => None,
    }
}

// ---------------------------------------------------------------------------
// Changing documents
// ---------------------------------------------------------------------------

/// The members with `key` set to `value`: in its place where there is one of that name,
/// or else at the end.
pub open spec fn with_member(
    fields: Seq<(Seq<char>, JsonModel)>,
    key: Seq<char>,
    value: JsonModel,
) -> Seq<(Seq<char>, JsonModel)>
    decreases fields.len(),
{
    if fields.len() == 0 {
        seq![(key, value)]
    } else if fields.first().0 == key {
        seq![(key, value)] + fields.drop_first()
    } else {
        seq![fields.first()] + with_member(fields.drop_first(), key, value)
    }
}

/// After a member is set, its name stands for the new value and every other name for
/// what it stood for before.
pub proof fn law_set_member(
    fields: Seq<(Seq<char>, JsonModel)>,
    key: Seq<char>,
    value: JsonModel,
    other: Seq<char>,
)
    ensures
        lookup(with_member(fields, key, value), key) == Some(value),
        other != key ==> lookup(with_member(fields, key, value), other) == lookup(fields, other),
    decreases fields.len(),
{
    let set = with_member(fields, key, value);
    if fields.len() == 0 {
        assert(set.drop_first() =~= Seq::empty());
        assert(lookup(set.drop_first(), other) is None);
    } else if fields.first().0 == key {
        assert(set.drop_first() =~= fields.drop_first());
    } else {
        law_set_member(fields.drop_first(), key, value, other);
        assert(set.drop_first() =~= with_member(fields.drop_first(), key, value));
    }
}

pub proof fn lemma_with_member(fields: Seq<(Seq<char>, JsonModel)>, key: Seq<char>, value: JsonModel, i: int)
    requires
        0 <= i <= fields.len(),
        forall|k: int| 0 <= k < i ==> (#[trigger] fields[k]).0 != key,
        i < fields.len() ==> fields[i].0 == key,
    ensures
        i < fields.len() ==> with_member(fields, key, value) == fields.update(i, (key, value)),
        i == fields.len() ==> with_member(fields, key, value) == fields.push((key, value)),
    decreases fields.len(),
{
    if fields.len() == 0 {
        assert(with_member(fields, key, value) =~= fields.push((key, value)));
    } else if i == 0 {
        assert(with_member(fields, key, value) =~= fields.update(0, (key, value)));
    } else {
        let rest = fields.drop_first();
        assert forall|k: int| 0 <= k < i - 1 implies (#[trigger] rest[k]).0 != key by {
            assert(fields[k + 1].0 != key);
        }
        lemma_with_member(rest, key, value, i - 1);
        assert(fields[0].0 != key);
        if i < fields.len() {
            assert(with_member(fields, key, value) =~= fields.update(i, (key, value)));
        } else {
            assert(with_member(fields, key, value) =~= fields.push((key, value)));
        }
    }
}

/// A member that is found is one of the members.
pub proof fn lemma_lookup_is_member(fields: Seq<(Seq<char>, JsonModel)>, key: Seq<char>)
    ensures
        lookup(fields, key) matches Some(value) ==> exists|i: int|
            0 <= i < fields.len() && #[trigger] fields[i] == (key, value),
    decreases fields.len(),
{
    if fields.len() > 0 && fields.first().0 == key {
        assert(fields[0] == (key, fields.first().1));
    } else if fields.len() > 0 {
        lemma_lookup_is_member(fields.drop_first(), key);
        if lookup(fields, key) is Some {
            let value = lookup(fields, key)->0;
            let i = choose|i: int|
                0 <= i < fields.drop_first().len() && #[trigger] fields.drop_first()[i] == (
                    key,
                    value,
                );
            assert(fields[i + 1] == (key, value));
        }
    }
}

/// The position of the member of that name, or the number of members.
proof fn lemma_position(fields: Seq<(Seq<char>, JsonModel)>, key: Seq<char>) -> (i: int)
    ensures
        0 <= i <= fields.len(),
        forall|k: int| 0 <= k < i ==> (#[trigger] fields[k]).0 != key,
        i < fields.len() ==> fields[i].0 == key,
    decreases fields.len(),
{
    if fields.len() == 0 || fields.first().0 == key {
        0
    } else {
        let rest = fields.drop_first();
        let i = lemma_position(rest, key);
        assert forall|k: int| 0 <= k < i + 1 implies (#[trigger] fields[k]).0 != key by {
            if k > 0 {
                assert(rest[k - 1].0 != key);
            }
        }
        if i < rest.len() {
            assert(fields[i + 1] == rest[i]);
        }
        i + 1
    }
}

/// Setting a member to a plain value keeps an object plain.
pub proof fn law_set_member_keeps_plain(
    fields: Seq<(Seq<char>, JsonModel)>,
    key: Seq<char>,
    value: JsonModel,
    depth: nat,
)
    requires
        depth > 0,
        is_plain(JsonModel::Object(fields), depth),
        is_plain(value, (depth - 1) as nat),
    ensures
        is_plain(JsonModel::Object(with_member(fields, key, value)), depth),
{
    let i = lemma_position(fields, key);
    lemma_with_member(fields, key, value, i);
    let set = with_member(fields, key, value);
    assert forall|k: int| 0 <= k < set.len() implies is_plain(
        (#[trigger] set[k]).1,
        (depth - 1) as nat,
    ) by {
        if k != i {
            assert(set[k] == fields[k]);
        }
    }
    assert forall|a: int, b: int| 0 <= a < b < set.len() implies (#[trigger] set[a]).0 != (
    #[trigger] set[b]).0 by {
        if a < fields.len() {
            assert(set[a].0 == fields[a].0);
        }
        if b < fields.len() {
            assert(set[b].0 == fields[b].0);
        }
    }
}

/// Documents with the same contents have the same texts and integers under the same names.
pub proof fn law_same_contents_same_members(
    left: JsonModel,
    right: JsonModel,
    depth: nat,
    outer: Seq<char>,
    inner: Seq<char>,
)
    requires
        same_contents(left, right, depth),
    ensures
        text_of(left.member(outer)) == text_of(right.member(outer)),
        integer_of(left.member(outer)) == integer_of(right.member(outer)),
        text_of(left.nested(outer, inner)) == text_of(right.nested(outer, inner)),
        integer_of(left.nested(outer, inner)) == integer_of(right.nested(outer, inner)),
{
    match (left, right) {
        (JsonModel::Object(l), JsonModel::Object(r)) => {
            let x = lookup(l, outer);
            let y = lookup(r, outer);
            if x is Some {
                assert(same_contents(x->0, y->0, (depth - 1) as nat));
                match (x->0, y->0) {
                    (JsonModel::Object(xs), JsonModel::Object(ys)) => {
                        let a = lookup(xs, inner);
                        let b = lookup(ys, inner);
                        if a is Some {
                            assert(same_contents(a->0, b->0, (depth - 2) as nat));
                        }
                    },
                    _ => {},
                }
            }
        },
        _ => {},
    }
}

/// What the members hold.
pub open spec fn fields_model(fields: Seq<(String, Json)>) -> Seq<(Seq<char>, JsonModel)> {
    Seq::new(fields.len(), |i: int| (fields[i].0@, fields[i].1@))
}

/// An object holds what its members hold.
pub proof fn lemma_object_model(fields: Vec<(String, Json)>)
    ensures
        Json::Object(fields)@ == JsonModel::Object(fields_model(fields@)),
{
    assert(Json::Object(fields)@->Object_0 =~= fields_model(fields@));
}

/// The position of the first member of that name, or the number of members.
pub fn member_position(fields: &Vec<(String, Json)>, key: &str) -> (r: usize)
    ensures
        r <= fields@.len(),
        forall|k: int| 0 <= k < r ==> (#[trigger] fields@[k]).0@ != key@,
        r < fields@.len() ==> fields@[r as int].0@ == key@,
{
    let mut i: usize = 0;
    while i < fields.len()
        invariant
            i <= fields@.len(),
            forall|k: int| 0 <= k < i ==> (#[trigger] fields@[k]).0@ != key@,
        decreases fields@.len() - i,
    {
        if text::same_text(fields[i].0.as_str(), key) {
            return i;
        }
        i += 1;
    }
    i
}

/// Sets the member of that name.
pub fn set_member(fields: &mut Vec<(String, Json)>, key: &str, value: Json)
    ensures
        fields_model(final(fields)@) == with_member(fields_model(old(fields)@), key@, value@),
{
    let i = member_position(fields, key);
    let ghost before = fields_model(fields@);
    proof {
        assert forall|k: int| 0 <= k < i implies (#[trigger] before[k]).0 != key@ by {
            assert(fields@[k].0@ != key@);
        }
        lemma_with_member(before, key@, value@, i as int);
    }
    let ghost model = value@;
    if i < fields.len() {
        fields.set(i, (key.to_owned(), value));
        assert(fields_model(fields@) =~= before.update(i as int, (key@, model)));
    } else {
        fields.push((key.to_owned(), value));
        assert(fields_model(fields@) =~= before.push((key@, model)));
    }
}

/// The member of that name, found from its position.
pub proof fn lemma_lookup_at(fields: Seq<(Seq<char>, JsonModel)>, key: Seq<char>, i: int)
    requires
        0 <= i <= fields.len(),
        forall|k: int| 0 <= k < i ==> (#[trigger] fields[k]).0 != key,
        i < fields.len() ==> fields[i].0 == key,
    ensures
        i < fields.len() ==> lookup(fields, key) == Some(fields[i].1),
        i == fields.len() ==> lookup(fields, key) is None,
    decreases fields.len(),
{
    if fields.len() > 0 && i > 0 {
        assert(fields[0].0 != key);
        let rest = fields.drop_first();
        assert forall|k: int| 0 <= k < i - 1 implies (#[trigger] rest[k]).0 != key by {
            assert(fields[k + 1].0 != key);
        }
        lemma_lookup_at(rest, key, i - 1);
    }
}

/// Of an object with two members of different names, each is found under its own name, and
/// nothing under any other.
pub proof fn law_members_are_found(
    first: Seq<char>,
    left: JsonModel,
    second: Seq<char>,
    right: JsonModel,
    other: Seq<char>,
)
    requires
        first != second,
        other != first,
        other != second,
    ensures
        ({
            let object = JsonModel::Object(seq![(first, left), (second, right)]);
            &&& object.member(first) == Some(left)
            &&& object.member(second) == Some(right)
            &&& object.member(other) is None
            &&& object.nested(second, other) == right.member(other)
            &&& object.nested(other, first) is None
        }),
{
    reveal_with_fuel(lookup, 3);
}

} // verus!
