//! Text primitives: every function here works on the sequence of characters of a
//! string, and its contract is stated over that sequence.

use vstd::prelude::*;
use vstd::string::*;

verus! {

/// `String::push` appends one character to the end of the string.
pub assume_specification[ String::push ](s: &mut String, c: char)
    ensures
        final(s)@ == old(s)@.push(c),
;

// ---------------------------------------------------------------------------
// Characters
// ---------------------------------------------------------------------------

/// The characters with the Unicode property White_Space.
pub open spec fn is_white_space(c: char) -> bool {
    let n = c as u32;
    ||| 0x9 <= n <= 0xd
    ||| n == 0x20
    ||| n == 0x85
    ||| n == 0xa0
    ||| n == 0x1680
    ||| 0x2000 <= n <= 0x200a
    ||| n == 0x2028
    ||| n == 0x2029
    ||| n == 0x202f
    ||| n == 0x205f
    ||| n == 0x3000
}

/// A set of characters that can be trimmed from the ends of a text.
#[derive(Clone, Copy)]
pub enum CharClass {
    WhiteSpace,
    Only(char),
}

impl CharClass {
    pub open spec fn has(self, c: char) -> bool {
        match self {
            CharClass::WhiteSpace => is_white_space(c),
            CharClass::Only(d) => c == d,
        }
    }

    /// Whether the character belongs to the class.
    pub fn test(&self, c: char) -> (r: bool)
        ensures
            r == self.has(c),
    {
        match self {
            CharClass::WhiteSpace => {
                let n: u32 = c as u32;
                (0x9 <= n && n <= 0xd) || n == 0x20 || n == 0x85 || n == 0xa0 || n == 0x1680 || (
                0x2000 <= n && n <= 0x200a) || n == 0x2028 || n == 0x2029 || n == 0x202f || n
                    == 0x205f || n == 0x3000
            },
            CharClass::Only(d) => c == *d,
        }
    }
}

/// The lower-case form of an ASCII letter; any other character is itself.
pub open spec fn ascii_lower(c: char) -> char {
    if 'A' <= c <= 'Z' {
        ((c as u8) + 32) as char
    } else {
        c
    }
}

/// The upper-case form of an ASCII letter; any other character is itself.
pub open spec fn ascii_upper(c: char) -> char {
    if 'a' <= c <= 'z' {
        ((c as u8) - 32) as char
    } else {
        c
    }
}

pub fn lower_char(c: char) -> (r: char)
    ensures
        r == ascii_lower(c),
{
    if 'A' <= c && c <= 'Z' {
        ((c as u8) + 32) as char
    } else {
        c
    }
}

pub fn upper_char(c: char) -> (r: char)
    ensures
        r == ascii_upper(c),
{
    if 'a' <= c && c <= 'z' {
        ((c as u8) - 32) as char
    } else {
        c
    }
}

// ---------------------------------------------------------------------------
// Strings and their characters
// ---------------------------------------------------------------------------

/// The characters of a string, in order.
pub fn chars_of(s: &str) -> (out: Vec<char>)
    ensures
        out@ == s@,
{
    let mut out: Vec<char> = Vec::new();
    for c in it: s.chars()
        invariant
            out@ == it.seq().take(it.index() as int),
            it.seq() == s@,
    {
        out.push(c);
        assert(it.seq().take(it.index() as int + 1) =~= it.seq().take(it.index() as int).push(c));
    }
    out
}

/// The string made of the characters `from..to`.
pub fn text_of(chars: &Vec<char>, from: usize, to: usize) -> (out: String)
    requires
        from <= to <= chars@.len(),
    ensures
        out@ == chars@.subrange(from as int, to as int),
{
    let mut out = String::new();
    let mut i: usize = from;
    while i < to
        invariant
            from <= i <= to <= chars@.len(),
            out@ == chars@.subrange(from as int, i as int),
        decreases to - i,
    {
        out.push(chars[i]);
        assert(chars@.subrange(from as int, i + 1) =~= chars@.subrange(from as int, i as int).push(
            chars@[i as int],
        ));
        i += 1;
    }
    out
}

/// Whether two strings hold the same characters.
pub fn same_text(a: &str, b: &str) -> (r: bool)
    ensures
        r == (a@ == b@),
{
    let left = chars_of(a);
    let right = chars_of(b);
    same_chars(&left, &right)
}

pub fn same_chars(left: &Vec<char>, right: &Vec<char>) -> (r: bool)
    ensures
        r == (left@ == right@),
{
    if left.len() != right.len() {
        return false;
    }
    let mut i: usize = 0;
    while i < left.len()
        invariant
            i <= left@.len(),
            left@.len() == right@.len(),
            forall|k: int| 0 <= k < i ==> left@[k] == right@[k],
        decreases left@.len() - i,
    {
        if left[i] != right[i] {
            return false;
        }
        i += 1;
    }
    assert(left@ =~= right@);
    true
}

/// Whether an optional string is present and holds exactly this text.
pub fn is_text(value: Option<&str>, text: &str) -> (r: bool)
    ensures
        r == (value matches Some(v) && v@ == text@),
{
    match value {
        Some(v) => same_text(v, text),
        None => false,
    }
}

/// The characters of an optional string.
pub open spec fn opt_chars(value: Option<String>) -> Option<Seq<char>> {
    match value {
        Some(text) => Some(text@),
        None => None,
    }
}

/// The characters of an optional string slice.
pub open spec fn opt_str_chars(value: Option<&str>) -> Option<Seq<char>> {
    match value {
        Some(text) => Some(text@),
        None => None,
    }
}

/// An optional string, borrowed.
pub fn as_deref(value: &Option<String>) -> (r: Option<&str>)
    ensures
        opt_str_chars(r) == opt_chars(*value),
{
    match value {
        Some(text) => Some(text.as_str()),
        None => None,
    }
}

/// The strings one after the other.
pub fn concat2(a: &str, b: &str) -> (out: String)
    ensures
        out@ == a@ + b@,
{
    let mut out = a.to_owned();
    out.append(b);
    out
}

pub fn concat3(a: &str, b: &str, c: &str) -> (out: String)
    ensures
        out@ == a@ + b@ + c@,
{
    let mut out = a.to_owned();
    out.append(b);
    out.append(c);
    out
}

// ---------------------------------------------------------------------------
// Trimming
// ---------------------------------------------------------------------------

/// `s` without its longest prefix of characters of the class.
pub open spec fn trim_start_of(s: Seq<char>, class: CharClass) -> Seq<char>
    decreases s.len(),
{
    if s.len() > 0 && class.has(s.first()) {
        trim_start_of(s.drop_first(), class)
    } else {
        s
    }
}

/// `s` without its longest suffix of characters of the class.
pub open spec fn trim_end_of(s: Seq<char>, class: CharClass) -> Seq<char>
    decreases s.len(),
{
    if s.len() > 0 && class.has(s.last()) {
        trim_end_of(s.drop_last(), class)
    } else {
        s
    }
}

/// `s` without the characters of the class at either end.
pub open spec fn trim_of(s: Seq<char>, class: CharClass) -> Seq<char> {
    trim_end_of(trim_start_of(s, class), class)
}

/// `s` without the white space at either end.
pub open spec fn trimmed(s: Seq<char>) -> Seq<char> {
    trim_of(s, CharClass::WhiteSpace)
}

/// A text that is trimmed begins and ends with a character outside the class,
/// unless it is empty.
pub proof fn lemma_trim_ends(s: Seq<char>, class: CharClass)
    ensures
        trim_of(s, class).len() > 0 ==> !class.has(trim_of(s, class).first()) && !class.has(
            trim_of(s, class).last(),
        ),
        trim_of(s, class).len() <= s.len(),
{
    lemma_trim_start(s, class);
    lemma_trim_end(trim_start_of(s, class), class);
}

proof fn lemma_trim_start(s: Seq<char>, class: CharClass)
    ensures
        trim_start_of(s, class).len() > 0 ==> !class.has(trim_start_of(s, class).first()),
        trim_start_of(s, class).len() <= s.len(),
    decreases s.len(),
{
    if s.len() > 0 && class.has(s.first()) {
        lemma_trim_start(s.drop_first(), class);
    }
}

proof fn lemma_trim_end(s: Seq<char>, class: CharClass)
    ensures
        trim_end_of(s, class).len() > 0 ==> !class.has(trim_end_of(s, class).last())
            && trim_end_of(s, class).first() == s.first(),
        trim_end_of(s, class).len() <= s.len(),
    decreases s.len(),
{
    if s.len() > 0 && class.has(s.last()) {
        lemma_trim_end(s.drop_last(), class);
    }
}

/// A text that does not begin with the class keeps its beginning.
pub proof fn lemma_trim_keeps_start(s: Seq<char>, class: CharClass)
    requires
        s.len() > 0,
        !class.has(s.first()),
    ensures
        trim_of(s, class).len() > 0,
        trim_of(s, class).first() == s.first(),
    decreases s.len(),
{
    if class.has(s.last()) {
        lemma_trim_keeps_start(s.drop_last(), class);
    }
}

/// Trimming a trimmed text changes nothing.
pub proof fn lemma_trim_idempotent(s: Seq<char>, class: CharClass)
    ensures
        trim_of(trim_of(s, class), class) == trim_of(s, class),
{
    lemma_trim_ends(s, class);
}

/// Whether the class has every character of the text.
pub open spec fn all_of(s: Seq<char>, class: CharClass) -> bool {
    forall|i: int| 0 <= i < s.len() ==> class.has(#[trigger] s[i])
}

/// What surrounds a trimmed text is trimmed away.
pub proof fn lemma_trim_padded(
    before: Seq<char>,
    middle: Seq<char>,
    after: Seq<char>,
    class: CharClass,
)
    requires
        all_of(before, class),
        all_of(after, class),
        middle.len() > 0,
        !class.has(middle.first()),
        !class.has(middle.last()),
    ensures
        trim_of(before + middle + after, class) == middle,
{
    lemma_trim_start_padded(before, middle + after, class);
    assert(before + middle + after =~= before + (middle + after));
    lemma_trim_end_padded(middle, after, class);
}

proof fn lemma_trim_start_padded(before: Seq<char>, rest: Seq<char>, class: CharClass)
    requires
        all_of(before, class),
        rest.len() > 0,
        !class.has(rest.first()),
    ensures
        trim_start_of(before + rest, class) == rest,
    decreases before.len(),
{
    if before.len() == 0 {
        assert(before + rest =~= rest);
    } else {
        assert((before + rest).first() == before[0]);
        assert((before + rest).drop_first() =~= before.drop_first() + rest);
        lemma_trim_start_padded(before.drop_first(), rest, class);
    }
}

proof fn lemma_trim_end_padded(rest: Seq<char>, after: Seq<char>, class: CharClass)
    requires
        all_of(after, class),
        rest.len() > 0,
        !class.has(rest.last()),
    ensures
        trim_end_of(rest + after, class) == rest,
    decreases after.len(),
{
    if after.len() == 0 {
        assert(rest + after =~= rest);
    } else {
        assert((rest + after).last() == after[after.len() - 1]);
        assert((rest + after).drop_last() =~= rest + after.drop_last());
        lemma_trim_end_padded(rest, after.drop_last(), class);
    }
}

/// The bounds of the trimmed text inside `chars`.
pub fn trim_bounds(chars: &Vec<char>, class: CharClass) -> (r: (usize, usize))
    ensures
        r.0 <= r.1 <= chars@.len(),
        chars@.subrange(r.0 as int, r.1 as int) == trim_of(chars@, class),
{
    let mut i: usize = 0;
    assert(chars@.skip(0) =~= chars@);
    while i < chars.len() && class.test(chars[i])
        invariant
            i <= chars@.len(),
            trim_start_of(chars@.skip(i as int), class) == trim_start_of(chars@, class),
        decreases chars@.len() - i,
    {
        assert(chars@.skip(i as int).drop_first() =~= chars@.skip(i + 1));
        i += 1;
    }
    let mut j: usize = chars.len();
    assert(chars@.subrange(i as int, j as int) =~= chars@.skip(i as int));
    while j > i && class.test(chars[j - 1])
        invariant
            i <= j <= chars@.len(),
            trim_end_of(chars@.subrange(i as int, j as int), class) == trim_of(chars@, class),
        decreases j,
    {
        assert(chars@.subrange(i as int, j as int).drop_last() =~= chars@.subrange(
            i as int,
            j - 1,
        ));
        j -= 1;
    }
    (i, j)
}

/// The text without the characters of the class at either end.
pub fn trim_class(s: &str, class: CharClass) -> (r: &str)
    ensures
        r@ == trim_of(s@, class),
{
    let chars = chars_of(s);
    let (from, to) = trim_bounds(&chars, class);
    s.substring_char(from, to)
}

/// The text without the white space at either end.
pub fn trim(s: &str) -> (r: &str)
    ensures
        r@ == trimmed(s@),
{
    trim_class(s, CharClass::WhiteSpace)
}

/// The text without the given character at its end, however often it stands there.
pub fn trim_end_char(s: &str, c: char) -> (r: &str)
    ensures
        r@ == trim_end_of(s@, CharClass::Only(c)),
{
    let chars = chars_of(s);
    let mut j: usize = chars.len();
    assert(chars@.take(j as int) =~= chars@);
    while j > 0 && chars[j - 1] == c
        invariant
            j <= chars@.len(),
            chars@ == s@,
            trim_end_of(chars@.take(j as int), CharClass::Only(c)) == trim_end_of(
                s@,
                CharClass::Only(c),
            ),
        decreases j,
    {
        assert(chars@.take(j as int).drop_last() =~= chars@.take(j - 1));
        j -= 1;
    }
    assert(chars@.take(j as int) =~= s@.subrange(0, j as int));
    s.substring_char(0, j)
}

/// The trimmed text, where it is not blank.
pub open spec fn non_blank(value: Option<Seq<char>>) -> Option<Seq<char>> {
    match value {
        Some(text) if trimmed(text).len() > 0 => Some(trimmed(text)),
        _ => None,
    }
}

/// The trimmed text, where there is one and it is not blank.
pub fn trim_non_blank(value: Option<&str>) -> (r: Option<&str>)
    ensures
        opt_str_chars(r) == non_blank(opt_str_chars(value)),
{
    match value {
        Some(text) => {
            let text = trim(text);
            if text.is_empty() {
                None
            } else {
                Some(text)
            }
        },
        None => None,
    }
}

// ---------------------------------------------------------------------------
// Case
// ---------------------------------------------------------------------------

/// Every ASCII letter in lower case.
pub open spec fn lowercase(s: Seq<char>) -> Seq<char> {
    Seq::new(s.len(), |i: int| ascii_lower(s[i]))
}

/// Every ASCII letter in lower case.
pub fn to_lowercase(s: &str) -> (out: String)
    ensures
        out@ == lowercase(s@),
{
    let chars = chars_of(s);
    let mut out = String::new();
    let mut i: usize = 0;
    while i < chars.len()
        invariant
            i <= chars@.len(),
            chars@ == s@,
            out@ == lowercase(s@).take(i as int),
        decreases chars@.len() - i,
    {
        out.push(lower_char(chars[i]));
        assert(lowercase(s@).take(i + 1) =~= lowercase(s@).take(i as int).push(
            ascii_lower(s@[i as int]),
        ));
        i += 1;
    }
    assert(lowercase(s@).take(i as int) =~= lowercase(s@));
    out
}

/// Whether two texts are equal once ASCII letters are compared without case.
pub open spec fn same_ignoring_case(a: Seq<char>, b: Seq<char>) -> bool {
    lowercase(a) == lowercase(b)
}

/// Whether two texts are equal once ASCII letters are compared without case.
pub fn eq_ignore_case(a: &str, b: &str) -> (r: bool)
    ensures
        r == same_ignoring_case(a@, b@),
{
    let a = to_lowercase(a);
    let b = to_lowercase(b);
    same_text(a.as_str(), b.as_str())
}

// ---------------------------------------------------------------------------
// Searching and splitting
// ---------------------------------------------------------------------------

/// Whether `needle` stands in `s` at position `i`.
pub open spec fn stands_at(s: Seq<char>, needle: Seq<char>, i: int) -> bool {
    0 <= i && i + needle.len() <= s.len() && s.subrange(i, i + needle.len()) == needle
}

/// Whether `needle` stands somewhere in `s`.
pub open spec fn contains_text(s: Seq<char>, needle: Seq<char>) -> bool {
    exists|i: int| stands_at(s, needle, i)
}

fn matches_at(hay: &Vec<char>, needle: &Vec<char>, at: usize) -> (r: bool)
    requires
        at + needle@.len() <= hay@.len(),
    ensures
        r == stands_at(hay@, needle@, at as int),
{
    let total: usize = hay.len();
    let mut j: usize = 0;
    while j < needle.len()
        invariant
            j <= needle@.len(),
            at + needle@.len() <= hay@.len() == total,
            forall|k: int| 0 <= k < j ==> hay@[at + k] == needle@[k],
        decreases needle@.len() - j,
    {
        if hay[at + j] != needle[j] {
            assert(hay@.subrange(at as int, at + needle@.len())[j as int] != needle@[j as int]);
            return false;
        }
        j += 1;
    }
    assert(hay@.subrange(at as int, at + needle@.len()) =~= needle@);
    true
}

/// Whether the text holds `needle` somewhere.
pub fn contains(s: &str, needle: &str) -> (r: bool)
    ensures
        r == contains_text(s@, needle@),
{
    let hay = chars_of(s);
    let pat = chars_of(needle);
    if pat.len() > hay.len() {
        return false;
    }
    let last: usize = hay.len() - pat.len();
    let mut i: usize = 0;
    while i <= last
        invariant
            hay@ == s@,
            pat@ == needle@,
            last + pat@.len() == hay@.len(),
            i <= last + 1,
            forall|k: int| 0 <= k < i ==> !stands_at(s@, needle@, k),
        decreases last + 1 - i,
    {
        if matches_at(&hay, &pat, i) {
            return true;
        }
        if i == last {
            assert(forall|k: int| stands_at(s@, needle@, k) ==> 0 <= k <= last);
            return false;
        }
        i += 1;
    }
    false
}

/// Whether the text begins with `prefix`.
pub fn starts_with(s: &str, prefix: &str) -> (r: bool)
    ensures
        r == prefix@.is_prefix_of(s@),
{
    let hay = chars_of(s);
    let pat = chars_of(prefix);
    pat.len() <= hay.len() && matches_at(&hay, &pat, 0)
}

/// Whether the text ends with `suffix`.
pub fn ends_with(s: &str, suffix: &str) -> (r: bool)
    ensures
        r == suffix@.is_suffix_of(s@),
{
    let hay = chars_of(s);
    let pat = chars_of(suffix);
    pat.len() <= hay.len() && matches_at(&hay, &pat, hay.len() - pat.len())
}

/// What follows `prefix`, where the text begins with it.
pub open spec fn without_prefix(s: Seq<char>, prefix: Seq<char>) -> Option<Seq<char>> {
    if prefix.is_prefix_of(s) {
        Some(s.skip(prefix.len() as int))
    } else {
        None
    }
}

/// What follows `prefix`, where the text begins with it.
pub fn strip_prefix<'a>(s: &'a str, prefix: &str) -> (r: Option<&'a str>)
    ensures
        opt_str_chars(r) == without_prefix(s@, prefix@),
{
    let hay = chars_of(s);
    let pat = chars_of(prefix);
    if pat.len() <= hay.len() && matches_at(&hay, &pat, 0) {
        assert(s@.skip(prefix@.len() as int) =~= s@.subrange(prefix@.len() as int, s@.len() as int));
        Some(s.substring_char(pat.len(), hay.len()))
    } else {
        None
    }
}

/// What precedes `suffix`, where the text ends with it.
pub open spec fn without_suffix(s: Seq<char>, suffix: Seq<char>) -> Option<Seq<char>> {
    if suffix.is_suffix_of(s) {
        Some(s.take(s.len() - suffix.len()))
    } else {
        None
    }
}

/// What precedes `suffix`, where the text ends with it.
pub fn strip_suffix<'a>(s: &'a str, suffix: &str) -> (r: Option<&'a str>)
    ensures
        opt_str_chars(r) == without_suffix(s@, suffix@),
{
    let hay = chars_of(s);
    let pat = chars_of(suffix);
    if pat.len() <= hay.len() && matches_at(&hay, &pat, hay.len() - pat.len()) {
        assert(s@.take(s@.len() - suffix@.len()) =~= s@.subrange(0, s@.len() - suffix@.len()));
        Some(s.substring_char(0, hay.len() - pat.len()))
    } else {
        None
    }
}

/// The position of the first `c`, or the length of the text if there is none.
pub open spec fn first_position(s: Seq<char>, c: char) -> int
    decreases s.len(),
{
    if s.len() == 0 || s.first() == c {
        0
    } else {
        1 + first_position(s.drop_first(), c)
    }
}

/// What first_position says: nothing before it is `c`, and it is `c` unless it is the end.
pub proof fn lemma_first_position(s: Seq<char>, c: char)
    ensures
        0 <= first_position(s, c) <= s.len(),
        forall|k: int| 0 <= k < first_position(s, c) ==> s[k] != c,
        first_position(s, c) < s.len() ==> s[first_position(s, c)] == c,
    decreases s.len(),
{
    if s.len() > 0 && s.first() != c {
        lemma_first_position(s.drop_first(), c);
        assert forall|k: int| 0 <= k < first_position(s, c) implies s[k] != c by {
            if k > 0 {
                assert(s.drop_first()[k - 1] == s[k]);
            }
        }
    }
}

/// A position with nothing of `c` before it, and `c` or the end at it, is the first one.
pub proof fn lemma_first_position_unique(s: Seq<char>, c: char, p: int)
    requires
        0 <= p <= s.len(),
        forall|k: int| 0 <= k < p ==> s[k] != c,
        p < s.len() ==> s[p] == c,
    ensures
        first_position(s, c) == p,
{
    lemma_first_position(s, c);
    let q = first_position(s, c);
    if q < p {
        assert(s[q] == c);
    }
    if p < q {
        assert(s[p] == c);
    }
}

/// The position of the first `c` at or after `from`, or the number of characters.
pub fn find_from(chars: &Vec<char>, from: usize, c: char) -> (r: usize)
    requires
        from <= chars@.len(),
    ensures
        from <= r <= chars@.len(),
        r - from == first_position(chars@.skip(from as int), c),
{
    let mut i: usize = from;
    while i < chars.len() && chars[i] != c
        invariant
            from <= i <= chars@.len(),
            forall|k: int| from <= k < i ==> chars@[k] != c,
        decreases chars@.len() - i,
    {
        i += 1;
    }
    proof {
        lemma_first_position_unique(chars@.skip(from as int), c, i - from);
    }
    i
}

/// The text before and after the first `c`, where there is one.
pub open spec fn split_at_first(s: Seq<char>, c: char) -> Option<(Seq<char>, Seq<char>)> {
    let p = first_position(s, c);
    if p < s.len() {
        Some((s.take(p), s.skip(p + 1)))
    } else {
        None
    }
}

/// The text before and after the first `c`, where there is one.
pub fn split_once<'a>(s: &'a str, c: char) -> (r: Option<(&'a str, &'a str)>)
    ensures
        match split_at_first(s@, c) {
            Some(pair) => r matches Some(q) && q.0@ == pair.0 && q.1@ == pair.1,
            None => r is None,
        },
{
    let chars = chars_of(s);
    let p = find_from(&chars, 0, c);
    assert(chars@.skip(0) =~= chars@);
    if p < chars.len() {
        assert(s@.take(p as int) =~= s@.subrange(0, p as int));
        assert(s@.skip(p + 1) =~= s@.subrange(p + 1, s@.len() as int));
        Some((s.substring_char(0, p), s.substring_char(p + 1, chars.len())))
    } else {
        None
    }
}

/// The text before the first `c`, or all of it.
pub open spec fn before_first(s: Seq<char>, c: char) -> Seq<char> {
    s.take(first_position(s, c))
}

/// The text before the first `c`, or all of it.
pub fn head_before<'a>(s: &'a str, c: char) -> (r: &'a str)
    ensures
        r@ == before_first(s@, c),
{
    let chars = chars_of(s);
    let p = find_from(&chars, 0, c);
    assert(chars@.skip(0) =~= chars@);
    assert(s@.take(p as int) =~= s@.subrange(0, p as int));
    s.substring_char(0, p)
}

/// The text before the last `c`, where there is one.
pub open spec fn before_last(s: Seq<char>, c: char) -> Option<Seq<char>>
    decreases s.len(),
{
    if s.len() == 0 {
        None
    } else if s.last() == c {
        Some(s.drop_last())
    } else {
        before_last(s.drop_last(), c)
    }
}

/// The text before the last `c`, where there is one.
pub fn head_before_last<'a>(s: &'a str, c: char) -> (r: Option<&'a str>)
    ensures
        opt_str_chars(r) == before_last(s@, c),
{
    let chars = chars_of(s);
    let mut j: usize = chars.len();
    assert(s@.take(j as int) =~= s@);
    while j > 0
        invariant
            j <= chars@.len(),
            chars@ == s@,
            before_last(s@.take(j as int), c) == before_last(s@, c),
        decreases j,
    {
        assert(s@.take(j as int).drop_last() =~= s@.take(j - 1));
        if chars[j - 1] == c {
            assert(s@.take(j - 1) =~= s@.subrange(0, j - 1));
            return Some(s.substring_char(0, j - 1));
        }
        j -= 1;
    }
    None
}

// ---------------------------------------------------------------------------
// Lines
// ---------------------------------------------------------------------------

/// A line without the carriage return that may precede its line feed.
pub open spec fn without_return(s: Seq<char>) -> Seq<char> {
    if s.len() > 0 && s.last() == '\r' {
        s.drop_last()
    } else {
        s
    }
}

/// The lines of a text: what a line feed, or a carriage return and a line feed, ends.
/// What follows the last line feed is a line unless it is empty.
pub open spec fn lines_of(s: Seq<char>) -> Seq<Seq<char>>
    decreases s.len(),
    via lines_of_decreases
{
    if s.len() == 0 {
        Seq::empty()
    } else {
        let p = first_position(s, '\n');
        if p < s.len() {
            seq![without_return(s.take(p))] + lines_of(s.skip(p + 1))
        } else {
            seq![s]
        }
    }
}

#[via_fn]
proof fn lines_of_decreases(s: Seq<char>) {
    lemma_first_position(s, '\n');
}

/// The characters of each string.
pub open spec fn views(v: Seq<String>) -> Seq<Seq<char>> {
    Seq::new(v.len(), |i: int| v[i]@)
}

/// The characters of each string slice.
pub open spec fn str_views(v: Seq<&str>) -> Seq<Seq<char>> {
    Seq::new(v.len(), |i: int| v[i]@)
}

/// The lines of a text.
pub fn lines(s: &str) -> (out: Vec<String>)
    ensures
        views(out@) == lines_of(s@),
{
    let chars = chars_of(s);
    let mut out: Vec<String> = Vec::new();
    let mut i: usize = 0;
    assert(chars@.skip(0) =~= chars@);
    assert(views(out@) + lines_of(chars@.skip(0)) =~= lines_of(s@));
    while i < chars.len()
        invariant
            i <= chars@.len(),
            chars@ == s@,
            views(out@) + lines_of(chars@.skip(i as int)) == lines_of(s@),
        decreases chars@.len() - i,
    {
        let p: usize = find_from(&chars, i, '\n');
        let ghost before = out@;
        let ghost rest = chars@.skip(i as int);
        if p < chars.len() {
            assert(rest.take(p - i) =~= chars@.subrange(i as int, p as int));
            let end: usize = if p > i && chars[p - 1] == '\r' {
                p - 1
            } else {
                p
            };
            assert(chars@.subrange(i as int, end as int) =~= without_return(rest.take(p - i)));
            out.push(text_of(&chars, i, end));
            assert(rest.skip(p - i + 1) =~= chars@.skip(p + 1));
            assert(views(out@) =~= views(before).push(without_return(rest.take(p - i))));
            assert(views(out@) + lines_of(chars@.skip(p + 1)) =~= views(before) + lines_of(rest));
            i = p + 1;
        } else {
            out.push(text_of(&chars, i, p));
            assert(chars@.subrange(i as int, p as int) =~= rest);
            assert(lines_of(chars@.skip(p as int)) =~= Seq::<Seq<char>>::empty());
            assert(views(out@) + lines_of(chars@.skip(p as int)) =~= views(before) + lines_of(
                rest,
            ));
            i = p;
        }
    }
    assert(lines_of(chars@.skip(i as int)) =~= Seq::<Seq<char>>::empty());
    assert(views(out@) =~= lines_of(s@));
    out
}

/// The texts one after the other, with `sep` between two of them.
pub open spec fn joined(parts: Seq<Seq<char>>, sep: Seq<char>) -> Seq<char>
    decreases parts.len(),
{
    if parts.len() == 0 {
        Seq::empty()
    } else if parts.len() == 1 {
        parts[0]
    } else {
        joined(parts.drop_last(), sep) + sep + parts.last()
    }
}

/// The strings one after the other, with `sep` between two of them.
pub fn join(parts: &Vec<String>, sep: &str) -> (out: String)
    ensures
        out@ == joined(views(parts@), sep@),
{
    let mut out = String::new();
    let mut i: usize = 0;
    while i < parts.len()
        invariant
            i <= parts@.len(),
            out@ == joined(views(parts@).take(i as int), sep@),
        decreases parts@.len() - i,
    {
        assert(views(parts@).take(i + 1).drop_last() =~= views(parts@).take(i as int));
        if i > 0 {
            out.append(sep);
        }
        out.append(parts[i].as_str());
        i += 1;
    }
    assert(views(parts@).take(i as int) =~= views(parts@));
    out
}

// ---------------------------------------------------------------------------
// Building
// ---------------------------------------------------------------------------

/// `n` times the character `c`.
pub open spec fn repeated(c: char, n: nat) -> Seq<char> {
    Seq::new(n, |i: int| c)
}

/// `n` times the character `c`.
pub fn repeat(c: char, n: u128) -> (out: String)
    ensures
        out@ == repeated(c, n as nat),
{
    let mut out = String::new();
    let mut i: u128 = 0;
    while i < n
        invariant
            i <= n,
            out@ =~= repeated(c, i as nat),
        decreases n - i,
    {
        out.push(c);
        i += 1;
    }
    out
}

/// `s` with `with` in place of every `c`.
pub open spec fn replaced(s: Seq<char>, c: char, with: Seq<char>) -> Seq<char>
    decreases s.len(),
{
    if s.len() == 0 {
        Seq::empty()
    } else if s.last() == c {
        replaced(s.drop_last(), c, with) + with
    } else {
        replaced(s.drop_last(), c, with).push(s.last())
    }
}

/// The text with `with` in place of every `c`.
pub fn replace_char(s: &str, c: char, with: &str) -> (out: String)
    ensures
        out@ == replaced(s@, c, with@),
{
    let chars = chars_of(s);
    let mut out = String::new();
    let mut i: usize = 0;
    while i < chars.len()
        invariant
            i <= chars@.len(),
            chars@ == s@,
            out@ == replaced(s@.take(i as int), c, with@),
        decreases chars@.len() - i,
    {
        assert(s@.take(i + 1).drop_last() =~= s@.take(i as int));
        if chars[i] == c {
            out.append(with);
        } else {
            out.push(chars[i]);
        }
        i += 1;
    }
    assert(s@.take(i as int) =~= s@);
    out
}

/// A copy of the texts.
pub fn clone_texts(texts: &Vec<String>) -> (r: Vec<String>)
    ensures
        views(r@) == views(texts@),
{
    let mut out: Vec<String> = Vec::new();
    let mut i: usize = 0;
    assert(views(out@) =~= views(texts@).take(0));
    while i < texts.len()
        invariant
            i <= texts@.len(),
            views(out@) == views(texts@).take(i as int),
        decreases texts@.len() - i,
    {
        let ghost before = views(out@);
        out.push(texts[i].clone());
        assert(views(out@) =~= before.push(texts@[i as int]@));
        assert(views(texts@).take(i + 1) =~= views(texts@).take(i as int).push(
            texts@[i as int]@,
        ));
        i += 1;
    }
    assert(views(texts@).take(i as int) =~= views(texts@));
    out
}

/// Puts the texts behind the others.
pub fn extend_texts(texts: &mut Vec<String>, more: Vec<String>)
    ensures
        views(final(texts)@) == views(old(texts)@) + views(more@),
{
    let ghost before = views(texts@);
    let mut i: usize = 0;
    assert(views(texts@) =~= before + views(more@).take(0));
    while i < more.len()
        invariant
            i <= more@.len(),
            views(texts@) == before + views(more@).take(i as int),
        decreases more@.len() - i,
    {
        let ghost so_far = views(texts@);
        texts.push(more[i].clone());
        assert(views(texts@) =~= so_far.push(more@[i as int]@));
        assert(views(more@).take(i + 1) =~= views(more@).take(i as int).push(
            more@[i as int]@,
        ));
        assert(views(texts@) =~= before + views(more@).take(i + 1));
        i += 1;
    }
    assert(views(more@).take(i as int) =~= views(more@));
}

// ---------------------------------------------------------------------------
// Numbers
// ---------------------------------------------------------------------------

/// The decimal digit `d`.
pub open spec fn digit(d: int) -> char {
    (48 + d) as char
}

/// The number `n` in decimal, without leading zeros.
pub open spec fn decimal(n: nat) -> Seq<char>
    decreases n,
{
    if n < 10 {
        seq![digit(n as int)]
    } else {
        decimal(n / 10).push(digit((n % 10) as int))
    }
}

/// The number `n` in decimal, with a minus sign where it is negative.
pub open spec fn signed_decimal(n: int) -> Seq<char> {
    if n < 0 {
        seq!['-'] + decimal((-n) as nat)
    } else {
        decimal(n as nat)
    }
}

/// The number in decimal.
pub fn decimal_u64(n: u64) -> (out: String)
    ensures
        out@ == decimal(n as nat),
    decreases n,
{
    let d: u8 = (n % 10) as u8;
    let c: char = (48u8 + d) as char;
    let mut out = if n < 10 {
        String::new()
    } else {
        decimal_u64(n / 10)
    };
    out.push(c);
    assert(out@ =~= decimal(n as nat));
    out
}

/// The number in decimal.
pub fn decimal_usize(n: usize) -> (out: String)
    ensures
        out@ == decimal(n as nat),
{
    decimal_u64(n as u64)
}

/// The number in decimal, with its sign where it is negative.
pub fn decimal_i64(n: i64) -> (out: String)
    ensures
        out@ == signed_decimal(n as int),
{
    if n < 0 {
        let magnitude: u64 = (-(n as i128)) as u64;
        let digits = decimal_u64(magnitude);
        let mut out = String::new();
        out.push('-');
        out.append(digits.as_str());
        assert(out@ =~= seq!['-'] + decimal(magnitude as nat));
        out
    } else {
        decimal_u64(n as u64)
    }
}

/// The number in decimal, with its sign where it is negative.
pub fn decimal_i32(n: i32) -> (out: String)
    ensures
        out@ == signed_decimal(n as int),
{
    decimal_i64(n as i64)
}

pub open spec fn is_digit(c: char) -> bool {
    '0' <= c <= '9'
}

/// The value of a sequence of decimal digits.
pub open spec fn digits_value(s: Seq<char>) -> int
    decreases s.len(),
{
    if s.len() == 0 {
        0
    } else {
        digits_value(s.drop_last()) * 10 + (s.last() as int - 48)
    }
}

/// The digits of a number with an optional sign.
pub open spec fn unsigned_part(s: Seq<char>) -> Seq<char> {
    if s.len() > 0 && (s.first() == '-' || s.first() == '+') {
        s.drop_first()
    } else {
        s
    }
}

/// The number that a text of an optional sign and at least one digit stands for.
pub open spec fn number_of(s: Seq<char>) -> Option<int> {
    let digits = unsigned_part(s);
    if digits.len() > 0 && (forall|i: int| 0 <= i < digits.len() ==> is_digit(#[trigger] digits[i])) {
        if s.first() == '-' {
            Some(-digits_value(digits))
        } else {
            Some(digits_value(digits))
        }
    } else {
        None
    }
}

/// The number that the text stands for, where it is one and fits in 64 bits.
pub open spec fn parsed_i64(s: Seq<char>) -> Option<i64> {
    match number_of(s) {
        Some(n) if i64::MIN <= n <= i64::MAX => Some(n as i64),
        _ => None,
    }
}

proof fn lemma_digits_value_grows(s: Seq<char>, k: int)
    requires
        0 <= k <= s.len(),
        forall|i: int| 0 <= i < s.len() ==> is_digit(#[trigger] s[i]),
    ensures
        0 <= digits_value(s.take(k)) <= digits_value(s),
    decreases s.len() - k,
{
    if k < s.len() {
        lemma_digits_value_grows(s, k + 1);
        assert(s.take(k + 1).drop_last() =~= s.take(k));
        assert(is_digit(s[k]));
        lemma_digits_value_nonneg(s.take(k));
    } else {
        assert(s.take(k) =~= s);
        lemma_digits_value_nonneg(s);
    }
}

proof fn lemma_digits_value_nonneg(s: Seq<char>)
    requires
        forall|i: int| 0 <= i < s.len() ==> is_digit(#[trigger] s[i]),
    ensures
        0 <= digits_value(s),
    decreases s.len(),
{
    if s.len() > 0 {
        assert forall|i: int| 0 <= i < s.drop_last().len() implies is_digit(
            #[trigger] s.drop_last()[i],
        ) by {
            assert(is_digit(s[i]));
        }
        lemma_digits_value_nonneg(s.drop_last());
        assert(is_digit(s[s.len() - 1]));
    }
}

/// The number that the text stands for, where it is one and fits in 64 bits.
pub fn parse_i64(s: &str) -> (r: Option<i64>)
    ensures
        r == parsed_i64(s@),
{
    let chars = chars_of(s);
    let negative = chars.len() > 0 && chars[0] == '-';
    let start: usize = if chars.len() > 0 && (chars[0] == '-' || chars[0] == '+') {
        1
    } else {
        0
    };
    let ghost digits = unsigned_part(s@);
    assert(digits =~= s@.skip(start as int));
    if start == chars.len() {
        return None;
    }
    let mut i: usize = start;
    let mut value: i128 = 0;
    while i < chars.len()
        invariant
            chars@ == s@,
            start <= i <= chars@.len(),
            digits == s@.skip(start as int),
            digits == unsigned_part(s@),
            digits.len() > 0,
            forall|k: int| 0 <= k < i - start ==> is_digit(#[trigger] digits[k]),
            value == digits_value(digits.take(i - start)),
            0 <= value <= 0x1_0000_0000_0000_0000,
        decreases chars@.len() - i,
    {
        let c = chars[i];
        assert(digits[i - start] == c);
        if c < '0' || c > '9' {
            assert(!is_digit(digits[i - start]));
            return None;
        }
        assert(digits.take(i - start + 1).drop_last() =~= digits.take(i - start));
        value = value * 10 + ((c as u8) - 48u8) as i128;
        assert(value == digits_value(digits.take(i - start + 1)));
        i += 1;
        if value > 0x1_0000_0000_0000_0000 {
            proof {
                if forall|k: int| 0 <= k < digits.len() ==> is_digit(#[trigger] digits[k]) {
                    lemma_digits_value_grows(digits, i - start);
                }
            }
            return None;
        }
    }
    assert(digits.take(i - start) =~= digits);
    let signed: i128 = if negative {
        -value
    } else {
        value
    };
    if signed < i64::MIN as i128 || signed > i64::MAX as i128 {
        None
    } else {
        Some(signed as i64)
    }
}

// ---------------------------------------------------------------------------
// Laws
// ---------------------------------------------------------------------------

/// The blank, the tab and the ends of lines are white space, and nothing else that is
/// printed in ASCII is.
pub proof fn law_white_space(c: char)
    ensures
        c == ' ' || c == '\t' || c == '\n' || c == '\r' ==> is_white_space(c),
        '!' <= c <= '~' ==> !is_white_space(c),
{
}

/// What is trimmed away is the white space around a text, all of it and nothing more.
pub proof fn law_trimming_takes_the_white_space_around(
    before: Seq<char>,
    middle: Seq<char>,
    after: Seq<char>,
)
    requires
        forall|i: int| 0 <= i < before.len() ==> is_white_space(#[trigger] before[i]),
        forall|i: int| 0 <= i < after.len() ==> is_white_space(#[trigger] after[i]),
        middle.len() > 0 ==> !is_white_space(middle.first()) && !is_white_space(middle.last()),
    ensures
        trimmed(before + middle + after) == middle,
        middle.len() > 0 ==> non_blank(Some(before + middle + after)) == Some(middle),
        middle.len() == 0 ==> non_blank(Some(before + middle + after)) is None,
        non_blank(None) is None,
{
    let class = CharClass::WhiteSpace;
    if middle.len() > 0 {
        assert forall|i: int| 0 <= i < before.len() implies class.has(#[trigger] before[i]) by {}
        assert forall|i: int| 0 <= i < after.len() implies class.has(#[trigger] after[i]) by {}
        lemma_trim_padded(before, middle, after, class);
    } else {
        let all = before + middle + after;
        assert forall|i: int| 0 <= i < all.len() implies class.has(#[trigger] all[i]) by {
            if i < before.len() {
                assert(all[i] == before[i]);
            } else {
                assert(all[i] == after[i - before.len()]);
            }
        }
        lemma_blank_is_trimmed_away(all, class);
        assert(trimmed(all) =~= middle);
    }
}

proof fn lemma_blank_is_trimmed_away(s: Seq<char>, class: CharClass)
    requires
        all_of(s, class),
    ensures
        trim_start_of(s, class).len() == 0,
        trim_of(s, class).len() == 0,
    decreases s.len(),
{
    if s.len() > 0 {
        assert(class.has(s[0]));
        assert forall|i: int| 0 <= i < s.drop_first().len() implies class.has(
            #[trigger] s.drop_first()[i],
        ) by {
            assert(class.has(s[i + 1]));
        }
        lemma_blank_is_trimmed_away(s.drop_first(), class);
    }
}

/// In lower case every ASCII letter is the small one of the same place in the alphabet, and
/// everything else is itself; two texts are the same but for case exactly where each of
/// their characters is.
pub proof fn law_lower_case(s: Seq<char>, t: Seq<char>, i: int)
    requires
        0 <= i < s.len(),
        s.len() == t.len(),
    ensures
        lowercase(s).len() == s.len(),
        'A' <= s[i] <= 'Z' ==> lowercase(s)[i] as u32 - 'a' as u32 == s[i] as u32 - 'A' as u32,
        !('A' <= s[i] <= 'Z') ==> lowercase(s)[i] == s[i],
        same_ignoring_case(s, t) ==> s[i] == t[i] || lowercase(s)[i] == lowercase(t)[i],
        same_ignoring_case(s, s),
        s == lowercase(t) ==> same_ignoring_case(s, t),
{
    if s == lowercase(t) {
        assert(lowercase(lowercase(t)) =~= lowercase(t));
    }
}

/// Texts of different lengths, and texts with different digits or signs in one place, are
/// not the same in any case.
pub proof fn law_case_is_all_that_is_ignored(s: Seq<char>, t: Seq<char>, i: int)
    requires
        s.len() != t.len() || (0 <= i < s.len() && s[i] != t[i] && !('A' <= s[i] <= 'Z') && !('A'
            <= t[i] <= 'Z')),
    ensures
        !same_ignoring_case(s, t),
{
    if s.len() == t.len() {
        assert(lowercase(s)[i] == s[i]);
        assert(lowercase(t)[i] == t[i]);
    } else {
        assert(lowercase(s).len() != lowercase(t).len());
    }
}

/// A text is split at the first place where the character stands, and before the last.
#[verifier::spinoff_prover]
#[verifier::rlimit(40)]
pub proof fn law_text_is_split(head: Seq<char>, c: char, tail: Seq<char>)
    ensures
        (forall|i: int| 0 <= i < head.len() ==> #[trigger] head[i] != c) ==> {
            &&& split_at_first(head.push(c) + tail, c) == Some((head, tail))
            &&& before_first(head.push(c) + tail, c) == head
            &&& split_at_first(head, c) is None
            &&& before_first(head, c) == head
        },
        (forall|i: int| 0 <= i < tail.len() ==> #[trigger] tail[i] != c) ==> {
            &&& before_last(head.push(c) + tail, c) == Some(head)
            &&& before_last(tail, c) is None
        },
    decreases tail.len(),
{
    let all = head.push(c) + tail;
    if forall|i: int| 0 <= i < head.len() ==> #[trigger] head[i] != c {
        assert forall|k: int| 0 <= k < head.len() implies all[k] != c by {
            assert(head[k] != c);
        }
        assert(all[head.len() as int] == c);
        lemma_first_position_unique(all, c, head.len() as int);
        assert(all.take(head.len() as int) =~= head);
        assert(all.skip(head.len() as int + 1) =~= tail);
        lemma_first_position_unique(head, c, head.len() as int);
        assert(head.take(head.len() as int) =~= head);
    }
    if forall|i: int| 0 <= i < tail.len() ==> #[trigger] tail[i] != c {
        if tail.len() == 0 {
            assert(all =~= head.push(c));
            assert(all.drop_last() =~= head);
        } else {
            let rest = tail.drop_last();
            assert forall|i: int| 0 <= i < rest.len() implies #[trigger] rest[i] != c by {
                assert(tail[i] != c);
            }
            law_text_is_split(head, c, rest);
            assert(tail[tail.len() - 1] != c);
            assert(all.last() == tail.last());
            assert(all.drop_last() =~= head.push(c) + rest);
        }
    }
}

/// A text has a line for every line feed, without the carriage return before it, and one
/// more for what follows the last, unless nothing does.
#[verifier::spinoff_prover]
#[verifier::rlimit(40)]
pub proof fn law_line_feeds_end_lines(line: Seq<char>, rest: Seq<char>)
    requires
        forall|i: int| 0 <= i < line.len() ==> #[trigger] line[i] != '\n',
    ensures
        lines_of(line.push('\n') + rest) == seq![without_return(line)] + lines_of(rest),
        lines_of(line.push('\r').push('\n') + rest) == seq![line] + lines_of(rest),
        line.len() > 0 ==> lines_of(line) == seq![line],
        lines_of(Seq::empty()).len() == 0,
{
    law_text_is_split(line, '\n', rest);
    let all = line.push('\n') + rest;
    lemma_first_position_unique(line, '\n', line.len() as int);
    assert(first_position(all, '\n') == line.len()) by {
        assert forall|k: int| 0 <= k < line.len() implies all[k] != '\n' by {
            assert(line[k] != '\n');
        }
        lemma_first_position_unique(all, '\n', line.len() as int);
    }
    assert(all.take(line.len() as int) =~= line);
    assert(all.skip(line.len() as int + 1) =~= rest);
    let long = line.push('\r');
    let whole = long.push('\n') + rest;
    assert forall|k: int| 0 <= k < long.len() implies whole[k] != '\n' by {
        if k < line.len() {
            assert(line[k] != '\n');
        }
    }
    lemma_first_position_unique(whole, '\n', long.len() as int);
    assert(whole.take(long.len() as int) =~= long);
    assert(whole.skip(long.len() as int + 1) =~= rest);
    assert(long.drop_last() =~= line);
}

/// Between two texts that are joined stands the separator, once, and around them nothing.
pub proof fn law_separator_stands_between(parts: Seq<Seq<char>>, last: Seq<char>, sep: Seq<char>)
    ensures
        parts.len() > 0 ==> joined(parts.push(last), sep) == joined(parts, sep) + sep + last,
        joined(seq![last], sep) == last,
        joined(Seq::empty(), sep).len() == 0,
{
    assert(parts.push(last).drop_last() =~= parts);
}

/// What precedes and what follows are told apart: taking away a prefix that was put before a
/// text gives the text back, and so does taking away a suffix.
pub proof fn law_ends_can_be_taken_away(s: Seq<char>, part: Seq<char>)
    ensures
        without_prefix(part + s, part) == Some(s),
        without_suffix(s + part, part) == Some(s),
        without_prefix(s, part) matches Some(rest) ==> part + rest == s,
        without_suffix(s, part) matches Some(rest) ==> rest + part == s,
{
    assert(part =~= (part + s).take(part.len() as int));
    assert((part + s).skip(part.len() as int) =~= s);
    assert(part =~= (s + part).skip(s.len() as int));
    assert((s + part).take(s.len() as int) =~= s);
    if without_prefix(s, part) is Some {
        assert(part + s.skip(part.len() as int) =~= s);
    }
    if without_suffix(s, part) is Some {
        assert(s.take(s.len() - part.len()) + part =~= s);
    }
}

/// A text contains what stands in it.
pub proof fn law_text_contains_its_parts(before: Seq<char>, part: Seq<char>, after: Seq<char>)
    ensures
        contains_text(before + part + after, part),
{
    let all = before + part + after;
    assert(all.subrange(before.len() as int, before.len() as int + part.len()) =~= part);
    assert(stands_at(all, part, before.len() as int));
}

/// Every one of the characters is replaced, and nothing else.
pub proof fn law_each_is_replaced(head: Seq<char>, c: char, tail: Seq<char>, with: Seq<char>)
    ensures
        replaced(head.push(c) + tail, c, with) == replaced(head, c, with) + with + replaced(
            tail,
            c,
            with,
        ),
        (forall|i: int| 0 <= i < tail.len() ==> #[trigger] tail[i] != c) ==> replaced(tail, c, with)
            == tail,
    decreases tail.len(),
{
    let all = head.push(c) + tail;
    if tail.len() == 0 {
        assert(all =~= head.push(c));
        assert(all.drop_last() =~= head);
        assert(replaced(head, c, with) + with + replaced(tail, c, with) =~= replaced(head, c, with)
            + with);
        assert(tail =~= Seq::empty());
    } else {
        let rest = tail.drop_last();
        law_each_is_replaced(head, c, rest, with);
        assert(all.last() == tail.last());
        assert(all.drop_last() =~= head.push(c) + rest);
        assert(replaced(all, c, with) =~= replaced(head, c, with) + with + replaced(tail, c, with));
        if forall|i: int| 0 <= i < tail.len() ==> #[trigger] tail[i] != c {
            assert forall|i: int| 0 <= i < rest.len() implies #[trigger] rest[i] != c by {
                assert(tail[i] != c);
            }
            assert(tail[tail.len() - 1] != c);
            assert(rest.push(tail.last()) =~= tail);
        }
    }
}

proof fn lemma_decimal_value(n: nat)
    ensures
        digits_value(decimal(n)) == n,
        decimal(n).len() > 0,
        forall|i: int| 0 <= i < decimal(n).len() ==> is_digit(#[trigger] decimal(n)[i]),
    decreases n,
{
    let d = (n % 10) as int;
    assert(digit(d) as int == 48 + d);
    if n < 10 {
        let s = decimal(n);
        assert(s.drop_last() =~= Seq::<char>::empty());
        assert(digits_value(s.drop_last()) == 0);
    } else {
        lemma_decimal_value(n / 10);
        let s = decimal(n);
        assert(s.drop_last() =~= decimal(n / 10));
        assert forall|i: int| 0 <= i < s.len() implies is_digit(#[trigger] s[i]) by {
            if i < decimal(n / 10).len() {
                assert(s[i] == decimal(n / 10)[i]);
            }
        }
    }
}

/// A number that is written in decimal is read back; a large one has no leading zero.
pub proof fn law_numbers_are_read_back(n: i64)
    ensures
        parsed_i64(signed_decimal(n as int)) == Some(n),
        n > 0 ==> signed_decimal(n as int).first() != '0',
        n < 0 ==> signed_decimal(n as int).first() == '-',
{
    let m: nat = if n < 0 {
        (-n) as nat
    } else {
        n as nat
    };
    lemma_decimal_value(m);
    let s = signed_decimal(n as int);
    if n < 0 {
        assert(s.drop_first() =~= decimal(m));
    } else {
        assert(is_digit(s[0]));
        if n > 0 {
            lemma_no_leading_zero(m);
        }
    }
}

proof fn lemma_no_leading_zero(n: nat)
    requires
        n > 0,
    ensures
        decimal(n).first() != '0',
    decreases n,
{
    if n < 10 {
        assert(digit(n as int) as int == 48 + n);
    } else {
        lemma_no_leading_zero(n / 10);
        lemma_decimal_value(n / 10);
        assert(decimal(n)[0] == decimal(n / 10)[0]);
    }
}

/// A text with anything but digits behind its sign is no number, and neither is a sign alone; a
/// plus sign changes nothing.
pub proof fn law_only_digits_make_a_number(s: Seq<char>, n: nat, i: int)
    ensures
        0 < i < s.len() && !('0' <= s[i] <= '9') ==> parsed_i64(s) is None,
        s.len() > 0 && !('0' <= s[0] <= '9') && s[0] != '-' && s[0] != '+' ==> parsed_i64(s) is None,
        s.len() == 0 ==> parsed_i64(s) is None,
        n <= i64::MAX ==> (parsed_i64(seq!['+'] + decimal(n)) matches Some(m) && m == n),
{
    let digits = unsigned_part(s);
    if 0 < i < s.len() && !('0' <= s[i] <= '9') {
        if s.first() == '-' || s.first() == '+' {
            assert(digits[i - 1] == s[i]);
            assert(!is_digit(digits[i - 1]));
        } else {
            assert(!is_digit(digits[i]));
        }
    }
    if s.len() > 0 && !('0' <= s[0] <= '9') && s[0] != '-' && s[0] != '+' {
        assert(!is_digit(digits[0]));
    }
    lemma_decimal_value(n);
    let signed = seq!['+'] + decimal(n);
    assert(signed.drop_first() =~= decimal(n));
}

} // verus!
