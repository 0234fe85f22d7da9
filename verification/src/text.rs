//! Text as sequences of characters: conversions between `str`, `String` and
//! `Vec<char>`, comparison, searching and replacing, each with its meaning
//! stated over `Seq<char>`.

use vstd::prelude::*;

verus! {

/// What `str::to_lowercase` makes of a text that holds a character beyond
/// ASCII.
pub uninterp spec fn unicode_lowercase(text: Seq<char>) -> Seq<char>;

/// What `str::to_uppercase` makes of a text that holds a character beyond
/// ASCII.
pub uninterp spec fn unicode_uppercase(text: Seq<char>) -> Seq<char>;

/// Whether every character of `text` is an ASCII character.
pub open spec fn is_ascii_text(text: Seq<char>) -> bool {
    forall|i: int| 0 <= i < text.len() ==> (#[trigger] text[i]) as u32 <= 0x7F
}

/// The lower-case form of a text. In a text of ASCII characters the letters
/// `A` to `Z` become `a` to `z` and nothing else changes; for any other
/// text it is what the Unicode mapping of std gives.
pub open spec fn lowercase_of(text: Seq<char>) -> Seq<char> {
    if is_ascii_text(text) {
        text.map_values(|c: char| ascii_fold(c))
    } else {
        unicode_lowercase(text)
    }
}

/// The upper-case form of a text. In a text of ASCII characters the letters
/// `a` to `z` become `A` to `Z` and nothing else changes; for any other
/// text it is what the Unicode mapping of std gives.
pub open spec fn uppercase_of(text: Seq<char>) -> Seq<char> {
    if is_ascii_text(text) {
        text.map_values(|c: char| ascii_raise(c))
    } else {
        unicode_uppercase(text)
    }
}

/// Calls `str::to_lowercase`, the Unicode lowercase mapping of std. For a
/// text of ASCII characters alone the contract spells the result out: that
/// mapping takes `A` to `Z` to `a` to `z` and leaves every other ASCII
/// character as it is. For any other text the mapping is long and fixed, so
/// the result is named.
#[verifier::external_body]
pub(crate) fn to_lowercase(text: &str) -> (r: String)
    ensures
        r@ == lowercase_of(text@),
        !is_ascii_text(text@) ==> r@ == unicode_lowercase(text@),
{
    text.to_lowercase()
}

/// Calls `str::to_uppercase`, the Unicode uppercase mapping of std. For a
/// text of ASCII characters alone the contract spells the result out: that
/// mapping takes `a` to `z` to `A` to `Z` and leaves every other ASCII
/// character as it is. For any other text the mapping is long and fixed, so
/// the result is named.
#[verifier::external_body]
pub(crate) fn to_uppercase(text: &str) -> (r: String)
    ensures
        r@ == uppercase_of(text@),
        !is_ascii_text(text@) ==> r@ == unicode_uppercase(text@),
{
    text.to_uppercase()
}

/// Calls `String::push`, which appends one character to the end.
#[verifier::external_body]
pub(crate) fn push_char(text: &mut String, c: char)
    ensures
        final(text)@ == old(text)@.push(c),
{
    text.push(c)
}

/// The characters of `text`, in order.
pub fn to_chars(text: &str) -> (chars: Vec<char>)
    ensures
        chars@ == text@,
{
    let mut chars: Vec<char> = Vec::new();
    for c in it: text.chars()
        invariant
            chars@ == it.seq().take(it.index() as int),
            it.seq() == text@,
    {
        chars.push(c);
    }
    chars
}

/// The string made of `chars`, in order.
pub fn from_chars(chars: &Vec<char>) -> (text: String)
    ensures
        text@ == chars@,
{
    let mut text = String::new();
    let mut i: usize = 0;
    while i < chars.len()
        invariant
            i <= chars.len(),
            text@ == chars@.take(i as int),
        decreases chars.len() - i,
    {
        push_char(&mut text, chars[i]);
        i += 1;
    }
    text
}

/// An owned copy of `text`.
pub fn str_to_string(text: &str) -> (owned: String)
    ensures
        owned@ == text@,
{
    text.to_owned()
}

/// Whether two character vectors hold the same text.
pub fn chars_eq(a: &Vec<char>, b: &Vec<char>) -> (r: bool)
    ensures
        r == (a@ == b@),
{
    if a.len() != b.len() {
        return false;
    }
    let mut i: usize = 0;
    while i < a.len()
        invariant
            i <= a.len(),
            a.len() == b.len(),
            a@.take(i as int) == b@.take(i as int),
        decreases a.len() - i,
    {
        if a[i] != b[i] {
            return false;
        }
        assert(a@.take(i + 1) == a@.take(i as int).push(a@[i as int]));
        assert(b@.take(i + 1) == b@.take(i as int).push(b@[i as int]));
        i += 1;
    }
    assert(a@ == a@.take(a.len() as int));
    assert(b@ == b@.take(b.len() as int));
    true
}

/// Whether `chars` holds the same text as `word`.
pub fn chars_eq_str(chars: &Vec<char>, word: &str) -> (r: bool)
    ensures
        r == (chars@ == word@),
{
    let other = to_chars(word);
    chars_eq(chars, &other)
}

/// Whether `c` is one of the letters `A` to `Z`.
pub open spec fn is_ascii_upper(c: char) -> bool {
    'A' <= c && c <= 'Z'
}

/// Whether `c` is one of the letters `a` to `z`.
pub open spec fn is_ascii_lower(c: char) -> bool {
    'a' <= c && c <= 'z'
}

/// Whether `c` is one of the digits `0` to `9`.
pub open spec fn is_ascii_digit(c: char) -> bool {
    '0' <= c && c <= '9'
}

/// `c` with the letters `A` to `Z` mapped to `a` to `z`; any other character
/// is itself.
pub open spec fn ascii_fold(c: char) -> char {
    if is_ascii_upper(c) {
        ((c as u8) + 32) as char
    } else {
        c
    }
}

/// `c` with the letters `a` to `z` mapped to `A` to `Z`; any other character
/// is itself.
pub open spec fn ascii_raise(c: char) -> char {
    if is_ascii_lower(c) {
        ((c as u8) - 32) as char
    } else {
        c
    }
}

/// Computes `ascii_fold`.
pub fn fold_char(c: char) -> (r: char)
    ensures
        r == ascii_fold(c),
{
    if c >= 'A' && c <= 'Z' {
        ((c as u8) + 32) as char
    } else {
        c
    }
}

/// Two texts are equal up to the case of the letters `A` to `Z`.
pub open spec fn eq_ignoring_ascii_case(a: Seq<char>, b: Seq<char>) -> bool {
    &&& a.len() == b.len()
    &&& forall|i: int| 0 <= i < a.len() ==> ascii_fold(#[trigger] a[i]) == ascii_fold(b[i])
}

/// Decides `eq_ignoring_ascii_case`.
pub fn chars_eq_ignore_ascii_case(a: &Vec<char>, b: &Vec<char>) -> (r: bool)
    ensures
        r == eq_ignoring_ascii_case(a@, b@),
{
    if a.len() != b.len() {
        return false;
    }
    let mut i: usize = 0;
    while i < a.len()
        invariant
            i <= a.len(),
            a.len() == b.len(),
            forall|k: int| 0 <= k < i ==> ascii_fold(#[trigger] a@[k]) == ascii_fold(b@[k]),
        decreases a.len() - i,
    {
        if fold_char(a[i]) != fold_char(b[i]) {
            return false;
        }
        i += 1;
    }
    true
}

/// Whether `needle` stands in `hay` at position `at`.
pub open spec fn occurs_at(hay: Seq<char>, needle: Seq<char>, at: int) -> bool {
    &&& 0 <= at
    &&& at + needle.len() <= hay.len()
    &&& hay.subrange(at, at + needle.len()) == needle
}

/// Whether `needle` stands somewhere in `hay`.
pub open spec fn contains_text(hay: Seq<char>, needle: Seq<char>) -> bool {
    exists|at: int| occurs_at(hay, needle, at)
}

/// Decides `occurs_at`.
pub fn chars_occur_at(hay: &Vec<char>, needle: &Vec<char>, at: usize) -> (r: bool)
    ensures
        r == occurs_at(hay@, needle@, at as int),
{
    if needle.len() > hay.len() || at > hay.len() - needle.len() {
        return false;
    }
    let mut k: usize = 0;
    while k < needle.len()
        invariant
            k <= needle.len(),
            at + needle.len() <= hay.len(),
            hay@.subrange(at as int, at + k) == needle@.take(k as int),
        decreases needle.len() - k,
    {
        if hay[at + k] != needle[k] {
            assert(hay@.subrange(at as int, at + needle.len())[k as int] != needle@[k as int]);
            return false;
        }
        assert(hay@.subrange(at as int, at + k + 1) == hay@.subrange(at as int, at + k).push(
            hay@[at + k],
        ));
        assert(needle@.take(k + 1) == needle@.take(k as int).push(needle@[k as int]));
        k += 1;
    }
    assert(needle@ == needle@.take(needle.len() as int));
    true
}

/// Whether `hay` begins with `prefix`.
pub fn chars_start_with(hay: &Vec<char>, prefix: &Vec<char>) -> (r: bool)
    ensures
        r == prefix@.is_prefix_of(hay@),
{
    chars_occur_at(hay, prefix, 0)
}

/// Whether `hay` ends with `suffix`.
pub fn chars_end_with(hay: &Vec<char>, suffix: &Vec<char>) -> (r: bool)
    ensures
        r == suffix@.is_suffix_of(hay@),
{
    if suffix.len() > hay.len() {
        return false;
    }
    chars_occur_at(hay, suffix, hay.len() - suffix.len())
}

/// Decides `contains_text`.
pub fn chars_contain(hay: &Vec<char>, needle: &Vec<char>) -> (r: bool)
    ensures
        r == contains_text(hay@, needle@),
{
    if needle.len() > hay.len() {
        return false;
    }
    let last: usize = hay.len() - needle.len();
    let mut at: usize = 0;
    loop
        invariant
            at <= last,
            last == hay.len() - needle.len(),
            needle.len() <= hay.len(),
            forall|k: int| 0 <= k < at ==> !occurs_at(hay@, needle@, k),
        decreases last - at,
    {
        if chars_occur_at(hay, needle, at) {
            return true;
        }
        if at == last {
            return false;
        }
        at += 1;
    }
}

/// Appends the characters of `more` to `out`.
pub fn append_chars(out: &mut Vec<char>, more: &Vec<char>)
    ensures
        final(out)@ == old(out)@ + more@,
{
    let mut k: usize = 0;
    while k < more.len()
        invariant
            k <= more.len(),
            out@ == old(out)@ + more@.take(k as int),
        decreases more.len() - k,
    {
        out.push(more[k]);
        assert(more@.take(k + 1) == more@.take(k as int).push(more@[k as int]));
        k += 1;
    }
    assert(more@ == more@.take(more.len() as int));
}

/// The characters of `text` from position `from` up to, not including, `to`.
pub(crate) fn chars_between(text: &Vec<char>, from: usize, to: usize) -> (out: Vec<char>)
    requires
        from <= to <= text.len(),
    ensures
        out@ == text@.subrange(from as int, to as int),
{
    let mut out: Vec<char> = Vec::new();
    let mut k: usize = from;
    while k < to
        invariant
            from <= k <= to,
            to <= text.len(),
            out@ == text@.subrange(from as int, k as int),
        decreases to - k,
    {
        out.push(text[k]);
        assert(text@.subrange(from as int, k + 1) == text@.subrange(from as int, k as int).push(
            text@[k as int],
        ));
        k += 1;
    }
    out
}

/// `text` with every occurrence of `from` replaced by `to`. Occurrences are
/// found from left to right and do not overlap. An empty `from` occurs
/// nowhere.
pub open spec fn replace_all(text: Seq<char>, from: Seq<char>, to: Seq<char>) -> Seq<char>
    decreases text.len(),
{
    if from.len() == 0 || text.len() < from.len() {
        text
    } else if text.subrange(0, from.len() as int) == from {
        to + replace_all(text.subrange(from.len() as int, text.len() as int), from, to)
    } else {
        seq![text[0]] + replace_all(text.subrange(1, text.len() as int), from, to)
    }
}

/// Computes `replace_all`.
pub fn chars_replace_all(text: &Vec<char>, from: &Vec<char>, to: &Vec<char>) -> (out: Vec<char>)
    ensures
        out@ == replace_all(text@, from@, to@),
{
    let mut out: Vec<char> = Vec::new();
    if from.len() == 0 {
        append_chars(&mut out, text);
        return out;
    }
    let mut i: usize = 0;
    assert(text@.skip(0) == text@);
    while i < text.len()
        invariant
            i <= text.len(),
            from.len() > 0,
            out@ + replace_all(text@.skip(i as int), from@, to@) == replace_all(
                text@,
                from@,
                to@,
            ),
        decreases text.len() - i,
    {
        let ghost rest = text@.skip(i as int);
        let ghost before = out@;
        if chars_occur_at(text, from, i) {
            assert(rest.subrange(0, from.len() as int) == from@);
            assert(rest.subrange(from.len() as int, rest.len() as int) == text@.skip(
                i + from.len(),
            ));
            append_chars(&mut out, to);
            i += from.len();
            assert(out@ + replace_all(text@.skip(i as int), from@, to@) == before + (to@
                + replace_all(text@.skip(i as int), from@, to@)));
        } else {
            assert(rest.len() >= from.len() ==> rest.subrange(0, from.len() as int)
                == text@.subrange(i as int, i + from.len()));
            assert(rest.subrange(1, rest.len() as int) == text@.skip(i + 1));
            assert(rest == seq![rest[0]] + text@.skip(i + 1));
            out.push(text[i]);
            i += 1;
            assert(out@ + replace_all(text@.skip(i as int), from@, to@) == before + (seq![rest[0]]
                + replace_all(text@.skip(i as int), from@, to@)));
        }
    }
    assert(text@.skip(i as int).len() == 0);
    assert(out@ + text@.skip(i as int) == out@);
    out
}

/// The kinds of character that sizes and names are scanned by.
#[derive(Debug, Clone, Copy, PartialEq, Eq, Structural)]
pub enum CharClass {
    /// The digits `0` to `9`.
    Digit,
    /// The letters `A` to `Z` and `a` to `z`.
    Letter,
    /// The characters with the Unicode property White_Space.
    Whitespace,
    /// The double quotation mark.
    Quote,
}

/// Whether `c` has the Unicode property White_Space.
pub open spec fn is_whitespace(c: char) -> bool {
    let u = c as u32;
    ||| 0x09 <= u <= 0x0D
    ||| u == 0x20
    ||| u == 0x85
    ||| u == 0xA0
    ||| u == 0x1680
    ||| 0x2000 <= u <= 0x200A
    ||| u == 0x2028
    ||| u == 0x2029
    ||| u == 0x202F
    ||| u == 0x205F
    ||| u == 0x3000
}

/// Whether `c` belongs to `class`.
pub open spec fn in_class(c: char, class: CharClass) -> bool {
    match class {
        CharClass::Digit => is_ascii_digit(c),
        CharClass::Letter => is_ascii_upper(c) || is_ascii_lower(c),
        CharClass::Whitespace => is_whitespace(c),
        CharClass::Quote => c == '"',
    }
}

/// Decides `in_class`.
pub fn char_in_class(c: char, class: CharClass) -> (r: bool)
    ensures
        r == in_class(c, class),
{
    match class {
        CharClass::Digit => c >= '0' && c <= '9',
        CharClass::Letter => (c >= 'A' && c <= 'Z') || (c >= 'a' && c <= 'z'),
        CharClass::Whitespace => {
            let u: u32 = c as u32;
            (0x09 <= u && u <= 0x0D) || u == 0x20 || u == 0x85 || u == 0xA0 || u == 0x1680 || (
            0x2000 <= u && u <= 0x200A) || u == 0x2028 || u == 0x2029 || u == 0x202F || u
                == 0x205F || u == 0x3000
        },
        CharClass::Quote => c == '"',
    }
}

/// How many characters at the start of `text` belong to `class`.
pub open spec fn leading(text: Seq<char>, class: CharClass) -> nat
    decreases text.len(),
{
    if text.len() > 0 && in_class(text[0], class) {
        1 + leading(text.drop_first(), class)
    } else {
        0
    }
}

/// How many characters at the end of `text` belong to `class`.
pub open spec fn trailing(text: Seq<char>, class: CharClass) -> nat
    decreases text.len(),
{
    if text.len() > 0 && in_class(text.last(), class) {
        1 + trailing(text.drop_last(), class)
    } else {
        0
    }
}

/// The first position at or after `from` whose character is not in `class`,
/// or the length of `text` if there is none.
pub(crate) fn skip_leading(text: &Vec<char>, from: usize, class: CharClass) -> (to: usize)
    requires
        from <= text.len(),
    ensures
        from <= to <= text.len(),
        to == from + leading(text@.skip(from as int), class),
        forall|k: int| from <= k < to ==> in_class(#[trigger] text@[k], class),
        to < text.len() ==> !in_class(text@[to as int], class),
{
    let mut i: usize = from;
    while i < text.len() && char_in_class(text[i], class)
        invariant
            from <= i <= text.len(),
            leading(text@.skip(from as int), class) == (i - from) + leading(
                text@.skip(i as int),
                class,
            ),
            forall|k: int| from <= k < i ==> in_class(#[trigger] text@[k], class),
        decreases text.len() - i,
    {
        assert(text@.skip(i as int).drop_first() == text@.skip(i + 1));
        i += 1;
    }
    i
}

/// `text` without the characters of `class` at its start and at its end.
pub open spec fn trim_of(text: Seq<char>, class: CharClass) -> Seq<char> {
    let rest = text.skip(leading(text, class) as int);
    rest.take(rest.len() - trailing(rest, class))
}

/// `text` without the whitespace at its start and at its end.
pub open spec fn trim(text: Seq<char>) -> Seq<char> {
    trim_of(text, CharClass::Whitespace)
}

/// Computes `trim_of`.
pub fn chars_trim_of(text: &Vec<char>, class: CharClass) -> (out: Vec<char>)
    ensures
        out@ == trim_of(text@, class),
{
    assert(text@.skip(0) == text@);
    let start = skip_leading(text, 0, class);
    let ghost rest = text@.skip(start as int);
    let mut end: usize = text.len();
    assert(rest.take(rest.len() as int) == rest);
    while end > start && char_in_class(text[end - 1], class)
        invariant
            start <= end <= text.len(),
            rest == text@.skip(start as int),
            trailing(rest, class) == (text.len() - end) + trailing(rest.take(end - start), class),
        decreases end - start,
    {
        assert(rest.take(end - start).drop_last() == rest.take(end - start - 1));
        end -= 1;
    }
    assert(rest.take(end - start) == text@.subrange(start as int, end as int));
    chars_between(text, start, end)
}

/// Computes `trim`.
pub fn chars_trim(text: &Vec<char>) -> (out: Vec<char>)
    ensures
        out@ == trim(text@),
{
    chars_trim_of(text, CharClass::Whitespace)
}

} // verus!
