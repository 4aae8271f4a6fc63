//! Text as sequences of characters: the string operations the proxy is built on.

use vstd::prelude::*;
use vstd::string::*;
use vstd::utf8::*;

verus! {

/// `String::push`: the character is appended to the end of the string.
pub assume_specification[ String::push ](text: &mut String, ch: char)
    ensures
        final(text)@ == old(text)@.push(ch),
;

/// What `str::to_lowercase` makes of a text: its full Unicode lowercase mapping.
pub uninterp spec fn unicode_lowercase(text: Seq<char>) -> Seq<char>;

/// `str::to_lowercase`. The result is a function of the text alone, and empty exactly where the
/// text is; for a text of ASCII characters it is the text with `A` to `Z` replaced by `a` to `z`.
#[verifier::external_body]
pub(crate) fn to_lowercase(text: &str) -> (lower: String)
    ensures
        lower@ == unicode_lowercase(text@),
        lower@.len() == 0 <==> text@.len() == 0,
        is_ascii_chars(text@) ==> lower@ == ascii_lowercase(text@),
{
    text.to_lowercase()
}

/// The longest of the first `most` prefixes of a byte string that is valid UTF-8, by its length.
pub open spec fn valid_length_within(bytes: Seq<u8>, most: nat) -> nat
    decreases most,
{
    if most == 0 || valid_utf8(bytes.take(most as int)) {
        most
    } else {
        valid_length_within(bytes, (most - 1) as nat)
    }
}

/// The length of the longest prefix of a byte string that is valid UTF-8.
pub open spec fn valid_length(bytes: Seq<u8>) -> nat {
    valid_length_within(bytes, bytes.len())
}

/// The length of the invalid sequence behind the longest valid prefix of a byte string, or none
/// where the bytes end within a character.
pub uninterp spec fn utf8_error_length(bytes: Seq<u8>) -> Option<usize>;

/// `std::str::from_utf8`: the text of valid UTF-8; of other bytes how far they are valid, and how
/// long the invalid sequence there is. There is no such length where the bytes end too early,
/// which is at most three bytes behind the valid part, and which holds of every byte string that
/// more bytes would make valid.
#[verifier::external_body]
pub(crate) fn check_utf8(bytes: &[u8]) -> (found: Result<String, (usize, Option<usize>)>)
    ensures
        match found {
            Ok(text) => valid_utf8(bytes@) && text@ == decode_utf8(bytes@),
            Err((valid, invalid)) => !valid_utf8(bytes@) && valid == valid_length(bytes@) && invalid
                == utf8_error_length(bytes@) && match invalid {
                Some(length) => 1 <= length && valid + length <= bytes@.len() && forall|
                    more: Seq<u8>,
                | !(#[trigger] valid_utf8(bytes@ + more)),
                None => 1 <= bytes@.len() - valid <= 3,
            },
        },
{
    match std::str::from_utf8(bytes) {
        Ok(text) => Ok(text.to_owned()),
        Err(error) => Err((error.valid_up_to(), error.error_len())),
    }
}

/// The characters of a text.
pub fn chars_of(text: &str) -> (chars: Vec<char>)
    ensures
        chars@ == text@,
{
    let mut chars: Vec<char> = Vec::new();
    for ch in iter: text.chars()
        invariant
            chars@ == iter.seq().take(iter.index() as int),
            iter.seq() == text@,
    {
        chars.push(ch);
    }
    chars
}

/// The text made of the given characters.
pub fn string_of(chars: &[char]) -> (text: String)
    ensures
        text@ == chars@,
{
    let mut text = String::new();
    let mut i: usize = 0;
    while i < chars.len()
        invariant
            i <= chars@.len(),
            text@ == chars@.take(i as int),
        decreases chars@.len() - i,
    {
        text.push(chars[i]);
        i = i + 1;
    }
    text
}

/// Whether two texts hold the same characters.
pub fn same_text(a: &str, b: &str) -> (same: bool)
    ensures
        same == (a@ == b@),
{
    let x = a.as_bytes();
    let y = b.as_bytes();
    proof {
        encode_utf8_decode_utf8(a@);
        encode_utf8_decode_utf8(b@);
    }
    if x.len() != y.len() {
        return false;
    }
    let mut i: usize = 0;
    while i < x.len()
        invariant
            i <= x@.len(),
            x@.len() == y@.len(),
            x@ == a.spec_bytes(),
            y@ == b.spec_bytes(),
            forall|k: int| 0 <= k < i ==> x@[k] == y@[k],
        decreases x@.len() - i,
    {
        if x[i] != y[i] {
            return false;
        }
        i = i + 1;
    }
    assert(x@ =~= y@);
    true
}

/// Whether an optional text is present and equal to `expected`.
pub fn is_text(actual: &Option<String>, expected: &str) -> (same: bool)
    ensures
        same == (opt_view(*actual) == Some(expected@)),
{
    match actual {
        Some(text) => same_text(text.as_str(), expected),
        None => false,
    }
}

/// The characters of an optional text.
pub open spec fn opt_view(text: Option<String>) -> Option<Seq<char>> {
    match text {
        Some(text) => Some(text@),
        None => None,
    }
}

/// The characters of each text in a list.
pub open spec fn texts_view(texts: Seq<String>) -> Seq<Seq<char>> {
    texts.map_values(|text: String| text@)
}

/// Whether `needle` stands in `text` at position `at`.
pub open spec fn occurs_at(text: Seq<char>, needle: Seq<char>, at: int) -> bool {
    &&& 0 <= at
    &&& at + needle.len() <= text.len()
    &&& text.subrange(at, at + needle.len()) == needle
}

/// Whether `needle` stands anywhere in `text`.
pub open spec fn contains_text(text: Seq<char>, needle: Seq<char>) -> bool {
    exists|at: int| occurs_at(text, needle, at)
}

/// Whether `text` begins with `prefix`.
pub open spec fn has_prefix(text: Seq<char>, prefix: Seq<char>) -> bool {
    occurs_at(text, prefix, 0)
}

/// Whether `text` ends with `suffix`.
pub open spec fn has_suffix(text: Seq<char>, suffix: Seq<char>) -> bool {
    occurs_at(text, suffix, text.len() - suffix.len())
}

/// Whether `needle` stands at position `at` of the characters `text`.
pub(crate) fn chars_occur_at(text: &Vec<char>, needle: &Vec<char>, at: usize) -> (found: bool)
    ensures
        found == occurs_at(text@, needle@, at as int),
{
    if needle.len() > text.len() || at > text.len() - needle.len() {
        return false;
    }
    let mut i: usize = 0;
    while i < needle.len()
        invariant
            i <= needle@.len(),
            at + needle@.len() <= text.len(),
            forall|k: int| 0 <= k < i ==> text@[at + k] == needle@[k],
        decreases needle@.len() - i,
    {
        if text[at + i] != needle[i] {
            assert(text@.subrange(at as int, at + needle@.len())[i as int] != needle@[i as int]);
            return false;
        }
        i = i + 1;
    }
    assert(text@.subrange(at as int, at + needle@.len()) =~= needle@);
    true
}

/// Whether `needle` stands anywhere in `text`.
pub fn contains(text: &str, needle: &str) -> (found: bool)
    ensures
        found == contains_text(text@, needle@),
{
    let t = chars_of(text);
    let n = chars_of(needle);
    if n.len() > t.len() {
        return false;
    }
    let last: usize = t.len() - n.len();
    let mut at: usize = 0;
    loop
        invariant
            t@ == text@,
            n@ == needle@,
            at <= last == t@.len() - n@.len(),
            forall|k: int| 0 <= k < at ==> !occurs_at(text@, needle@, k),
        decreases last - at,
    {
        if chars_occur_at(&t, &n, at) {
            assert(occurs_at(text@, needle@, at as int));
            return true;
        }
        if at == last {
            return false;
        }
        at = at + 1;
    }
}

/// Whether `text` begins with `prefix`.
pub fn starts_with(text: &str, prefix: &str) -> (found: bool)
    ensures
        found == has_prefix(text@, prefix@),
{
    chars_occur_at(&chars_of(text), &chars_of(prefix), 0)
}

/// Whether `text` ends with `suffix`.
pub fn ends_with(text: &str, suffix: &str) -> (found: bool)
    ensures
        found == has_suffix(text@, suffix@),
{
    let t = chars_of(text);
    let s = chars_of(suffix);
    if s.len() > t.len() {
        return false;
    }
    let at = t.len() - s.len();
    chars_occur_at(&t, &s, at)
}

/// `text` without `prefix`, where it begins with it.
pub open spec fn without_prefix(text: Seq<char>, prefix: Seq<char>) -> Option<Seq<char>> {
    if has_prefix(text, prefix) {
        Some(text.skip(prefix.len() as int))
    } else {
        None
    }
}

/// `text` without `prefix`, where it begins with it.
pub fn strip_prefix<'a>(text: &'a str, prefix: &str) -> (rest: Option<&'a str>)
    ensures
        match rest {
            Some(rest) => without_prefix(text@, prefix@) == Some(rest@),
            None => without_prefix(text@, prefix@) is None,
        },
{
    if starts_with(text, prefix) {
        let rest = text.substring_char(prefix.unicode_len(), text.unicode_len());
        assert(rest@ =~= text@.skip(prefix@.len() as int));
        Some(rest)
    } else {
        None
    }
}

/// Whether a character has the Unicode property `White_Space`.
pub open spec fn is_whitespace(ch: char) -> bool {
    let code = ch as u32;
    ||| 0x09 <= code <= 0x0d
    ||| code == 0x20
    ||| code == 0x85
    ||| code == 0xa0
    ||| code == 0x1680
    ||| 0x2000 <= code <= 0x200a
    ||| code == 0x2028
    ||| code == 0x2029
    ||| code == 0x202f
    ||| code == 0x205f
    ||| code == 0x3000
}

/// Whether a character has the Unicode property `White_Space`.
pub fn whitespace(ch: char) -> (white: bool)
    ensures
        white == is_whitespace(ch),
{
    let code: u32 = ch as u32;
    (0x09 <= code && code <= 0x0d) || code == 0x20 || code == 0x85 || code == 0xa0 || code == 0x1680
        || (0x2000 <= code && code <= 0x200a) || code == 0x2028 || code == 0x2029 || code == 0x202f
        || code == 0x205f || code == 0x3000
}

/// `text` without the white space it begins with.
pub open spec fn trimmed_start(text: Seq<char>) -> Seq<char>
    decreases text.len(),
{
    if text.len() > 0 && is_whitespace(text[0]) {
        trimmed_start(text.skip(1))
    } else {
        text
    }
}

/// `text` without the white space it ends with.
pub open spec fn trimmed_end(text: Seq<char>) -> Seq<char>
    decreases text.len(),
{
    if text.len() > 0 && is_whitespace(text.last()) {
        trimmed_end(text.drop_last())
    } else {
        text
    }
}

/// `text` without the white space at either end.
pub open spec fn trimmed(text: Seq<char>) -> Seq<char> {
    trimmed_end(trimmed_start(text))
}

/// `text` without the white space at either end.
pub fn trim<'a>(text: &'a str) -> (rest: &'a str)
    ensures
        rest@ == trimmed(text@),
{
    let chars = chars_of(text);
    let mut from: usize = 0;
    assert(text@.skip(0) =~= text@);
    while from < chars.len() && whitespace(chars[from])
        invariant
            chars@ == text@,
            from <= chars@.len(),
            trimmed_start(text@) == trimmed_start(text@.skip(from as int)),
        decreases chars@.len() - from,
    {
        assert(text@.skip(from as int).skip(1) =~= text@.skip(from + 1));
        from = from + 1;
    }
    assert(trimmed_start(text@) == text@.skip(from as int));
    let ghost start = text@.skip(from as int);
    let mut to: usize = chars.len();
    assert(start.take(to - from) =~= start);
    while from < to && whitespace(chars[to - 1])
        invariant
            chars@ == text@,
            from <= to <= chars@.len(),
            start == text@.skip(from as int),
            trimmed_end(start) == trimmed_end(start.take(to - from)),
        decreases to,
    {
        assert(start.take(to - from).drop_last() =~= start.take(to - from - 1));
        assert(start.take(to - from).last() == chars@[to - 1]);
        to = to - 1;
    }
    assert(from < to ==> start.take(to - from).last() == chars@[to - 1]);
    assert(start.take(to - from) =~= text@.subrange(from as int, to as int));
    text.substring_char(from, to)
}

/// A text without white space at either end is its own trimmed form.
pub proof fn trimming_twice_is_trimming_once(text: Seq<char>)
    ensures
        trimmed(trimmed(text)) == trimmed(text),
{
    lemma_trimmed_start_first(text);
    let start = trimmed_start(text);
    lemma_trimmed_end_last(start);
    lemma_trimmed_end_keeps_first(start);
}

proof fn lemma_trimmed_start_first(text: Seq<char>)
    ensures
        trimmed_start(text).len() > 0 ==> !is_whitespace(trimmed_start(text)[0]),
        trimmed_start(text).len() <= text.len(),
    decreases text.len(),
{
    if text.len() > 0 && is_whitespace(text[0]) {
        lemma_trimmed_start_first(text.skip(1));
    }
}

proof fn lemma_trimmed_end_last(text: Seq<char>)
    ensures
        trimmed_end(text).len() > 0 ==> !is_whitespace(trimmed_end(text).last()),
        trimmed_end(text).len() <= text.len(),
    decreases text.len(),
{
    if text.len() > 0 && is_whitespace(text.last()) {
        lemma_trimmed_end_last(text.drop_last());
    }
}

proof fn lemma_trimmed_end_keeps_first(text: Seq<char>)
    ensures
        trimmed_end(text).len() > 0 ==> trimmed_end(text)[0] == text[0],
    decreases text.len(),
{
    if text.len() > 0 && is_whitespace(text.last()) {
        lemma_trimmed_end_keeps_first(text.drop_last());
    }
}

/// A character with `A` to `Z` replaced by `a` to `z`.
pub open spec fn ascii_lowercase_char(ch: char) -> char {
    if 'A' <= ch <= 'Z' {
        ((ch as u8) + 32) as char
    } else {
        ch
    }
}

/// A text with `A` to `Z` replaced by `a` to `z`.
pub open spec fn ascii_lowercase(text: Seq<char>) -> Seq<char> {
    text.map_values(|ch: char| ascii_lowercase_char(ch))
}

/// A character with `A` to `Z` replaced by `a` to `z`.
pub fn lower_char(ch: char) -> (lower: char)
    ensures
        lower == ascii_lowercase_char(ch),
{
    if 'A' <= ch && ch <= 'Z' {
        ((ch as u8) + 32) as char
    } else {
        ch
    }
}

/// A text with `A` to `Z` replaced by `a` to `z`.
pub fn to_ascii_lowercase(text: &str) -> (lower: String)
    ensures
        lower@ == ascii_lowercase(text@),
{
    let chars = chars_of(text);
    let mut lower = String::new();
    let mut i: usize = 0;
    while i < chars.len()
        invariant
            chars@ == text@,
            i <= chars@.len(),
            lower@ == ascii_lowercase(text@).take(i as int),
        decreases chars@.len() - i,
    {
        lower.push(lower_char(chars[i]));
        i = i + 1;
    }
    assert(lower@ =~= ascii_lowercase(text@));
    lower
}

/// Whether two texts are equal but for the case of their ASCII letters.
pub fn eq_ignore_ascii_case(a: &str, b: &str) -> (same: bool)
    ensures
        same == (ascii_lowercase(a@) == ascii_lowercase(b@)),
{
    same_text(to_ascii_lowercase(a).as_str(), to_ascii_lowercase(b).as_str())
}

/// The position of the first `ch` in `text`, or its length where there is none.
pub open spec fn first_index(text: Seq<char>, ch: char) -> int
    decreases text.len(),
{
    if text.len() == 0 || text[0] == ch {
        0
    } else {
        1 + first_index(text.skip(1), ch)
    }
}

/// What [`first_index`] is: no earlier position holds the character.
pub proof fn first_index_is_first(text: Seq<char>, ch: char)
    ensures
        0 <= first_index(text, ch) <= text.len(),
        first_index(text, ch) < text.len() ==> text[first_index(text, ch)] == ch,
        forall|k: int| 0 <= k < first_index(text, ch) ==> text[k] != ch,
    decreases text.len(),
{
    if !(text.len() == 0 || text[0] == ch) {
        let rest = text.skip(1);
        first_index_is_first(rest, ch);
        assert forall|k: int| 0 <= k < first_index(text, ch) implies text[k] != ch by {
            if k > 0 {
                assert(rest[k - 1] == text[k]);
            }
        }
    }
}

proof fn lemma_first_index_unique(text: Seq<char>, ch: char, at: int)
    requires
        0 <= at <= text.len(),
        at < text.len() ==> text[at] == ch,
        forall|k: int| 0 <= k < at ==> text[k] != ch,
    ensures
        first_index(text, ch) == at,
{
    first_index_is_first(text, ch);
    let first = first_index(text, ch);
    if first < at {
        assert(text[first] != ch);
    }
    if at < first {
        assert(text[at] != ch);
    }
}

/// The position of the first `ch` at or after `from`, or the length where there is none.
pub(crate) fn find_from(chars: &Vec<char>, ch: char, from: usize) -> (at: usize)
    requires
        from <= chars@.len(),
    ensures
        from <= at <= chars@.len(),
        at - from == first_index(chars@.skip(from as int), ch),
{
    let mut at = from;
    while at < chars.len() && chars[at] != ch
        invariant
            from <= at <= chars@.len(),
            forall|k: int| from <= k < at ==> chars@[k] != ch,
        decreases chars@.len() - at,
    {
        at = at + 1;
    }
    proof {
        lemma_first_index_unique(chars@.skip(from as int), ch, at - from);
    }
    at
}

/// `text` up to the first `ch`, and what follows it where there is one.
pub open spec fn split_first(text: Seq<char>, ch: char) -> (Seq<char>, Option<Seq<char>>) {
    let at = first_index(text, ch);
    if at < text.len() {
        (text.take(at), Some(text.skip(at + 1)))
    } else {
        (text, None)
    }
}

/// `text` up to the first `ch`, and what follows it where there is one.
pub fn split_once<'a>(text: &'a str, ch: char) -> (parts: (&'a str, Option<&'a str>))
    ensures
        parts.0@ == split_first(text@, ch).0,
        match parts.1 {
            Some(rest) => split_first(text@, ch).1 == Some(rest@),
            None => split_first(text@, ch).1 is None,
        },
{
    let chars = chars_of(text);
    let at = find_from(&chars, ch, 0);
    assert(chars@.skip(0) =~= text@);
    if at < chars.len() {
        let head = text.substring_char(0, at);
        let tail = text.substring_char(at + 1, chars.len());
        assert(head@ =~= text@.take(at as int));
        assert(tail@ =~= text@.skip(at + 1));
        (head, Some(tail))
    } else {
        (text, None)
    }
}

/// The pieces of `text` between the occurrences of `ch`: always at least one.
pub open spec fn pieces(text: Seq<char>, ch: char) -> Seq<Seq<char>>
    decreases text.len(),
    when first_index(text, ch) >= 0
{
    let at = first_index(text, ch);
    if at < text.len() {
        seq![text.take(at)] + pieces(text.skip(at + 1), ch)
    } else {
        seq![text]
    }
}

/// The pieces of `text` between the occurrences of `ch`.
pub fn split(text: &str, ch: char) -> (parts: Vec<String>)
    ensures
        texts_view(parts@) == pieces(text@, ch),
{
    let chars = chars_of(text);
    let mut parts: Vec<String> = Vec::new();
    let mut from: usize = 0;
    assert(text@.skip(0) =~= text@);
    proof { first_index_is_first(text@, ch); }
    assert(texts_view(parts@) + pieces(text@, ch) =~= pieces(text@, ch));
    loop
        invariant
            chars@ == text@,
            from <= chars@.len(),
            pieces(text@, ch) == texts_view(parts@) + pieces(text@.skip(from as int), ch),
        decreases chars@.len() - from,
    {
        let ghost rest = text@.skip(from as int);
        let ghost before = texts_view(parts@);
        proof { first_index_is_first(rest, ch); }
        let at = find_from(&chars, ch, from);
        let piece = string_of(vstd::slice::slice_subrange(chars.as_slice(), from, at));
        assert(piece@ =~= rest.take(at - from));
        if at < chars.len() {
            parts.push(piece);
            assert(texts_view(parts@) =~= before.push(piece@));
            assert(rest.skip(at - from + 1) =~= text@.skip(at + 1));
            proof { first_index_is_first(text@.skip(at + 1), ch); }
            assert(before + (seq![piece@] + pieces(text@.skip(at + 1), ch)) =~= before.push(piece@)
                + pieces(text@.skip(at + 1), ch));
            from = at + 1;
        } else {
            assert(rest.take(at - from) =~= rest);
            parts.push(piece);
            assert(texts_view(parts@) =~= before.push(piece@));
            assert(before + seq![rest] =~= before.push(rest));
            return parts;
        }
    }
}

/// The decimal digits of a number.
pub open spec fn decimal(number: nat) -> Seq<char>
    decreases number,
{
    if number < 10 {
        seq![digit_char(number)]
    } else {
        decimal(number / 10).push(digit_char(number % 10))
    }
}

/// The character of a digit.
pub open spec fn digit_char(digit: nat) -> char {
    (48 + digit) as char
}

/// The decimal digits of a number.
pub fn decimal_text(number: u64) -> (text: String)
    ensures
        text@ == decimal(number as nat),
    decreases number,
{
    let mut text = if number < 10 {
        String::new()
    } else {
        decimal_text(number / 10)
    };
    let digit: u8 = (number % 10) as u8;
    text.push((48 + digit) as char);
    assert(number < 10 ==> text@ =~= seq![digit_char(number as nat)]);
    text
}

/// One text after another.
pub fn join(a: &str, b: &str) -> (text: String)
    ensures
        text@ == a@ + b@,
{
    let mut text = a.to_owned();
    text.append(b);
    text
}

/// Texts one after another, with a separator between each two.
pub open spec fn joined(texts: Seq<Seq<char>>, separator: Seq<char>) -> Seq<char>
    decreases texts.len(),
{
    if texts.len() == 0 {
        Seq::empty()
    } else if texts.len() == 1 {
        texts[0]
    } else {
        joined(texts.drop_last(), separator) + separator + texts.last()
    }
}

/// Texts one after another, with a separator between each two.
pub fn join_all(texts: &Vec<String>, separator: &str) -> (text: String)
    ensures
        text@ == joined(texts_view(texts@), separator@),
{
    if texts.len() == 0 {
        return String::new();
    }
    let ghost views = texts_view(texts@);
    let mut text = texts[0].clone();
    let mut i: usize = 1;
    while i < texts.len()
        invariant
            1 <= i <= texts@.len(),
            views == texts_view(texts@),
            text@ == joined(views.take(i as int), separator@),
        decreases texts@.len() - i,
    {
        assert(views.take(i + 1).drop_last() =~= views.take(i as int));
        assert(views.take(i + 1).last() == texts@[i as int]@);
        text.append(separator);
        text.append(texts[i].as_str());
        i = i + 1;
    }
    assert(views.take(i as int) =~= views);
    text
}

/// Whether a text is in a list.
pub fn list_has(texts: &Vec<String>, text: &str) -> (has: bool)
    ensures
        has == texts_view(texts@).contains(text@),
{
    let mut i: usize = 0;
    while i < texts.len()
        invariant
            i <= texts@.len(),
            forall|k: int| 0 <= k < i ==> texts_view(texts@)[k] != text@,
        decreases texts@.len() - i,
    {
        if same_text(texts[i].as_str(), text) {
            assert(texts_view(texts@)[i as int] == text@);
            return true;
        }
        i = i + 1;
    }
    false
}

/// `text` without the white space it ends with.
pub fn trim_end<'a>(text: &'a str) -> (rest: &'a str)
    ensures
        rest@ == trimmed_end(text@),
{
    let chars = chars_of(text);
    let mut to: usize = chars.len();
    assert(text@.take(to as int) =~= text@);
    while 0 < to && whitespace(chars[to - 1])
        invariant
            chars@ == text@,
            to <= chars@.len(),
            trimmed_end(text@) == trimmed_end(text@.take(to as int)),
        decreases to,
    {
        assert(text@.take(to as int).drop_last() =~= text@.take(to - 1));
        assert(text@.take(to as int).last() == chars@[to - 1]);
        to = to - 1;
    }
    assert(0 < to ==> text@.take(to as int).last() == chars@[to - 1]);
    assert(text@.take(to as int) =~= text@.subrange(0, to as int));
    text.substring_char(0, to)
}

/// How many characters of `text` come before its first white space.
pub open spec fn word_length(text: Seq<char>) -> nat
    decreases text.len(),
{
    if text.len() == 0 || is_whitespace(text[0]) {
        0
    } else {
        1 + word_length(text.skip(1))
    }
}

/// The words of a text: what stands between its white space.
pub open spec fn words(text: Seq<char>) -> Seq<Seq<char>>
    decreases text.len(),
{
    if text.len() == 0 {
        Seq::empty()
    } else if is_whitespace(text[0]) {
        words(text.skip(1))
    } else {
        let length = word_length(text);
        if 0 < length <= text.len() {
            seq![text.take(length as int)] + words(text.skip(length as int))
        } else {
            Seq::empty()
        }
    }
}

proof fn lemma_word_length(text: Seq<char>, length: int)
    requires
        0 <= length <= text.len(),
        forall|k: int| 0 <= k < length ==> !is_whitespace(#[trigger] text[k]),
        length < text.len() ==> is_whitespace(text[length]),
    ensures
        word_length(text) == length,
    decreases text.len(),
{
    if length > 0 {
        assert(!is_whitespace(text[0]));
        assert forall|k: int| 0 <= k < length - 1 implies !is_whitespace(
            #[trigger] text.skip(1)[k],
        ) by {
            assert(!is_whitespace(text[k + 1]));
        }
        lemma_word_length(text.skip(1), length - 1);
    }
}

/// The words of a text: what stands between its white space.
pub fn split_whitespace(text: &str) -> (list: Vec<String>)
    ensures
        texts_view(list@) == words(text@),
{
    let chars = chars_of(text);
    let mut list: Vec<String> = Vec::new();
    let mut at: usize = 0;
    assert(text@.skip(0) =~= text@);
    assert(texts_view(list@) + words(text@) =~= words(text@));
    while at < chars.len()
        invariant
            chars@ == text@,
            at <= chars@.len(),
            words(text@) == texts_view(list@) + words(text@.skip(at as int)),
        decreases chars@.len() - at,
    {
        let ghost rest = text@.skip(at as int);
        let ghost before = texts_view(list@);
        assert(rest[0] == chars@[at as int]);
        if whitespace(chars[at]) {
            assert(rest.skip(1) =~= text@.skip(at + 1));
            at = at + 1;
        } else {
            let from = at;
            at = at + 1;
            while at < chars.len() && !whitespace(chars[at])
                invariant
                    chars@ == text@,
                    from < at <= chars@.len(),
                    forall|k: int| from <= k < at ==> !is_whitespace(#[trigger] chars@[k]),
                decreases chars@.len() - at,
            {
                at = at + 1;
            }
            proof {
                assert forall|k: int| 0 <= k < at - from implies !is_whitespace(
                    #[trigger] rest[k],
                ) by {
                    assert(rest[k] == chars@[from + k]);
                }
                lemma_word_length(rest, at - from);
                assert(rest.skip(at - from) =~= text@.skip(at as int));
            }
            let word = string_of(vstd::slice::slice_subrange(chars.as_slice(), from, at));
            assert(word@ =~= rest.take(at - from));
            list.push(word);
            assert(texts_view(list@) =~= before.push(word@));
            assert(before + (seq![word@] + words(text@.skip(at as int))) =~= before.push(word@)
                + words(text@.skip(at as int)));
        }
    }
    assert(text@.skip(at as int) =~= Seq::<char>::empty());
    assert(texts_view(list@) + words(text@.skip(at as int)) =~= texts_view(list@));
    list
}

/// Whether a character is a decimal digit.
pub open spec fn is_digit(ch: char) -> bool {
    '0' <= ch <= '9'
}

/// The number that decimal digits spell.
pub open spec fn digits_value(digits: Seq<char>) -> nat
    decreases digits.len(),
{
    if digits.len() == 0 {
        0
    } else {
        (digits_value(digits.drop_last()) * 10 + (digits.last() as nat - '0' as nat)) as nat
    }
}

/// A text without the plus sign that it may begin with.
pub open spec fn without_plus(text: Seq<char>) -> Seq<char> {
    if text.len() > 0 && text[0] == '+' {
        text.skip(1)
    } else {
        text
    }
}

/// Whether a text is made of decimal digits.
pub open spec fn all_digits(text: Seq<char>) -> bool {
    forall|i: int| 0 <= i < text.len() ==> is_digit(#[trigger] text[i])
}

/// The number that a text spells: decimal digits, which a plus sign may stand before, of a number
/// that fits 64 bits.
pub open spec fn parsed_number(text: Seq<char>) -> Option<u64> {
    let digits = without_plus(text);
    if digits.len() > 0 && all_digits(digits) && digits_value(digits) <= u64::MAX {
        Some(digits_value(digits) as u64)
    } else {
        None
    }
}

proof fn longer_numbers_are_larger(digits: Seq<char>, count: int)
    requires
        0 <= count <= digits.len(),
        all_digits(digits),
    ensures
        digits_value(digits.take(count)) <= digits_value(digits),
    decreases digits.len(),
{
    if count < digits.len() {
        let shorter = digits.drop_last();
        longer_numbers_are_larger(shorter, count);
        assert(shorter.take(count) =~= digits.take(count));
        assert(is_digit(digits[digits.len() - 1]));
    } else {
        assert(digits.take(count) =~= digits);
    }
}

/// The number that a text spells.
pub fn parse_number(text: &str) -> (number: Option<u64>)
    ensures
        number == parsed_number(text@),
{
    let chars = chars_of(text);
    let start: usize = if chars.len() > 0 && chars[0] == '+' {
        1
    } else {
        0
    };
    let ghost digits = without_plus(text@);
    assert(text@.skip(0) =~= text@);
    if chars.len() == start {
        return None;
    }
    let mut value: u64 = 0;
    let mut i: usize = start;
    assert(digits.take(0) =~= Seq::<char>::empty());
    while i < chars.len()
        invariant
            start <= i <= chars@.len(),
            chars@ == text@,
            digits == text@.skip(start as int),
            digits == without_plus(text@),
            digits.len() > 0,
            value == digits_value(digits.take(i - start)),
            forall|k: int| 0 <= k < i - start ==> is_digit(#[trigger] digits[k]),
        decreases chars@.len() - i,
    {
        let ch = chars[i];
        assert(digits[i - start] == ch);
        if ch < '0' || ch > '9' {
            assert(!is_digit(digits[i - start]));
            return None;
        }
        let digit: u64 = ch as u64 - '0' as u64;
        assert(digits.take(i - start + 1).drop_last() =~= digits.take(i - start));
        assert(digits.take(i - start + 1).last() == ch);
        if value > (u64::MAX - digit) / 10 {
            assert(value * 10 + digit > u64::MAX) by (nonlinear_arith)
                requires
                    value > (u64::MAX - digit) / 10,
                    digit <= 9,
            ;
            assert(digits_value(digits.take(i - start + 1)) > u64::MAX);
            proof {
                if all_digits(digits) {
                    longer_numbers_are_larger(digits, i - start + 1);
                }
            }
            return None;
        }
        value = value * 10 + digit;
        i = i + 1;
    }
    assert(digits.take(i - start) =~= digits);
    Some(value)
}

/// Whether a text comes before another, by the codes of the characters.
pub open spec fn text_less(a: Seq<char>, b: Seq<char>) -> bool
    decreases a.len(),
{
    if b.len() == 0 {
        false
    } else if a.len() == 0 {
        true
    } else if a[0] != b[0] {
        a[0] < b[0]
    } else {
        text_less(a.skip(1), b.skip(1))
    }
}

/// No text comes before itself.
pub proof fn lemma_text_less_irreflexive(a: Seq<char>)
    ensures
        !text_less(a, a),
    decreases a.len(),
{
    if a.len() > 0 {
        lemma_text_less_irreflexive(a.skip(1));
    }
}

/// What comes before a text comes before everything behind it.
pub proof fn lemma_text_less_transitive(a: Seq<char>, b: Seq<char>, c: Seq<char>)
    requires
        text_less(a, b),
        text_less(b, c),
    ensures
        text_less(a, c),
    decreases a.len(),
{
    if a.len() > 0 && a[0] == b[0] && b[0] == c[0] {
        lemma_text_less_transitive(a.skip(1), b.skip(1), c.skip(1));
    }
}

/// Of two texts one comes before the other, unless they are the same.
pub proof fn lemma_text_less_total(a: Seq<char>, b: Seq<char>)
    ensures
        text_less(a, b) || text_less(b, a) || a == b,
    decreases a.len(),
{
    if a.len() > 0 && b.len() > 0 {
        if a[0] == b[0] {
            lemma_text_less_total(a.skip(1), b.skip(1));
            if a.skip(1) == b.skip(1) {
                assert(a =~= seq![a[0]] + a.skip(1));
                assert(b =~= seq![b[0]] + b.skip(1));
            }
        }
    } else {
        assert(a.len() == 0 && b.len() == 0 ==> a =~= b);
    }
}

/// Whether a text comes before another.
pub fn comes_before(a: &str, b: &str) -> (less: bool)
    ensures
        less == text_less(a@, b@),
{
    let x = chars_of(a);
    let y = chars_of(b);
    let mut i: usize = 0;
    assert(x@.skip(0) =~= x@);
    assert(y@.skip(0) =~= y@);
    loop
        invariant
            x@ == a@,
            y@ == b@,
            i <= x@.len(),
            i <= y@.len(),
            text_less(a@, b@) == text_less(x@.skip(i as int), y@.skip(i as int)),
        decreases x@.len() - i,
    {
        if i >= y.len() {
            return false;
        }
        if i >= x.len() {
            return true;
        }
        if x[i] != y[i] {
            return x[i] < y[i];
        }
        assert(x@.skip(i as int).skip(1) =~= x@.skip(i + 1));
        assert(y@.skip(i as int).skip(1) =~= y@.skip(i + 1));
        i = i + 1;
    }
}

/// A text is found in the middle of others, at the beginning and at the end; and where it is found
/// it stands, character by character.
pub proof fn texts_are_found_where_they_stand(before: Seq<char>, text: Seq<char>, after: Seq<char>)
    ensures
        contains_text(before + text + after, text),
        has_prefix(text + after, text),
        has_suffix(before + text, text),
        without_prefix(text + after, text) == Some(after),
{
    let all = before + text + after;
    assert(all.subrange(before.len() as int, (before.len() + text.len()) as int) =~= text);
    assert(occurs_at(all, text, before.len() as int));
    assert((text + after).subrange(0, text.len() as int) =~= text);
    assert((before + text).subrange(before.len() as int, (before.len() + text.len()) as int) =~= text);
    assert((text + after).skip(text.len() as int) =~= after);
}

/// What is not there is not found: a text that holds another is that one with something around it.
pub proof fn found_texts_are_there(text: Seq<char>, needle: Seq<char>)
    ensures
        contains_text(text, needle) ==> exists|at: int|
            0 <= at && at + needle.len() <= text.len() && #[trigger] text.subrange(
                at,
                at + needle.len(),
            ) == needle,
        has_prefix(text, needle) ==> text.len() >= needle.len() && text.take(needle.len() as int)
            == needle,
        has_suffix(text, needle) ==> text.len() >= needle.len() && text.skip(
            text.len() - needle.len(),
        ) == needle,
{
    if contains_text(text, needle) {
        let at = choose|at: int| occurs_at(text, needle, at);
        assert(text.subrange(at, at + needle.len()) == needle);
    }
    if has_prefix(text, needle) {
        assert(text.subrange(0, needle.len() as int) =~= text.take(needle.len() as int));
    }
    if has_suffix(text, needle) {
        assert(text.subrange(text.len() - needle.len(), text.len() as int) =~= text.skip(
            text.len() - needle.len(),
        ));
    }
}

/// White space around a text goes, and nothing else: what is between the first and the last
/// character that is none stays as it is.
pub proof fn trimming_takes_white_space_only(
    before: Seq<char>,
    text: Seq<char>,
    after: Seq<char>,
)
    requires
        forall|i: int| 0 <= i < before.len() ==> is_whitespace(#[trigger] before[i]),
        forall|i: int| 0 <= i < after.len() ==> is_whitespace(#[trigger] after[i]),
        text.len() > 0 ==> !is_whitespace(text[0]) && !is_whitespace(text.last()),
    ensures
        trimmed(before + text + after) == text,
    decreases before.len() + after.len(),
{
    let all = before + text + after;
    if before.len() > 0 {
        let rest = before.skip(1);
        assert forall|i: int| 0 <= i < rest.len() implies is_whitespace(#[trigger] rest[i]) by {
            assert(rest[i] == before[i + 1]);
        }
        trimming_takes_white_space_only(rest, text, after);
        assert(all[0] == before[0]);
        assert(all.skip(1) =~= rest + text + after);
    } else if text.len() > 0 {
        assert(all[0] == text[0]);
        assert(trimmed_start(all) == all);
        lemma_trailing_white_space(text, after);
        assert(all =~= text + after);
    } else if after.len() > 0 {
        let rest = after.skip(1);
        assert forall|i: int| 0 <= i < rest.len() implies is_whitespace(#[trigger] rest[i]) by {
            assert(rest[i] == after[i + 1]);
        }
        trimming_takes_white_space_only(before, text, rest);
        assert(all[0] == after[0]);
        assert(all.skip(1) =~= before + text + rest);
    } else {
        assert(all =~= text);
    }
}

proof fn lemma_trailing_white_space(text: Seq<char>, after: Seq<char>)
    requires
        text.len() > 0,
        !is_whitespace(text.last()),
        forall|i: int| 0 <= i < after.len() ==> is_whitespace(#[trigger] after[i]),
    ensures
        trimmed_end(text + after) == text,
    decreases after.len(),
{
    if after.len() > 0 {
        let rest = after.drop_last();
        assert forall|i: int| 0 <= i < rest.len() implies is_whitespace(#[trigger] rest[i]) by {
            assert(rest[i] == after[i]);
        }
        lemma_trailing_white_space(text, rest);
        assert((text + after).last() == after.last());
        assert((text + after).drop_last() =~= text + rest);
    } else {
        assert(text + after =~= text);
    }
}

/// Texts are ordered by the first character in which they differ, and one that goes on comes behind
/// one that does not.
pub proof fn texts_are_ordered_by_their_first_difference(
    common: Seq<char>,
    a: Seq<char>,
    b: Seq<char>,
)
    ensures
        a.len() > 0 && b.len() > 0 && a[0] < b[0] ==> text_less(common + a, common + b)
            && !text_less(common + b, common + a),
        b.len() > 0 ==> text_less(common, common + b) && !text_less(common + b, common),
    decreases common.len(),
{
    if common.len() > 0 {
        let rest = common.skip(1);
        texts_are_ordered_by_their_first_difference(rest, a, b);
        assert((common + a).skip(1) =~= rest + a);
        assert((common + b).skip(1) =~= rest + b);
    } else {
        assert(common + a =~= a);
        assert(common + b =~= b);
    }
}

/// A text is what stands before the first occurrence of a character, the character, and the rest.
pub proof fn texts_are_cut_at_the_first_occurrence(head: Seq<char>, ch: char, rest: Seq<char>)
    requires
        !head.contains(ch),
    ensures
        split_first(head + seq![ch] + rest, ch) == (head, Some(rest)),
        split_first(head, ch) == (head, None::<Seq<char>>),
{
    let all = head + seq![ch] + rest;
    first_index_is_first(all, ch);
    first_index_is_first(head, ch);
    let at = first_index(all, ch);
    assert(all[head.len() as int] == ch);
    if at < head.len() {
        assert(head[at] == ch);
    }
    if head.len() < at {
        assert(all[head.len() as int] != ch);
    }
    assert(all.take(at) =~= head);
    assert(all.skip(at + 1) =~= rest);
    let own = first_index(head, ch);
    if own < head.len() {
        assert(head.contains(head[own]));
    }
}

/// Pieces put together again with the character between them are the text, and none of them holds
/// the character.
pub proof fn pieces_make_up_the_text(text: Seq<char>, ch: char)
    ensures
        pieces(text, ch).len() > 0,
        forall|i: int| 0 <= i < pieces(text, ch).len() ==> !(#[trigger] pieces(text, ch)[i]).contains(ch),
        put_together(pieces(text, ch), ch) == text,
    decreases text.len(),
{
    first_index_is_first(text, ch);
    let at = first_index(text, ch);
    let all = pieces(text, ch);
    if at < text.len() {
        let rest = text.skip(at + 1);
        pieces_make_up_the_text(rest, ch);
        first_index_is_first(rest, ch);
        let more = pieces(rest, ch);
        assert(all == seq![text.take(at)] + more);
        assert(all.skip(1) =~= more);
        assert forall|i: int| 0 <= i < all.len() implies !(#[trigger] all[i]).contains(ch) by {
            if i == 0 {
                if text.take(at).contains(ch) {
                    let k = text.take(at).index_of(ch);
                    assert(text[k] == ch);
                }
            } else {
                assert(all[i] == more[i - 1]);
            }
        }
        assert(put_together(all, ch) =~= text);
    } else {
        assert(all == seq![text]);
        if text.contains(ch) {
            let k = text.index_of(ch);
            assert(text[k] == ch);
        }
        assert(put_together(all, ch) =~= text);
    }
}

/// Texts one after another, with a character between each two.
pub open spec fn put_together(texts: Seq<Seq<char>>, ch: char) -> Seq<char>
    decreases texts.len(),
{
    if texts.len() == 0 {
        Seq::empty()
    } else if texts.len() == 1 {
        texts[0]
    } else {
        texts[0] + seq![ch] + put_together(texts.skip(1), ch)
    }
}

/// The letters from `A` to `Z` become small, each by itself, and nothing else changes.
pub proof fn letters_become_small(text: Seq<char>, i: int)
    requires
        0 <= i < text.len(),
    ensures
        ascii_lowercase(text).len() == text.len(),
        'A' <= text[i] <= 'Z' ==> ascii_lowercase(text)[i] as u32 == text[i] as u32 + 32,
        !('A' <= text[i] <= 'Z') ==> ascii_lowercase(text)[i] == text[i],
{
}

/// Blanks, tabs and the ends of lines are white space; what can be seen of ASCII is none.
pub proof fn white_space_is_not_seen(ch: char)
    ensures
        ch == ' ' || ch == '\t' || ch == '\n' || ch == '\r' ==> is_whitespace(ch),
        '!' <= ch <= '~' ==> !is_whitespace(ch),
{
}

/// The digits of a number spell that number.
pub proof fn digits_spell_their_number(number: nat)
    ensures
        decimal(number).len() > 0,
        all_digits(decimal(number)),
        digits_value(decimal(number)) == number,
        number <= u64::MAX ==> parsed_number(decimal(number)) == Some(number as u64),
    decreases number,
{
    if number >= 10 {
        digits_spell_their_number(number / 10);
        let rest = decimal(number / 10);
        let all = decimal(number);
        assert(all.drop_last() =~= rest);
        assert forall|i: int| 0 <= i < all.len() implies is_digit(#[trigger] all[i]) by {
            if i < rest.len() {
                assert(all[i] == rest[i]);
            }
        }
    } else {
        assert(decimal(number).drop_last() =~= Seq::<char>::empty());
        assert(digits_value(Seq::<char>::empty()) == 0);
        assert(decimal(number).last() == digit_char(number));
    }
    assert(is_digit(decimal(number)[0]));
}

/// The characters that are white space, one by one.
pub proof fn white_space_by_its_codes(ch: char)
    ensures
        is_whitespace(ch) <==> {
            let code = ch as u32;
            ||| code == 0x09 || code == 0x0a || code == 0x0b || code == 0x0c || code == 0x0d
            ||| code == 0x20 || code == 0x85 || code == 0xa0 || code == 0x1680
            ||| 0x2000 <= code < 0x200b
            ||| code == 0x2028 || code == 0x2029 || code == 0x202f || code == 0x205f || code
                == 0x3000
        },
{
}

} // verus!
