//! HTTP headers as plain values: names in lower case, values as bytes, in order.

use vstd::prelude::*;
use vstd::string::*;
use vstd::utf8::*;
use crate::text::{ascii_lowercase, same_text, texts_view};

verus! {

/// A list of headers. A name may occur more than once.
#[derive(Debug, PartialEq, Eq)]
pub struct Headers {
    pub entries: Vec<(String, Vec<u8>)>,
}

/// A list of headers as a mathematical value.
pub type HeadersView = Seq<(Seq<char>, Seq<u8>)>;

impl View for Headers {
    type V = HeadersView;

    open spec fn view(&self) -> HeadersView {
        self.entries@.map_values(|entry: (String, Vec<u8>)| (entry.0@, entry.1@))
    }
}

/// Whether a byte of a header value is a visible ASCII character, a space or a tab.
pub open spec fn visible_byte(byte: u8) -> bool {
    32 <= byte < 127 || byte == 9
}

/// The text of a header value, where it holds visible ASCII characters only.
pub open spec fn visible_text(value: Seq<u8>) -> Option<Seq<char>> {
    if forall|i: int| 0 <= i < value.len() ==> visible_byte(#[trigger] value[i]) {
        Some(value.map_values(|byte: u8| byte as char))
    } else {
        None
    }
}

/// The text of a header value, where it holds visible ASCII characters only.
pub fn header_text(value: &[u8]) -> (text: Option<String>)
    ensures
        match text {
            Some(text) => visible_text(value@) == Some(text@),
            None => visible_text(value@) is None,
        },
{
    let mut text = String::new();
    let mut i: usize = 0;
    while i < value.len()
        invariant
            i <= value@.len(),
            forall|k: int| 0 <= k < i ==> visible_byte(#[trigger] value@[k]),
            text@ == value@.map_values(|byte: u8| byte as char).take(i as int),
        decreases value@.len() - i,
    {
        let byte: u8 = value[i];
        if !((32 <= byte && byte < 127) || byte == 9) {
            assert(!visible_byte(value@[i as int]));
            return None;
        }
        text.push(byte as char);
        i = i + 1;
    }
    assert(text@ =~= value@.map_values(|byte: u8| byte as char));
    Some(text)
}

/// The texts of the headers of that name, in order, without values that are no text.
pub open spec fn header_texts(headers: HeadersView, name: Seq<char>) -> Seq<Seq<char>>
    decreases headers.len(),
{
    if headers.len() == 0 {
        Seq::empty()
    } else {
        let before = header_texts(headers.drop_last(), name);
        match visible_text(headers.last().1) {
            Some(text) if headers.last().0 == name => before.push(text),
            _ => before,
        }
    }
}

/// The values of the headers of that name, in order.
pub open spec fn header_values(headers: HeadersView, name: Seq<char>) -> Seq<Seq<u8>>
    decreases headers.len(),
{
    if headers.len() == 0 {
        Seq::empty()
    } else {
        let before = header_values(headers.drop_last(), name);
        if headers.last().0 == name {
            before.push(headers.last().1)
        } else {
            before
        }
    }
}

/// The bytes of each value in a list.
pub open spec fn values_view(values: Seq<Vec<u8>>) -> Seq<Seq<u8>> {
    values.map_values(|value: Vec<u8>| value@)
}

/// The value of the first header of that name.
pub open spec fn first_value(headers: HeadersView, name: Seq<char>) -> Option<Seq<u8>>
    decreases headers.len(),
{
    if headers.len() == 0 {
        None
    } else if headers[0].0 == name {
        Some(headers[0].1)
    } else {
        first_value(headers.skip(1), name)
    }
}

/// The text of the first header of that name, where it is a text.
pub open spec fn first_text(headers: HeadersView, name: Seq<char>) -> Option<Seq<char>> {
    match first_value(headers, name) {
        Some(value) => visible_text(value),
        None => None,
    }
}

impl Headers {
    /// No headers.
    pub fn new() -> (headers: Headers)
        ensures
            headers@ == Seq::<(Seq<char>, Seq<u8>)>::empty(),
    {
        let headers = Headers { entries: Vec::new() };
        assert(headers@ =~= Seq::<(Seq<char>, Seq<u8>)>::empty());
        headers
    }

    /// Adds a header at the end.
    pub fn append(&mut self, name: &str, value: &[u8])
        ensures
            final(self)@ == old(self)@.push((name@, value@)),
    {
        self.entries.push((name.to_owned(), vstd::slice::slice_to_vec(value)));
        assert(self@ =~= old(self)@.push((name@, value@)));
    }

    /// The texts of the headers of that name, in order, without values that are no text.
    pub fn texts(&self, name: &str) -> (texts: Vec<String>)
        ensures
            texts_view(texts@) == header_texts(self@, name@),
    {
        let mut texts: Vec<String> = Vec::new();
        let mut i: usize = 0;
        assert(texts_view(texts@) =~= Seq::<Seq<char>>::empty());
        while i < self.entries.len()
            invariant
                i <= self.entries@.len(),
                texts_view(texts@) == header_texts(self@.take(i as int), name@),
            decreases self.entries@.len() - i,
        {
            let ghost before = texts_view(texts@);
            assert(self@.take(i + 1).drop_last() =~= self@.take(i as int));
            assert(self@.take(i + 1).last() == (
                self.entries@[i as int].0@,
                self.entries@[i as int].1@,
            ));
            match header_text(self.entries[i].1.as_slice()) {
                Some(text) => {
                    if same_text(self.entries[i].0.as_str(), name) {
                        texts.push(text);
                        assert(texts_view(texts@) =~= before.push(text@));
                    }
                },
                None => {},
            }
            i = i + 1;
        }
        assert(self@.take(i as int) =~= self@);
        texts
    }

    /// The values of the headers of that name, in order.
    pub fn values(&self, name: &str) -> (values: Vec<Vec<u8>>)
        ensures
            values_view(values@) == header_values(self@, name@),
    {
        let mut values: Vec<Vec<u8>> = Vec::new();
        let mut i: usize = 0;
        assert(values_view(values@) =~= Seq::<Seq<u8>>::empty());
        while i < self.entries.len()
            invariant
                i <= self.entries@.len(),
                values_view(values@) == header_values(self@.take(i as int), name@),
            decreases self.entries@.len() - i,
        {
            let ghost before = values_view(values@);
            assert(self@.take(i + 1).drop_last() =~= self@.take(i as int));
            assert(self@.take(i + 1).last() == (
                self.entries@[i as int].0@,
                self.entries@[i as int].1@,
            ));
            if same_text(self.entries[i].0.as_str(), name) {
                values.push(vstd::slice::slice_to_vec(self.entries[i].1.as_slice()));
                assert(values_view(values@) =~= before.push(self.entries@[i as int].1@));
            }
            i = i + 1;
        }
        assert(self@.take(i as int) =~= self@);
        values
    }

    /// The value of the first header of that name.
    pub fn get(&self, name: &str) -> (value: Option<&Vec<u8>>)
        ensures
            match value {
                Some(value) => first_value(self@, name@) == Some(value@),
                None => first_value(self@, name@) is None,
            },
    {
        let mut i: usize = 0;
        assert(self@.skip(0) =~= self@);
        while i < self.entries.len()
            invariant
                i <= self.entries@.len(),
                first_value(self@, name@) == first_value(self@.skip(i as int), name@),
            decreases self.entries@.len() - i,
        {
            assert(self@.skip(i as int)[0] == (
                self.entries@[i as int].0@,
                self.entries@[i as int].1@,
            ));
            if same_text(self.entries[i].0.as_str(), name) {
                return Some(&self.entries[i].1);
            }
            assert(self@.skip(i as int).skip(1) =~= self@.skip(i + 1));
            i = i + 1;
        }
        None
    }

    /// The text of the first header of that name, where it is a text.
    pub fn get_text(&self, name: &str) -> (text: Option<String>)
        ensures
            match text {
                Some(text) => first_text(self@, name@) == Some(text@),
                None => first_text(self@, name@) is None,
            },
    {
        match self.get(name) {
            Some(value) => header_text(value.as_slice()),
            None => None,
        }
    }

    /// Whether there is a header of that name.
    pub fn has(&self, name: &str) -> (has: bool)
        ensures
            has == (first_value(self@, name@) is Some),
    {
        self.get(name).is_some()
    }
}

proof fn lemma_first_value_push(headers: HeadersView, entry: (Seq<char>, Seq<u8>), name: Seq<char>)
    ensures
        first_value(headers.push(entry), name) == (match first_value(headers, name) {
            Some(value) => Some(value),
            None => if entry.0 == name {
                Some(entry.1)
            } else {
                None
            },
        }),
    decreases headers.len(),
{
    let all = headers.push(entry);
    if headers.len() == 0 {
        assert(all.skip(1) =~= Seq::<(Seq<char>, Seq<u8>)>::empty());
        reveal_with_fuel(first_value, 2);
    } else {
        assert(all[0] == headers[0]);
        assert(all.skip(1) =~= headers.skip(1).push(entry));
        lemma_first_value_push(headers.skip(1), entry, name);
    }
}

/// The first value of a name is the first of its values, and there is one exactly where there
/// are any.
pub proof fn first_value_is_the_first(headers: HeadersView, name: Seq<char>)
    ensures
        first_value(headers, name) == (if header_values(headers, name).len() > 0 {
            Some(header_values(headers, name)[0])
        } else {
            None
        }),
    decreases headers.len(),
{
    if headers.len() > 0 {
        first_value_is_the_first(headers.drop_last(), name);
        lemma_first_value_push(headers.drop_last(), headers.last(), name);
        assert(headers.drop_last().push(headers.last()) =~= headers);
    }
}

/// Whether a byte may stand in a header value.
pub open spec fn value_byte(byte: u8) -> bool {
    (byte >= 32 && byte != 127) || byte == 9
}

/// The header value that a text makes, where all its bytes may stand in one.
pub open spec fn text_value(text: Seq<char>) -> Option<Seq<u8>> {
    let bytes = encode_utf8(text);
    if forall|i: int| 0 <= i < bytes.len() ==> value_byte(#[trigger] bytes[i]) {
        Some(bytes)
    } else {
        None
    }
}

/// The header value that a text makes, where all its bytes may stand in one.
pub fn header_value(text: &str) -> (value: Option<Vec<u8>>)
    ensures
        match value {
            Some(value) => text_value(text@) == Some(value@),
            None => text_value(text@) is None,
        },
{
    let bytes = text.as_bytes();
    let mut i: usize = 0;
    while i < bytes.len()
        invariant
            i <= bytes@.len(),
            bytes@ == encode_utf8(text@),
            forall|k: int| 0 <= k < i ==> value_byte(#[trigger] bytes@[k]),
        decreases bytes@.len() - i,
    {
        let byte: u8 = bytes[i];
        if !((byte >= 32 && byte != 127) || byte == 9) {
            assert(!value_byte(encode_utf8(text@)[i as int]));
            return None;
        }
        i = i + 1;
    }
    Some(vstd::slice::slice_to_vec(bytes))
}

/// Whether a character may stand in a header name.
pub open spec fn name_char(ch: char) -> bool {
    ||| 'a' <= ch <= 'z'
    ||| 'A' <= ch <= 'Z'
    ||| '0' <= ch <= '9'
    ||| ch == '!' || ch == '#' || ch == '$' || ch == '%' || ch == '&' || ch == '\''
    ||| ch == '*' || ch == '+' || ch == '-' || ch == '.' || ch == '^' || ch == '_'
    ||| ch == '`' || ch == '|' || ch == '~'
}

/// The header name that a text makes: its lower case, where it is not empty, not longer than a
/// name may be, and all its characters may stand in one.
pub open spec fn text_name(text: Seq<char>) -> Option<Seq<char>> {
    if 0 < text.len() <= 65535 && forall|i: int|
        0 <= i < text.len() ==> name_char(#[trigger] text[i]) {
        Some(ascii_lowercase(text))
    } else {
        None
    }
}

/// `http::HeaderName::from_bytes` on the bytes of a text: the name in lower case, or none where
/// the text is empty, longer than 65535 bytes, or holds a character that is no token character.
#[verifier::external_body]
pub(crate) fn header_name(text: &str) -> (name: Option<String>)
    ensures
        match name {
            Some(name) => text_name(text@) == Some(name@),
            None => text_name(text@) is None,
        },
{
    match http::HeaderName::from_bytes(text.as_bytes()) {
        Ok(name) => Some(name.as_str().to_string()),
        Err(_) => None,
    }
}

/// The headers with the first header of that name given a new value and the others of that name
/// taken out; `placed` says that the new value is in already.
pub open spec fn replaced(
    headers: HeadersView,
    name: Seq<char>,
    value: Seq<u8>,
    placed: bool,
) -> HeadersView
    decreases headers.len(),
{
    if headers.len() == 0 {
        Seq::empty()
    } else if headers[0].0 != name {
        seq![headers[0]] + replaced(headers.skip(1), name, value, placed)
    } else if placed {
        replaced(headers.skip(1), name, value, true)
    } else {
        seq![(name, value)] + replaced(headers.skip(1), name, value, true)
    }
}

/// The headers with one value for a name: in the place of the first header of that name, else at
/// the end.
pub open spec fn with_header(headers: HeadersView, name: Seq<char>, value: Seq<u8>) -> HeadersView {
    if first_value(headers, name) is Some {
        replaced(headers, name, value, false)
    } else {
        headers.push((name, value))
    }
}

impl Headers {
    /// Sets the one value of a name: in the place of the first header of that name, else at the
    /// end.
    pub fn insert(&mut self, name: &str, value: &[u8])
        ensures
            final(self)@ == with_header(old(self)@, name@, value@),
    {
        if !self.has(name) {
            self.append(name, value);
            return;
        }
        let ghost all = self@;
        let mut rest: Vec<(String, Vec<u8>)> = Vec::new();
        core::mem::swap(&mut rest, &mut self.entries);
        let mut placed = false;
        let mut made = Headers::new();
        let count: usize = rest.len();
        let mut i: usize = 0;
        assert(all.skip(0) =~= all);
        assert(made@ + replaced(all, name@, value@, false) =~= replaced(
            all,
            name@,
            value@,
            false,
        ));
        while i < count
            invariant
                count == rest@.len(),
                i <= count,
                all == rest@.map_values(|entry: (String, Vec<u8>)| (entry.0@, entry.1@)),
                replaced(all, name@, value@, false) == made@ + replaced(
                    all.skip(i as int),
                    name@,
                    value@,
                    placed,
                ),
            decreases count - i,
        {
            let ghost before = made@;
            let ghost left = all.skip(i as int);
            assert(left[0] == (rest@[i as int].0@, rest@[i as int].1@));
            assert(left.skip(1) =~= all.skip(i + 1));
            if !same_text(rest[i].0.as_str(), name) {
                made.append(rest[i].0.as_str(), rest[i].1.as_slice());
                assert(before + (seq![left[0]] + replaced(all.skip(i + 1), name@, value@, placed))
                    =~= made@ + replaced(all.skip(i + 1), name@, value@, placed));
            } else if !placed {
                made.append(name, value);
                assert(before + (seq![(name@, value@)] + replaced(
                    all.skip(i + 1),
                    name@,
                    value@,
                    true,
                )) =~= made@ + replaced(all.skip(i + 1), name@, value@, true));
                placed = true;
            }
            i = i + 1;
        }
        assert(made@ + replaced(all.skip(i as int), name@, value@, placed) =~= made@);
        self.entries = made.entries;
    }
}

proof fn lemma_values_concat(a: HeadersView, b: HeadersView, name: Seq<char>)
    ensures
        header_values(a + b, name) == header_values(a, name) + header_values(b, name),
    decreases b.len(),
{
    if b.len() == 0 {
        assert(a + b =~= a);
        assert(header_values(a, name) + header_values(b, name) =~= header_values(a, name));
    } else {
        assert((a + b).drop_last() =~= a + b.drop_last());
        lemma_values_concat(a, b.drop_last(), name);
        if b.last().0 == name {
            assert(header_values(a, name) + header_values(b.drop_last(), name).push(b.last().1)
                =~= (header_values(a, name) + header_values(b.drop_last(), name)).push(
                b.last().1,
            ));
        }
    }
}

proof fn lemma_values_one(entry: (Seq<char>, Seq<u8>), name: Seq<char>)
    ensures
        header_values(seq![entry], name) == (if entry.0 == name {
            seq![entry.1]
        } else {
            Seq::<Seq<u8>>::empty()
        }),
{
    reveal_with_fuel(header_values, 2);
    assert(seq![entry].drop_last() =~= Seq::<(Seq<char>, Seq<u8>)>::empty());
    if entry.0 == name {
        assert(Seq::<Seq<u8>>::empty().push(entry.1) =~= seq![entry.1]);
    }
}

proof fn lemma_replaced_values(
    headers: HeadersView,
    name: Seq<char>,
    value: Seq<u8>,
    placed: bool,
    other: Seq<char>,
)
    ensures
        header_values(replaced(headers, name, value, placed), other) == (if other != name {
            header_values(headers, other)
        } else if placed || header_values(headers, name).len() == 0 {
            Seq::<Seq<u8>>::empty()
        } else {
            seq![value]
        }),
    decreases headers.len(),
{
    if headers.len() > 0 {
        let first = headers[0];
        let rest = headers.skip(1);
        assert(headers =~= seq![first] + rest);
        lemma_values_concat(seq![first], rest, other);
        lemma_values_concat(seq![first], rest, name);
        lemma_values_one(first, other);
        lemma_values_one(first, name);
        if first.0 != name {
            lemma_replaced_values(rest, name, value, placed, other);
            lemma_values_concat(seq![first], replaced(rest, name, value, placed), other);
            assert(Seq::<Seq<u8>>::empty() + header_values(rest, name) =~= header_values(
                rest,
                name,
            ));
            assert(Seq::<Seq<u8>>::empty() + seq![value] =~= seq![value]);
        } else if placed {
            lemma_replaced_values(rest, name, value, true, other);
        } else {
            lemma_replaced_values(rest, name, value, true, other);
            lemma_values_concat(seq![(name, value)], replaced(rest, name, value, true), other);
            lemma_values_one((name, value), other);
            assert(seq![value] + Seq::<Seq<u8>>::empty() =~= seq![value]);
        }
        assert(Seq::<Seq<u8>>::empty() + header_values(rest, other) =~= header_values(
            rest,
            other,
        ));
    }
}

/// Setting a header makes the value the only one of its name and leaves every other name alone.
pub proof fn set_header_is_the_only_one(
    headers: HeadersView,
    name: Seq<char>,
    value: Seq<u8>,
    other: Seq<char>,
)
    ensures
        header_values(with_header(headers, name, value), name) == seq![value],
        other != name ==> header_values(with_header(headers, name, value), other)
            == header_values(headers, other),
{
    first_value_is_the_first(headers, name);
    if first_value(headers, name) is Some {
        lemma_replaced_values(headers, name, value, false, name);
        lemma_replaced_values(headers, name, value, false, other);
    } else {
        let all = headers.push((name, value));
        assert(all.drop_last() =~= headers);
        assert(header_values(headers, name) =~= Seq::<Seq<u8>>::empty());
        assert(header_values(all, name) =~= seq![value]);
    }
}

/// The value of a header is a text where all its bytes can be seen or are blanks and tabs: each is
/// then a character; with any other byte it is none.
pub proof fn header_texts_are_ascii(value: Seq<u8>, i: int)
    requires
        0 <= i < value.len(),
    ensures
        visible_text(value) matches Some(text) ==> text.len() == value.len() && text[i]
            == value[i] as char && (32 <= value[i] <= 126 || value[i] == 9),
        value[i] < 9 || 10 <= value[i] < 32 || value[i] >= 127 ==> visible_text(value) is None,
        (forall|k: int| 0 <= k < value.len() ==> 32 <= #[trigger] value[k] <= 126) ==> visible_text(
            value,
        ) is Some,
{
}

/// The first header of a name is the one that is read, and its value is read as a text.
pub proof fn the_first_header_is_read(
    before: HeadersView,
    name: Seq<char>,
    value: Seq<u8>,
    after: HeadersView,
)
    requires
        forall|i: int| 0 <= i < before.len() ==> (#[trigger] before[i]).0 != name,
    ensures
        first_value(before.push((name, value)) + after, name) == Some(value),
        first_text(before.push((name, value)) + after, name) == visible_text(value),
        first_value(before, name) is None,
        first_text(before, name) is None,
    decreases before.len(),
{
    let all = before.push((name, value)) + after;
    if before.len() > 0 {
        let rest = before.skip(1);
        assert forall|i: int| 0 <= i < rest.len() implies (#[trigger] rest[i]).0 != name by {
            assert(rest[i] == before[i + 1]);
        }
        the_first_header_is_read(rest, name, value, after);
        assert(all[0] == before[0]);
        assert(all.skip(1) =~= rest.push((name, value)) + after);
    } else {
        assert(all[0] == (name, value));
    }
}

/// The texts of a name are those of its headers, in their order, without what is no text.
pub proof fn texts_are_listed_in_order(headers: HeadersView, name: Seq<char>, value: Seq<u8>, other: Seq<char>)
    ensures
        visible_text(value) matches Some(text) ==> header_texts(headers.push((name, value)), name)
            == header_texts(headers, name).push(text),
        visible_text(value) is None ==> header_texts(headers.push((name, value)), name)
            == header_texts(headers, name),
        other != name ==> header_texts(headers.push((other, value)), name) == header_texts(
            headers,
            name,
        ),
        header_values(headers.push((name, value)), name) == header_values(headers, name).push(value),
        other != name ==> header_values(headers.push((other, value)), name) == header_values(
            headers,
            name,
        ),
{
    assert(headers.push((name, value)).drop_last() =~= headers);
    assert(headers.push((other, value)).drop_last() =~= headers);
}

/// A text makes a value where it holds no control characters but tabs, and the value is its UTF-8; a
/// text makes a name where it holds letters, digits and the characters of a token alone, and the name
/// is its lower case.
pub proof fn names_and_values_are_made_of_texts(text: Seq<char>, i: int)
    ensures
        text_value(text) matches Some(value) ==> value == encode_utf8(text) && (0 <= i < value.len()
            ==> value[i] == 9 || (32 <= value[i] && value[i] != 127)),
        0 <= i < encode_utf8(text).len() && encode_utf8(text)[i] < 32 && encode_utf8(text)[i] != 9
            ==> text_value(text) is None,
        (forall|k: int|
            0 <= k < encode_utf8(text).len() ==> 32 <= #[trigger] encode_utf8(text)[k] < 127)
            ==> text_value(text) is Some,
        text_name(text) matches Some(name) ==> name == ascii_lowercase(text) && text.len() > 0,
        text.len() == 0 || text.len() > 65535 ==> text_name(text) is None,
        0 <= i < text.len() && (text[i] == ' ' || text[i] == ':' || text[i] == '\n' || text[i]
            == '\r') ==> text_name(text) is None,
        0 < text.len() <= 65535 && (forall|k: int|
            0 <= k < text.len() ==> 'a' <= #[trigger] text[k] <= 'z' || 'A' <= text[k] <= 'Z' || '0'
                <= text[k] <= '9' || text[k] == '-' || text[k] == '_') ==> text_name(text) is Some,
{
}

/// The characters that a name may hold besides letters and digits are those of a token.
pub proof fn names_are_tokens(ch: char)
    ensures
        name_char(ch) <==> {
            ||| 'a' <= ch <= 'z' || 'A' <= ch <= 'Z' || '0' <= ch <= '9'
            ||| ch == '!' || ch == '#' || ch == '$' || ch == '%' || ch == '&' || ch == '\''
            ||| ch == '*' || ch == '+' || ch == '-' || ch == '.' || ch == '^' || ch == '_'
            ||| ch == '`' || ch == '|' || ch == '~'
        },
{
}

} // verus!
