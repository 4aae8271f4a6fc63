//! JSON documents as plain values.

use serde_json::{Number, Value};
use vstd::prelude::*;
use vstd::string::*;
use vstd::utf8::*;
use crate::text::same_text;

verus! {

/// A JSON number: an integer that fits 64 bits, or the shortest text of a float.
#[derive(Debug, PartialEq, Eq)]
pub enum JsonNumber {
    Unsigned(u64),
    Negative(i64),
    Float(String),
}

/// A JSON document. The members of an object stand in order.
#[derive(Debug, PartialEq, Eq)]
pub enum Json {
    Null,
    Bool(bool),
    Number(JsonNumber),
    Str(String),
    Array(Vec<Json>),
    Object(Vec<(String, Json)>),
}

/// A JSON number as a mathematical value.
pub enum JsonNumberView {
    Unsigned(u64),
    Negative(i64),
    Float(Seq<char>),
}

/// A JSON document as a mathematical value.
pub enum JsonView {
    Null,
    Bool(bool),
    Number(JsonNumberView),
    Str(Seq<char>),
    Array(Seq<JsonView>),
    Object(Seq<(Seq<char>, JsonView)>),
}

/// The mathematical value of a number.
pub open spec fn number_view(number: JsonNumber) -> JsonNumberView {
    match number {
        JsonNumber::Unsigned(value) => JsonNumberView::Unsigned(value),
        JsonNumber::Negative(value) => JsonNumberView::Negative(value),
        JsonNumber::Float(text) => JsonNumberView::Float(text@),
    }
}

/// The mathematical value of a document.
pub open spec fn json_view(json: Json) -> JsonView
    decreases json,
{
    match json {
        Json::Null => JsonView::Null,
        Json::Bool(value) => JsonView::Bool(value),
        Json::Number(number) => JsonView::Number(number_view(number)),
        Json::Str(text) => JsonView::Str(text@),
        Json::Array(items) => JsonView::Array(
            Seq::new(
                items@.len(),
                |i: int|
                    if 0 <= i < items@.len() {
                        json_view(items@[i])
                    } else {
                        JsonView::Null
                    },
            ),
        ),
        Json::Object(members) => JsonView::Object(
            Seq::new(
                members@.len(),
                |i: int|
                    if 0 <= i < members@.len() {
                        (members@[i].0@, json_view(members@[i].1))
                    } else {
                        (Seq::empty(), JsonView::Null)
                    },
            ),
        ),
    }
}

impl View for Json {
    type V = JsonView;

    open spec fn view(&self) -> JsonView {
        json_view(*self)
    }
}

/// The mathematical values of a list of documents.
pub open spec fn items_view(items: Seq<Json>) -> Seq<JsonView> {
    items.map_values(|item: Json| item@)
}

/// The mathematical values of the members of an object.
pub open spec fn members_view(members: Seq<(String, Json)>) -> Seq<(Seq<char>, JsonView)> {
    members.map_values(|member: (String, Json)| (member.0@, member.1@))
}

/// The value of an optional document.
pub open spec fn opt_json_view(json: Option<&Json>) -> Option<JsonView> {
    match json {
        Some(json) => Some(json@),
        None => None,
    }
}

/// An array holds the values of its items, an object those of its members.
pub broadcast proof fn container_views(json: Json)
    ensures
        (#[trigger] json_view(json)) == (match json {
            Json::Array(items) => JsonView::Array(items_view(items@)),
            Json::Object(members) => JsonView::Object(members_view(members@)),
            _ => json_view(json),
        }),
{
    match json {
        Json::Array(items) => {
            assert(json_view(json)->Array_0 =~= items_view(items@));
        },
        Json::Object(members) => {
            assert(json_view(json)->Object_0 =~= members_view(members@));
        },
        _ => {},
    }
}

/// The position of the first member named `key`, or the number of members where there is none.
pub open spec fn member_index(members: Seq<(Seq<char>, JsonView)>, key: Seq<char>) -> int
    decreases members.len(),
{
    if members.len() == 0 || members[0].0 == key {
        0
    } else {
        1 + member_index(members.skip(1), key)
    }
}

/// What [`member_index`] is: no earlier member has that name.
pub proof fn member_index_is_first(members: Seq<(Seq<char>, JsonView)>, key: Seq<char>)
    ensures
        0 <= member_index(members, key) <= members.len(),
        member_index(members, key) < members.len() ==> members[member_index(members, key)].0 == key,
        forall|k: int| 0 <= k < member_index(members, key) ==> members[k].0 != key,
    decreases members.len(),
{
    if !(members.len() == 0 || members[0].0 == key) {
        let rest = members.skip(1);
        member_index_is_first(rest, key);
        assert forall|k: int| 0 <= k < member_index(members, key) implies members[k].0 != key by {
            if k > 0 {
                assert(rest[k - 1] == members[k]);
            }
        }
    }
}

/// A position that holds the name while no earlier one does is the [`member_index`].
pub proof fn member_index_unique(members: Seq<(Seq<char>, JsonView)>, key: Seq<char>, at: int)
    requires
        0 <= at <= members.len(),
        at < members.len() ==> members[at].0 == key,
        forall|k: int| 0 <= k < at ==> members[k].0 != key,
    ensures
        member_index(members, key) == at,
{
    member_index_is_first(members, key);
    let first = member_index(members, key);
    if first < at {
        assert(members[first].0 != key);
    }
    if at < first {
        assert(members[at].0 != key);
    }
}

impl JsonView {
    /// The member of that name, where the document is an object that has it.
    pub open spec fn member(self, key: Seq<char>) -> Option<JsonView> {
        match self {
            JsonView::Object(members) => {
                let at = member_index(members, key);
                if at < members.len() {
                    Some(members[at].1)
                } else {
                    None
                }
            },
            _ => None,
        }
    }

    /// The member of a member, where both are there.
    pub open spec fn member2(self, outer: Seq<char>, inner: Seq<char>) -> Option<JsonView> {
        match self.member(outer) {
            Some(json) => json.member(inner),
            None => None,
        }
    }

    /// The text of a string.
    pub open spec fn text(self) -> Option<Seq<char>> {
        match self {
            JsonView::Str(text) => Some(text),
            _ => None,
        }
    }

    /// The text of the member of that name, where it is a string.
    pub open spec fn member_text(self, key: Seq<char>) -> Option<Seq<char>> {
        match self.member(key) {
            Some(json) => json.text(),
            None => None,
        }
    }

    /// The value of the member of that name, where it is a truth value.
    pub open spec fn member_bool(self, key: Seq<char>) -> Option<bool> {
        match self.member(key) {
            Some(JsonView::Bool(value)) => Some(value),
            _ => None,
        }
    }

    /// The items of the member of that name, where it is an array.
    pub open spec fn member_array(self, key: Seq<char>) -> Option<Seq<JsonView>> {
        match self.member(key) {
            Some(JsonView::Array(items)) => Some(items),
            _ => None,
        }
    }

    /// The value of a number that is a 64-bit unsigned integer.
    pub open spec fn unsigned(self) -> Option<u64> {
        match self {
            JsonView::Number(JsonNumberView::Unsigned(value)) => Some(value),
            _ => None,
        }
    }

    /// The document with the member of that name set: replaced in place, else appended.
    /// Only an object has members to set.
    pub open spec fn with_member(self, key: Seq<char>, value: JsonView) -> JsonView {
        match self {
            JsonView::Object(members) => {
                let at = member_index(members, key);
                JsonView::Object(
                    if at < members.len() {
                        members.update(at, (key, value))
                    } else {
                        members.push((key, value))
                    },
                )
            },
            _ => self,
        }
    }
}

impl JsonView {
    /// The document with the member of that name set, where `null` stands for an object
    /// without members.
    pub open spec fn with_index(self, key: Seq<char>, value: JsonView) -> JsonView {
        match self {
            JsonView::Null => JsonView::Object(seq![(key, value)]),
            _ => self.with_member(key, value),
        }
    }
}

/// Setting a member makes it the member of that name and leaves every other member alone.
pub proof fn set_member_is_read_back(json: JsonView, key: Seq<char>, value: JsonView)
    requires
        json is Object,
    ensures
        json.with_member(key, value).member(key) == Some(value),
        forall|other: Seq<char>|
            other != key ==> json.with_member(key, value).member(other) == #[trigger] json.member(
                other,
            ),
{
    let before = json->Object_0;
    let after = json.with_member(key, value)->Object_0;
    let at = member_index(before, key);
    member_index_is_first(before, key);
    member_index_unique(after, key, at);
    assert forall|other: Seq<char>| other != key implies json.with_member(key, value).member(other)
        == #[trigger] json.member(other) by {
        member_index_is_first(before, other);
        let old_at = member_index(before, other);
        if old_at < before.len() {
            member_index_unique(after, other, old_at);
        } else {
            member_index_unique(after, other, after.len() as int);
        }
    }
}

/// Whether two numbers, as JSON writes them, are the same as floating-point values.
pub uninterp spec fn same_floats(a: Seq<char>, b: Seq<char>) -> bool;

/// `==` of the `serde_json::Number::from_f64` of the floats that two texts spell: whether both give
/// the same value. That depends on the texts alone, and holds of a text and itself.
#[verifier::external_body]
pub(crate) fn numbers_are_same(a: &str, b: &str) -> (same: bool)
    ensures
        same == same_floats(a@, b@),
        a@ == b@ ==> same,
{
    let first = a.parse().ok().and_then(Number::from_f64);
    let second = b.parse().ok().and_then(Number::from_f64);
    first == second
}

/// Whether two numbers are equal: integers by their value, floats by theirs, and never one of each.
pub open spec fn number_equal(a: JsonNumberView, b: JsonNumberView) -> bool {
    match (a, b) {
        (JsonNumberView::Float(x), JsonNumberView::Float(y)) => x == y || same_floats(x, y),
        _ => a == b,
    }
}

/// Whether two documents are equal: objects whatever the order of their members, numbers by their
/// value.
pub open spec fn json_equal(a: JsonView, b: JsonView) -> bool
    decreases a,
{
    match (a, b) {
        (JsonView::Array(x), JsonView::Array(y)) => x.len() == y.len() && forall|i: int|
            0 <= i < x.len() ==> json_equal(#[trigger] x[i], y[i]),
        (JsonView::Object(x), JsonView::Object(y)) => x.len() == y.len() && forall|i: int|
            0 <= i < x.len() ==> (b.member((#[trigger] x[i]).0) matches Some(value) && json_equal(
                x[i].1,
                value,
            )),
        (JsonView::Number(x), JsonView::Number(y)) => number_equal(x, y),
        (JsonView::Array(_), _) | (JsonView::Object(_), _) => false,
        _ => a == b,
    }
}

/// Setting a member to what it is already changes nothing.
pub proof fn set_member_to_itself(json: JsonView, key: Seq<char>, value: JsonView)
    requires
        json.member(key) == Some(value),
    ensures
        json.with_member(key, value) == json,
{
    let members = json->Object_0;
    member_index_is_first(members, key);
    assert(json.with_member(key, value)->Object_0 =~= members);
}

#[verifier::external_type_specification]
#[verifier::external_body]
pub struct ExValue(serde_json::Value);

/// The document that a `serde_json::Value` holds.
pub uninterp spec fn json_document(value: serde_json::Value) -> JsonView;

/// The document that a byte string spells, where it is one JSON document.
pub uninterp spec fn parsed_json(bytes: Seq<u8>) -> Option<JsonView>;

/// The document that a text spells, where it is one JSON document.
pub open spec fn parsed_text(text: Seq<char>) -> Option<JsonView> {
    parsed_json(encode_utf8(text))
}

/// `serde_json::from_slice`: the document that the bytes spell, or none where they are no
/// JSON. The outcome is a function of the bytes.
#[verifier::external_body]
pub(crate) fn parse_value(bytes: &[u8]) -> (value: Option<serde_json::Value>)
    ensures
        match value {
            Some(value) => parsed_json(bytes@) == Some(json_document(value)),
            None => parsed_json(bytes@) is None,
        },
{
    serde_json::from_slice(bytes).ok()
}

/// The same document as a `serde_json::Value` holds: each variant, item and member moved as it
/// is, a number by its integer value where `serde_json::Number` has one and else by its text.
#[verifier::external_body]
pub(crate) fn json_of(value: serde_json::Value) -> (json: Json)
    ensures
        json@ == json_document(value),
{
    match value {
        serde_json::Value::Null => Json::Null,
        serde_json::Value::Bool(value) => Json::Bool(value),
        serde_json::Value::Number(number) => Json::Number(match (number.as_u64(), number.as_i64()) {
            (Some(value), _) => JsonNumber::Unsigned(value),
            (None, Some(value)) => JsonNumber::Negative(value),
            (None, None) => JsonNumber::Float(number.to_string()),
        }),
        serde_json::Value::String(text) => Json::Str(text),
        serde_json::Value::Array(items) => Json::Array(items.into_iter().map(json_of).collect()),
        serde_json::Value::Object(members) => Json::Object(members.into_iter().map(|(key, value)| (key, json_of(value))).collect()),
    }
}

/// The text that `serde_json` writes a document as, without white space.
pub uninterp spec fn rendered_json(json: JsonView) -> Seq<char>;

/// `serde_json::Value::to_string`: the document as compact JSON. The text is a function of the
/// document.
#[verifier::external_body]
pub(crate) fn render_value(value: &serde_json::Value) -> (text: String)
    ensures
        text@ == rendered_json(json_document(*value)),
{
    value.to_string()
}

/// `serde_json::Value::get` with a name: the member of that name, where the value is an object
/// that has it.
#[verifier::external_body]
pub(crate) fn value_member<'a>(value: &'a serde_json::Value, key: &str) -> (member: Option<
    &'a serde_json::Value,
>)
    ensures
        match member {
            Some(member) => json_document(*value).member(key@) == Some(json_document(*member)),
            None => json_document(*value).member(key@) is None,
        },
{
    value.get(key)
}

/// The document that a `serde_json::Value` holds once it was made from one: of a name that an
/// object has twice the last value is kept, and a float is read from its text. There is none where
/// a float's text spells no finite number.
pub uninterp spec fn built_json(json: JsonView) -> Option<JsonView>;

/// The `serde_json::Value` of a document: each variant, item and member moved as it is, an integer
/// by its value, a float by `serde_json::Number::from_f64` of what its text spells.
#[verifier::external_body]
pub(crate) fn value_of(json: &Json) -> (value: Option<Value>)
    ensures
        match value {
            Some(value) => built_json(json@) == Some(json_document(value)),
            None => built_json(json@) is None,
        },
{
    Some(match json {
        Json::Null => Value::Null,
        Json::Bool(value) => Value::Bool(*value),
        Json::Number(JsonNumber::Unsigned(value)) => Value::from(*value),
        Json::Number(JsonNumber::Negative(value)) => Value::from(*value),
        Json::Number(JsonNumber::Float(text)) => Number::from_f64(text.parse().ok()?)?.into(),
        Json::Str(text) => text.clone().into(),
        Json::Array(items) => items.iter().map(value_of).collect::<Option<_>>()?,
        Json::Object(members) => members.iter().map(|(key, value)| Some((key.clone(), value_of(value)?))).collect::<Option<_>>()?,
    })
}

/// The bytes that `serde_json` writes a document as, where it can.
pub uninterp spec fn encoded_document(json: JsonView) -> Option<Seq<u8>>;

/// `serde_json::to_vec` of a `serde_json::Value`. The outcome is a function of the document.
#[verifier::external_body]
pub(crate) fn encode_value(value: &serde_json::Value) -> (bytes: Option<Vec<u8>>)
    ensures
        match bytes {
            Some(bytes) => encoded_document(json_document(*value)) == Some(bytes@),
            None => encoded_document(json_document(*value)) is None,
        },
{
    serde_json::to_vec(value).ok()
}

/// The bytes that a document is sent as, where it can be.
pub open spec fn encoded_json(json: JsonView) -> Option<Seq<u8>> {
    match built_json(json) {
        Some(document) => encoded_document(document),
        None => None,
    }
}

/// The bytes that a document is sent as, where it can be.
pub fn encode_json(json: &Json) -> (bytes: Option<Vec<u8>>)
    ensures
        match bytes {
            Some(bytes) => encoded_json(json@) == Some(bytes@),
            None => encoded_json(json@) is None,
        },
{
    match value_of(json) {
        Some(value) => encode_value(&value),
        None => None,
    }
}

/// The document that the bytes spell, where they are one JSON document.
pub fn parse_bytes(bytes: &[u8]) -> (json: Option<Json>)
    ensures
        match json {
            Some(json) => parsed_json(bytes@) == Some(json@),
            None => parsed_json(bytes@) is None,
        },
{
    match parse_value(bytes) {
        Some(value) => Some(json_of(value)),
        None => None,
    }
}

/// The document that the text spells, where it is one JSON document.
pub fn parse_text(text: &str) -> (json: Option<Json>)
    ensures
        match json {
            Some(json) => parsed_text(text@) == Some(json@),
            None => parsed_text(text@) is None,
        },
{
    parse_bytes(text.as_bytes())
}

/// The position of the first member named `key`, or the number of members where there is none.
pub(crate) fn find_member(members: &Vec<(String, Json)>, key: &str) -> (at: usize)
    ensures
        at == member_index(members_view(members@), key@),
        at <= members@.len(),
{
    let mut at: usize = 0;
    while at < members.len() && !same_text(members[at].0.as_str(), key)
        invariant
            at <= members@.len(),
            forall|k: int| 0 <= k < at ==> members_view(members@)[k].0 != key@,
        decreases members@.len() - at,
    {
        at = at + 1;
    }
    proof {
        member_index_unique(members_view(members@), key@, at as int);
    }
    at
}

fn copy_number(number: &JsonNumber) -> (same: JsonNumber)
    ensures
        number_view(same) == number_view(*number),
{
    match number {
        JsonNumber::Unsigned(value) => JsonNumber::Unsigned(*value),
        JsonNumber::Negative(value) => JsonNumber::Negative(*value),
        JsonNumber::Float(text) => JsonNumber::Float(text.clone()),
    }
}

impl Json {
    /// A copy of the document.
    #[verifier::loop_isolation(false)]
    pub fn copy(&self) -> (same: Json)
        ensures
            same@ == self@,
        decreases self,
    {
        broadcast use container_views;

        match self {
            Json::Null => Json::Null,
            Json::Bool(value) => Json::Bool(*value),
            Json::Number(number) => Json::Number(copy_number(number)),
            Json::Str(text) => Json::Str(text.clone()),
            Json::Array(items) => {
                let mut copies: Vec<Json> = Vec::new();
                let mut i: usize = 0;
                while i < items.len()
                    invariant
                        i <= items@.len(),
                        items_view(copies@) == items_view(items@).take(i as int),
                        *self == Json::Array(*items),
                    decreases items@.len() - i,
                {
                    assert(decreases_to!(*items => items@[i as int]));
                    copies.push(items[i].copy());
                    assert(items_view(copies@) =~= items_view(items@).take(i + 1));
                    i = i + 1;
                }
                assert(items_view(copies@) =~= items_view(items@));
                Json::Array(copies)
            },
            Json::Object(members) => {
                let mut copies: Vec<(String, Json)> = Vec::new();
                let mut i: usize = 0;
                while i < members.len()
                    invariant
                        i <= members@.len(),
                        members_view(copies@) == members_view(members@).take(i as int),
                        *self == Json::Object(*members),
                    decreases members@.len() - i,
                {
                    assert(decreases_to!(*members => members@[i as int]));
                    copies.push((members[i].0.clone(), members[i].1.copy()));
                    assert(members_view(copies@) =~= members_view(members@).take(i + 1));
                    i = i + 1;
                }
                assert(members_view(copies@) =~= members_view(members@));
                Json::Object(copies)
            },
        }
    }

    /// Whether two documents are the same, members in the same order.
    #[verifier::loop_isolation(false)]
    pub fn same(&self, other: &Json) -> (same: bool)
        ensures
            same == (self@ == other@),
        decreases self,
    {
        broadcast use container_views;

        match (self, other) {
            (Json::Null, Json::Null) => true,
            (Json::Bool(a), Json::Bool(b)) => *a == *b,
            (Json::Number(a), Json::Number(b)) => match (a, b) {
                (JsonNumber::Unsigned(a), JsonNumber::Unsigned(b)) => *a == *b,
                (JsonNumber::Negative(a), JsonNumber::Negative(b)) => *a == *b,
                (JsonNumber::Float(a), JsonNumber::Float(b)) => same_text(a.as_str(), b.as_str()),
                _ => false,
            },
            (Json::Str(a), Json::Str(b)) => same_text(a.as_str(), b.as_str()),
            (Json::Array(a), Json::Array(b)) => {
                if a.len() != b.len() {
                    assert(items_view(a@).len() != items_view(b@).len());
                    return false;
                }
                let mut i: usize = 0;
                while i < a.len()
                    invariant
                        i <= a@.len(),
                        a@.len() == b@.len(),
                        *self == Json::Array(*a),
                        *other == Json::Array(*b),
                        items_view(a@).take(i as int) == items_view(b@).take(i as int),
                    decreases a@.len() - i,
                {
                    assert(decreases_to!(*a => a@[i as int]));
                    if !a[i].same(&b[i]) {
                        assert(items_view(a@)[i as int] != items_view(b@)[i as int]);
                        return false;
                    }
                    assert(items_view(a@).take(i + 1) =~= items_view(a@).take(i as int).push(
                        items_view(a@)[i as int],
                    ));
                    assert(items_view(b@).take(i + 1) =~= items_view(b@).take(i as int).push(
                        items_view(b@)[i as int],
                    ));
                    i = i + 1;
                }
                assert(items_view(a@).take(i as int) =~= items_view(a@));
                assert(items_view(b@).take(i as int) =~= items_view(b@));
                true
            },
            (Json::Object(a), Json::Object(b)) => {
                if a.len() != b.len() {
                    assert(members_view(a@).len() != members_view(b@).len());
                    return false;
                }
                let mut i: usize = 0;
                while i < a.len()
                    invariant
                        i <= a@.len(),
                        a@.len() == b@.len(),
                        *self == Json::Object(*a),
                        *other == Json::Object(*b),
                        members_view(a@).take(i as int) == members_view(b@).take(i as int),
                    decreases a@.len() - i,
                {
                    assert(decreases_to!(*a => a@[i as int]));
                    if !same_text(a[i].0.as_str(), b[i].0.as_str()) || !a[i].1.same(&b[i].1) {
                        assert(members_view(a@)[i as int] != members_view(b@)[i as int]);
                        return false;
                    }
                    assert(members_view(a@).take(i + 1) =~= members_view(a@).take(i as int).push(
                        members_view(a@)[i as int],
                    ));
                    assert(members_view(b@).take(i + 1) =~= members_view(b@).take(i as int).push(
                        members_view(b@)[i as int],
                    ));
                    i = i + 1;
                }
                assert(members_view(a@).take(i as int) =~= members_view(a@));
                assert(members_view(b@).take(i as int) =~= members_view(b@));
                true
            },
            _ => false,
        }
    }

    /// Whether two documents are equal: objects whatever the order of their members, numbers by
    /// their value.
    #[verifier::loop_isolation(false)]
    pub fn equal(&self, other: &Json) -> (equal: bool)
        ensures
            equal == json_equal(self@, other@),
        decreases self,
    {
        broadcast use container_views;

        match (self, other) {
            (Json::Array(a), Json::Array(b)) => {
                if a.len() != b.len() {
                    return false;
                }
                let mut i: usize = 0;
                while i < a.len()
                    invariant
                        i <= a@.len(),
                        forall|k: int|
                            0 <= k < i ==> json_equal(
                                #[trigger] items_view(a@)[k],
                                items_view(b@)[k],
                            ),
                    decreases a@.len() - i,
                {
                    assert(decreases_to!(*a => a@[i as int]));
                    if !a[i].equal(&b[i]) {
                        assert(!json_equal(items_view(a@)[i as int], items_view(b@)[i as int]));
                        return false;
                    }
                    i = i + 1;
                }
                true
            },
            (Json::Object(a), Json::Object(b)) => {
                if a.len() != b.len() {
                    return false;
                }
                let mut i: usize = 0;
                while i < a.len()
                    invariant
                        i <= a@.len(),
                        forall|k: int|
                            0 <= k < i ==> (other@.member((#[trigger] members_view(a@)[k]).0)
                                matches Some(value) && json_equal(members_view(a@)[k].1, value)),
                    decreases a@.len() - i,
                {
                    assert(decreases_to!(*a => a@[i as int]));
                    let found = match other.get(a[i].0.as_str()) {
                        Some(value) => a[i].1.equal(value),
                        None => false,
                    };
                    assert(members_view(a@)[i as int] == (a@[i as int].0@, a@[i as int].1@));
                    if !found {
                        return false;
                    }
                    i = i + 1;
                }
                true
            },
            (
                Json::Number(JsonNumber::Float(a)),
                Json::Number(JsonNumber::Float(b)),
            ) => same_text(a.as_str(), b.as_str()) || numbers_are_same(a.as_str(), b.as_str()),
            (Json::Array(_), _) | (Json::Object(_), _) => false,
            _ => self.same(other),
        }
    }

    /// The member of that name, where the document is an object that has it.
    pub fn get(&self, key: &str) -> (member: Option<&Json>)
        ensures
            opt_json_view(member) == self@.member(key@),
    {
        broadcast use container_views;

        match self {
            Json::Object(members) => {
                let at = find_member(members, key);
                if at < members.len() {
                    Some(&members[at].1)
                } else {
                    None
                }
            },
            _ => None,
        }
    }

    /// The member of a member, where both are there.
    pub fn get2(&self, outer: &str, inner: &str) -> (member: Option<&Json>)
        ensures
            opt_json_view(member) == self@.member2(outer@, inner@),
    {
        match self.get(outer) {
            Some(json) => json.get(inner),
            None => None,
        }
    }

    /// The text of a string.
    pub fn as_str(&self) -> (text: Option<&str>)
        ensures
            match text {
                Some(text) => self@ == JsonView::Str(text@),
                None => !(self@ is Str),
            },
    {
        match self {
            Json::Str(text) => Some(text.as_str()),
            _ => None,
        }
    }

    /// The text of the member of that name, where it is a string.
    pub fn get_str(&self, key: &str) -> (text: Option<&str>)
        ensures
            match text {
                Some(text) => self@.member_text(key@) == Some(text@),
                None => self@.member_text(key@) is None,
            },
    {
        match self.get(key) {
            Some(json) => json.as_str(),
            None => None,
        }
    }

    /// The value of a truth value.
    pub fn as_bool(&self) -> (value: Option<bool>)
        ensures
            match value {
                Some(value) => self@ == JsonView::Bool(value),
                None => !(self@ is Bool),
            },
    {
        match self {
            Json::Bool(value) => Some(*value),
            _ => None,
        }
    }

    /// The value of the member of that name, where it is a truth value.
    pub fn get_bool(&self, key: &str) -> (value: Option<bool>)
        ensures
            value == self@.member_bool(key@),
    {
        match self.get(key) {
            Some(json) => json.as_bool(),
            None => None,
        }
    }

    /// The value of a number that is a 64-bit unsigned integer.
    pub fn as_u64(&self) -> (value: Option<u64>)
        ensures
            value == self@.unsigned(),
    {
        match self {
            Json::Number(JsonNumber::Unsigned(value)) => Some(*value),
            _ => None,
        }
    }

    /// The items of an array.
    pub fn as_array(&self) -> (items: Option<&Vec<Json>>)
        ensures
            match items {
                Some(items) => self@ == JsonView::Array(items_view(items@)),
                None => !(self@ is Array),
            },
    {
        broadcast use container_views;

        match self {
            Json::Array(items) => Some(items),
            _ => None,
        }
    }

    /// The items of the member of that name, where it is an array.
    pub fn get_array(&self, key: &str) -> (items: Option<&Vec<Json>>)
        ensures
            match items {
                Some(items) => self@.member_array(key@) == Some(items_view(items@)),
                None => self@.member_array(key@) is None,
            },
    {
        match self.get(key) {
            Some(json) => json.as_array(),
            None => None,
        }
    }

    /// The members of an object.
    pub fn as_object(&self) -> (members: Option<&Vec<(String, Json)>>)
        ensures
            match members {
                Some(members) => self@ == JsonView::Object(members_view(members@)),
                None => !(self@ is Object),
            },
    {
        broadcast use container_views;

        match self {
            Json::Object(members) => Some(members),
            _ => None,
        }
    }

    /// Whether the document is an object.
    pub fn is_object(&self) -> (is: bool)
        ensures
            is == (self@ is Object),
    {
        match self {
            Json::Object(_) => true,
            _ => false,
        }
    }

    /// Whether the document is `null`.
    pub fn is_null(&self) -> (is: bool)
        ensures
            is == (self@ is Null),
    {
        match self {
            Json::Null => true,
            _ => false,
        }
    }

    /// Sets the member of that name: replaced in place, else appended. Nothing happens to
    /// a document that is no object.
    pub fn set(&mut self, key: &str, value: Json)
        ensures
            final(self)@ == old(self)@.with_member(key@, value@),
    {
        broadcast use container_views;

        let ghost before = self@;
        match self {
            Json::Object(members) => {
                let at = find_member(members, key);
                let ghost old_members = members@;
                if at < members.len() {
                    members.set(at, (key.to_owned(), value));
                    assert(members_view(members@) =~= members_view(old_members).update(
                        at as int,
                        (key@, value@),
                    ));
                } else {
                    members.push((key.to_owned(), value));
                    assert(members_view(members@) =~= members_view(old_members).push(
                        (key@, value@),
                    ));
                }
            },
            _ => {},
        }
    }

    /// Sets the member of that name, where `null` stands for an object without members.
    pub fn set_index(&mut self, key: &str, value: Json)
        requires
            old(self)@ is Object || old(self)@ is Null,
        ensures
            final(self)@ == old(self)@.with_index(key@, value@),
    {
        broadcast use container_views;

        if self.is_null() {
            let mut members: Vec<(String, Json)> = Vec::new();
            members.push((key.to_owned(), value));
            assert(members_view(members@) =~= seq![(key@, value@)]);
            *self = Json::Object(members);
        } else {
            self.set(key, value);
        }
    }
}

/// A member that is set is what it was set to, and the others are what they were; nothing becomes
/// an object by it, as an object does.
pub proof fn index_is_read_back(json: JsonView, key: Seq<char>, value: JsonView)
    requires
        json is Object || json is Null,
    ensures
        json.with_index(key, value) is Object,
        json.with_index(key, value).member(key) == Some(value),
        forall|other: Seq<char>|
            other != key ==> #[trigger] json.with_index(key, value).member(other) == json.member(
                other,
            ),
{
    match json {
        JsonView::Object(_) => {
            set_member_is_read_back(json, key, value);
        },
        _ => {
            let members = seq![(key, value)];
            assert(json.with_index(key, value) == JsonView::Object(members));
            member_index_unique(members, key, 0);
            assert forall|other: Seq<char>| other != key implies #[trigger] json.with_index(
                key,
                value,
            ).member(other) == json.member(other) by {
                member_index_unique(members, other, 1);
            }
        },
    }
}

/// Values of one kind are equal where they are the same, and values of two kinds never are.
pub proof fn equal_values_are_of_one_kind(a: JsonView, b: JsonView)
    ensures
        (a is Null || a is Bool || a is Str) ==> (json_equal(a, b) <==> a == b),
        (b is Null || b is Bool || b is Str) ==> (json_equal(a, b) <==> a == b),
        a matches JsonView::Number(JsonNumberView::Unsigned(_)) ==> (json_equal(a, b) <==> a == b),
        a matches JsonView::Number(JsonNumberView::Negative(_)) ==> (json_equal(a, b) <==> a == b),
        a matches JsonView::Array(x) ==> (json_equal(a, b) ==> (b matches JsonView::Array(y)
            && x.len() == y.len())),
        a matches JsonView::Object(x) ==> (json_equal(a, b) ==> (b matches JsonView::Object(y)
            && x.len() == y.len())),
        a is Number && json_equal(a, b) ==> b is Number,
{
}

/// Equal lists are equal item by item, and equal objects member by member, in whatever order.
pub proof fn equal_documents_are_equal_inside(a: JsonView, b: JsonView)
    requires
        json_equal(a, b),
    ensures
        a matches JsonView::Array(x) ==> (b matches JsonView::Array(y) && forall|i: int|
            0 <= i < x.len() ==> json_equal(#[trigger] x[i], y[i])),
        a matches JsonView::Object(x) ==> forall|key: Seq<char>|
            (#[trigger] a.member(key)) is Some ==> b.member(key) is Some && json_equal(
                a.member(key)->Some_0,
                b.member(key)->Some_0,
            ),
{
    if let JsonView::Object(x) = a {
        assert forall|key: Seq<char>| (#[trigger] a.member(key)) is Some implies b.member(key) is Some
            && json_equal(a.member(key)->Some_0, b.member(key)->Some_0) by {
            member_index_is_first(x, key);
            let at = member_index(x, key);
            assert(x[at].0 == key);
        }
    }
}

} // verus!
