//! JSON documents as plain values.

use vstd::prelude::*;
use vstd::string::*;
use crate::text::{pairs_view, same_text};

verus! {

/// A JSON value. A number keeps what it is as an unsigned and as a signed
/// 64-bit integer, where it is one; an object keeps its members in the
/// order in which the parser hands them out.
#[derive(Debug)]
pub enum Json {
    Null,
    Bool(bool),
    Number { unsigned: Option<u64>, signed: Option<i64> },
    Text(String),
    Array(Vec<Json>),
    Object(Vec<(String, Json)>),
}

/// The mathematical content of a [`Json`] value.
pub enum JsonView {
    Null,
    Bool(bool),
    Number { unsigned: Option<u64>, signed: Option<i64> },
    Text(Seq<char>),
    Array(Seq<JsonView>),
    Object(Seq<(Seq<char>, JsonView)>),
}

/// The content of a value: that of each part of it, part by part.
pub open spec fn content(value: Json) -> JsonView
    decreases value,
{
    match value {
        Json::Null => JsonView::Null,
        Json::Bool(b) => JsonView::Bool(b),
        Json::Number { unsigned, signed } => JsonView::Number { unsigned, signed },
        Json::Text(t) => JsonView::Text(t@),
        Json::Array(items) => JsonView::Array(
            Seq::new(
                items@.len(),
                |i: int|
                    if 0 <= i < items@.len() {
                        content(items@[i])
                    } else {
                        JsonView::Null
                    },
            ),
        ),
        Json::Object(members) => JsonView::Object(
            Seq::new(
                members@.len(),
                |i: int|
                    if 0 <= i < members@.len() {
                        (members@[i].0@, content(members@[i].1))
                    } else {
                        (Seq::empty(), JsonView::Null)
                    },
            ),
        ),
    }
}

impl View for Json {
    type V = JsonView;

    open spec fn view(&self) -> JsonView {
        content(*self)
    }
}

/// The contents of a list of values.
pub open spec fn views(items: Seq<Json>) -> Seq<JsonView> {
    Seq::new(items.len(), |i: int| items[i]@)
}

/// The contents of a list of members.
pub open spec fn member_views(members: Seq<(String, Json)>) -> Seq<(Seq<char>, JsonView)> {
    Seq::new(members.len(), |i: int| (members[i].0@, members[i].1@))
}

/// The content of an array is the contents of its elements.
pub proof fn lemma_array_view(items: Vec<Json>)
    ensures
        (Json::Array(items))@ == JsonView::Array(views(items@)),
{
    match (Json::Array(items))@ {
        JsonView::Array(inner) => {
            assert(inner.len() == items@.len());
            assert forall|i: int| 0 <= i < inner.len() implies inner[i] == views(items@)[i] by {}
            assert(inner =~= views(items@));
        },
        _ => {},
    }
}

/// The content of an object is the contents of its members.
pub proof fn lemma_object_view(members: Vec<(String, Json)>)
    ensures
        (Json::Object(members))@ == JsonView::Object(member_views(members@)),
{
    match (Json::Object(members))@ {
        JsonView::Object(inner) => {
            assert(inner.len() == members@.len());
            assert forall|i: int| 0 <= i < inner.len() implies inner[i] == member_views(
                members@,
            )[i] by {}
            assert(inner =~= member_views(members@));
        },
        _ => {},
    }
}

/// The value of the first member called `key` in a list of members.
pub open spec fn first_member(members: Seq<(Seq<char>, JsonView)>, key: Seq<char>) -> Option<
    JsonView,
>
    decreases members.len(),
{
    if members.len() == 0 {
        None
    } else if members[0].0 == key {
        Some(members[0].1)
    } else {
        first_member(members.drop_first(), key)
    }
}

impl JsonView {
    /// The member called `key`, where this is an object that has one.
    pub open spec fn member(self, key: Seq<char>) -> Option<JsonView> {
        match self {
            JsonView::Object(members) => first_member(members, key),
            _ => None,
        }
    }

    /// The text, where this is a string.
    pub open spec fn text(self) -> Option<Seq<char>> {
        match self {
            JsonView::Text(s) => Some(s),
            _ => None,
        }
    }

    /// The number, where this is a whole number from 0 to `u64::MAX`.
    pub open spec fn unsigned(self) -> Option<u64> {
        match self {
            JsonView::Number { unsigned, signed } => unsigned,
            _ => None,
        }
    }

    /// The number, where this is a whole number in the range of `i64`.
    pub open spec fn signed(self) -> Option<i64> {
        match self {
            JsonView::Number { unsigned, signed } => signed,
            _ => None,
        }
    }

    /// The elements, where this is an array.
    pub open spec fn elements(self) -> Option<Seq<JsonView>> {
        match self {
            JsonView::Array(items) => Some(items),
            _ => None,
        }
    }
}

impl Json {
    /// Whether this is an object.
    pub fn is_object(&self) -> (r: bool)
        ensures
            r == (self@ is Object),
    {
        match self {
            Json::Object(_) => true,
            _ => false,
        }
    }

    /// Looks a member of an object up by its name.
    pub fn get(&self, key: &str) -> (r: Option<&Json>)
        ensures
            match r {
                Some(j) => self@.member(key@) == Some(j@),
                None => self@.member(key@) is None,
            },
    {
        match self {
            Json::Object(members) => {
                let ghost all = member_views(members@);
                proof {
                    lemma_object_view(*members);
                    assert(all.skip(0) =~= all);
                }
                let mut i: usize = 0;
                while i < members.len()
                    invariant
                        i <= members.len(),
                        all == member_views(members@),
                        self@.member(key@) == first_member(all, key@),
                        first_member(all, key@) == first_member(all.skip(i as int), key@),
                    decreases members.len() - i,
                {
                    proof {
                        assert(all.skip(i as int).drop_first() =~= all.skip(i as int + 1));
                        assert(all.skip(i as int)[0] == all[i as int]);
                    }
                    let entry = &members[i];
                    if same_text(entry.0.as_str(), key) {
                        return Some(&entry.1);
                    }
                    i += 1;
                }
                None
            },
            _ => None,
        }
    }

    /// The text of a string.
    pub fn as_str(&self) -> (r: Option<&str>)
        ensures
            match r {
                Some(s) => self@.text() == Some(s@),
                None => self@.text() is None,
            },
    {
        match self {
            Json::Text(s) => Some(s.as_str()),
            _ => None,
        }
    }

    /// The value of a whole number that is not negative.
    pub fn as_u64(&self) -> (r: Option<u64>)
        ensures
            r == self@.unsigned(),
    {
        match self {
            Json::Number { unsigned, signed } => *unsigned,
            _ => None,
        }
    }

    /// The value of a whole number in the range of `i64`.
    pub fn as_i64(&self) -> (r: Option<i64>)
        ensures
            r == self@.signed(),
    {
        match self {
            Json::Number { unsigned, signed } => *signed,
            _ => None,
        }
    }

    /// The elements of an array.
    pub fn as_array(&self) -> (r: Option<&Vec<Json>>)
        ensures
            match r {
                Some(items) => self@.elements() == Some(views(items@)),
                None => self@.elements() is None,
            },
    {
        match self {
            Json::Array(items) => {
                proof {
                    lemma_array_view(*items);
                }
                Some(items)
            },
            _ => None,
        }
    }
}

/// The member `b` of the member `a` of a document.
pub open spec fn member2(doc: JsonView, a: Seq<char>, b: Seq<char>) -> Option<JsonView> {
    match doc.member(a) {
        Some(inner) => inner.member(b),
        None => None,
    }
}

/// The text of a value that may be missing, or `default` where there is
/// no value or it is no string.
pub open spec fn text_or(value: Option<JsonView>, default: Seq<char>) -> Seq<char> {
    match value {
        Some(j) => match j.text() {
            Some(t) => t,
            None => default,
        },
        None => default,
    }
}

/// The number of a value that may be missing, or 0 where there is no
/// value or it is no whole number from 0 to `u64::MAX`.
pub open spec fn unsigned_or_zero(value: Option<JsonView>) -> u64 {
    match value {
        Some(j) => match j.unsigned() {
            Some(n) => n,
            None => 0,
        },
        None => 0,
    }
}

/// Looks up the member `b` of the member `a`.
pub fn get2<'a>(doc: &'a Json, a: &str, b: &str) -> (r: Option<&'a Json>)
    ensures
        match r {
            Some(j) => member2(doc@, a@, b@) == Some(j@),
            None => member2(doc@, a@, b@) is None,
        },
{
    match doc.get(a) {
        Some(inner) => inner.get(b),
        None => None,
    }
}

/// The text of the member `key` of `doc`, or `default`.
pub fn member_text_or(doc: &Json, key: &str, default: &str) -> (r: String)
    ensures
        r@ == text_or(doc@.member(key@), default@),
{
    match doc.get(key) {
        Some(j) => match j.as_str() {
            Some(t) => t.to_owned(),
            None => default.to_owned(),
        },
        None => default.to_owned(),
    }
}

/// The number of the member `key` of `doc`, or 0.
pub fn member_unsigned_or_zero(doc: &Json, key: &str) -> (r: u64)
    ensures
        r == unsigned_or_zero(doc@.member(key@)),
{
    match doc.get(key) {
        Some(j) => match j.as_u64() {
            Some(n) => n,
            None => 0,
        },
        None => 0,
    }
}

/// `Value` of the crate serde_json, of which nothing is known here.
#[verifier::external_type_specification]
#[verifier::external_body]
pub struct ExValue(serde_json::Value);

/// The document that a text is parsed to, or what the parser says against
/// the text.
pub uninterp spec fn json_document(text: Seq<char>) -> Result<JsonView, Seq<char>>;

/// The text that a JSON value is written as, without white space between
/// its parts.
pub uninterp spec fn json_text(value: JsonView) -> Seq<char>;

/// The JSON string literal that stands for a text, quotes included.
pub open spec fn json_string_text(text: Seq<char>) -> Seq<char> {
    json_text(JsonView::Text(text))
}

/// A whole number from 0 to `u64::MAX` as a JSON value.
pub open spec fn whole(n: u64) -> JsonView {
    JsonView::Number {
        unsigned: Some(n),
        signed: if n <= i64::MAX {
            Some(n as i64)
        } else {
            None
        },
    }
}

/// The members of an object whose values are all texts.
pub open spec fn text_members(pairs: Seq<(Seq<char>, Seq<char>)>) -> Seq<(Seq<char>, JsonView)> {
    pairs.map_values(|p: (Seq<char>, Seq<char>)| (p.0, JsonView::Text(p.1)))
}

/// Rebuilds a value of `serde_json` as a [`Json`], variant by variant.
/// Nothing is claimed of the result here; see [`parse_json`].
#[verifier::external_body]
fn json_of_value(value: &serde_json::Value) -> Json {
    match value {
        serde_json::Value::Null => Json::Null,
        serde_json::Value::Bool(b) => Json::Bool(*b),
        serde_json::Value::Number(n) => Json::Number { unsigned: n.as_u64(), signed: n.as_i64() },
        serde_json::Value::String(s) => Json::Text(s.clone()),
        serde_json::Value::Array(items) => Json::Array(items.iter().map(json_of_value).collect()),
        serde_json::Value::Object(members) => Json::Object(
            members.iter().map(|(k, v)| (k.clone(), json_of_value(v))).collect(),
        ),
    }
}

/// Calls `serde_json::from_str` for a `Value` and rebuilds the value as a
/// [`Json`]; where the parser refuses the text, the error is its message.
/// The result is claimed to depend on the text alone, and is here only
/// given a name.
#[verifier::external_body]
pub(crate) fn parse_json(text: &str) -> (r: Result<Json, String>)
    ensures
        match r {
            Ok(doc) => json_document(text@) == Ok::<JsonView, Seq<char>>(doc@),
            Err(e) => json_document(text@) == Err::<JsonView, Seq<char>>(e@),
        },
{
    match serde_json::from_str::<serde_json::Value>(text) {
        Ok(value) => Ok(json_of_value(&value)),
        Err(e) => Err(e.to_string()),
    }
}

/// Reads a JSON text as a document.
pub fn parse_document(text: &str) -> (r: Result<Json, String>)
    ensures
        match r {
            Ok(doc) => json_document(text@) == Ok::<JsonView, Seq<char>>(doc@),
            Err(e) => json_document(text@) == Err::<JsonView, Seq<char>>(e@),
        },
{
    parse_json(text)
}

/// Rebuilds a [`Json`] as a value of `serde_json`, variant by variant; a
/// number that is no whole number in the range of `u64` or `i64` becomes
/// `Null`. Nothing is claimed of the result here; see [`write_json`].
#[verifier::external_body]
fn value_of_json(value: &Json) -> serde_json::Value {
    match value {
        Json::Null => serde_json::Value::Null,
        Json::Bool(b) => serde_json::Value::Bool(*b),
        Json::Number { unsigned: Some(n), .. } => serde_json::Value::from(*n),
        Json::Number { signed: Some(n), .. } => serde_json::Value::from(*n),
        Json::Number { .. } => serde_json::Value::Null,
        Json::Text(s) => serde_json::Value::String(s.clone()),
        Json::Array(items) => serde_json::Value::Array(items.iter().map(value_of_json).collect()),
        Json::Object(members) => serde_json::Value::Object(
            members.iter().map(|(k, v)| (k.clone(), value_of_json(v))).collect(),
        ),
    }
}

/// Rebuilds the value as a `serde_json::Value` and calls `to_string` on
/// it, which writes the value as compact JSON. The result is claimed to
/// depend on the value alone, and is here only given a name: in which
/// order the members of an object are written, and what becomes of two
/// members of one name, is the writer's matter.
#[verifier::external_body]
pub(crate) fn write_json(value: &Json) -> (r: String)
    ensures
        r@ == json_text(value@),
{
    value_of_json(value).to_string()
}

/// Writes a text as a JSON string literal.
pub fn json_quote(text: &str) -> (r: String)
    ensures
        r@ == json_string_text(text@),
{
    let value = Json::Text(String::from_str(text));
    write_json(&value)
}

/// A whole number as a JSON value.
pub fn whole_number(n: u64) -> (r: Json)
    ensures
        r@ == whole(n),
{
    let signed = if n <= i64::MAX as u64 {
        Some(n as i64)
    } else {
        None
    };
    Json::Number { unsigned: Some(n), signed }
}

/// A member of an object: a name and a value.
pub fn named(name: &str, value: Json) -> (r: (String, Json))
    ensures
        r.0@ == name@,
        r.1@ == value@,
{
    (String::from_str(name), value)
}

/// A member of an object whose value is a text.
pub fn named_text(name: &str, value: &str) -> (r: (String, Json))
    ensures
        r.0@ == name@,
        r.1@ == JsonView::Text(value@),
{
    (String::from_str(name), Json::Text(String::from_str(value)))
}

/// Writes an object with the given members.
pub fn write_object(members: Vec<(String, Json)>) -> (r: String)
    ensures
        r@ == json_text(JsonView::Object(member_views(members@))),
{
    proof {
        lemma_object_view(members);
    }
    let value = Json::Object(members);
    write_json(&value)
}

/// Writes an object whose members are the given names and texts.
pub fn write_text_object(pairs: &Vec<(String, String)>) -> (r: String)
    ensures
        r@ == json_text(JsonView::Object(text_members(pairs_view(pairs@)))),
{
    let mut members: Vec<(String, Json)> = Vec::new();
    let mut i: usize = 0;
    let ghost all = text_members(pairs_view(pairs@));
    assert(member_views(members@) =~= all.take(0));
    while i < pairs.len()
        invariant
            i <= pairs.len(),
            all == text_members(pairs_view(pairs@)),
            member_views(members@) == all.take(i as int),
        decreases pairs.len() - i,
    {
        let entry = &pairs[i];
        let member = named_text(entry.0.as_str(), entry.1.as_str());
        let ghost before = members@;
        members.push(member);
        proof {
            assert(member_views(members@) =~= member_views(before).push((member.0@, member.1@)));
            assert(all.take(i as int + 1) =~= all.take(i as int).push(all[i as int]));
        }
        i += 1;
    }
    assert(all.take(pairs.len() as int) =~= all);
    write_object(members)
}

} // verus!
