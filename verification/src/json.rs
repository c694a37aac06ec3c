//! JSON, one level at a time.
//!
//! A `Json` value is one level of a document. The members of an object and the
//! items of an array are kept as JSON text until somebody asks for them.

use serde::de::IgnoredAny;
use serde_json::{from_str, to_string, Error as JsonError, Map as JsonMap, Value};
use vstd::prelude::*;

use crate::text::{opt_view, string_views};

verus! {

/// One level of a JSON document.
pub enum Json {
    /// `null`.
    Null,
    /// `true` or `false`.
    Bool(bool),
    /// A whole number that is not negative.
    Unsigned(u64),
    /// A negative whole number.
    Negative(i64),
    /// Any other number, as JSON text.
    Decimal(String),
    /// A string.
    Text(String),
    /// An array, each item as JSON text.
    Array(Vec<String>),
    /// An object, each member as its key and its JSON text.
    Object(Vec<(String, String)>),
}

/// The value behind a `Json`.
pub enum JsonView {
    Null,
    Bool(bool),
    Unsigned(u64),
    Negative(i64),
    Decimal(Seq<char>),
    Text(Seq<char>),
    Array(Seq<Seq<char>>),
    Object(Seq<(Seq<char>, Seq<char>)>),
}

/// The keys and texts behind a list of members.
pub open spec fn member_views(members: Seq<(String, String)>) -> Seq<(Seq<char>, Seq<char>)> {
    members.map_values(|m: (String, String)| (m.0@, m.1@))
}

impl View for Json {
    type V = JsonView;

    open spec fn view(&self) -> JsonView {
        match self {
            Json::Null => JsonView::Null,
            Json::Bool(b) => JsonView::Bool(*b),
            Json::Unsigned(n) => JsonView::Unsigned(*n),
            Json::Negative(n) => JsonView::Negative(*n),
            Json::Decimal(t) => JsonView::Decimal(t@),
            Json::Text(t) => JsonView::Text(t@),
            Json::Array(items) => JsonView::Array(string_views(items@)),
            Json::Object(members) => JsonView::Object(member_views(members@)),
        }
    }
}

/// The first position, not before `from`, of the member with key `key`.
pub open spec fn member_index(
    members: Seq<(Seq<char>, Seq<char>)>,
    key: Seq<char>,
    from: int,
) -> Option<int>
    decreases members.len() - from,
{
    if from < 0 || from >= members.len() {
        None
    } else if members[from].0 == key {
        Some(from)
    } else {
        member_index(members, key, from + 1)
    }
}

/// No two members have the same key.
pub open spec fn distinct_keys(members: Seq<(Seq<char>, Seq<char>)>) -> bool {
    forall|i: int, j: int|
        0 <= i < j < members.len() ==> #[trigger] members[i].0 != #[trigger] members[j].0
}

impl JsonView {
    /// The JSON text of the member with key `key`, where this is an object that has one.
    pub open spec fn member(self, key: Seq<char>) -> Option<Seq<char>> {
        match self {
            JsonView::Object(members) => match member_index(members, key, 0) {
                Some(i) => Some(members[i].1),
                None => None,
            },
            _ => None,
        }
    }

    /// The value as an unsigned number.
    pub open spec fn as_u64(self) -> Option<u64> {
        match self {
            JsonView::Unsigned(n) => Some(n),
            _ => None,
        }
    }

    /// The value as a signed number.
    pub open spec fn as_i64(self) -> Option<i64> {
        match self {
            JsonView::Unsigned(n) => if n <= i64::MAX {
                Some(n as i64)
            } else {
                None
            },
            JsonView::Negative(n) => Some(n),
            _ => None,
        }
    }

    /// The value as a string.
    pub open spec fn as_text(self) -> Option<Seq<char>> {
        match self {
            JsonView::Text(t) => Some(t),
            _ => None,
        }
    }

    /// A value without nested values that is written in one way only: its text reads
    /// back as the same value. A fractional number may be given in several ways.
    pub open spec fn exact(self) -> bool {
        match self {
            JsonView::Null | JsonView::Bool(_) | JsonView::Unsigned(_) | JsonView::Text(_) => true,
            JsonView::Negative(n) => n < 0,
            _ => false,
        }
    }

    /// A number. A negative one is below zero.
    pub open spec fn is_number(self) -> bool {
        match self {
            JsonView::Unsigned(_) | JsonView::Decimal(_) => true,
            JsonView::Negative(n) => n < 0,
            _ => false,
        }
    }
}

/// The level of JSON that `serde_json` reads from a text, or its error message.
pub uninterp spec fn json_of_text(text: Seq<char>) -> Result<JsonView, Seq<char>>;

/// The text that `serde_json` writes for a level of JSON, or its error message.
pub uninterp spec fn text_of_json(json: JsonView) -> Result<Seq<char>, Seq<char>>;

/// The text that `serde_json` writes for an object with its members sorted by their
/// keys, or its error message.
pub uninterp spec fn sorted_text(members: Seq<(Seq<char>, Seq<char>)>) -> Result<
    Seq<char>,
    Seq<char>,
>;

/// What `serde_json` finds wrong with a text that it goes through without keeping
/// anything; nothing where the text is JSON, however deep.
pub uninterp spec fn json_fault(text: Seq<char>) -> Option<Seq<char>>;

/// The value that a text reads as, where it is JSON.
pub open spec fn json_value(text: Seq<char>) -> Option<JsonView> {
    match json_of_text(text) {
        Ok(json) => Some(json),
        Err(_) => None,
    }
}

/// The value of the member with key `key`.
pub open spec fn member_value(json: JsonView, key: Seq<char>) -> Option<JsonView> {
    match json.member(key) {
        Some(text) => json_value(text),
        None => None,
    }
}

/// The string that the member with key `key` holds.
pub open spec fn member_text(json: JsonView, key: Seq<char>) -> Option<Seq<char>> {
    match member_value(json, key) {
        Some(value) => value.as_text(),
        None => None,
    }
}

/// The object holds the text under `key`, or no such member where there is none.
pub open spec fn holds_text(json: JsonView, key: Seq<char>, text: Option<Seq<char>>) -> bool {
    match text {
        Some(t) => member_text(json, key) == Some(t),
        None => json.member(key) is None,
    }
}

/// The object holds the whole number under `key`, or no such member where there is
/// none.
pub open spec fn holds_number(json: JsonView, key: Seq<char>, n: Option<i64>) -> bool {
    match n {
        Some(n) => member_value(json, key) matches Some(v) && v.as_i64() == Some(n),
        None => json.member(key) is None,
    }
}

/// The object holds the truth value under `key`, or no such member where there is
/// none.
pub open spec fn holds_flag(json: JsonView, key: Seq<char>, flag: Option<bool>) -> bool {
    match flag {
        Some(b) => member_value(json, key) == Some(JsonView::Bool(b)),
        None => json.member(key) is None,
    }
}

/// The object holds under `key` what the JSON text reads as, or no such member where
/// there is none. Of a text that does not read as a number nothing is said.
pub open spec fn holds_json(json: JsonView, key: Seq<char>, text: Option<Seq<char>>) -> bool {
    match text {
        Some(t) => (json_value(t) matches Some(v) && v.is_number()) ==> member_value(json, key)
            == json_value(t),
        None => json.member(key) is None,
    }
}

/// The view of a reading.
pub open spec fn read_view(r: Result<Json, String>) -> Result<JsonView, Seq<char>> {
    match r {
        Ok(json) => Ok(json@),
        Err(message) => Err(message@),
    }
}

/// The view of a writing.
pub open spec fn written_view(r: Result<String, String>) -> Result<Seq<char>, Seq<char>> {
    match r {
        Ok(text) => Ok(text@),
        Err(message) => Err(message@),
    }
}

/// Reads one level of JSON with `serde_json::from_str`.
///
/// Trusted: the outcome depends on the text alone, a negative number is below
/// zero, and no two members of an object have the same key.
#[verifier::external_body]
pub(crate) fn parse_json(text: &str) -> (r: Result<Json, String>)
    ensures
        read_view(r) == json_of_text(text@),
        r matches Ok(json) ==> match json@ {
            JsonView::Negative(n) => n < 0,
            JsonView::Object(members) => distinct_keys(members),
            _ => true,
        },
{
    Ok(match from_str(text).map_err(|e| e.to_string())? {
        Value::Null => Json::Null,
        Value::Bool(b) => Json::Bool(b),
        Value::Number(n) => match (n.as_u64(), n.as_i64()) {
            (Some(u), _) => Json::Unsigned(u),
            (_, Some(i)) => Json::Negative(i),
            _ => Json::Decimal(n.to_string()),
        },
        Value::String(s) => Json::Text(s),
        Value::Array(a) => Json::Array(a.iter().map(Value::to_string).collect()),
        Value::Object(m) => Json::Object(m.into_iter().map(|(k, v)| (k, v.to_string())).collect()),
    })
}

/// Writes one level of JSON with `serde_json::to_string`, after reading the
/// nested texts with `serde_json::from_str`.
///
/// Trusted: the outcome depends on the value alone; a value without nested
/// values is written and its text reads back as the same value; an array or an
/// object is written if and only if each nested text is JSON; where the
/// written text reads back, it is an array of the same length or an object without
/// other keys, with the same nested values where those are not nested too deep
/// (numbers are read with the precision that it takes to get them back); the
/// members come in the order in which they were given; and the text of a value
/// nested a few levels deep does read back, no deeper than it was.
#[verifier::external_body]
pub(crate) fn write_json(json: &Json) -> (r: Result<String, String>)
    ensures
        written_view(r) == text_of_json(json@),
        faithful(json@, written_view(r)),
        json@ matches JsonView::Object(members) ==> keeps_order(members, written_view(r)),
{
    let text = |v: Result<Value, _>| v.and_then(|v| to_string(&v));
    match json {
        Json::Null => to_string(&()),
        Json::Bool(b) => to_string(b),
        Json::Unsigned(n) => to_string(n),
        Json::Negative(n) => to_string(n),
        Json::Decimal(t) => text(from_str(t)),
        Json::Text(t) => to_string(t),
        Json::Array(items) => text(items.iter().map(|t| from_str::<Value>(t)).collect()),
        Json::Object(m) => text(m.iter().map(|(k, t)| Ok((k, from_str::<Value>(t)?))).collect()),
    }.map_err(|e| e.to_string())
}

/// Writes an object with `serde_json::to_string`, after reading the nested texts
/// with `serde_json::from_str` and sorting the members with
/// `serde_json::Map::sort_keys`.
///
/// Trusted: the outcome depends on the members alone, and what is claimed of
/// `write_json` holds here too, but that the members come in the order of their
/// keys.
#[verifier::external_body]
pub(crate) fn write_sorted(members: &Vec<(String, String)>) -> (r: Result<String, String>)
    ensures
        written_view(r) == sorted_text(member_views(members@)),
        faithful(JsonView::Object(member_views(members@)), written_view(r)),
        r matches Ok(text) ==> (json_value(text@) matches Some(back) ==> ascending(back)),
{
    let pairs = members.iter().map(|(k, t)| Ok((k.clone(), from_str::<Value>(t)?)));
    let read: Result<JsonMap<String, Value>, JsonError> = pairs.collect();
    let text = read.and_then(|mut map| {
        map.sort_keys();
        to_string(&map)
    });
    text.map_err(|e| e.to_string())
}

/// Goes through a text with `serde_json::from_str`, without keeping anything
/// (`serde::de::IgnoredAny`), and says what is wrong with it.
///
/// Trusted: the outcome depends on the text alone, and nothing is wrong with a text
/// that `parse_json` reads.
#[verifier::external_body]
pub(crate) fn check_json(text: &str) -> (fault: Option<String>)
    ensures
        opt_view(fault) == json_fault(text@),
        json_value(text@) is Some ==> fault is None,
{
    from_str::<IgnoredAny>(text).err().map(|e| e.to_string())
}

/// `a` comes before `b` in the order of their characters.
pub open spec fn text_before(a: Seq<char>, b: Seq<char>) -> bool {
    exists|n: int|
        #![trigger a.take(n), b.take(n)]
        0 <= n <= a.len() && n < b.len() && a.take(n) == b.take(n) && (n == a.len() || a[n]
            < b[n])
}

/// The members of an object come in the order of their keys.
pub open spec fn ascending(json: JsonView) -> bool {
    json matches JsonView::Object(members) ==> forall|i: int, j: int|
        0 <= i < j < members.len() ==> text_before(
            (#[trigger] members[i]).0,
            (#[trigger] members[j]).0,
        )
}

/// Where the text `out` reads back, and no two of the members had the same key, the
/// keys come in the order of the members.
pub open spec fn keeps_order(
    members: Seq<(Seq<char>, Seq<char>)>,
    out: Result<Seq<char>, Seq<char>>,
) -> bool {
    out matches Ok(text) ==> (json_value(text) matches Some(JsonView::Object(read)) ==> (
    distinct_keys(members) ==> keys(read) == keys(members)))
}

/// The keys of members.
pub open spec fn keys(members: Seq<(Seq<char>, Seq<char>)>) -> Seq<Seq<char>> {
    members.map_values(|m: (Seq<char>, Seq<char>)| m.0)
}

/// A value nested at most `depth` levels deep.
pub open spec fn shallow(json: JsonView, depth: nat) -> bool
    decreases depth,
{
    ||| json.exact()
    ||| json is Decimal
    ||| depth > 0 && match json {
        JsonView::Array(items) => forall|i: int|
            0 <= i < items.len() ==> (json_value(#[trigger] items[i]) matches Some(v) && shallow(
                v,
                (depth - 1) as nat,
            )),
        JsonView::Object(members) => forall|i: int|
            0 <= i < members.len() ==> (json_value((#[trigger] members[i]).1) matches Some(v)
                && shallow(v, (depth - 1) as nat)),
        _ => false,
    }
}

/// `text` is the JSON of a value nested at most `depth` levels deep.
pub open spec fn shallow_text(text: Seq<char>, depth: nat) -> bool {
    json_value(text) matches Some(v) && shallow(v, depth)
}

/// An object is one level deeper than its members.
pub proof fn lemma_shallow_object(members: Seq<(Seq<char>, Seq<char>)>, depth: nat)
    requires
        forall|i: int|
            0 <= i < members.len() ==> (json_value((#[trigger] members[i]).1) matches Some(v) && (
            v.exact() || shallow(v, depth))),
    ensures
        shallow(JsonView::Object(members), depth + 1),
{
    assert forall|i: int| 0 <= i < members.len() implies (json_value((#[trigger] members[i]).1)
        matches Some(v) && shallow(v, depth)) by {}
}

/// How deep a value may be nested for `faithful` to promise that its text reads
/// back. The reader itself gives up far deeper.
pub open spec fn depth_limit() -> nat {
    16
}

/// A value that is not nested too deep.
pub open spec fn moderate(json: JsonView) -> bool {
    json.exact() || exists|depth: nat| depth <= depth_limit() && #[trigger] shallow(json, depth)
}

/// What can be relied on of the text `out` written for `json`.
pub open spec fn faithful(json: JsonView, out: Result<Seq<char>, Seq<char>>) -> bool {
    &&& forall|depth: nat|
        depth <= depth_limit() && #[trigger] shallow(json, depth) && !(json is Decimal) ==> {
            &&& out matches Ok(text)
            &&& json_value(text) matches Some(back)
            &&& shallow(back, depth)
        }
    &&& match json {
        JsonView::Array(items) => {
            &&& out is Ok <==> forall|i: int|
                0 <= i < items.len() ==> json_value(#[trigger] items[i]) is Some
            &&& out matches Ok(text) ==> reads_back_items(items, text)
        },
        JsonView::Object(members) => {
            &&& out is Ok <==> forall|i: int|
                0 <= i < members.len() ==> json_value((#[trigger] members[i]).1) is Some
            &&& out matches Ok(text) ==> reads_back_members(members, text)
        },
        _ => json.exact() ==> (out matches Ok(text) && json_value(text) == Some(json)),
    }
}

/// Where `text` reads back, it is an array with as many items, and each item that is
/// not nested too deep is the same value.
pub open spec fn reads_back_items(items: Seq<Seq<char>>, text: Seq<char>) -> bool {
    json_value(text) matches Some(back) ==> {
        &&& back matches JsonView::Array(texts)
        &&& texts.len() == items.len()
        &&& forall|i: int|
            0 <= i < items.len() && (json_value(items[i]) matches Some(v) && moderate(v))
                ==> json_value(#[trigger] texts[i]) == json_value(items[i])
    }
}

/// One of the members has the key `key`.
pub open spec fn has_key(members: Seq<(Seq<char>, Seq<char>)>, key: Seq<char>) -> bool {
    exists|i: int| 0 <= i < members.len() && (#[trigger] members[i]).0 == key
}

/// Where `text` reads back, it is an object without other keys, and, if the keys
/// were distinct, each member that is not nested too deep is the same value.
pub open spec fn reads_back_members(
    members: Seq<(Seq<char>, Seq<char>)>,
    text: Seq<char>,
) -> bool {
    json_value(text) matches Some(back) ==> {
        &&& back is Object
        &&& forall|key: Seq<char>| (#[trigger] back.member(key)) is Some ==> has_key(members, key)
        &&& distinct_keys(members) ==> forall|i: int|
            0 <= i < members.len() && (json_value(members[i].1) matches Some(v) && moderate(v))
                ==> member_value(back, (#[trigger] members[i]).0) == json_value(members[i].1)
    }
}

impl Json {
    /// The JSON text of the member with key `key`.
    pub fn member(&self, key: &str) -> (r: Option<&String>)
        ensures
            match r {
                Some(text) => self@.member(key@) == Some(text@),
                None => self@.member(key@) is None,
            },
    {
        match self {
            Json::Object(members) => {
                let ghost all = member_views(members@);
                let wanted = key.to_string();
                let mut i: usize = 0;
                while i < members.len()
                    invariant
                        i <= members.len(),
                        wanted@ == key@,
                        all == member_views(members@),
                        self@ == JsonView::Object(all),
                        member_index(all, key@, i as int) == member_index(all, key@, 0),
                    decreases members.len() - i,
                {
                    assert(all[i as int] == (members@[i as int].0@, members@[i as int].1@));
                    if members[i].0 == wanted {
                        return Some(&members[i].1);
                    }
                    i = i + 1;
                }
                None
            },
            _ => None,
        }
    }

    /// The value as an unsigned number.
    pub fn as_u64(&self) -> (r: Option<u64>)
        ensures
            r == self@.as_u64(),
    {
        match self {
            Json::Unsigned(n) => Some(*n),
            _ => None,
        }
    }

    /// The value as a signed number.
    pub fn as_i64(&self) -> (r: Option<i64>)
        ensures
            r == self@.as_i64(),
    {
        match self {
            Json::Unsigned(n) => if *n <= i64::MAX as u64 {
                Some(*n as i64)
            } else {
                None
            },
            Json::Negative(n) => Some(*n),
            _ => None,
        }
    }

    /// The value as a string.
    pub fn as_text(&self) -> (r: Option<&String>)
        ensures
            match r {
                Some(text) => self@.as_text() == Some(text@),
                None => self@.as_text() is None,
            },
    {
        match self {
            Json::Text(t) => Some(t),
            _ => None,
        }
    }

    /// The value of the member with key `key`.
    pub fn member_json(&self, key: &str) -> (r: Option<Json>)
        ensures
            match r {
                Some(json) => member_value(self@, key@) == Some(json@),
                None => member_value(self@, key@) is None,
            },
    {
        match self.member(key) {
            Some(text) => match parse_json(text.as_str()) {
                Ok(json) => Some(json),
                Err(_) => None,
            },
            None => None,
        }
    }

    /// The string that the member with key `key` holds.
    pub fn member_string(&self, key: &str) -> (r: Option<String>)
        ensures
            match r {
                Some(text) => member_text(self@, key@) == Some(text@),
                None => member_text(self@, key@) is None,
            },
    {
        match self.member_json(key) {
            Some(json) => match json.as_text() {
                Some(t) => Some(t.clone()),
                None => None,
            },
            None => None,
        }
    }
}

/// One level of JSON, read from `text`.
pub fn read(text: &str) -> (r: Result<Json, String>)
    ensures
        read_view(r) == json_of_text(text@),
{
    parse_json(text)
}

/// The JSON text of a string.
pub open spec fn quoted(text: Seq<char>) -> Seq<char> {
    text_of_json(JsonView::Text(text))->Ok_0
}

/// The JSON text of a string.
pub fn quote(text: &str) -> (out: String)
    ensures
        out@ == quoted(text@),
        json_value(out@) == Some(JsonView::Text(text@)),
{
    match write_json(&Json::Text(text.to_string())) {
        Ok(out) => out,
        Err(message) => message,
    }
}

/// The JSON text of an unsigned number.
pub open spec fn number_text(n: u64) -> Seq<char> {
    text_of_json(JsonView::Unsigned(n))->Ok_0
}

/// The JSON text of an unsigned number.
pub fn number(n: u64) -> (out: String)
    ensures
        out@ == number_text(n),
        json_value(out@) == Some(JsonView::Unsigned(n)),
{
    match write_json(&Json::Unsigned(n)) {
        Ok(out) => out,
        Err(message) => message,
    }
}

/// Each member's text is the JSON of a value nested at most `depth` levels deep.
pub open spec fn sound(members: Seq<(Seq<char>, Seq<char>)>, depth: nat) -> bool {
    forall|i: int|
        0 <= i < members.len() ==> (json_value((#[trigger] members[i]).1) matches Some(v) && (
        v.exact() || shallow(v, depth)))
}

/// The member for a text that may be missing.
pub open spec fn optional_text(key: Seq<char>, value: Option<Seq<char>>) -> Seq<
    (Seq<char>, Seq<char>),
> {
    match value {
        Some(text) => seq![(key, quoted(text))],
        None => Seq::empty(),
    }
}

/// Adds a member with the given JSON text.
pub fn add_json(members: &mut Vec<(String, String)>, key: &str, text: String)
    ensures
        member_views(final(members)@) == member_views(old(members)@).push((key@, text@)),
        forall|depth: nat| #[trigger]
            sound(member_views(old(members)@), depth) && shallow_text(text@, depth) ==> sound(
                member_views(final(members)@),
                depth,
            ),
{
    let ghost before = member_views(members@);
    let ghost t = text@;
    members.push((key.to_string(), text));
    assert(member_views(members@) =~= before.push((key@, t)));
}

/// Adds a member with a string.
pub fn add_text(members: &mut Vec<(String, String)>, key: &str, value: &str)
    ensures
        member_views(final(members)@) == member_views(old(members)@).push(
            (key@, quoted(value@)),
        ),
        json_value(quoted(value@)) == Some(JsonView::Text(value@)),
        forall|depth: nat| #[trigger]
            sound(member_views(old(members)@), depth) ==> sound(
                member_views(final(members)@),
                depth,
            ),
{
    let ghost before = member_views(members@);
    let text = quote(value);
    let ghost t = text@;
    members.push((key.to_string(), text));
    assert(member_views(members@) =~= before.push((key@, t)));
}

/// Adds a member with a string, where there is one.
pub fn add_optional_text(members: &mut Vec<(String, String)>, key: &str, value: &Option<String>)
    ensures
        member_views(final(members)@) == member_views(old(members)@) + optional_text(
            key@,
            opt_view(*value),
        ),
        value matches Some(t) ==> json_value(quoted(t@)) == Some(JsonView::Text(t@)),
        forall|depth: nat| #[trigger]
            sound(member_views(old(members)@), depth) ==> sound(
                member_views(final(members)@),
                depth,
            ),
{
    let ghost before = member_views(members@);
    match value {
        Some(text) => {
            add_text(members, key, text.as_str());
            assert(before.push((key@, quoted(text@))) =~= before + seq![(key@, quoted(text@))]);
        },
        None => {
            assert(before + Seq::empty() =~= before);
        },
    }
}

/// Adds a member with a number.
pub fn add_number(members: &mut Vec<(String, String)>, key: &str, n: u64)
    ensures
        member_views(final(members)@) == member_views(old(members)@).push((key@, number_text(n))),
        json_value(number_text(n)) == Some(JsonView::Unsigned(n)),
        forall|depth: nat| #[trigger]
            sound(member_views(old(members)@), depth) ==> sound(
                member_views(final(members)@),
                depth,
            ),
{
    let ghost before = member_views(members@);
    let text = number(n);
    let ghost t = text@;
    members.push((key.to_string(), text));
    assert(member_views(members@) =~= before.push((key@, t)));
}

/// The JSON text of an object, where each member's text is JSON.
pub open spec fn object_text(members: Seq<(Seq<char>, Seq<char>)>) -> Seq<char> {
    text_of_json(JsonView::Object(members))->Ok_0
}

/// The JSON text of an object.
pub fn object(members: Vec<(String, String)>) -> (r: Result<String, String>)
    ensures
        written_view(r) == text_of_json(JsonView::Object(member_views(members@))),
        r is Ok <==> forall|i: int|
            0 <= i < members@.len() ==> json_value((#[trigger] member_views(members@)[i]).1) is Some,
        r matches Ok(text) ==> reads_back_members(member_views(members@), text@),
        keeps_order(member_views(members@), written_view(r)),
        forall|depth: nat|
            depth < depth_limit() && #[trigger] sound(member_views(members@), depth) ==> (r matches Ok(
            text,
        ) && text@ == object_text(member_views(members@)) && shallow_text(text@, depth + 1)),
{
    let ghost views = member_views(members@);
    let json = Json::Object(members);
    let r = write_json(&json);
    proof {
        assert forall|depth: nat| depth < depth_limit() && #[trigger] sound(views, depth) implies (
        r matches Ok(text) && text@ == object_text(views) && shallow_text(text@, depth + 1)) by {
            lemma_shallow_object(views, depth);
        }
    }
    r
}

/// Each text is the JSON of a value nested at most `depth` levels deep.
pub open spec fn sound_items(items: Seq<Seq<char>>, depth: nat) -> bool {
    forall|i: int| 0 <= i < items.len() ==> shallow_text(#[trigger] items[i], depth)
}

/// `value` is an array of the values that the texts read as.
pub open spec fn holds_items(value: Option<JsonView>, items: Seq<Seq<char>>) -> bool {
    &&& value matches Some(JsonView::Array(read))
    &&& read.len() == items.len()
    &&& forall|i: int|
        0 <= i < read.len() ==> json_value(#[trigger] read[i]) == json_value(items[i])
}

/// The JSON text of an array.
pub fn array(items: Vec<String>) -> (r: Result<String, String>)
    ensures
        written_view(r) == text_of_json(JsonView::Array(string_views(items@))),
        forall|depth: nat|
            depth < depth_limit() && #[trigger] sound_items(string_views(items@), depth) ==> (
            r matches Ok(text) && shallow_text(text@, depth + 1) && holds_items(
                json_value(text@),
                string_views(items@),
            )),
{
    let ghost texts = string_views(items@);
    let json = Json::Array(items);
    let r = write_json(&json);
    proof {
        assert forall|depth: nat| depth < depth_limit() && #[trigger] sound_items(texts, depth) implies (
        r matches Ok(text) && shallow_text(text@, depth + 1) && holds_items(
            json_value(text@),
            texts,
        )) by {
            assert forall|i: int| 0 <= i < texts.len() implies (json_value(#[trigger] texts[i])
                matches Some(v) && shallow(v, depth)) by {
                assert(shallow_text(texts[i], depth));
            }
            assert(shallow(json@, depth + 1));
            let read = json_value(r->Ok_0@)->0->Array_0;
            assert forall|i: int| 0 <= i < read.len() implies json_value(#[trigger] read[i])
                == json_value(texts[i]) by {
                assert(shallow_text(texts[i], depth));
                assert(moderate(json_value(texts[i])->0));
            }
        }
    }
    r
}

/// The JSON text of strings.
pub open spec fn strings_json(texts: Seq<Seq<char>>) -> Seq<char> {
    text_of_json(JsonView::Array(texts.map_values(|t: Seq<char>| quoted(t))))->Ok_0
}

/// `value` is an array of the strings.
pub open spec fn holds_strings(value: Option<JsonView>, texts: Seq<Seq<char>>) -> bool {
    &&& value matches Some(JsonView::Array(items))
    &&& items.len() == texts.len()
    &&& forall|i: int|
        0 <= i < items.len() ==> json_value(#[trigger] items[i]) == Some(JsonView::Text(texts[i]))
}

/// The JSON text of strings.
pub fn strings(texts: &Vec<String>) -> (out: String)
    ensures
        out@ == strings_json(string_views(texts@)),
        shallow_text(out@, 1),
        holds_strings(json_value(out@), string_views(texts@)),
{
    let ghost all = string_views(texts@);
    let mut items: Vec<String> = Vec::new();
    while items.len() < texts.len()
        invariant
            items.len() <= texts.len(),
            all == string_views(texts@),
            forall|j: int| 0 <= j < items.len() ==> (#[trigger] items@[j])@ == quoted(all[j]),
            forall|j: int|
                0 <= j < items.len() ==> json_value((#[trigger] items@[j])@) == Some(
                    JsonView::Text(all[j]),
                ),
        decreases texts.len() - items.len(),
    {
        let item = quote(texts[items.len()].as_str());
        items.push(item);
    }
    let ghost quotes = string_views(items@);
    assert(quotes =~= all.map_values(|t: Seq<char>| quoted(t)));
    assert forall|j: int| 0 <= j < quotes.len() implies json_value(#[trigger] quotes[j]) == Some(
        JsonView::Text(all[j]),
    ) by {
        assert(json_value(items@[j]@) == Some(JsonView::Text(all[j])));
    }
    assert(sound_items(quotes, 0));
    match array(items) {
        Ok(text) => text,
        Err(message) => message,
    }
}

/// The JSON text of an object with its members sorted by their keys.
pub fn sorted_object(members: &Vec<(String, String)>) -> (r: Result<String, String>)
    ensures
        written_view(r) == sorted_text(member_views(members@)),
        r is Ok <==> forall|i: int|
            0 <= i < members@.len() ==> json_value((#[trigger] member_views(members@)[i]).1) is Some,
        r matches Ok(text) ==> reads_back_members(member_views(members@), text@),
        forall|depth: nat|
            depth < depth_limit() && #[trigger] sound(member_views(members@), depth) ==> (r matches Ok(
            text,
        ) && shallow_text(text@, depth + 1)),
{
    let ghost views = member_views(members@);
    let r = write_sorted(members);
    proof {
        assert forall|depth: nat| depth < depth_limit() && #[trigger] sound(views, depth) implies (
        r matches Ok(text) && shallow_text(text@, depth + 1)) by {
            lemma_shallow_object(views, depth);
        }
    }
    r
}

} // verus!
