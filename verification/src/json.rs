//! JSON as a plain value, and the readers a response is decoded with.
//!
//! The text itself is parsed by `serde_json`; what the library reads out of the
//! result is stated over [`Doc`], the view of a [`Json`]. A value that nobody reads may
//! be one that nobody can: it spoils what reads it and no more.

use serde_json::value::RawValue;
use serde_json::Value;
use vstd::prelude::*;
use crate::number::{float_text, parse_float};
use crate::text::{
    chars_of, decimal, decimal_int, integer, is_space, lemma_decimal_digits, opt_view,
    parse_integer, same_text, text_between, trim, trimmed, views,
};

verus! {

/// A JSON value.
///
/// A number is kept as what the readers below make of it: the integer itself where
/// 64 signed bits hold it, that it is larger, or its whole part where it is written
/// with a fraction or an exponent.
#[derive(Debug, PartialEq, Eq)]
pub enum Json {
    Null,
    Bool(bool),
    Int(i64),
    /// An integer beyond 64 signed bits.
    Big(u64),
    /// A number with a fraction or an exponent, by its whole part, taken to the
    /// nearest end of the range where that is beyond 64 signed bits.
    Float(i64),
    Str(String),
    Array(Vec<Json>),
    /// The members of an object, each with its name, a repeated one as often as it
    /// stands there.
    Object(Vec<(String, Json)>),
    /// A value that is well written and cannot be read: a number out of all range, a
    /// text with half a character in it, a nesting too deep.
    Fault,
}

/// What a [`Json`] holds.
pub enum Doc {
    Null,
    Bool(bool),
    Int(i64),
    Big(u64),
    Float(i64),
    Str(Seq<char>),
    Array(Seq<Doc>),
    Object(Seq<(Seq<char>, Doc)>),
    Fault,
}

/// What a value holds.
pub open spec fn doc_of(json: Json) -> Doc
    decreases json,
{
    match json {
        Json::Null => Doc::Null,
        Json::Bool(b) => Doc::Bool(b),
        Json::Int(n) => Doc::Int(n),
        Json::Big(n) => Doc::Big(n),
        Json::Float(n) => Doc::Float(n),
        Json::Str(s) => Doc::Str(s@),
        Json::Array(list) => Doc::Array(
            Seq::new(
                list@.len(),
                |i: int|
                    if 0 <= i < list@.len() {
                        doc_of(list@[i])
                    } else {
                        Doc::Null
                    },
            ),
        ),
        Json::Object(list) => Doc::Object(
            Seq::new(
                list@.len(),
                |i: int|
                    if 0 <= i < list@.len() {
                        (list@[i].0@, doc_of(list@[i].1))
                    } else {
                        (Seq::empty(), Doc::Null)
                    },
            ),
        ),
        Json::Fault => Doc::Fault,
    }
}

impl View for Json {
    type V = Doc;

    open spec fn view(&self) -> Doc {
        doc_of(*self)
    }
}

/// A copy of a value.
fn copy_of(json: &Json) -> (copy: Json)
    ensures
        copy@ == json@,
    decreases json,
{
    match json {
        Json::Null => Json::Null,
        Json::Bool(b) => Json::Bool(*b),
        Json::Int(n) => Json::Int(*n),
        Json::Big(n) => Json::Big(*n),
        Json::Float(n) => Json::Float(*n),
        Json::Str(s) => Json::Str(s.clone()),
        Json::Array(list) => {
            let mut copies: Vec<Json> = Vec::new();
            let mut i: usize = 0;
            while i < list.len()
                invariant
                    i <= list@.len(),
                    *json == Json::Array(*list),
                    copies@.len() == i,
                    forall|k: int| 0 <= k < i ==> (#[trigger] copies@[k])@ == list@[k]@,
                decreases list@.len() - i,
            {
                proof {
                    assert(decreases_to!(*json => json->Array_0));
                    assert(decreases_to!(*list => list[i as int]));
                }
                copies.push(copy_of(&list[i]));
                i += 1;
            }
            let copy = Json::Array(copies);
            proof {
                assert(copy@->Array_0 =~= json@->Array_0);
            }
            copy
        },
        Json::Object(list) => {
            let mut copies: Vec<(String, Json)> = Vec::new();
            let mut i: usize = 0;
            while i < list.len()
                invariant
                    i <= list@.len(),
                    *json == Json::Object(*list),
                    copies@.len() == i,
                    forall|k: int|
                        0 <= k < i ==> (#[trigger] copies@[k]).0@ == list@[k].0@ && copies@[k].1@
                            == list@[k].1@,
                decreases list@.len() - i,
            {
                proof {
                    assert(decreases_to!(*json => json->Object_0));
                    assert(decreases_to!(*list => list[i as int]));
                }
                copies.push((list[i].0.clone(), copy_of(&list[i].1)));
                i += 1;
            }
            let copy = Json::Object(copies);
            proof {
                assert(copy@->Object_0 =~= json@->Object_0);
            }
            copy
        },
        Json::Fault => Json::Fault,
    }
}

impl Clone for Json {
    fn clone(&self) -> (copy: Self)
        ensures
            copy@ == self@,
    {
        copy_of(self)
    }
}

// ---------------------------------------------------------------------------
// Parsing
// ---------------------------------------------------------------------------

/// The text of the one value a text holds, white space around it aside.
pub uninterp spec fn json_text(text: Seq<char>) -> Option<Seq<char>>;

/// `serde_json::from_str` into a `RawValue`: the text of the value as it stands there,
/// `None` where the text is not JSON. The grammar is not stated.
#[verifier::external_body]
fn value_text(text: &str) -> (value: Option<String>)
    ensures
        opt_view(value) == json_text(text@),
{
    let value: Option<&RawValue> = serde_json::from_str(text).ok();
    value.map(|raw| raw.get().to_owned())
}

/// What `serde_json` says of a text that is not JSON.
pub uninterp spec fn json_fault(text: Seq<char>) -> Seq<char>;

/// `serde_json::from_str` into a `serde_json::Value`, by its error: the text of it with the
/// place it points at, empty where there is none. How it is worded is not stated.
#[verifier::external_body]
fn fault_of(text: &str) -> (why: String)
    ensures
        why@ == json_fault(text@),
{
    let read: Result<Value, serde_json::Error> = serde_json::from_str(text);
    read.err().map(|err| err.to_string()).unwrap_or_default()
}

/// The texts of the values of the array a text holds.
pub uninterp spec fn json_items(text: Seq<char>) -> Option<Seq<Seq<char>>>;

/// `serde_json::from_str` into a list of `RawValue`s: the text of each value of the
/// array, in order, `None` where the text is no array. The grammar is not stated.
#[verifier::external_body]
fn item_texts(text: &str) -> (items: Option<Vec<String>>)
    ensures
        match items {
            Some(list) => json_items(text@) == Some(views(list@)),
            None => json_items(text@) is None,
        },
{
    let items: Vec<&RawValue> = serde_json::from_str(text).ok()?;
    Some(items.into_iter().map(|raw| raw.get().to_owned()).collect())
}

/// The text of the first value that stands in a text, and what follows it.
pub uninterp spec fn json_first(text: Seq<char>) -> Option<(Seq<char>, Seq<char>)>;

/// `serde_json`'s `StreamDeserializer`, asked once for a `RawValue`: the text of the value
/// that the text begins with and what follows it, which is shorter, `None` where it
/// begins with none. The grammar is not stated.
#[verifier::external_body]
fn first_text(text: &str) -> (first: Option<(String, String)>)
    ensures
        match first {
            Some((value, rest)) => json_first(text@) == Some((value@, rest@)) && rest@.len()
                < text@.len(),
            None => json_first(text@) is None,
        },
{
    let mut values = serde_json::Deserializer::from_str(text).into_iter::<&RawValue>();
    let first = values.next()?.ok()?;
    Some((first.get().to_owned(), text[values.byte_offset()..].to_owned()))
}

/// What a text holds that is neither array nor object, where it can be read.
pub uninterp spec fn json_scalar(text: Seq<char>) -> Option<Doc>;

/// `serde_json::from_str` into a `serde_json::Value`: null, a flag, a number or a text,
/// variant by variant; `None` for an array, an object and an error. The grammar, and
/// how a fraction is rounded before its whole part is taken, are not stated.
#[verifier::external_body]
fn scalar_of(text: &str) -> (value: Option<Json>)
    ensures
        match value {
            Some(v) => json_scalar(text@) == Some(v@),
            None => json_scalar(text@) is None,
        },
{
    match serde_json::from_str(text).ok()? {
        Value::Null => Some(Json::Null),
        Value::Bool(b) => Some(Json::Bool(b)),
        Value::Number(n) => match (n.as_i64(), n.as_u64(), n.as_f64()) {
            (Some(i), _, _) => Some(Json::Int(i)),
            (_, Some(u), _) => Some(Json::Big(u)),
            (_, _, x) => Some(Json::Float(x.unwrap_or_default() as i64)),
        },
        Value::String(s) => Some(Json::Str(s)),
        Value::Array(_) => None,
        Value::Object(_) => None,
    }
}

/// How deep arrays and objects are read.
pub const DEPTH: u32 = 127;

/// The text after its leading white space, as JSON counts it.
pub open spec fn unspaced(s: Seq<char>) -> Seq<char>
    decreases s.len(),
{
    if s.len() > 0 && (s[0] == ' ' || s[0] == '\t' || s[0] == '\n' || s[0] == '\r') {
        unspaced(s.skip(1))
    } else {
        s
    }
}

/// What follows a character, white space before it aside, where it stands there.
pub open spec fn after(s: Seq<char>, c: char) -> Option<Seq<char>> {
    let t = unspaced(s);
    if t.len() > 0 && t[0] == c {
        Some(t.skip(1))
    } else {
        None
    }
}

/// See [`after`].
fn text_after(text: &str, c: char) -> (rest: Option<String>)
    ensures
        opt_view(rest) == after(text@, c),
        rest matches Some(r) ==> r@.len() < text@.len(),
{
    let chars = chars_of(text);
    let mut i: usize = 0;
    proof {
        assert(chars@.skip(0) =~= chars@);
    }
    while i < chars.len() && (chars[i] == ' ' || chars[i] == '\t' || chars[i] == '\n' || chars[i]
        == '\r')
        invariant
            i <= chars@.len(),
            chars@ == text@,
            unspaced(chars@) == unspaced(chars@.skip(i as int)),
        decreases chars@.len() - i,
    {
        proof {
            assert(chars@.skip(i as int)[0] == chars@[i as int]);
            assert(chars@.skip(i as int).skip(1) =~= chars@.skip(i + 1));
        }
        i += 1;
    }
    proof {
        if i < chars@.len() {
            assert(chars@.skip(i as int)[0] == chars@[i as int]);
        }
        assert(unspaced(chars@) == chars@.skip(i as int));
    }
    if i < chars.len() && chars[i] == c {
        let rest = text_between(chars.as_slice(), i + 1, chars.len());
        proof {
            assert(rest@ =~= chars@.skip(i as int).skip(1));
        }
        Some(rest)
    } else {
        None
    }
}

/// The first member that stands in a text, by its name and the text of its value, and
/// what follows it.
pub open spec fn first_member(text: Seq<char>) -> Option<(Seq<char>, Seq<char>, Seq<char>)> {
    match json_first(text) {
        Some((name, rest)) => match (json_scalar(name), after(rest, ':')) {
            (Some(Doc::Str(key)), Some(rest)) => match json_first(rest) {
                Some((value, rest)) => Some((key, value, rest)),
                None => None,
            },
            _ => None,
        },
        None => None,
    }
}

/// The members that stand in a text up to the end of their object, each by its name and
/// the text of its value.
pub open spec fn members_from(text: Seq<char>) -> Option<Seq<(Seq<char>, Seq<char>)>>
    decreases text.len(),
{
    match first_member(text) {
        Some((key, value, rest)) => match after(rest, ',') {
            Some(more) => if more.len() < text.len() {
                match members_from(more) {
                    Some(list) => Some(seq![(key, value)] + list),
                    None => None,
                }
            } else {
                None
            },
            None => if after(rest, '}') is Some {
                Some(seq![(key, value)])
            } else {
                None
            },
        },
        None => None,
    }
}

/// The members of the object a text holds, in order, each by its name and the text of
/// its value. `serde_json`'s own maps keep one of two members of a name; here both stand,
/// so that a reader can refuse them.
pub open spec fn json_members(text: Seq<char>) -> Option<Seq<(Seq<char>, Seq<char>)>> {
    match after(text, '{') {
        Some(body) => if after(body, '}') is Some {
            Some(Seq::empty())
        } else {
            members_from(body)
        },
        None => None,
    }
}

/// The characters of a list of pairs of texts.
pub open spec fn text_pairs(list: Seq<(String, String)>) -> Seq<(Seq<char>, Seq<char>)> {
    list.map_values(|entry: (String, String)| (entry.0@, entry.1@))
}

/// See [`first_member`].
fn read_first_member(text: &str) -> (member: Option<(String, String, String)>)
    ensures
        match member {
            Some((key, value, rest)) => first_member(text@) == Some((key@, value@, rest@))
                && rest@.len() < text@.len(),
            None => first_member(text@) is None,
        },
{
    let (name, rest) = match first_text(text) {
        Some(first) => first,
        None => {
            return None;
        },
    };
    match (scalar_of(name.as_str()), text_after(rest.as_str(), ':')) {
        (Some(Json::Str(key)), Some(rest)) => match first_text(rest.as_str()) {
            Some((value, rest)) => Some((key, value, rest)),
            None => None,
        },
        _ => None,
    }
}

/// See [`json_members`].
fn member_texts(text: &str) -> (members: Option<Vec<(String, String)>>)
    ensures
        match members {
            Some(list) => json_members(text@) == Some(text_pairs(list@)),
            None => json_members(text@) is None,
        },
{
    let body = match text_after(text, '{') {
        Some(body) => body,
        None => {
            return None;
        },
    };
    let mut list: Vec<(String, String)> = Vec::new();
    if text_after(body.as_str(), '}').is_some() {
        proof {
            assert(text_pairs(list@) =~= Seq::<(Seq<char>, Seq<char>)>::empty());
        }
        return Some(list);
    }
    let ghost whole = members_from(body@);
    let mut rest = body;
    proof {
        assert(match members_from(rest@) {
            Some(tail) => text_pairs(list@) + tail =~= tail,
            None => true,
        });
    }
    loop
        invariant
            match members_from(rest@) {
                Some(tail) => whole == Some(text_pairs(list@) + tail),
                None => whole is None,
            },
            json_members(text@) == whole,
        decreases rest@.len(),
    {
        let (key, value, more) = match read_first_member(rest.as_str()) {
            Some(member) => member,
            None => {
                return None;
            },
        };
        let ghost done = text_pairs(list@);
        let ghost entry = (key@, value@);
        list.push((key, value));
        proof {
            assert(text_pairs(list@) =~= done.push(entry));
        }
        match text_after(more.as_str(), ',') {
            Some(tail) => {
                proof {
                    if let Some(l) = members_from(tail@) {
                        assert(done + (seq![entry] + l) =~= done.push(entry) + l);
                    }
                }
                rest = tail;
            },
            None => {
                if text_after(more.as_str(), '}').is_some() {
                    proof {
                        assert(done + seq![entry] =~= done.push(entry));
                    }
                    return Some(list);
                }
                return None;
            },
        }
    }
}

/// What the text of one value holds, arrays and objects as deep as there is room.
pub open spec fn tree(text: Seq<char>, room: nat) -> Doc
    decreases room,
{
    if text.len() > 0 && text[0] == '[' {
        match json_items(text) {
            Some(items) if room > 0 => Doc::Array(
                Seq::new(items.len(), |i: int| tree(items[i], (room - 1) as nat)),
            ),
            _ => Doc::Fault,
        }
    } else if text.len() > 0 && text[0] == '{' {
        match json_members(text) {
            Some(list) if room > 0 => Doc::Object(
                Seq::new(
                    list.len(),
                    |i: int| (list[i].0, tree(list[i].1, (room - 1) as nat)),
                ),
            ),
            _ => Doc::Fault,
        }
    } else {
        match json_scalar(text) {
            Some(doc) => doc,
            None => Doc::Fault,
        }
    }
}

/// What parsing a text as JSON gives: the value, or the text of the error.
pub open spec fn json_parsed(text: Seq<char>) -> Result<Doc, Seq<char>> {
    match json_text(text) {
        Some(value) => Ok(tree(value, DEPTH as nat)),
        None => Err(json_fault(text)),
    }
}

/// The character a text begins with.
fn first_char(text: &str) -> (first: Option<char>)
    ensures
        first == (if text@.len() > 0 {
            Some(text@[0])
        } else {
            None
        }),
{
    let chars = chars_of(text);
    if chars.len() > 0 {
        Some(chars[0])
    } else {
        None
    }
}

/// See [`tree`].
fn read_tree(text: &str, room: u32) -> (json: Json)
    ensures
        json@ == tree(text@, room as nat),
    decreases room,
{
    match first_char(text) {
        Some('[') => {
            if room == 0 {
                return Json::Fault;
            }
            let items = match item_texts(text) {
                Some(items) => items,
                None => {
                    return Json::Fault;
                },
            };
            let mut list: Vec<Json> = Vec::new();
            let mut i: usize = 0;
            while i < items.len()
                invariant
                    i <= items@.len(),
                    room > 0,
                    list@.len() == i,
                    forall|k: int|
                        0 <= k < i ==> (#[trigger] list@[k])@ == tree(
                            items@[k]@,
                            (room - 1) as nat,
                        ),
                decreases items@.len() - i,
            {
                list.push(read_tree(items[i].as_str(), room - 1));
                i += 1;
            }
            let json = Json::Array(list);
            proof {
                assert(json@->Array_0 =~= tree(text@, room as nat)->Array_0);
            }
            json
        },
        Some('{') => {
            if room == 0 {
                return Json::Fault;
            }
            let members = match member_texts(text) {
                Some(members) => members,
                None => {
                    return Json::Fault;
                },
            };
            let mut list: Vec<(String, Json)> = Vec::new();
            let mut i: usize = 0;
            while i < members.len()
                invariant
                    i <= members@.len(),
                    room > 0,
                    list@.len() == i,
                    forall|k: int|
                        0 <= k < i ==> (#[trigger] list@[k]).0@ == members@[k].0@ && list@[k].1@
                            == tree(members@[k].1@, (room - 1) as nat),
                decreases members@.len() - i,
            {
                list.push((members[i].0.clone(), read_tree(members[i].1.as_str(), room - 1)));
                i += 1;
            }
            let json = Json::Object(list);
            proof {
                assert(json@->Object_0 =~= tree(text@, room as nat)->Object_0);
            }
            json
        },
        _ => match scalar_of(text) {
            Some(json) => json,
            None => Json::Fault,
        },
    }
}

/// Parse a text as JSON.
pub fn parse_json(text: &str) -> (json: Result<Json, String>)
    ensures
        match json {
            Ok(j) => json_parsed(text@) == Ok::<Doc, Seq<char>>(j@),
            Err(m) => json_parsed(text@) == Err::<Doc, Seq<char>>(m@),
        },
{
    match value_text(text) {
        Some(value) => Ok(read_tree(value.as_str(), DEPTH)),
        None => Err(fault_of(text)),
    }
}

/// Whether a value can be read to its last part.
pub open spec fn sound(doc: Doc) -> bool
    decreases doc,
{
    match doc {
        Doc::Array(list) => forall|i: int| 0 <= i < list.len() ==> sound(#[trigger] list[i]),
        Doc::Object(list) => forall|i: int| 0 <= i < list.len() ==> sound((#[trigger] list[i]).1),
        Doc::Fault => false,
        _ => true,
    }
}

/// See [`sound`].
pub fn is_sound(json: &Json) -> (yes: bool)
    ensures
        yes == sound(json@),
    decreases json,
{
    match json {
        Json::Array(list) => {
            let mut i: usize = 0;
            while i < list.len()
                invariant
                    i <= list@.len(),
                    *json == Json::Array(*list),
                    forall|k: int| 0 <= k < i ==> sound(#[trigger] json@->Array_0[k]),
                decreases list@.len() - i,
            {
                if !is_sound(&list[i]) {
                    proof {
                        assert(!sound(json@->Array_0[i as int]));
                    }
                    return false;
                }
                i += 1;
            }
            true
        },
        Json::Object(list) => {
            let mut i: usize = 0;
            while i < list.len()
                invariant
                    i <= list@.len(),
                    *json == Json::Object(*list),
                    forall|k: int| 0 <= k < i ==> sound((#[trigger] json@->Object_0[k]).1),
                decreases list@.len() - i,
            {
                if !is_sound(&list[i].1) {
                    proof {
                        assert(!sound(json@->Object_0[i as int].1));
                    }
                    return false;
                }
                i += 1;
            }
            true
        },
        Json::Fault => false,
        _ => true,
    }
}

// ---------------------------------------------------------------------------
// Fields
// ---------------------------------------------------------------------------

/// The first member of this name.
pub open spec fn member(list: Seq<(Seq<char>, Doc)>, key: Seq<char>) -> Option<Doc>
    decreases list.len(),
{
    if list.len() == 0 {
        None
    } else if list[0].0 == key {
        Some(list[0].1)
    } else {
        member(list.skip(1), key)
    }
}

/// Whether a text is one of these names.
pub open spec fn is_name(names: Seq<&'static str>, text: Seq<char>) -> bool {
    exists|i: int| 0 <= i < names.len() && (#[trigger] names[i])@ == text
}

/// Whether one of these names stands twice.
pub open spec fn repeats(list: Seq<(Seq<char>, Doc)>, names: Seq<&'static str>) -> bool {
    exists|i: int, j: int|
        0 <= i < j < list.len() && (#[trigger] list[i]).0 == (#[trigger] list[j]).0 && is_name(
            names,
            list[i].0,
        )
}

impl Doc {
    /// The member of this name, of an object that has one.
    pub open spec fn at(self, key: Seq<char>) -> Option<Doc> {
        match self {
            Doc::Object(list) => member(list, key),
            _ => None,
        }
    }

    /// Whether a value holds fields of these names: an object that names none of them
    /// twice, or an array of their values in this order, of which the ones from `least`
    /// on may be left out.
    pub open spec fn fits(self, names: Seq<&'static str>, least: int) -> bool {
        match self {
            Doc::Object(list) => !repeats(list, names),
            Doc::Array(items) => least <= items.len() <= names.len(),
            _ => false,
        }
    }

    /// The field of this name, which stands at this place where they have no names.
    pub open spec fn field(self, key: Seq<char>, place: int) -> Option<Doc> {
        match self {
            Doc::Object(list) => member(list, key),
            Doc::Array(items) => if 0 <= place < items.len() {
                Some(items[place])
            } else {
                None
            },
            _ => None,
        }
    }
}

/// An optional value, by what it holds.
pub open spec fn seen(value: Option<&Json>) -> Option<Doc> {
    match value {
        Some(j) => Some(j@),
        None => None,
    }
}

impl Json {
    /// The member of this name, of an object that has one.
    pub fn get(&self, key: &str) -> (found: Option<&Json>)
        ensures
            seen(found) == self@.at(key@),
    {
        match self {
            Json::Object(list) => {
                let ghost docs = self@->Object_0;
                let mut i: usize = 0;
                proof {
                    assert(docs.skip(0) =~= docs);
                }
                while i < list.len()
                    invariant
                        i <= list@.len(),
                        *self == Json::Object(*list),
                        docs == self@->Object_0,
                        member(docs, key@) == member(docs.skip(i as int), key@),
                    decreases list@.len() - i,
                {
                    proof {
                        assert(docs.skip(i as int)[0] == docs[i as int]);
                        assert(docs.skip(i as int).skip(1) =~= docs.skip(i + 1));
                    }
                    if same_text(list[i].0.as_str(), key) {
                        return Some(&list[i].1);
                    }
                    i += 1;
                }
                None
            },
            _ => None,
        }
    }

    /// Whether a value holds fields of these names. See [`Doc::fits`].
    pub fn holds<const N: usize>(&self, names: &[&'static str; N], least: usize) -> (yes: bool)
        ensures
            yes == self@.fits(names@, least as int),
    {
        match self {
            Json::Object(list) => {
                let ghost docs = self@->Object_0;
                let mut j: usize = 0;
                while j < list.len()
                    invariant
                        j <= list@.len(),
                        *self == Json::Object(*list),
                        docs == self@->Object_0,
                        forall|a: int, b: int|
                            0 <= a < b < j ==> !((#[trigger] docs[a]).0 == (
                            #[trigger] docs[b]).0 && is_name(names@, docs[a].0)),
                    decreases list@.len() - j,
                {
                    if one_of(names, list[j].0.as_str()) {
                        let mut i: usize = 0;
                        while i < j
                            invariant
                                i <= j < list@.len(),
                                *self == Json::Object(*list),
                                docs == self@->Object_0,
                                is_name(names@, docs[j as int].0),
                                forall|a: int| 0 <= a < i ==> (#[trigger] docs[a]).0
                                    != docs[j as int].0,
                            decreases j - i,
                        {
                            if same_text(list[i].0.as_str(), list[j].0.as_str()) {
                                proof {
                                    assert(docs[i as int].0 == docs[j as int].0);
                                }
                                return false;
                            }
                            i += 1;
                        }
                    }
                    j += 1;
                }
                true
            },
            Json::Array(items) => least <= items.len() && items.len() <= N,
            _ => false,
        }
    }

    /// The field of this name, which stands at this place where they have no names.
    pub fn slot(&self, key: &str, place: usize) -> (found: Option<&Json>)
        ensures
            seen(found) == self@.field(key@, place as int),
    {
        match self {
            Json::Array(items) => if place < items.len() {
                Some(&items[place])
            } else {
                None
            },
            _ => self.get(key),
        }
    }
}

/// Whether a text is one of these names.
fn one_of<const N: usize>(names: &[&'static str; N], text: &str) -> (yes: bool)
    ensures
        yes == is_name(names@, text@),
{
    let mut i: usize = 0;
    while i < N
        invariant
            i <= N,
            names@.len() == N,
            forall|k: int| 0 <= k < i ==> (#[trigger] names@[k])@ != text@,
        decreases N - i,
    {
        if same_text(names[i], text) {
            proof {
                assert(names@[i as int]@ == text@);
            }
            return true;
        }
        i += 1;
    }
    false
}

// ---------------------------------------------------------------------------
// Strict readers: a value of another type is no value
// ---------------------------------------------------------------------------

/// A text that may be left out, which is then empty. `None` where something else
/// stands in its place.
pub open spec fn text_in(value: Option<Doc>) -> Option<Seq<char>> {
    match value {
        None => Some(Seq::empty()),
        Some(Doc::Str(s)) => Some(s),
        Some(_) => None,
    }
}

/// See [`text_in`].
pub fn read_text(value: Option<&Json>) -> (text: Option<String>)
    ensures
        opt_view(text) == text_in(seen(value)),
{
    match value {
        None => Some(String::new()),
        Some(Json::Str(s)) => Some(s.clone()),
        Some(_) => None,
    }
}

/// A text that may be left out or null. `None` where something else stands in its
/// place.
pub open spec fn opt_text_in(value: Option<Doc>) -> Option<Option<Seq<char>>> {
    match value {
        None => Some(None),
        Some(Doc::Null) => Some(None),
        Some(Doc::Str(s)) => Some(Some(s)),
        Some(_) => None,
    }
}

/// See [`opt_text_in`].
pub fn read_opt_text(value: Option<&Json>) -> (text: Option<Option<String>>)
    ensures
        match text {
            Some(t) => opt_text_in(seen(value)) == Some(opt_view(t)),
            None => opt_text_in(seen(value)) is None,
        },
{
    match value {
        None => Some(None),
        Some(Json::Null) => Some(None),
        Some(Json::Str(s)) => Some(Some(s.clone())),
        Some(_) => None,
    }
}

/// A flag that may be left out, which then has the value given. `None` where
/// something else stands in its place.
pub open spec fn flag_in(value: Option<Doc>, default: bool) -> Option<bool> {
    match value {
        None => Some(default),
        Some(Doc::Bool(b)) => Some(b),
        Some(_) => None,
    }
}

/// See [`flag_in`].
pub fn read_flag(value: Option<&Json>, default: bool) -> (flag: Option<bool>)
    ensures
        flag == flag_in(seen(value), default),
{
    match value {
        None => Some(default),
        Some(Json::Bool(b)) => Some(*b),
        Some(_) => None,
    }
}

/// A flag that may be left out or null. `None` where something else stands in its
/// place.
pub open spec fn opt_flag_in(value: Option<Doc>) -> Option<Option<bool>> {
    match value {
        None => Some(None),
        Some(Doc::Null) => Some(None),
        Some(Doc::Bool(b)) => Some(Some(b)),
        Some(_) => None,
    }
}

/// See [`opt_flag_in`].
pub fn read_opt_flag(value: Option<&Json>) -> (flag: Option<Option<bool>>)
    ensures
        flag == opt_flag_in(seen(value)),
{
    match value {
        None => Some(None),
        Some(Json::Null) => Some(None),
        Some(Json::Bool(b)) => Some(Some(*b)),
        Some(_) => None,
    }
}

/// An integer of 32 signed bits that must be there.
pub open spec fn i32_in(value: Option<Doc>) -> Option<i32> {
    match value {
        Some(Doc::Int(n)) => if i32::MIN <= n <= i32::MAX {
            Some(n as i32)
        } else {
            None
        },
        _ => None,
    }
}

/// See [`i32_in`].
pub fn read_i32(value: Option<&Json>) -> (number: Option<i32>)
    ensures
        number == i32_in(seen(value)),
{
    match value {
        Some(Json::Int(n)) => if i32::MIN as i64 <= *n && *n <= i32::MAX as i64 {
            Some(*n as i32)
        } else {
            None
        },
        _ => None,
    }
}

/// An integer of 32 unsigned bits that must be there.
pub open spec fn u32_in(value: Option<Doc>) -> Option<u32> {
    match value {
        Some(Doc::Int(n)) => if 0 <= n <= u32::MAX {
            Some(n as u32)
        } else {
            None
        },
        _ => None,
    }
}

/// See [`u32_in`].
pub fn read_u32(value: Option<&Json>) -> (number: Option<u32>)
    ensures
        number == u32_in(seen(value)),
{
    match value {
        Some(Json::Int(n)) => if 0 <= *n && *n <= u32::MAX as i64 {
            Some(*n as u32)
        } else {
            None
        },
        _ => None,
    }
}

// ---------------------------------------------------------------------------
// Permissive number readers
// ---------------------------------------------------------------------------

/// The integer a value stands for, if it is a number.
pub open spec fn number_of(value: Doc) -> Option<i64> {
    match value {
        Doc::Int(n) => Some(n),
        Doc::Big(_) => Some(i64::MAX),
        Doc::Float(n) => Some(n),
        _ => None,
    }
}

/// See [`number_of`].
fn as_number(value: &Json) -> (number: Option<i64>)
    ensures
        number == number_of(value@),
{
    match value {
        Json::Int(n) => Some(*n),
        Json::Big(_) => Some(i64::MAX),
        Json::Float(n) => Some(*n),
        _ => None,
    }
}

/// The integer a text stands for, white space around it aside: the one written there
/// where 64 signed bits hold it, else the whole part of the number written there.
pub open spec fn number_text(s: Seq<char>) -> Option<i64> {
    let t = trimmed(s);
    match integer(t) {
        Some(n) if i64::MIN <= n <= i64::MAX => Some(n as i64),
        _ => float_text(t),
    }
}

/// An integer, written as a number or as a text, that may be left out or null. The
/// inner `None` is a value that is not there or no number; the outer one stands for
/// something that is neither number nor text.
pub open spec fn number_in(value: Option<Doc>) -> Option<Option<i64>> {
    match value {
        None => Some(None),
        Some(Doc::Null) => Some(None),
        Some(Doc::Str(s)) => Some(number_text(s)),
        Some(v) => match number_of(v) {
            Some(n) => Some(Some(n)),
            None => None,
        },
    }
}

/// Read an optional signed integer, tolerating the string form. An absent field, an
/// empty string and a text that is not a number are all no number, which is not a
/// failure.
pub fn read_number(value: Option<&Json>) -> (number: Option<Option<i64>>)
    ensures
        number == number_in(seen(value)),
{
    match value {
        None => Some(None),
        Some(Json::Null) => Some(None),
        Some(Json::Str(s)) => {
            let t = trim(s.as_str());
            match parse_integer(t.as_str()) {
                Some(n) => Some(Some(n)),
                None => Some(parse_float(t.as_str())),
            }
        },
        Some(v) => match as_number(v) {
            Some(n) => Some(Some(n)),
            None => None,
        },
    }
}

/// A count of 64 bits: no number and a negative one are zero.
pub open spec fn count_in(value: Option<Doc>) -> Option<u64> {
    match number_in(value) {
        Some(Some(n)) => Some(
            if n >= 0 {
                n as u64
            } else {
                0
            },
        ),
        Some(None) => Some(0),
        None => None,
    }
}

/// Read an unsigned 64-bit count, tolerating the string form. Anything negative or
/// unparseable becomes `0`.
pub fn read_count(value: Option<&Json>) -> (count: Option<u64>)
    ensures
        count == count_in(seen(value)),
{
    match read_number(value) {
        Some(Some(n)) => Some(if n >= 0 { n as u64 } else { 0 }),
        Some(None) => Some(0),
        None => None,
    }
}

/// As [`count_in`], taken to the largest 32-bit number where it is beyond that.
pub open spec fn small_count_in(value: Option<Doc>) -> Option<u32> {
    match count_in(value) {
        Some(n) => Some(
            if n <= u32::MAX {
                n as u32
            } else {
                u32::MAX
            },
        ),
        None => None,
    }
}

/// As [`read_count`], saturating into 32 bits.
pub fn read_small_count(value: Option<&Json>) -> (count: Option<u32>)
    ensures
        count == small_count_in(seen(value)),
{
    match read_count(value) {
        Some(n) => Some(if n <= u32::MAX as u64 { n as u32 } else { u32::MAX }),
        None => None,
    }
}

proof fn lemma_member_pushed(list: Seq<(Seq<char>, Doc)>, extra: (Seq<char>, Doc), key: Seq<char>)
    requires
        extra.0 != key,
    ensures
        member(list.push(extra), key) == member(list, key),
    decreases list.len(),
{
    let more = list.push(extra);
    if list.len() == 0 {
        assert(more.skip(1) =~= Seq::<(Seq<char>, Doc)>::empty());
        assert(member(more.skip(1), key) is None);
    } else {
        assert(more.skip(1) =~= list.skip(1).push(extra));
        lemma_member_pushed(list.skip(1), extra, key);
    }
}

/// A field that nobody reads changes nothing, whatever it holds: what an object holds of
/// these names is the same with it as without.
pub proof fn law_a_stranger_changes_nothing(
    list: Seq<(Seq<char>, Doc)>,
    extra: (Seq<char>, Doc),
    names: Seq<&'static str>,
    least: int,
    key: Seq<char>,
    place: int,
)
    requires
        !is_name(names, extra.0),
        is_name(names, key),
    ensures
        Doc::Object(list.push(extra)).fits(names, least) == Doc::Object(list).fits(names, least),
        Doc::Object(list.push(extra)).field(key, place) == Doc::Object(list).field(key, place),
{
    let more = list.push(extra);
    lemma_member_pushed(list, extra, key);
    if repeats(more, names) {
        let (i, j) = choose|i: int, j: int|
            0 <= i < j < more.len() && (#[trigger] more[i]).0 == (#[trigger] more[j]).0 && is_name(
                names,
                more[i].0,
            );
        assert(list[i].0 == list[j].0);
    }
    if repeats(list, names) {
        let (i, j) = choose|i: int, j: int|
            0 <= i < j < list.len() && (#[trigger] list[i]).0 == (#[trigger] list[j]).0 && is_name(
                names,
                list[i].0,
            );
        assert(more[i].0 == more[j].0);
    }
}

/// A number and the text that writes it out are read alike.
pub proof fn law_a_number_and_its_text_read_alike(n: i64)
    ensures
        number_in(Some(Doc::Str(decimal_int(n as int)))) == number_in(Some(Doc::Int(n))),
        count_in(Some(Doc::Str(decimal_int(n as int)))) == count_in(Some(Doc::Int(n))),
        small_count_in(Some(Doc::Str(decimal_int(n as int)))) == small_count_in(Some(Doc::Int(n))),
{
    let text = decimal_int(n as int);
    let size: nat = if n < 0 { (-n) as nat } else { n as nat };
    lemma_decimal_digits(size);
    if n < 0 {
        assert(text.skip(1) =~= decimal(size));
    }
    assert(!is_space(text[0]) && !is_space(text.last()));
    assert(trimmed(text) == text);
}

/// A count is the number that stands there, a negative one aside, which counts as none, as
/// does one that is left out or null; the small reader takes what is too large to the
/// largest it has. A truth value, a list or an object is no count.
pub proof fn law_a_count_is_the_number_there(n: i64, value: Doc)
    ensures
        number_in(Some(Doc::Int(n))) == Some(Some(n)),
        n >= 0 ==> count_in(Some(Doc::Int(n))) == Some(n as u64),
        n < 0 ==> count_in(Some(Doc::Int(n))) == Some(0u64),
        0 <= n <= 4294967295 ==> small_count_in(Some(Doc::Int(n))) == Some(n as u32),
        n > 4294967295 ==> small_count_in(Some(Doc::Int(n))) == Some(4294967295u32),
        n < 0 ==> small_count_in(Some(Doc::Int(n))) == Some(0u32),
        count_in(None) == Some(0u64) && count_in(Some(Doc::Null)) == Some(0u64),
        number_in(None) == Some(None::<i64>) && number_in(Some(Doc::Null)) == Some(None::<i64>),
        value is Bool || value is Array || value is Object ==> count_in(Some(value)) is None
            && number_in(Some(value)) is None && small_count_in(Some(value)) is None,
{
}

/// A character is found behind any number of blanks, tabs and line ends, and nothing else
/// is passed over to find it; what follows it is left.
pub proof fn law_white_space_is_passed_over(blank: Seq<char>, c: char, rest: Seq<char>, sought: char)
    requires
        forall|i: int| 0 <= i < blank.len() ==> " \t\n\r"@.contains(#[trigger] blank[i]),
        !" \t\n\r"@.contains(c),
    ensures
        after(blank + (seq![c] + rest), c) == Some(rest),
        sought != c ==> after(blank + (seq![c] + rest), sought) is None,
        after(blank, sought) is None,
    decreases blank.len(),
{
    let tail = seq![c] + rest;
    let s = blank + tail;
    reveal_strlit(" \t\n\r");
    let marks = " \t\n\r"@;
    assert(marks[0] == ' ' && marks[1] == '\t' && marks[2] == '\n' && marks[3] == '\r');
    if blank.len() > 0 {
        assert(marks.contains(blank[0]));
        assert(s[0] == blank[0]);
        assert(s.skip(1) =~= blank.skip(1) + tail);
        law_white_space_is_passed_over(blank.skip(1), c, rest, sought);
    } else {
        assert(s =~= tail);
        assert(tail[0] == c);
        assert(tail.skip(1) =~= rest);
    }
}

/// A list is read with all of its items and an object with all of its members, each in its
/// place and under its own name, down to the depth that there is room for.
pub proof fn law_every_item_and_member_is_read(text: Seq<char>, room: nat, i: int)
    requires
        text.len() > 0,
        room > 0,
    ensures
        text[0] == '[' && json_items(text) is Some ==> ({
            let items = json_items(text)->0;
            let doc = tree(text, room);
            &&& doc is Array
            &&& doc->Array_0.len() == items.len()
            &&& 0 <= i < items.len() ==> doc->Array_0[i] == tree(items[i], (room - 1) as nat)
        }),
        text[0] == '{' && json_members(text) is Some ==> ({
            let members = json_members(text)->0;
            let doc = tree(text, room);
            &&& doc is Object
            &&& doc->Object_0.len() == members.len()
            &&& 0 <= i < members.len() ==> doc->Object_0[i] == (
                members[i].0,
                tree(members[i].1, (room - 1) as nat),
            )
        }),
        text[0] != '[' && text[0] != '{' && json_scalar(text) is Some ==> tree(text, room)
            == json_scalar(text)->0,
{
}

/// A parsed value is read to the depth of 127 lists and objects within each other.
pub proof fn law_how_deep_a_value_is_read(text: Seq<char>)
    ensures
        json_text(text) is Some ==> json_parsed(text) == Ok::<Doc, Seq<char>>(
            tree(json_text(text)->0, 127),
        ),
        json_text(text) is None ==> json_parsed(text) is Err,
{
}

/// A field is read by its name: what an object holds under a name is what stands there
/// first, and nothing where the name does not stand.
pub proof fn law_a_field_is_found_by_its_name(list: Seq<(Seq<char>, Doc)>, key: Seq<char>, k: int)
    requires
        forall|j: int| 0 <= j < list.len() && j < k ==> (#[trigger] list[j]).0 != key,
        0 <= k <= list.len(),
        k < list.len() ==> list[k].0 == key,
    ensures
        k < list.len() ==> Doc::Object(list).at(key) == Some(list[k].1),
        k == list.len() ==> Doc::Object(list).at(key) is None,
    decreases k,
{
    if k > 0 {
        let rest = list.skip(1);
        assert(list[0].0 != key);
        assert forall|j: int| 0 <= j < rest.len() && j < k - 1 implies (#[trigger] rest[j]).0
            != key by {
            assert(rest[j] == list[j + 1]);
        }
        law_a_field_is_found_by_its_name(rest, key, k - 1);
    }
}

} // verus!
