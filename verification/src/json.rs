//! Project documents: a lenient JSON dialect with trailing commas, read
//! into a tree that keeps every member of every object in its order.

use vstd::prelude::*;
use crate::text::{chars_of, is_space};

verus! {

/// `serde_json::Number`: a JSON number, carried through as it is.
#[verifier::external_type_specification]
#[verifier::external_body]
pub struct ExNumber(serde_json::Number);

/// `serde_json::Value`: a JSON document as the parser hands it out.
#[verifier::external_type_specification]
#[verifier::external_body]
pub struct ExValue(serde_json::Value);

/// `serde_json::Error`: why a text is not JSON or a value has no text.
#[verifier::external_type_specification]
#[verifier::external_body]
pub struct ExJsonError(serde_json::Error);

/// A JSON document as a tree of plain values. An object keeps its members in
/// the order in which they were read or added. A document is well formed
/// if no object in it has two members with one key (`wf`): what is read is,
/// and the edits of this library keep it so.
#[derive(Debug, PartialEq)]
pub enum Json {
    Null,
    Bool(bool),
    Number(serde_json::Number),
    Text(String),
    Array(Vec<Json>),
    Object(Vec<(String, Json)>),
}

/// The mathematical value of a JSON document.
pub enum JsonView {
    Null,
    Bool(bool),
    Number(serde_json::Number),
    Text(Seq<char>),
    Array(Seq<JsonView>),
    Object(Seq<(Seq<char>, JsonView)>),
}

/// The mathematical value of a document.
pub open spec fn json_view(j: Json) -> JsonView
    decreases j,
{
    match j {
        Json::Null => JsonView::Null,
        Json::Bool(b) => JsonView::Bool(b),
        Json::Number(n) => JsonView::Number(n),
        Json::Text(s) => JsonView::Text(s@),
        Json::Array(items) => JsonView::Array(
            Seq::new(
                items@.len(),
                |i: int|
                    if 0 <= i < items@.len() {
                        json_view(items@[i])
                    } else {
                        JsonView::Null
                    },
            ),
        ),
        Json::Object(pairs) => JsonView::Object(
            Seq::new(
                pairs@.len(),
                |i: int|
                    if 0 <= i < pairs@.len() {
                        (pairs@[i].0@, json_view(pairs@[i].1))
                    } else {
                        (Seq::empty(), JsonView::Null)
                    },
            ),
        ),
    }
}

impl View for Json {
    type V = JsonView;

    open spec fn view(&self) -> JsonView {
        json_view(*self)
    }
}

/// The values of a list of documents.
pub open spec fn views(items: Seq<Json>) -> Seq<JsonView> {
    Seq::new(items.len(), |i: int| items[i]@)
}

/// The values of a list of object members.
pub open spec fn member_views(pairs: Seq<(String, Json)>) -> Seq<(Seq<char>, JsonView)> {
    Seq::new(pairs.len(), |i: int| (pairs[i].0@, pairs[i].1@))
}

/// The value of an array is the array of its items' values.
pub proof fn lemma_array_view(items: Vec<Json>)
    ensures
        Json::Array(items)@ == JsonView::Array(views(items@)),
{
    assert(Json::Array(items)@->Array_0 =~= views(items@));
}

/// The value of an object is the list of its members' keys and values.
pub proof fn lemma_object_view(pairs: Vec<(String, Json)>)
    ensures
        Json::Object(pairs)@ == JsonView::Object(member_views(pairs@)),
{
    assert(Json::Object(pairs)@->Object_0 =~= member_views(pairs@));
}

/// Member `i` of an object is the first with key `key`.
pub open spec fn is_first_key(pairs: Seq<(Seq<char>, JsonView)>, key: Seq<char>, i: int) -> bool {
    &&& 0 <= i < pairs.len()
    &&& pairs[i].0 == key
    &&& forall|j: int| 0 <= j < i ==> (#[trigger] pairs[j]).0 != key
}

/// Some member of an object has key `key`.
pub open spec fn has_key(pairs: Seq<(Seq<char>, JsonView)>, key: Seq<char>) -> bool {
    exists|i: int| 0 <= i < pairs.len() && (#[trigger] pairs[i]).0 == key
}

/// Position of the first member with key `key`.
pub open spec fn key_index(pairs: Seq<(Seq<char>, JsonView)>, key: Seq<char>) -> int {
    choose|i: int| is_first_key(pairs, key, i)
}

/// A first member exists and is unique as soon as any member has the key.
pub proof fn lemma_first_key(pairs: Seq<(Seq<char>, JsonView)>, key: Seq<char>, i: int)
    requires
        is_first_key(pairs, key, i),
    ensures
        has_key(pairs, key),
        key_index(pairs, key) == i,
{
    let k = key_index(pairs, key);
    assert(is_first_key(pairs, key, k));
    if k < i {
        assert(pairs[k].0 != key);
    } else if i < k {
        assert(pairs[i].0 != key);
    }
}

/// An object that has a member with a key has a first one.
pub proof fn lemma_has_first_key(pairs: Seq<(Seq<char>, JsonView)>, key: Seq<char>)
    requires
        has_key(pairs, key),
    ensures
        is_first_key(pairs, key, key_index(pairs, key)),
{
    let n = choose|i: int| 0 <= i < pairs.len() && (#[trigger] pairs[i]).0 == key;
    lemma_first_before(pairs, key, n);
}

proof fn lemma_first_before(pairs: Seq<(Seq<char>, JsonView)>, key: Seq<char>, n: int)
    requires
        0 <= n < pairs.len(),
        pairs[n].0 == key,
    ensures
        exists|i: int| is_first_key(pairs, key, i),
    decreases n,
{
    if exists|j: int| 0 <= j < n && (#[trigger] pairs[j]).0 == key {
        let j = choose|j: int| 0 <= j < n && (#[trigger] pairs[j]).0 == key;
        lemma_first_before(pairs, key, j);
    } else {
        assert(is_first_key(pairs, key, n));
    }
}

/// No two members of an object have the same key.
pub open spec fn distinct_keys(pairs: Seq<(Seq<char>, JsonView)>) -> bool {
    forall|i: int, j: int|
        0 <= i < j < pairs.len() ==> (#[trigger] pairs[i]).0 != (#[trigger] pairs[j]).0
}

/// No object of the document, at any depth, has two members with one key:
/// the document is what a JSON parser can hand out and a JSON map can hold.
pub open spec fn unique_keys(doc: JsonView) -> bool
    decreases doc,
{
    match doc {
        JsonView::Array(items) => forall|i: int|
            0 <= i < items.len() ==> unique_keys(#[trigger] items[i]),
        JsonView::Object(pairs) => distinct_keys(pairs) && forall|i: int|
            0 <= i < pairs.len() ==> unique_keys((#[trigger] pairs[i]).1),
        _ => true,
    }
}

/// Every document of a list keeps the keys of each of its objects apart.
pub open spec fn all_unique_keys(items: Seq<JsonView>) -> bool {
    forall|i: int| 0 <= i < items.len() ==> unique_keys(#[trigger] items[i])
}

/// The 64-bit signed integer that a JSON number stands for, if it is one.
pub uninterp spec fn number_i64(n: serde_json::Number) -> Option<i64>;

/// The document that a `serde_json::Value` holds: an object's members in the
/// order of its map.
pub uninterp spec fn value_view(v: serde_json::Value) -> JsonView;

/// The document that a text parses to, if it is JSON.
pub uninterp spec fn parsed_json(text: Seq<char>) -> Option<JsonView>;

/// The document as a `serde_json::Value` holds it once its members have
/// entered the maps in their order: a key that comes again replaces the
/// value that the key had.
pub uninterp spec fn merged(doc: JsonView) -> JsonView;

/// The document as a `serde_json::Value` holds it: the document itself
/// where no object has two members with one key, else what is left of it.
pub open spec fn stored(doc: JsonView) -> JsonView {
    if unique_keys(doc) {
        doc
    } else {
        merged(doc)
    }
}

/// The indented text form of a document, if it has one.
pub uninterp spec fn pretty_text(doc: JsonView) -> Option<Seq<char>>;

impl JsonView {
    /// The value of the first member with key `key`, if this is an object that has one.
    pub open spec fn get(self, key: Seq<char>) -> Option<JsonView> {
        match self {
            JsonView::Object(pairs) => if has_key(pairs, key) {
                Some(pairs[key_index(pairs, key)].1)
            } else {
                None
            },
            _ => None,
        }
    }

    /// The items, if this is an array.
    pub open spec fn array(self) -> Option<Seq<JsonView>> {
        match self {
            JsonView::Array(items) => Some(items),
            _ => None,
        }
    }

    /// The characters, if this is a string.
    pub open spec fn text(self) -> Option<Seq<char>> {
        match self {
            JsonView::Text(s) => Some(s),
            _ => None,
        }
    }

    /// The integer, if this is a number that is a 64-bit signed integer.
    pub open spec fn integer(self) -> Option<i64> {
        match self {
            JsonView::Number(n) => number_i64(n),
            _ => None,
        }
    }

    /// The items of the array under `key`, if this is an object that has one.
    pub open spec fn array_field(self, key: Seq<char>) -> Option<Seq<JsonView>> {
        match self.get(key) {
            Some(v) => v.array(),
            None => None,
        }
    }

    /// The characters of the string under `key`, if this is an object that has one.
    pub open spec fn text_field(self, key: Seq<char>) -> Option<Seq<char>> {
        match self.get(key) {
            Some(v) => v.text(),
            None => None,
        }
    }

    /// The integer under `key`, if this is an object that has one.
    pub open spec fn integer_field(self, key: Seq<char>) -> Option<i64> {
        match self.get(key) {
            Some(v) => v.integer(),
            None => None,
        }
    }

    /// This object with the value of its first member keyed `key` replaced.
    pub open spec fn with_field(self, key: Seq<char>, value: JsonView) -> JsonView {
        match self {
            JsonView::Object(pairs) => if has_key(pairs, key) {
                JsonView::Object(pairs.update(key_index(pairs, key), (key, value)))
            } else {
                self
            },
            _ => self,
        }
    }
}

/// Replacing the value of a member by a document with unique keys keeps
/// the keys of the whole unique.
pub proof fn lemma_with_field_unique(doc: JsonView, key: Seq<char>, value: JsonView)
    requires
        unique_keys(doc),
        unique_keys(value),
    ensures
        unique_keys(doc.with_field(key, value)),
{
    match doc {
        JsonView::Object(pairs) => {
            if has_key(pairs, key) {
                let at = key_index(pairs, key);
                lemma_has_first_key(pairs, key);
                let after = pairs.update(at, (key, value));
                assert forall|i: int, j: int| 0 <= i < j < after.len() implies (
                #[trigger] after[i]).0 != (#[trigger] after[j]).0 by {
                    assert(after[i].0 == pairs[i].0);
                    assert(after[j].0 == pairs[j].0);
                }
                assert forall|i: int| 0 <= i < after.len() implies unique_keys(
                    (#[trigger] after[i]).1,
                ) by {
                    if i != at {
                        assert(after[i] == pairs[i]);
                    }
                }
            }
        },
        _ => {},
    }
}

/// What stands under a key of a document with unique keys has unique keys.
pub proof fn lemma_field_unique(doc: JsonView, key: Seq<char>)
    requires
        unique_keys(doc),
    ensures
        doc.get(key) matches Some(v) ==> unique_keys(v),
        doc.array_field(key) matches Some(items) ==> all_unique_keys(items),
{
    match doc {
        JsonView::Object(pairs) => {
            if has_key(pairs, key) {
                let at = key_index(pairs, key);
                lemma_has_first_key(pairs, key);
                assert(unique_keys(pairs[at].1));
            }
        },
        _ => {},
    }
}

/// `serde_json::Number::as_i64`: the number as an `i64` where it is an
/// integer in that range, `None` for any other number.
#[verifier::external_body]
fn number_as_i64(n: &serde_json::Number) -> (r: Option<i64>)
    ensures
        r == number_i64(*n),
{
    n.as_i64()
}

/// Moves a `serde_json::Value` into a `Json`, variant by variant; an object's
/// members keep the order that the value's map gives them. A map holds each
/// key once, so no object of the result has two members with one key.
#[verifier::external_body]
fn json_of_value(v: serde_json::Value) -> (doc: Json)
    ensures
        doc@ == value_view(v),
        unique_keys(doc@),
{
    match v {
        serde_json::Value::Null => Json::Null,
        serde_json::Value::Bool(b) => Json::Bool(b),
        serde_json::Value::Number(n) => Json::Number(n),
        serde_json::Value::String(s) => Json::Text(s),
        serde_json::Value::Array(a) => Json::Array(a.into_iter().map(json_of_value).collect()),
        serde_json::Value::Object(m) => Json::Object(
            m.into_iter().map(|(k, x)| (k, json_of_value(x))).collect(),
        ),
    }
}

/// Copies a `Json` into a `serde_json::Value`, variant by variant; an
/// object's members are collected into a `serde_json::Map` in their order.
/// Where no object has two members with one key, the value holds the
/// document as it is; else a later member takes the place of an earlier one.
#[verifier::external_body]
fn value_of_json(doc: &Json) -> (v: serde_json::Value)
    ensures
        value_view(v) == stored(doc@),
        !unique_keys(doc@) ==> value_view(v) == merged(doc@),
{
    match doc {
        Json::Null => serde_json::Value::Null,
        Json::Bool(b) => serde_json::Value::Bool(*b),
        Json::Number(n) => serde_json::Value::Number(n.clone()),
        Json::Text(s) => serde_json::Value::String(s.clone()),
        Json::Array(a) => serde_json::Value::Array(a.iter().map(value_of_json).collect()),
        Json::Object(m) => serde_json::Value::Object(
            m.iter().map(|(k, x)| (k.clone(), value_of_json(x))).collect(),
        ),
    }
}

/// `serde_json::from_str` at type `serde_json::Value`. Whether a text
/// parses, and to what, depends on the text alone.
#[verifier::external_body]
fn parse_value(text: &str) -> (r: Result<serde_json::Value, serde_json::Error>)
    ensures
        match r {
            Ok(v) => parsed_json(text@) == Some(value_view(v)),
            Err(_) => parsed_json(text@) is None,
        },
{
    serde_json::from_str::<serde_json::Value>(text)
}

/// `serde_json::to_string_pretty` on a `serde_json::Value`. The text
/// depends on what the value holds alone.
#[verifier::external_body]
fn value_to_text(v: &serde_json::Value) -> (r: Result<String, serde_json::Error>)
    ensures
        match r {
            Ok(s) => pretty_text(value_view(*v)) == Some(s@),
            Err(_) => pretty_text(value_view(*v)) is None,
        },
{
    serde_json::to_string_pretty(v)
}

/// `to_string` of a `serde_json::Error`: the message with line and column.
#[verifier::external_body]
fn error_message(e: &serde_json::Error) -> String {
    e.to_string()
}

/// Why a project document could not be used.
#[derive(Debug)]
pub enum DocumentError {
    /// The text is not JSON, even with trailing commas removed.
    Malformed(String),
    /// The document has no array under `Folders`.
    MissingFolders,
    /// The document has no array under `resources`.
    MissingResources,
    /// The document has no text form.
    Unprintable(String),
}

impl DocumentError {
    /// What the error says.
    pub open spec fn text(self) -> Seq<char> {
        match self {
            DocumentError::Malformed(reason) => "Failed to parse .yyp JSON: "@ + reason@,
            DocumentError::MissingFolders => "Missing 'Folders' array in .yyp"@,
            DocumentError::MissingResources => "Missing 'resources' array in .yyp"@,
            DocumentError::Unprintable(reason) => "Failed to serialize .yyp: "@ + reason@,
        }
    }

    /// What the error says, for a log.
    pub fn message(&self) -> (s: String)
        ensures
            s@ == self.text(),
    {
        match self {
            DocumentError::Malformed(reason) => {
                let mut s = "Failed to parse .yyp JSON: ".to_owned();
                s.append(reason.as_str());
                s
            },
            DocumentError::MissingFolders => "Missing 'Folders' array in .yyp".to_owned(),
            DocumentError::MissingResources => "Missing 'resources' array in .yyp".to_owned(),
            DocumentError::Unprintable(reason) => {
                let mut s = "Failed to serialize .yyp: ".to_owned();
                s.append(reason.as_str());
                s
            },
        }
    }
}

impl Json {
    /// No object of the document, at any depth, has two members with one key.
    pub open spec fn wf(&self) -> bool {
        unique_keys(self@)
    }

    /// A JSON string.
    pub fn text(s: &str) -> (j: Json)
        ensures
            j@ == JsonView::Text(s@),
            j.wf(),
    {
        Json::Text(s.to_owned())
    }

    /// The first member with key `key`, if this is an object that has one.
    pub fn get(&self, key: &str) -> (r: Option<&Json>)
        ensures
            match r {
                Some(v) => self@.get(key@) == Some(v@),
                None => self@.get(key@) is None,
            },
    {
        match self {
            Json::Object(pairs) => {
                proof {
                    lemma_object_view(*pairs);
                }
                match find_member(pairs, key) {
                    Some(i) => Some(&pairs[i].1),
                    None => None,
                }
            },
            _ => None,
        }
    }

    /// Whether this is an array.
    pub fn is_array(&self) -> (b: bool)
        ensures
            b == (*self is Array),
            b == (self@.array() is Some),
    {
        match self {
            Json::Array(_) => true,
            _ => false,
        }
    }

    /// The items, if this is an array.
    pub fn as_array(&self) -> (r: Option<&Vec<Json>>)
        ensures
            match r {
                Some(items) => self@.array() == Some(views(items@)),
                None => self@.array() is None,
            },
    {
        match self {
            Json::Array(items) => {
                proof {
                    lemma_array_view(*items);
                }
                Some(items)
            },
            _ => None,
        }
    }

    /// The string, if this is one.
    pub fn as_text(&self) -> (r: Option<&String>)
        ensures
            match r {
                Some(s) => self@.text() == Some(s@),
                None => self@.text() is None,
            },
    {
        match self {
            Json::Text(s) => Some(s),
            _ => None,
        }
    }

    /// The integer, if this is a number that is a 64-bit signed integer.
    pub fn as_i64(&self) -> (r: Option<i64>)
        ensures
            r == self@.integer(),
    {
        match self {
            Json::Number(n) => number_as_i64(n),
            _ => None,
        }
    }

    /// The integer under `key`, if this is an object that has one.
    pub fn integer_field(&self, key: &str) -> (r: Option<i64>)
        ensures
            r == self@.integer_field(key@),
    {
        match self.get(key) {
            Some(v) => v.as_i64(),
            None => None,
        }
    }

    /// Whether the string under `key` exists and equals `expected`.
    pub fn text_field_is(&self, key: &str, expected: &String) -> (b: bool)
        ensures
            b == (self@.text_field(key@) == Some(expected@)),
    {
        match self.get(key) {
            Some(v) => match v.as_text() {
                Some(s) => *s == *expected,
                None => false,
            },
            None => false,
        }
    }
}

/// Position of the first member with key `key`.
pub fn find_member(pairs: &Vec<(String, Json)>, key: &str) -> (r: Option<usize>)
    ensures
        match r {
            Some(i) => is_first_key(member_views(pairs@), key@, i as int),
            None => !has_key(member_views(pairs@), key@),
        },
        r is Some ==> has_key(member_views(pairs@), key@) && key_index(member_views(pairs@), key@)
            == r->0,
{
    let wanted = key.to_owned();
    let mut i: usize = 0;
    while i < pairs.len()
        invariant
            i <= pairs.len(),
            wanted@ == key@,
            forall|j: int| 0 <= j < i ==> (#[trigger] member_views(pairs@)[j]).0 != key@,
        decreases pairs.len() - i,
    {
        if pairs[i].0 == wanted {
            proof {
                lemma_first_key(member_views(pairs@), key@, i as int);
            }
            return Some(i);
        }
        i += 1;
    }
    None
}

/// Whether the part of `s` before position `n` ends inside a string literal,
/// and whether it ends right behind a backslash that escapes what follows.
pub open spec fn lex_state(s: Seq<char>, n: int) -> (bool, bool)
    decreases n,
{
    if n <= 0 {
        (false, false)
    } else {
        let (in_string, escaped) = lex_state(s, n - 1);
        let c = s[n - 1];
        if escaped {
            (in_string, false)
        } else if c == '\\' && in_string {
            (in_string, true)
        } else if c == '"' {
            (!in_string, false)
        } else {
            (in_string, false)
        }
    }
}

/// Position `j` lies behind `i` and holds a closing `]` or `}`, and nothing
/// but whitespace stands between the two.
pub open spec fn closes_at(s: Seq<char>, i: int, j: int) -> bool {
    &&& i < j < s.len()
    &&& (s[j] == ']' || s[j] == '}')
    &&& forall|k: int| i < k < j ==> is_space(#[trigger] s[k])
}

/// Position `i` holds a comma outside any string literal, and only
/// whitespace separates it from a closing `]` or `}`.
pub open spec fn is_trailing_comma(s: Seq<char>, i: int) -> bool {
    &&& 0 <= i < s.len()
    &&& s[i] == ','
    &&& !lex_state(s, i).0
    &&& !lex_state(s, i).1
    &&& exists|j: int| closes_at(s, i, j)
}

/// The first `n` characters of `s` without the trailing commas among them.
pub open spec fn stripped_prefix(s: Seq<char>, n: int) -> Seq<char>
    decreases n,
{
    if n <= 0 {
        Seq::empty()
    } else if is_trailing_comma(s, n - 1) {
        stripped_prefix(s, n - 1)
    } else {
        stripped_prefix(s, n - 1).push(s[n - 1])
    }
}

/// `s` without its trailing commas; every other character stays in place.
pub open spec fn stripped(s: Seq<char>) -> Seq<char> {
    stripped_prefix(s, s.len() as int)
}

/// Removes each comma that stands before a closing `]` or `}`, with nothing
/// but whitespace between them, unless the comma is inside a string literal.
pub fn strip_trailing_commas(json: &str) -> (out: String)
    ensures
        out@ == stripped(json@),
{
    let chars = chars_of(json);
    let mut out = String::new();
    let mut in_string = false;
    let mut escape_next = false;
    let mut i: usize = 0;
    while i < chars.len()
        invariant
            i <= chars.len(),
            chars@ == json@,
            (in_string, escape_next) == lex_state(chars@, i as int),
            out@ == stripped_prefix(chars@, i as int),
        decreases chars.len() - i,
    {
        let c = chars[i];
        if escape_next {
            out.push(c);
            escape_next = false;
        } else if c == '\\' && in_string {
            out.push(c);
            escape_next = true;
        } else if c == '"' {
            in_string = !in_string;
            out.push(c);
        } else if !in_string && c == ',' && closes_after(&chars, i) {
        } else {
            out.push(c);
        }
        i += 1;
    }
    out
}

/// Whether only whitespace separates position `at` from a closing `]` or `}`.
fn closes_after(chars: &Vec<char>, at: usize) -> (b: bool)
    requires
        at < chars.len(),
    ensures
        b == exists|j: int| closes_at(chars@, at as int, j),
{
    let mut j: usize = at + 1;
    while j < chars.len()
        invariant
            at < j <= chars.len(),
            forall|k: int|
                at < k < j ==> is_space(#[trigger] chars@[k]) && chars@[k] != ']'
                    && chars@[k] != '}',
        decreases chars.len() - j,
    {
        let c = chars[j];
        if c == ']' || c == '}' {
            assert(closes_at(chars@, at as int, j as int));
            return true;
        }
        if !c.is_whitespace() {
            assert forall|t: int| !closes_at(chars@, at as int, t) by {
                if closes_at(chars@, at as int, t) {
                    if t > j {
                        assert(is_space(chars@[j as int]));
                    }
                }
            }
            return false;
        }
        j += 1;
    }
    assert forall|t: int| !closes_at(chars@, at as int, t) by {}
    false
}

/// The document that a project text stands for once its trailing commas are
/// removed, if what is left is JSON.
pub open spec fn document_of(text: Seq<char>) -> Option<JsonView> {
    parsed_json(stripped(text))
}

/// Reads a project document: removes trailing commas, then parses what is
/// left as JSON, keeping every member of every object.
pub fn load_document(text: &str) -> (r: Result<Json, DocumentError>)
    ensures
        match r {
            Ok(doc) => document_of(text@) == Some(doc@) && doc.wf(),
            Err(e) => document_of(text@) is None && e is Malformed,
        },
{
    let clean = strip_trailing_commas(text);
    match parse_value(clean.as_str()) {
        Ok(v) => Ok(json_of_value(v)),
        Err(e) => Err(DocumentError::Malformed(error_message(&e))),
    }
}

/// The text that a document is saved as, if it has one: the indented text
/// of the document itself, unless an object has two members with one key.
pub open spec fn document_text(doc: JsonView) -> Option<Seq<char>> {
    pretty_text(stored(doc))
}

/// Writes a document out as indented JSON text, the members of each object
/// in their order.
pub fn save_document(doc: &Json) -> (r: Result<String, DocumentError>)
    ensures
        match r {
            Ok(s) => document_text(doc@) == Some(s@),
            Err(e) => document_text(doc@) is None && e is Unprintable,
        },
        doc.wf() ==> document_text(doc@) == pretty_text(doc@),
{
    let value = value_of_json(doc);
    match value_to_text(&value) {
        Ok(s) => Ok(s),
        Err(e) => Err(DocumentError::Unprintable(error_message(&e))),
    }
}

} // verus!
