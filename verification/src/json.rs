//! JSON: the values that the library reads, how it gets them from `serde_json`, and
//! the ways in which a value stands for a record, a list or a scalar.
use crate::number::{int_text, push_u64};
use crate::text::{joined, pair_texts, same_text, texts};
use crate::text_map::{ascending, entry_keys, TextMap};
use serde::de::Unexpected;
use std::collections::BTreeMap;
use vstd::prelude::*;

verus! {

// ---------------------------------------------------------------------------
// The model
// ---------------------------------------------------------------------------

/// A JSON number: a non-negative integer of 64 bits, a negative one, or the decimal
/// notation of any other number.
pub ghost enum JsonNumberModel {
    PosInt(u64),
    NegInt(i64),
    Float(Seq<char>),
}

/// A JSON value.
pub ghost enum Json {
    Null,
    Bool(bool),
    Number(JsonNumberModel),
    Text(Seq<char>),
    Array(Seq<Json>),
    Object(Seq<(Seq<char>, Json)>),
}

/// A JSON number as the library holds it.
#[derive(Debug, Clone, PartialEq, Eq)]
pub enum JsonNumber {
    PosInt(u64),
    NegInt(i64),
    Float(String),
}

/// A JSON value as the library holds it.
#[derive(Debug, PartialEq, Eq)]
pub enum JsonValue {
    Null,
    Bool(bool),
    Number(JsonNumber),
    Text(String),
    Array(Vec<JsonValue>),
    Object(Vec<(String, JsonValue)>),
}

impl View for JsonNumber {
    type V = JsonNumberModel;

    open spec fn view(&self) -> JsonNumberModel {
        match self {
            JsonNumber::PosInt(n) => JsonNumberModel::PosInt(*n),
            JsonNumber::NegInt(n) => JsonNumberModel::NegInt(*n),
            JsonNumber::Float(text) => JsonNumberModel::Float(text@),
        }
    }
}

impl JsonValue {
    /// The value that is held.
    pub open spec fn view(&self) -> Json
        decreases self,
    {
        match self {
            JsonValue::Null => Json::Null,
            JsonValue::Bool(flag) => Json::Bool(*flag),
            JsonValue::Number(number) => Json::Number(number@),
            JsonValue::Text(text) => Json::Text(text@),
            JsonValue::Array(items) => Json::Array(
                Seq::new(
                    items@.len(),
                    |i: int|
                        if 0 <= i < items@.len() {
                            items@[i].view()
                        } else {
                            Json::Null
                        },
                ),
            ),
            JsonValue::Object(entries) => Json::Object(
                Seq::new(
                    entries@.len(),
                    |i: int|
                        if 0 <= i < entries@.len() {
                            (entries@[i].0@, entries@[i].1.view())
                        } else {
                            (Seq::empty(), Json::Null)
                        },
                ),
            ),
        }
    }
}

impl JsonNumberModel {
    /// The number as a signed integer of 64 bits, where it is one.
    pub open spec fn as_i64(self) -> Option<i64> {
        match self {
            JsonNumberModel::PosInt(n) => if n <= i64::MAX {
                Some(n as i64)
            } else {
                None
            },
            JsonNumberModel::NegInt(n) => Some(n),
            JsonNumberModel::Float(_) => None,
        }
    }

    /// The number as a size, where it is one.
    pub open spec fn as_usize(self) -> Option<usize> {
        match self {
            JsonNumberModel::PosInt(n) => if n <= usize::MAX {
                Some(n as usize)
            } else {
                None
            },
            _ => None,
        }
    }
}

/// The value under the first `key` of an object's entries.
pub open spec fn field(entries: Seq<(Seq<char>, Json)>, key: Seq<char>) -> Option<Json>
    decreases entries.len(),
{
    if entries.len() == 0 {
        None
    } else if entries[0].0 == key {
        Some(entries[0].1)
    } else {
        field(entries.drop_first(), key)
    }
}

/// A record of `count` members is written as an object, or as an array of the first
/// members in their order.
pub open spec fn is_record(json: Json, count: nat) -> bool {
    match json {
        Json::Object(_) => true,
        Json::Array(items) => items.len() <= count,
        _ => false,
    }
}

/// The member at `position` in a record, or under `key` where it is an object.
pub open spec fn member(json: Json, position: nat, key: Seq<char>) -> Option<Json> {
    match json {
        Json::Object(entries) => field(entries, key),
        Json::Array(items) => if position < items.len() {
            Some(items[position as int])
        } else {
            None
        },
        _ => None,
    }
}

/// The value of a member that was looked up.
pub open spec fn member_json(found: Option<&JsonValue>) -> Option<Json> {
    match found {
        Some(value) => Some(value@),
        None => None,
    }
}

/// The text that a value is.
pub open spec fn as_text(json: Json) -> Option<Seq<char>> {
    match json {
        Json::Text(text) => Some(text),
        _ => None,
    }
}

/// The truth value that a value is.
pub open spec fn as_bool(json: Json) -> Option<bool> {
    match json {
        Json::Bool(flag) => Some(flag),
        _ => None,
    }
}

/// The signed integer of 64 bits that a value is.
pub open spec fn as_i64(json: Json) -> Option<i64> {
    match json {
        Json::Number(number) => number.as_i64(),
        _ => None,
    }
}

/// Every item is a text.
pub open spec fn all_texts(items: Seq<Json>) -> bool {
    forall|i: int| 0 <= i < items.len() ==> #[trigger] items[i] is Text
}

/// The list of texts that a value is.
pub open spec fn as_texts(json: Json) -> Option<Seq<Seq<char>>> {
    match json {
        Json::Array(items) => if all_texts(items) {
            Some(items.map_values(|item: Json| item->Text_0))
        } else {
            None
        },
        _ => None,
    }
}

/// A text member that may be left out.
pub open spec fn text_or(found: Option<Json>, default: Seq<char>) -> Option<Seq<char>> {
    match found {
        Some(json) => as_text(json),
        None => Some(default),
    }
}

/// A truth value that may be left out.
pub open spec fn flag_or_false(found: Option<Json>) -> Option<bool> {
    match found {
        Some(json) => as_bool(json),
        None => Some(false),
    }
}

/// A list of texts that may be left out.
pub open spec fn texts_or_none(found: Option<Json>) -> Option<Seq<Seq<char>>> {
    match found {
        Some(json) => as_texts(json),
        None => Some(Seq::empty()),
    }
}

/// A signed integer that may be left out or null.
pub open spec fn optional_i64(found: Option<Json>) -> Option<Option<i64>> {
    match found {
        None | Some(Json::Null) => Some(None),
        Some(json) => match as_i64(json) {
            Some(n) => Some(Some(n)),
            None => None,
        },
    }
}

/// A size that may be left out or null.
pub open spec fn optional_usize(found: Option<Json>) -> Option<Option<usize>> {
    match found {
        None | Some(Json::Null) => Some(None),
        Some(Json::Number(number)) => match number.as_usize() {
            Some(n) => Some(Some(n)),
            None => None,
        },
        Some(_) => None,
    }
}

/// The map that a sequence of entries makes, where a later entry replaces an earlier
/// one with its key.
pub open spec fn entry_map(entries: Seq<(Seq<char>, Json)>) -> Map<Seq<char>, Json>
    decreases entries.len(),
{
    if entries.len() == 0 {
        Map::empty()
    } else {
        entry_map(entries.drop_last()).insert(entries.last().0, entries.last().1)
    }
}

/// The values of a map of JSON values.
pub open spec fn json_map(map: Map<Seq<char>, JsonValue>) -> Map<Seq<char>, Json> {
    map.map_values(|value: JsonValue| value@)
}

/// The JSON values that texts are.
pub open spec fn text_values(map: Map<Seq<char>, Seq<char>>) -> Map<Seq<char>, Json> {
    map.map_values(|text: Seq<char>| Json::Text(text))
}

/// The texts of a map of strings.
pub open spec fn string_map(map: Map<Seq<char>, String>) -> Map<Seq<char>, Seq<char>> {
    map.map_values(|s: String| s@)
}

// ---------------------------------------------------------------------------
// What comes from serde_json
// ---------------------------------------------------------------------------

/// `serde_json::Value`, a parsed JSON value.
#[verifier::external_type_specification]
#[verifier::external_body]
pub struct ExValue(serde_json::Value);

/// What a `serde_json::Value` holds.
pub uninterp spec fn json_of(value: serde_json::Value) -> Json;

/// What `serde_json::from_str` makes of a text that is read as any JSON value: the
/// value, or the message of the error.
pub uninterp spec fn json_text(text: Seq<char>) -> Result<Json, Seq<char>>;

/// What `serde_json::from_str` makes of a text that is read as a JSON object: the
/// entries in the order of their keys, or the message of the error.
pub uninterp spec fn json_object(text: Seq<char>) -> Result<Seq<(Seq<char>, Json)>, Seq<char>>;

/// What `serde_json::from_str` makes of a text that is read as a list of strings:
/// the strings, or the message of the error.
pub uninterp spec fn json_strings(text: Seq<char>) -> Result<Seq<Seq<char>>, Seq<char>>;

/// A character inside a JSON string. Quotes, backslashes and control characters below the
/// space are escaped, by a letter where there is one.
pub open spec fn escaped_char(c: char) -> Seq<char> {
    if c == '"' || c == '\\' {
        seq!['\\', c]
    } else if c == '\u{8}' {
        seq!['\\', 'b']
    } else if c == '\t' {
        seq!['\\', 't']
    } else if c == '\n' {
        seq!['\\', 'n']
    } else if c == '\u{c}' {
        seq!['\\', 'f']
    } else if c == '\r' {
        seq!['\\', 'r']
    } else if (c as int) < 0x20 {
        "\\u00"@ + seq!["0123456789abcdef"@[c as int / 16], "0123456789abcdef"@[c as int % 16]]
    } else {
        seq![c]
    }
}

/// The characters of a text inside a JSON string.
pub open spec fn escaped_text(text: Seq<char>) -> Seq<char>
    decreases text.len(),
{
    if text.len() == 0 {
        Seq::empty()
    } else {
        escaped_text(text.drop_last()) + escaped_char(text.last())
    }
}

/// A text as a JSON string.
pub open spec fn text_json(text: Seq<char>) -> Seq<char> {
    seq!['"'] + escaped_text(text) + seq!['"']
}

/// A list of texts as a JSON array.
pub open spec fn strings_json(list: Seq<Seq<char>>) -> Seq<char> {
    seq!['['] + joined(list.map_values(|text: Seq<char>| text_json(text)), ","@) + seq![']']
}

proof fn lemma_escape_has_no_line_feed(c: char)
    ensures
        !escaped_char(c).contains('\n'),
{
    reveal_strlit("\\u00");
    reveal_strlit("0123456789abcdef");
    assert forall|i: int| 0 <= i < 16 implies #[trigger] "0123456789abcdef"@[i] != '\n' by {}
    assert(0 <= c as int % 16 < 16);
    assert(0 <= c as int);
    assert((c as int) < 0x20 ==> 0 <= c as int / 16 < 16);
    assert forall|k: int| 0 <= k < escaped_char(c).len() implies escaped_char(c)[k] != '\n' by {}
}

proof fn lemma_escapes_have_no_line_feed(text: Seq<char>)
    ensures
        !escaped_text(text).contains('\n'),
    decreases text.len(),
{
    if text.len() > 0 {
        let before = escaped_text(text.drop_last());
        let last = escaped_char(text.last());
        lemma_escapes_have_no_line_feed(text.drop_last());
        lemma_escape_has_no_line_feed(text.last());
        if escaped_text(text).contains('\n') {
            let k = escaped_text(text).index_of('\n');
            if k < before.len() {
                assert(before[k] == '\n');
            } else {
                assert(last[k - before.len()] == '\n');
            }
        }
    }
}

/// A text as a JSON string stands on one line.
pub proof fn lemma_text_json_has_no_line_feed(text: Seq<char>)
    ensures
        !text_json(text).contains('\n'),
{
    lemma_escapes_have_no_line_feed(text);
    if text_json(text).contains('\n') {
        let k = text_json(text).index_of('\n');
        assert(escaped_text(text)[k - 1] == '\n');
    }
}

/// Entries of texts as a JSON object.
pub open spec fn entries_json(entries: Seq<(Seq<char>, Seq<char>)>) -> Seq<char> {
    seq!['{'] + joined(
        entries.map_values(
            |entry: (Seq<char>, Seq<char>)| text_json(entry.0) + seq![':'] + text_json(entry.1),
        ),
        ","@,
    ) + seq!['}']
}

/// A list of texts as a JSON array over several lines, one for each of them.
pub open spec fn pretty_strings_json(list: Seq<Seq<char>>) -> Seq<char> {
    if list.len() == 0 {
        "[]"@
    } else {
        "[\n  "@ + joined(list.map_values(|text: Seq<char>| text_json(text)), ",\n  "@) + "\n]"@
    }
}

/// Entries of texts as a JSON object over several lines, one for each of them.
pub open spec fn pretty_entries_json(entries: Seq<(Seq<char>, Seq<char>)>) -> Seq<char> {
    if entries.len() == 0 {
        "{}"@
    } else {
        "{\n  "@ + joined(
            entries.map_values(
                |entry: (Seq<char>, Seq<char>)| text_json(entry.0) + ": "@ + text_json(entry.1),
            ),
            ",\n  "@,
        ) + "\n}"@
    }
}

/// The entries of a map of texts, in the order of its keys.
pub open spec fn listed(map: TextMap<String>) -> Seq<(Seq<char>, Seq<char>)> {
    map.keys().map_values(|key: Seq<char>| (key, map@[key]@))
}

/// The map that `serde_json::from_str` reads at the type of a map from strings to strings,
/// or the message of its error.
pub uninterp spec fn json_string_map(text: Seq<char>) -> Result<
    Map<Seq<char>, Seq<char>>,
    Seq<char>,
>;

/// The entries of an object that are still values of `serde_json`.
pub open spec fn raw_entries(entries: Seq<(String, serde_json::Value)>) -> Seq<(Seq<char>, Json)> {
    entries.map_values(|entry: (String, serde_json::Value)| (entry.0@, json_of(entry.1)))
}

/// `serde_json::from_str` at the type `serde_json::Value`.
#[verifier::external_body]
fn parse_value(text: &str) -> (result: Result<serde_json::Value, String>)
    ensures
        match result {
            Ok(value) => json_text(text@) == Ok::<Json, Seq<char>>(json_of(value)),
            Err(message) => json_text(text@) == Err::<Json, Seq<char>>(message@),
        },
{
    serde_json::from_str::<serde_json::Value>(text).map_err(|err| err.to_string())
}

/// `serde_json::from_str` at the type of a map from strings to values.
#[verifier::external_body]
fn parse_entries(text: &str) -> (result: Result<Vec<(String, serde_json::Value)>, String>)
    ensures
        match result {
            Ok(entries) => json_object(text@) == Ok::<Seq<(Seq<char>, Json)>, Seq<char>>(
                raw_entries(entries@),
            ),
            Err(message) => json_object(text@) == Err::<Seq<(Seq<char>, Json)>, Seq<char>>(
                message@,
            ),
        },
{
    serde_json::from_str::<BTreeMap<String, serde_json::Value>>(text)
        .map(|entries| entries.into_iter().collect())
        .map_err(|err| err.to_string())
}

/// `serde_json::from_str` at the type of a list of strings.
#[verifier::external_body]
pub(crate) fn decode_strings(text: &str) -> (result: Result<Vec<String>, String>)
    ensures
        match result {
            Ok(list) => json_strings(text@) == Ok::<Seq<Seq<char>>, Seq<char>>(texts(list@)),
            Err(message) => json_strings(text@) == Err::<Seq<Seq<char>>, Seq<char>>(message@),
        },
{
    serde_json::from_str::<Vec<String>>(text).map_err(|err| err.to_string())
}

/// `serde_json::to_string` of a string. The error it could return is one of
/// serialising or of writing, and a string written to memory has neither.
#[verifier::external_body]
pub(crate) fn encode_text(text: &str) -> (json: String)
    ensures
        json@ == text_json(text@),
{
    serde_json::to_string(text).expect("a string is always JSON")
}

/// `serde_json::to_string` of a list of strings. Reading the text as a list of
/// strings gives the list back.
#[verifier::external_body]
pub(crate) fn encode_strings(list: &Vec<String>) -> (json: String)
    ensures
        json@ == strings_json(texts(list@)),
        match json_strings(json@) {
            Ok(read) => read == texts(list@),
            Err(_) => false,
        },
{
    serde_json::to_string(list).expect("strings are always JSON")
}

/// `serde_json::to_string` of a map from strings to strings, which is handed over as
/// its entries in the order of their keys. Reading the text as an object gives the same
/// map, with a JSON string for each value.
#[verifier::external_body]
fn encode_entries(entries: &Vec<(String, String)>) -> (json: String)
    requires
        ascending(entry_keys(entries@)),
    ensures
        json@ == entries_json(pair_texts(entries@)),
        match json_object(json@) {
            Ok(read) => entry_map(read) == text_values(string_map(pair_map(entries@))),
            Err(_) => false,
        },
{
    let map: BTreeMap<String, String> = entries.iter().cloned().collect();
    serde_json::to_string(&map).expect("a map of strings is always JSON")
}

/// `serde_json::to_string_pretty` of a map from strings to strings, which is handed over
/// as its entries in the order of their keys.
#[verifier::external_body]
fn encode_entries_pretty(entries: &Vec<(String, String)>) -> (json: String)
    requires
        ascending(entry_keys(entries@)),
    ensures
        json@ == pretty_entries_json(pair_texts(entries@)),
{
    let map: BTreeMap<String, String> = entries.iter().cloned().collect();
    serde_json::to_string_pretty(&map).expect("a map of strings is always JSON")
}

/// `serde_json::to_string_pretty` of a list of strings.
#[verifier::external_body]
pub(crate) fn encode_strings_pretty(list: &Vec<String>) -> (json: String)
    ensures
        json@ == pretty_strings_json(texts(list@)),
{
    serde_json::to_string_pretty(list).expect("strings are always JSON")
}

/// `serde_json::from_str` at the type of a map from strings to strings, which is handed
/// out as its entries.
#[verifier::external_body]
fn decode_entries(text: &str) -> (result: Result<Vec<(String, String)>, String>)
    ensures
        match result {
            Ok(entries) => json_string_map(text@) == Ok::<Map<Seq<char>, Seq<char>>, Seq<char>>(
                string_map(pair_map(entries@)),
            ),
            Err(message) => json_string_map(text@) == Err::<Map<Seq<char>, Seq<char>>, Seq<char>>(
                message@,
            ),
        },
{
    serde_json::from_str::<BTreeMap<String, String>>(text)
        .map(|entries| entries.into_iter().collect())
        .map_err(|err| err.to_string())
}

/// The map that a sequence of pairs makes, where a later pair replaces an earlier one
/// with its key.
pub open spec fn pair_map(entries: Seq<(String, String)>) -> Map<Seq<char>, String>
    decreases entries.len(),
{
    if entries.len() == 0 {
        Map::empty()
    } else {
        pair_map(entries.drop_last()).insert(entries.last().0@, entries.last().1)
    }
}

/// One layer of a JSON value.
enum JsonNode {
    Null,
    Bool(bool),
    Number(JsonNumber),
    Text(String),
    Array(Vec<serde_json::Value>),
    Object(Vec<(String, serde_json::Value)>),
}

/// The layer is the outermost one of the value.
spec fn opens_to(json: Json, node: JsonNode) -> bool {
    match node {
        JsonNode::Null => json == Json::Null,
        JsonNode::Bool(flag) => json == Json::Bool(flag),
        JsonNode::Number(number) => json == Json::Number(number@),
        JsonNode::Text(text) => json == Json::Text(text@),
        JsonNode::Array(items) => json == Json::Array(
            items@.map_values(|item: serde_json::Value| json_of(item)),
        ),
        JsonNode::Object(entries) => json == Json::Object(raw_entries(entries@)),
    }
}

/// The variant of a `serde_json::Value` and its fields. A `serde_json::Number` that is
/// neither an unsigned nor a signed integer of 64 bits is handed out as the text that
/// its `to_string` gives.
#[verifier::external_body]
fn open_value(value: serde_json::Value) -> (node: JsonNode)
    ensures
        opens_to(json_of(value), node),
{
    match value {
        serde_json::Value::Null => JsonNode::Null,
        serde_json::Value::Bool(flag) => JsonNode::Bool(flag),
        serde_json::Value::Number(number) => JsonNode::Number(
            match (number.as_u64(), number.as_i64()) {
                (Some(n), _) => JsonNumber::PosInt(n),
                (None, Some(n)) => JsonNumber::NegInt(n),
                (None, None) => JsonNumber::Float(number.to_string()),
            },
        ),
        serde_json::Value::String(text) => JsonNode::Text(text),
        serde_json::Value::Array(items) => JsonNode::Array(items),
        serde_json::Value::Object(entries) => JsonNode::Object(entries.into_iter().collect()),
    }
}

// ---------------------------------------------------------------------------
// Reading
// ---------------------------------------------------------------------------

fn take_items(items: Vec<serde_json::Value>, Ghost(whole): Ghost<Json>) -> (out: Vec<JsonValue>)
    requires
        whole == Json::Array(items@.map_values(|item: serde_json::Value| json_of(item))),
    ensures
        out@.len() == items@.len(),
        forall|i: int| 0 <= i < out@.len() ==> (#[trigger] out@[i])@ == json_of(items@[i]),
    decreases whole, 0int,
{
    let ghost parts = whole->Array_0;
    let mut out: Vec<JsonValue> = Vec::new();
    for item in it: items
        invariant
            it.seq() == items@,
            parts == items@.map_values(|item: serde_json::Value| json_of(item)),
            whole == Json::Array(parts),
            out@.len() == it.index(),
            forall|i: int| 0 <= i < out@.len() ==> (#[trigger] out@[i])@ == json_of(items@[i]),
    {
        proof {
            assert(item == items@[it.index() as int]);
            assert(parts[it.index() as int] == json_of(item));
            assert(decreases_to!(whole => whole->Array_0));
            assert(decreases_to!(parts => parts[it.index() as int]));
        }
        out.push(take_value(item));
    }
    out
}

fn take_entries(
    entries: Vec<(String, serde_json::Value)>,
    Ghost(whole): Ghost<Json>,
) -> (out: Vec<(String, JsonValue)>)
    requires
        whole == Json::Object(raw_entries(entries@)),
    ensures
        out@.len() == entries@.len(),
        forall|i: int|
            0 <= i < out@.len() ==> (#[trigger] out@[i]).0@ == entries@[i].0@ && out@[i].1@
                == json_of(entries@[i].1),
    decreases whole, 0int,
{
    let ghost parts = whole->Object_0;
    let mut out: Vec<(String, JsonValue)> = Vec::new();
    for entry in it: entries
        invariant
            it.seq() == entries@,
            parts == raw_entries(entries@),
            whole == Json::Object(parts),
            out@.len() == it.index(),
            forall|i: int|
                0 <= i < out@.len() ==> (#[trigger] out@[i]).0@ == entries@[i].0@ && out@[i].1@
                    == json_of(entries@[i].1),
    {
        proof {
            assert(entry == entries@[it.index() as int]);
            assert(parts[it.index() as int] == (entry.0@, json_of(entry.1)));
            assert(decreases_to!(whole => whole->Object_0));
            assert(decreases_to!(parts => parts[it.index() as int]));
            assert(decreases_to!(parts[it.index() as int] => parts[it.index() as int].1));
        }
        out.push((entry.0, take_value(entry.1)));
    }
    out
}

/// The value that a `serde_json::Value` holds.
fn take_value(value: serde_json::Value) -> (result: JsonValue)
    ensures
        result@ == json_of(value),
    decreases json_of(value), 1int,
{
    let ghost whole = json_of(value);
    match open_value(value) {
        JsonNode::Null => JsonValue::Null,
        JsonNode::Bool(flag) => JsonValue::Bool(flag),
        JsonNode::Number(number) => JsonValue::Number(number),
        JsonNode::Text(text) => JsonValue::Text(text),
        JsonNode::Array(items) => {
            let result = JsonValue::Array(take_items(items, Ghost(whole)));
            assert(result@->Array_0 =~= whole->Array_0);
            result
        },
        JsonNode::Object(entries) => {
            let result = JsonValue::Object(take_entries(entries, Ghost(whole)));
            assert(result@->Object_0 =~= whole->Object_0);
            result
        },
    }
}

/// Reads a text as any JSON value.
pub fn parse_json(text: &str) -> (result: Result<JsonValue, String>)
    ensures
        match result {
            Ok(value) => json_text(text@) == Ok::<Json, Seq<char>>(value@),
            Err(message) => json_text(text@) == Err::<Json, Seq<char>>(message@),
        },
{
    match parse_value(text) {
        Ok(value) => Ok(take_value(value)),
        Err(message) => Err(message),
    }
}

/// Reads a text as a JSON object.
pub fn parse_object(text: &str) -> (result: Result<TextMap<JsonValue>, String>)
    ensures
        match result {
            Ok(map) => {
                &&& map.wf()
                &&& json_object(text@) is Ok
                &&& json_map(map@) == entry_map(json_object(text@)->Ok_0)
            },
            Err(message) => json_object(text@) == Err::<Seq<(Seq<char>, Json)>, Seq<char>>(
                message@,
            ),
        },
{
    let entries = match parse_entries(text) {
        Ok(entries) => entries,
        Err(message) => {
            return Err(message);
        },
    };
    let ghost whole = Json::Object(raw_entries(entries@));
    let ghost source = entries@;
    let values = take_entries(entries, Ghost(whole));
    let mut map: TextMap<JsonValue> = TextMap::new();
    let ghost parts = raw_entries(source);
    assert(parts.take(0) =~= Seq::empty());
    assert(json_map(map@) =~= entry_map(parts.take(0)));
    for entry in it: values
        invariant
            it.seq() == values@,
            values@.len() == source.len(),
            parts == raw_entries(source),
            forall|i: int|
                0 <= i < values@.len() ==> (#[trigger] values@[i]).0@ == source[i].0@
                    && values@[i].1@ == json_of(source[i].1),
            map.wf(),
            json_map(map@) == entry_map(parts.take(it.index())),
    {
        proof {
            let i = it.index() as int;
            assert(entry == values@[i]);
            assert(parts.take(i + 1).drop_last() =~= parts.take(i));
            assert(parts.take(i + 1).last() == (entry.0@, entry.1@));
        }
        let ghost before = map@;
        map.insert(entry.0, entry.1);
        assert(json_map(map@) =~= json_map(before).insert(entry.0@, entry.1@));
    }
    assert(parts.take(parts.len() as int) =~= parts);
    Ok(map)
}

/// The entries of a map of texts, in the order of its keys.
fn list_entries(map: &TextMap<String>) -> (entries: Vec<(String, String)>)
    requires
        map.wf(),
    ensures
        ascending(entry_keys(entries@)),
        pair_texts(entries@) == listed(*map),
        pair_map(entries@) == map@,
{
    let mut entries: Vec<(String, String)> = Vec::new();
    let n = map.len();
    let mut i: usize = 0;
    while i < n
        invariant
            map.wf(),
            n == map.keys().len(),
            i <= n,
            entries@.len() == i,
            forall|j: int|
                0 <= j < i ==> (#[trigger] entries@[j]).0@ == map.keys()[j] && map@.contains_pair(
                    entries@[j].0@,
                    entries@[j].1,
                ),
            pair_map(entries@).dom() == map.keys().take(i as int).to_set(),
            forall|k: Seq<char>| #[trigger]
                pair_map(entries@).contains_key(k) ==> map@.contains_pair(k, pair_map(entries@)[k]),
        decreases n - i,
    {
        let entry = map.entry_at(i);
        let ghost before = entries@;
        entries.push((entry.0.clone(), entry.1.clone()));
        proof {
            assert(entries@.drop_last() =~= before);
            assert(map.keys().take(i + 1) =~= map.keys().take(i as int).push(entry.0@));
            map.keys().take(i as int).lemma_push_to_set_commute(entry.0@);
        }
        i += 1;
    }
    proof {
        map.lemma_keys();
        assert(map.keys().take(n as int) =~= map.keys());
        assert forall|k: Seq<char>| #[trigger] map@.dom().contains(k) implies pair_map(entries@)[k]
            == map@[k] by {
            assert(pair_map(entries@).contains_key(k));
        }
        assert(pair_map(entries@) =~= map@);
        assert(entry_keys(entries@) =~= map.keys());
        assert(pair_texts(entries@) =~= listed(*map));
    }
    entries
}

/// Writes a map from strings to strings as a JSON object.
pub fn encode_map(map: &TextMap<String>) -> (json: String)
    requires
        map.wf(),
    ensures
        json@ == entries_json(listed(*map)),
        match json_object(json@) {
            Ok(read) => entry_map(read) == text_values(string_map(map@)),
            Err(_) => false,
        },
{
    let entries = list_entries(map);
    encode_entries(&entries)
}

/// Writes a map from strings to strings as a JSON object over several lines.
pub fn encode_map_pretty(map: &TextMap<String>) -> (json: String)
    requires
        map.wf(),
    ensures
        json@ == pretty_entries_json(listed(*map)),
{
    let entries = list_entries(map);
    encode_entries_pretty(&entries)
}

/// Reads a map from strings to strings that is written as a JSON object.
pub fn decode_string_map(text: &str) -> (result: Result<TextMap<String>, String>)
    ensures
        match json_string_map(text@) {
            Ok(map) => result is Ok && result->Ok_0.wf() && string_map(result->Ok_0@) == map,
            Err(message) => result is Err && result->Err_0@ == message,
        },
{
    let entries = match decode_entries(text) {
        Ok(entries) => entries,
        Err(message) => {
            return Err(message);
        },
    };
    let mut map: TextMap<String> = TextMap::new();
    assert(entries@.take(0) =~= Seq::empty());
    for entry in it: entries
        invariant
            it.seq() == entries@,
            map.wf(),
            map@ == pair_map(entries@.take(it.index())),
    {
        proof {
            let i = it.index() as int;
            assert(entries@.take(i + 1).drop_last() =~= entries@.take(i));
            assert(entries@.take(i + 1).last() == entry);
        }
        map.insert(entry.0, entry.1);
    }
    assert(entries@.take(entries@.len() as int) =~= entries@);
    Ok(map)
}

/// The value under the first `key` of an object's entries.
fn find_field<'a>(entries: &'a Vec<(String, JsonValue)>, key: &str) -> (found: Option<&'a JsonValue>)
    ensures
        member_json(found) == field(JsonValue::Object(*entries)@->Object_0, key@),
{
    let ghost parts = JsonValue::Object(*entries)@->Object_0;
    let mut i: usize = 0;
    assert(parts.skip(0) =~= parts);
    while i < entries.len()
        invariant
            parts == JsonValue::Object(*entries)@->Object_0,
            parts.len() == entries@.len(),
            i <= entries@.len(),
            field(parts, key@) == field(parts.skip(i as int), key@),
        decreases entries@.len() - i,
    {
        assert(parts[i as int] == (entries@[i as int].0@, entries@[i as int].1@));
        assert(parts.skip(i as int).drop_first() =~= parts.skip(i + 1));
        if same_text(entries[i].0.as_str(), key) {
            return Some(&entries[i].1);
        }
        i += 1;
    }
    None
}

impl JsonNumber {
    /// The number as a signed integer of 64 bits, where it is one.
    pub fn as_i64(&self) -> (n: Option<i64>)
        ensures
            n == self@.as_i64(),
    {
        match self {
            JsonNumber::PosInt(n) => if *n <= i64::MAX as u64 {
                Some(*n as i64)
            } else {
                None
            },
            JsonNumber::NegInt(n) => Some(*n),
            JsonNumber::Float(_) => None,
        }
    }

    /// The number as a size, where it is one.
    pub fn as_usize(&self) -> (n: Option<usize>)
        ensures
            n == self@.as_usize(),
    {
        match self {
            JsonNumber::PosInt(n) => if *n <= usize::MAX as u64 {
                Some(*n as usize)
            } else {
                None
            },
            _ => None,
        }
    }
}

impl JsonValue {
    /// Whether the value writes a record of `count` members.
    pub fn is_record(&self, count: usize) -> (b: bool)
        ensures
            b == is_record(self@, count as nat),
    {
        match self {
            JsonValue::Object(_) => true,
            JsonValue::Array(items) => items.len() <= count,
            _ => false,
        }
    }

    /// The member at `position` in a record, or under `key` where it is an object.
    pub fn member(&self, position: usize, key: &str) -> (found: Option<&JsonValue>)
        ensures
            member_json(found) == member(self@, position as nat, key@),
    {
        match self {
            JsonValue::Object(entries) => find_field(entries, key),
            JsonValue::Array(items) => if position < items.len() {
                Some(&items[position])
            } else {
                None
            },
            _ => None,
        }
    }

    /// The text that the value is.
    pub fn as_text(&self) -> (text: Option<String>)
        ensures
            match text {
                Some(text) => as_text(self@) == Some(text@),
                None => as_text(self@) is None,
            },
    {
        match self {
            JsonValue::Text(text) => Some(text.clone()),
            _ => None,
        }
    }

    /// The truth value that the value is.
    pub fn as_bool(&self) -> (flag: Option<bool>)
        ensures
            flag == as_bool(self@),
    {
        match self {
            JsonValue::Bool(flag) => Some(*flag),
            _ => None,
        }
    }

    /// The signed integer of 64 bits that the value is.
    pub fn as_i64(&self) -> (n: Option<i64>)
        ensures
            n == as_i64(self@),
    {
        match self {
            JsonValue::Number(number) => number.as_i64(),
            _ => None,
        }
    }

    /// The list of texts that the value is.
    pub fn as_texts(&self) -> (list: Option<Vec<String>>)
        ensures
            match list {
                Some(list) => as_texts(self@) == Some(texts(list@)),
                None => as_texts(self@) is None,
            },
    {
        match self {
            JsonValue::Array(items) => {
                let ghost parts = self@->Array_0;
                let mut list: Vec<String> = Vec::new();
                let mut i: usize = 0;
                while i < items.len()
                    invariant
                        *self == JsonValue::Array(*items),
                        parts == self@->Array_0,
                        parts.len() == items@.len(),
                        i <= items@.len(),
                        list@.len() == i,
                        forall|j: int|
                            0 <= j < i ==> #[trigger] parts[j] == Json::Text(list@[j]@),
                    decreases items@.len() - i,
                {
                    assert(parts[i as int] == items@[i as int]@);
                    match &items[i] {
                        JsonValue::Text(text) => {
                            list.push(text.clone());
                        },
                        _ => {
                            assert(!(parts[i as int] is Text));
                            return None;
                        },
                    }
                    i += 1;
                }
                assert(all_texts(parts));
                assert(parts.map_values(|item: Json| item->Text_0) =~= texts(list@));
                Some(list)
            },
            _ => None,
        }
    }
}

/// Reads a text member that may be left out.
pub fn read_text_or(found: Option<&JsonValue>, default: &str) -> (text: Option<String>)
    ensures
        match text {
            Some(text) => text_or(member_json(found), default@) == Some(text@),
            None => text_or(member_json(found), default@) is None,
        },
{
    match found {
        Some(value) => value.as_text(),
        None => Some(default.to_owned()),
    }
}

/// Reads a truth value that may be left out.
pub fn read_flag_or_false(found: Option<&JsonValue>) -> (flag: Option<bool>)
    ensures
        flag == flag_or_false(member_json(found)),
{
    match found {
        Some(value) => value.as_bool(),
        None => Some(false),
    }
}

/// Reads a list of texts that may be left out.
pub fn read_texts_or_none(found: Option<&JsonValue>) -> (list: Option<Vec<String>>)
    ensures
        match list {
            Some(list) => texts_or_none(member_json(found)) == Some(texts(list@)),
            None => texts_or_none(member_json(found)) is None,
        },
{
    match found {
        Some(value) => value.as_texts(),
        None => {
            let list: Vec<String> = Vec::new();
            assert(texts(list@) =~= Seq::<Seq<char>>::empty());
            Some(list)
        },
    }
}

/// Reads a signed integer that may be left out or null.
pub fn read_optional_i64(found: Option<&JsonValue>) -> (n: Option<Option<i64>>)
    ensures
        n == optional_i64(member_json(found)),
{
    match found {
        None | Some(JsonValue::Null) => Some(None),
        Some(value) => match value.as_i64() {
            Some(n) => Some(Some(n)),
            None => None,
        },
    }
}

/// Reads a size that may be left out or null.
pub fn read_optional_usize(found: Option<&JsonValue>) -> (n: Option<Option<usize>>)
    ensures
        n == optional_usize(member_json(found)),
{
    match found {
        None | Some(JsonValue::Null) => Some(None),
        Some(JsonValue::Number(number)) => match number.as_usize() {
            Some(n) => Some(Some(n)),
            None => None,
        },
        Some(_) => None,
    }
}

// ---------------------------------------------------------------------------
// Complaints
// ---------------------------------------------------------------------------

/// The message with which `serde_json::from_value` refuses a value at the type of a list
/// of strings.
pub uninterp spec fn strings_complaint(json: Json) -> Seq<char>;

/// The message with which `serde_json::from_value` refuses a value at the type `bool`.
pub uninterp spec fn flag_complaint(json: Json) -> Seq<char>;

/// The message of the error that `serde_json` makes of a value of another type than the
/// one that is expected.
pub uninterp spec fn type_complaint(json: Json, expected: Seq<char>) -> Seq<char>;

/// `serde_json::from_value` at the type of a list of strings. It accepts an array of
/// strings and nothing else.
#[verifier::external_body]
fn value_to_strings(value: serde_json::Value) -> (result: Result<Vec<String>, String>)
    ensures
        match result {
            Ok(list) => as_texts(json_of(value)) == Some(texts(list@)),
            Err(message) => as_texts(json_of(value)) is None && message@ == strings_complaint(
                json_of(value),
            ),
        },
{
    serde_json::from_value::<Vec<String>>(value).map_err(|err| err.to_string())
}

/// `serde_json::from_value` at the type `bool`. It accepts a boolean and nothing else.
#[verifier::external_body]
fn value_to_flag(value: serde_json::Value) -> (result: Result<bool, String>)
    ensures
        match result {
            Ok(flag) => as_bool(json_of(value)) == Some(flag),
            Err(message) => as_bool(json_of(value)) is None && message@ == flag_complaint(
                json_of(value),
            ),
        },
{
    serde_json::from_value::<bool>(value).map_err(|err| err.to_string())
}

/// `serde::de::Error::invalid_type` of `serde_json`, on the kind of a value and the words
/// for what is expected.
#[verifier::external_body]
fn complain_of_type(value: &serde_json::Value, expected: &str) -> (message: String)
    ensures
        message@ == type_complaint(json_of(*value), expected@),
{
    let found = match value {
        serde_json::Value::Null => Unexpected::Unit,
        serde_json::Value::Bool(flag) => Unexpected::Bool(*flag),
        serde_json::Value::Number(n) => match (n.as_u64(), n.as_i64(), n.as_f64()) {
            (Some(n), _, _) => Unexpected::Unsigned(n),
            (None, Some(n), _) => Unexpected::Signed(n),
            (None, None, n) => Unexpected::Float(n.unwrap_or_default()),
        },
        serde_json::Value::String(text) => Unexpected::Str(text),
        serde_json::Value::Array(_) => Unexpected::Seq,
        serde_json::Value::Object(_) => Unexpected::Map,
    };
    <serde_json::Error as serde::de::Error>::invalid_type(found, &expected).to_string()
}

/// The message for an array with more items than a record has members.
pub open spec fn length_complaint(count: nat) -> Seq<char> {
    "invalid length "@ + int_text(count as int) + ", expected fewer elements in array"@
}

/// The complaint about the first entry under one of two keys that is no list of texts.
pub open spec fn entries_complaint(
    entries: Seq<(Seq<char>, Json)>,
    first: Seq<char>,
    second: Seq<char>,
) -> Seq<char>
    decreases entries.len(),
{
    if entries.len() == 0 {
        Seq::empty()
    } else if (entries[0].0 == first || entries[0].0 == second) && as_texts(entries[0].1) is None {
        strings_complaint(entries[0].1)
    } else {
        entries_complaint(entries.drop_first(), first, second)
    }
}

/// What is wrong with a value that does not write a record of lists of texts. The record
/// has one member where both keys are the same, and two members where they differ.
pub open spec fn lists_complaint(
    json: Json,
    name: Seq<char>,
    first: Seq<char>,
    second: Seq<char>,
) -> Seq<char> {
    match json {
        Json::Object(entries) => entries_complaint(entries, first, second),
        Json::Array(items) => if items.len() > 0 && as_texts(items[0]) is None {
            strings_complaint(items[0])
        } else if first != second && items.len() > 1 && as_texts(items[1]) is None {
            strings_complaint(items[1])
        } else {
            length_complaint(items.len())
        },
        _ => type_complaint(json, "struct "@ + name),
    }
}

/// What is wrong with a value that does not write a record of one flag.
pub open spec fn flag_record_complaint(json: Json, name: Seq<char>, key: Seq<char>) -> Seq<char> {
    match json {
        Json::Object(entries) => match field(entries, key) {
            Some(value) => if as_bool(value) is None {
                flag_complaint(value)
            } else {
                Seq::empty()
            },
            None => Seq::empty(),
        },
        Json::Array(items) => if items.len() > 0 && as_bool(items[0]) is None {
            flag_complaint(items[0])
        } else {
            length_complaint(items.len())
        },
        _ => type_complaint(json, "struct "@ + name),
    }
}

fn complain_of_length(count: usize) -> (message: String)
    ensures
        message@ == length_complaint(count as nat),
{
    let mut number = String::new();
    push_u64(&mut number, count as u64);
    assert(number@ =~= int_text(count as int));
    "invalid length ".to_owned().concat(number.as_str()).concat(
        ", expected fewer elements in array",
    )
}

fn complain_of_entries(
    entries: Vec<(String, serde_json::Value)>,
    first: &str,
    second: &str,
) -> (message: String)
    ensures
        message@ == entries_complaint(raw_entries(entries@), first@, second@),
{
    let ghost parts = raw_entries(entries@);
    assert(parts.skip(0) =~= parts);
    for entry in it: entries
        invariant
            it.seq() == entries@,
            parts == raw_entries(entries@),
            entries_complaint(parts, first@, second@) == entries_complaint(
                parts.skip(it.index() as int),
                first@,
                second@,
            ),
    {
        proof {
            let i = it.index() as int;
            assert(entry == entries@[i]);
            assert(parts.skip(i)[0] == (entry.0@, json_of(entry.1)));
            assert(parts.skip(i).drop_first() =~= parts.skip(i + 1));
        }
        if same_text(entry.0.as_str(), first) || same_text(entry.0.as_str(), second) {
            match value_to_strings(entry.1) {
                Ok(_) => {},
                Err(message) => {
                    return message;
                },
            }
        }
    }
    assert(parts.skip(parts.len() as int) =~= Seq::empty());
    String::new()
}

/// Complains about a text whose JSON does not write a record of lists of texts, or is
/// none.
pub fn complain_of_lists(text: &str, name: &str, first: &str, second: &str) -> (message: String)
    ensures
        match json_text(text@) {
            Ok(json) => message@ == lists_complaint(json, name@, first@, second@),
            Err(message_of_text) => message@ == message_of_text,
        },
{
    let value = match parse_value(text) {
        Ok(value) => value,
        Err(message) => {
            return message;
        },
    };
    let expected = "struct ".to_owned().concat(name);
    let complaint = complain_of_type(&value, expected.as_str());
    match open_value(value) {
        JsonNode::Object(entries) => complain_of_entries(entries, first, second),
        JsonNode::Array(items) => {
            let count = items.len();
            let mut items = items;
            if count > 0 {
                match value_to_strings(items.remove(0)) {
                    Ok(_) => {},
                    Err(message) => {
                        return message;
                    },
                }
            }
            if count > 1 && !same_text(first, second) {
                match value_to_strings(items.remove(0)) {
                    Ok(_) => {},
                    Err(message) => {
                        return message;
                    },
                }
            }
            complain_of_length(count)
        },
        _ => complaint,
    }
}

/// Complains about a text whose JSON does not write a record of one flag, or is none.
pub fn complain_of_flag(text: &str, name: &str, key: &str) -> (message: String)
    ensures
        match json_text(text@) {
            Ok(json) => message@ == flag_record_complaint(json, name@, key@),
            Err(message_of_text) => message@ == message_of_text,
        },
{
    let value = match parse_value(text) {
        Ok(value) => value,
        Err(message) => {
            return message;
        },
    };
    let expected = "struct ".to_owned().concat(name);
    let complaint = complain_of_type(&value, expected.as_str());
    match open_value(value) {
        JsonNode::Object(entries) => {
            let ghost parts = raw_entries(entries@);
            assert(parts.skip(0) =~= parts);
            for entry in it: entries
                invariant
                    it.seq() == entries@,
                    parts == raw_entries(entries@),
                    json_text(text@) == Ok::<Json, Seq<char>>(Json::Object(parts)),
                    field(parts, key@) == field(parts.skip(it.index() as int), key@),
            {
                proof {
                    let i = it.index() as int;
                    assert(entry == entries@[i]);
                    assert(parts.skip(i)[0] == (entry.0@, json_of(entry.1)));
                    assert(parts.skip(i).drop_first() =~= parts.skip(i + 1));
                }
                if same_text(entry.0.as_str(), key) {
                    return match value_to_flag(entry.1) {
                        Ok(_) => String::new(),
                        Err(message) => message,
                    };
                }
            }
            assert(parts.skip(parts.len() as int) =~= Seq::empty());
            String::new()
        },
        JsonNode::Array(items) => {
            let count = items.len();
            if count > 0 {
                let mut items = items;
                match value_to_flag(items.remove(0)) {
                    Ok(_) => {},
                    Err(message) => {
                        return message;
                    },
                }
            }
            complain_of_length(count)
        },
        _ => complaint,
    }
}

// ---------------------------------------------------------------------------
// Laws
// ---------------------------------------------------------------------------

/// A key that stands behind entries with other keys is found with its value, whatever
/// comes behind it; a key that no entry has is not found.
pub proof fn law_members_are_found_by_their_key(
    before: Seq<(Seq<char>, Json)>,
    key: Seq<char>,
    value: Json,
    after: Seq<(Seq<char>, Json)>,
)
    requires
        forall|i: int| 0 <= i < before.len() ==> (#[trigger] before[i]).0 != key,
    ensures
        field(before, key) is None,
        field(before + seq![(key, value)] + after, key) == Some(value),
    decreases before.len(),
{
    let all = before + seq![(key, value)] + after;
    if before.len() == 0 {
        assert(all[0] == (key, value));
    } else {
        let rest = before.drop_first();
        assert(before[0].0 != key);
        assert forall|i: int| 0 <= i < rest.len() implies (#[trigger] rest[i]).0 != key by {
            assert(rest[i] == before[i + 1]);
        }
        law_members_are_found_by_their_key(rest, key, value, after);
        assert(all[0] == before[0]);
        assert(all.drop_first() =~= rest + seq![(key, value)] + after);
    }
}

/// The last of the entries with a key gives the value that a map of them has for it.
pub proof fn law_later_entries_replace_earlier_ones(
    entries: Seq<(Seq<char>, Json)>,
    key: Seq<char>,
    value: Json,
    other: Seq<char>,
)
    ensures
        entry_map(Seq::empty()) == Map::<Seq<char>, Json>::empty(),
        entry_map(entries.push((key, value))).contains_key(key),
        entry_map(entries.push((key, value)))[key] == value,
        other != key ==> entry_map(entries.push((key, value))).contains_key(other) == entry_map(
            entries,
        ).contains_key(other),
        other != key && entry_map(entries).contains_key(other) ==> entry_map(
            entries.push((key, value)),
        )[other] == entry_map(entries)[other],
{
    let all = entries.push((key, value));
    assert(all.drop_last() =~= entries);
    assert(all.last() == (key, value));
}

/// A value is a text, a truth value, an integer or a list of texts exactly where it is
/// written as one.
pub proof fn law_values_are_read_by_their_kind(
    json: Json,
    text: Seq<char>,
    flag: bool,
    n: i64,
    list: Seq<Seq<char>>,
)
    ensures
        as_text(json) == Some(text) <==> json == Json::Text(text),
        as_bool(json) == Some(flag) <==> json == Json::Bool(flag),
        as_i64(json) == Some(n) <==> json == Json::Number(JsonNumberModel::NegInt(n)) || (n >= 0
            && json == Json::Number(JsonNumberModel::PosInt(n as u64))),
        as_texts(json) == Some(list) <==> json == Json::Array(
            list.map_values(|text: Seq<char>| Json::Text(text)),
        ),
{
    let items = list.map_values(|text: Seq<char>| Json::Text(text));
    if json == Json::Array(items) {
        assert(all_texts(items));
        assert(items.map_values(|item: Json| item->Text_0) =~= list);
    }
    if as_texts(json) == Some(list) {
        assert(json->Array_0 =~= items) by {
            let parts = json->Array_0;
            assert(list.len() == parts.len());
            assert forall|i: int| 0 <= i < parts.len() implies parts[i] == items[i] by {
                assert(parts[i] is Text);
                assert(list[i] == parts[i]->Text_0);
            }
        }
    }
}

/// What a member that may be left out stands for. A size or an integer may also be null.
pub proof fn law_members_may_be_left_out(found: Option<Json>, default: Seq<char>, size: usize, n: i64)
    ensures
        text_or(None, default) == Some(default),
        flag_or_false(None) == Some(false),
        texts_or_none(None) == Some(Seq::<Seq<char>>::empty()),
        optional_i64(None) == Some(None::<i64>),
        optional_usize(None) == Some(None::<usize>),
        optional_i64(Some(Json::Null)) == Some(None::<i64>),
        optional_usize(Some(Json::Null)) == Some(None::<usize>),
        found is Some ==> text_or(found, default) == as_text(found->0),
        found is Some ==> flag_or_false(found) == as_bool(found->0),
        found is Some ==> texts_or_none(found) == as_texts(found->0),
        optional_i64(found) == Some(Some(n)) <==> found is Some && as_i64(found->0) == Some(n),
        optional_usize(found) == Some(Some(size)) <==> found == Some(
            Json::Number(JsonNumberModel::PosInt(size as u64)),
        ),
        found is Some && !(found->0 is Null) && !(found->0 is Number) ==> optional_usize(found) is None
            && optional_i64(found) is None,
{
}

/// A record is an object whose members are found by their keys, or an array of no more
/// items than it has members, which are found by their positions.
pub proof fn law_records_are_objects_or_arrays(
    entries: Seq<(Seq<char>, Json)>,
    items: Seq<Json>,
    json: Json,
    count: nat,
    position: nat,
    key: Seq<char>,
)
    ensures
        is_record(Json::Object(entries), count),
        member(Json::Object(entries), position, key) == field(entries, key),
        is_record(Json::Array(items), count) <==> items.len() <= count,
        position < items.len() ==> member(Json::Array(items), position, key) == Some(
            items[position as int],
        ),
        position >= items.len() ==> member(Json::Array(items), position, key) is None,
        !(json is Object) && !(json is Array) ==> !is_record(json, count),
{
}

/// Each character of a text stands in its JSON for itself, but for the quotation mark, the
/// backslash and the control characters below the space.
pub proof fn law_json_keeps_plain_characters(a: Seq<char>, b: Seq<char>, c: char)
    ensures
        text_json(a).len() >= 2,
        text_json(a)[0] == '"',
        text_json(a).last() == '"',
        escaped_text(a + b) == escaped_text(a) + escaped_text(b),
        (c as int) >= 32 && c != '"' && c != '\\' ==> escaped_text(seq![c]) == seq![c],
        c == '"' || c == '\\' ==> escaped_text(seq![c]) == seq!['\\', c],
        (c as int) < 32 ==> escaped_text(seq![c]).len() >= 2 && escaped_text(seq![c])[0] == '\\',
    decreases b.len(),
{
    assert(seq![c].drop_last() =~= Seq::empty());
    assert(escaped_text(seq![c].drop_last()) =~= Seq::empty());
    assert(escaped_text(seq![c]) =~= escaped_char(c));
    reveal_strlit("\\u00");
    if b.len() == 0 {
        assert(a + b =~= a);
        assert(escaped_text(a) + escaped_text(b) =~= escaped_text(a));
    } else {
        law_json_keeps_plain_characters(a, b.drop_last(), c);
        assert((a + b).drop_last() =~= a + b.drop_last());
        assert((a + b).last() == b.last());
        assert(escaped_text(a + b) =~= escaped_text(a) + escaped_text(b));
    }
}

/// The texts and values of maps are those of their entries.
pub proof fn law_maps_keep_their_keys(
    map: Map<Seq<char>, String>,
    values: Map<Seq<char>, JsonValue>,
    plain: Map<Seq<char>, Seq<char>>,
    key: Seq<char>,
)
    ensures
        string_map(map).dom() == map.dom(),
        json_map(values).dom() == values.dom(),
        text_values(plain).dom() == plain.dom(),
        map.contains_key(key) ==> string_map(map)[key] == map[key]@,
        values.contains_key(key) ==> json_map(values)[key] == values[key]@,
        plain.contains_key(key) ==> text_values(plain)[key] == Json::Text(plain[key]),
{
    assert(string_map(map).dom() =~= map.dom());
    assert(json_map(values).dom() =~= values.dom());
    assert(text_values(plain).dom() =~= plain.dom());
}

/// What is complained of in a record of lists: the first entry under one of its keys that
/// is no list of texts, the first item that is none, too many items, or a value that is no
/// record at all.
pub proof fn law_wrong_lists_are_complained_of(
    before: Seq<(Seq<char>, Json)>,
    key: Seq<char>,
    value: Json,
    after: Seq<(Seq<char>, Json)>,
    items: Seq<Json>,
    json: Json,
    name: Seq<char>,
    first: Seq<char>,
    second: Seq<char>,
)
    requires
        forall|i: int|
            0 <= i < before.len() ==> ((#[trigger] before[i]).0 != first && before[i].0 != second)
                || as_texts(before[i].1) is Some,
    ensures
        (key == first || key == second) && as_texts(value) is None ==> lists_complaint(
            Json::Object(before + seq![(key, value)] + after),
            name,
            first,
            second,
        ) == strings_complaint(value),
        items.len() > 0 && as_texts(items[0]) is None ==> lists_complaint(
            Json::Array(items),
            name,
            first,
            second,
        ) == strings_complaint(items[0]),
        first != second && items.len() > 1 && as_texts(items[0]) is Some && as_texts(items[1])
            is None ==> lists_complaint(Json::Array(items), name, first, second)
            == strings_complaint(items[1]),
        (items.len() > 0 ==> as_texts(items[0]) is Some) && (first != second && items.len() > 1
            ==> as_texts(items[1]) is Some) ==> lists_complaint(
            Json::Array(items),
            name,
            first,
            second,
        ) == "invalid length "@ + int_text(items.len() as int)
            + ", expected fewer elements in array"@,
        !(json is Object) && !(json is Array) ==> lists_complaint(json, name, first, second)
            == type_complaint(json, "struct "@ + name),
    decreases before.len(),
{
    let all = before + seq![(key, value)] + after;
    if (key == first || key == second) && as_texts(value) is None {
        if before.len() == 0 {
            assert(all[0] == (key, value));
        } else {
            let rest = before.drop_first();
            assert forall|i: int| 0 <= i < rest.len() implies ((#[trigger] rest[i]).0 != first
                && rest[i].0 != second) || as_texts(rest[i].1) is Some by {
                assert(rest[i] == before[i + 1]);
            }
            assert(all[0] == before[0]);
            assert(all.drop_first() =~= rest + seq![(key, value)] + after);
            law_wrong_lists_are_complained_of(
                rest,
                key,
                value,
                after,
                items,
                json,
                name,
                first,
                second,
            );
        }
    }
}

/// What is complained of in a record of one flag: the flag that is none, too many items, or
/// a value that is no record at all.
pub proof fn law_wrong_flags_are_complained_of(
    entries: Seq<(Seq<char>, Json)>,
    items: Seq<Json>,
    json: Json,
    name: Seq<char>,
    key: Seq<char>,
)
    ensures
        field(entries, key) is Some && !(field(entries, key)->0 is Bool) ==> flag_record_complaint(
            Json::Object(entries),
            name,
            key,
        ) == flag_complaint(field(entries, key)->0),
        items.len() > 0 && !(items[0] is Bool) ==> flag_record_complaint(
            Json::Array(items),
            name,
            key,
        ) == flag_complaint(items[0]),
        items.len() == 0 || items[0] is Bool ==> flag_record_complaint(
            Json::Array(items),
            name,
            key,
        ) == "invalid length "@ + int_text(items.len() as int)
            + ", expected fewer elements in array"@,
        !(json is Object) && !(json is Array) ==> flag_record_complaint(json, name, key)
            == type_complaint(json, "struct "@ + name),
{
}

}
