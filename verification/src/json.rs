//! JSON values.
//!
//! The library reads and builds JSON as values of [`Json`]. Parsing text into a value and
//! printing a value as text is the work of `serde_json`. One step of either crosses between
//! `serde_json::Value` and [`JsonNode`]; the walk over a whole value is verified.

use vstd::prelude::*;

use crate::entries::{
    entry_map, lemma_entry_map_keys, lemma_entry_map_last, lemma_entry_map_replace,
};

verus! {

/// Declares `serde_json::Value`; [`value_json`] names what a value of it holds.
#[verifier::external_type_specification]
#[verifier::external_body]
pub struct ExValue(serde_json::Value);

/// Declares `serde_json::Number`; [`number_of`] names the number that it is.
#[verifier::external_type_specification]
#[verifier::external_body]
pub struct ExNumber(serde_json::Number);

/// What a JSON number is: a natural number below two to the 64th, a negative integer, or a
/// number that is kept as a float.
pub enum NumberView {
    Unsigned(u64),
    Negative(i64),
    Float(serde_json::Number),
}

/// What a JSON value is.
pub enum JsonView {
    Null,
    Bool(bool),
    Number(NumberView),
    Str(Seq<char>),
    Array(Seq<JsonView>),
    Object(Map<Seq<char>, JsonView>),
}

/// What a `serde_json::Value` holds.
pub uninterp spec fn value_json(value: serde_json::Value) -> JsonView;

/// Which number a `serde_json::Number` is.
pub uninterp spec fn number_of(number: serde_json::Number) -> NumberView;

/// The value that `serde_json::from_str` reads from a text, if it accepts the text.
pub uninterp spec fn json_parse(text: Seq<char>) -> Option<JsonView>;

/// The text that `serde_json::to_string` prints for a value.
pub uninterp spec fn json_text(value: JsonView) -> Seq<char>;

/// A JSON number.
#[derive(Debug)]
pub enum JsonNumber {
    Unsigned(u64),
    Other(serde_json::Number),
}

impl DeepView for JsonNumber {
    type V = NumberView;

    open spec fn deep_view(&self) -> NumberView {
        match *self {
            JsonNumber::Unsigned(n) => NumberView::Unsigned(n),
            JsonNumber::Other(n) => number_of(n),
        }
    }
}

/// A JSON value. Where a key occurs more than once in an object, its last entry counts.
#[derive(Debug)]
pub enum Json {
    Null,
    Bool(bool),
    Number(JsonNumber),
    Str(String),
    Array(Vec<Json>),
    Object(Vec<(String, Json)>),
}

/// What a [`Json`] value is.
pub open spec fn json_view(value: Json) -> JsonView
    decreases value,
{
    match value {
        Json::Null => JsonView::Null,
        Json::Bool(b) => JsonView::Bool(b),
        Json::Number(n) => JsonView::Number(n.deep_view()),
        Json::Str(s) => JsonView::Str(s@),
        Json::Array(items) => JsonView::Array(items_view(items@)),
        Json::Object(entries) => JsonView::Object(entry_map(entries_view(entries@))),
    }
}

/// The items of a list, each taken as a JSON value.
pub open spec fn items_view(items: Seq<Json>) -> Seq<JsonView>
    decreases items,
{
    if items.len() == 0 {
        Seq::empty()
    } else {
        items_view(items.subrange(0, items.len() - 1)).push(json_view(items[items.len() - 1]))
    }
}

/// The entries of a list, each taken as a key and a JSON value.
pub open spec fn entries_view(entries: Seq<(String, Json)>) -> Seq<(Seq<char>, JsonView)>
    decreases entries,
{
    if entries.len() == 0 {
        Seq::empty()
    } else {
        entries_view(entries.subrange(0, entries.len() - 1)).push(
            (entries[entries.len() - 1].0@, json_view(entries[entries.len() - 1].1)),
        )
    }
}

impl DeepView for Json {
    type V = JsonView;

    open spec fn deep_view(&self) -> JsonView {
        json_view(*self)
    }
}

/// The member of an object under a key.
pub open spec fn member(value: JsonView, key: Seq<char>) -> Option<JsonView> {
    match value {
        JsonView::Object(entries) => if entries.contains_key(key) {
            Some(entries[key])
        } else {
            None
        },
        _ => None,
    }
}

/// The characters of a string.
pub open spec fn str_of(value: JsonView) -> Option<Seq<char>> {
    match value {
        JsonView::Str(s) => Some(s),
        _ => None,
    }
}

/// The items of an array.
pub open spec fn items_of(value: JsonView) -> Option<Seq<JsonView>> {
    match value {
        JsonView::Array(items) => Some(items),
        _ => None,
    }
}

/// The value of a number that is a natural number of 64 bits.
pub open spec fn unsigned_of(value: JsonView) -> Option<u64> {
    match value {
        JsonView::Number(NumberView::Unsigned(n)) => Some(n),
        _ => None,
    }
}

/// Whether a value nests arrays and objects at most `depth` deep and holds no float.
pub open spec fn plain_within(value: JsonView, depth: nat) -> bool
    decreases depth,
{
    match value {
        JsonView::Number(n) => !(n is Float),
        JsonView::Array(items) => depth > 0 && forall|i: int|
            0 <= i < items.len() ==> plain_within(#[trigger] items[i], (depth - 1) as nat),
        JsonView::Object(entries) => depth > 0 && forall|key: Seq<char>|
            entries.contains_key(key) ==> plain_within(#[trigger] entries[key], (depth - 1) as nat),
        _ => true,
    }
}

/// Whether no key occurs twice.
pub open spec fn distinct_keys<T>(entries: Seq<(String, T)>) -> bool {
    forall|i: int, j: int|
        0 <= i < j < entries.len() ==> (#[trigger] entries[i]).0@ != (#[trigger] entries[j]).0@
}

/// One level of a `serde_json::Value`.
enum JsonNode {
    Null,
    Bool(bool),
    Unsigned(u64),
    Number(serde_json::Number),
    Str(String),
    Array(Vec<serde_json::Value>),
    Object(Vec<(String, serde_json::Value)>),
}

/// The entries of a list, each taken as a key and what its value holds.
spec fn value_entries(entries: Seq<(String, serde_json::Value)>) -> Seq<(Seq<char>, JsonView)> {
    entries.map_values(|e: (String, serde_json::Value)| (e.0@, value_json(e.1)))
}

/// What a node is, its children taken as what they hold.
spec fn node_view(node: JsonNode) -> JsonView {
    match node {
        JsonNode::Null => JsonView::Null,
        JsonNode::Bool(b) => JsonView::Bool(b),
        JsonNode::Unsigned(n) => JsonView::Number(NumberView::Unsigned(n)),
        JsonNode::Number(n) => JsonView::Number(number_of(n)),
        JsonNode::Str(s) => JsonView::Str(s@),
        JsonNode::Array(items) => JsonView::Array(
            items@.map_values(|v: serde_json::Value| value_json(v)),
        ),
        JsonNode::Object(entries) => JsonView::Object(entry_map(value_entries(entries@))),
    }
}

/// A node is of the kind that its variant says, and holds what stands in it: an array its items in
/// their order, an object each entry under its key where no key occurs twice.
proof fn law_a_node_is_what_it_holds(node: JsonNode)
    ensures
        match node {
            JsonNode::Null => node_view(node) is Null,
            JsonNode::Bool(b) => node_view(node) == JsonView::Bool(b),
            JsonNode::Unsigned(n) => unsigned_of(node_view(node)) == Some(n),
            JsonNode::Number(n) => node_view(node) == JsonView::Number(number_of(n)),
            JsonNode::Str(s) => node_view(node) == JsonView::Str(s@),
            JsonNode::Array(items) => node_view(node) matches JsonView::Array(all) && all.len()
                == items@.len() && forall|i: int|
                0 <= i < items@.len() ==> #[trigger] all[i] == value_json(items@[i]),
            JsonNode::Object(entries) => node_view(node) is Object && (distinct_keys(entries@)
                ==> forall|i: int|
                0 <= i < entries@.len() ==> member(
                    node_view(node),
                    (#[trigger] entries@[i]).0@,
                ) == Some(value_json(entries@[i].1))),
        },
{
    if let JsonNode::Object(entries) = node {
        let pairs = value_entries(entries@);
        if distinct_keys(entries@) {
            assert forall|i: int| 0 <= i < entries@.len() implies member(
                node_view(node),
                (#[trigger] entries@[i]).0@,
            ) == Some(value_json(entries@[i].1)) by {
                assert(pairs[i] == (entries@[i].0@, value_json(entries@[i].1)));
                assert forall|j: int| i < j < pairs.len() implies (#[trigger] pairs[j]).0
                    != pairs[i].0 by {
                    assert(entries@[i].0@ != entries@[j].0@);
                }
                lemma_entry_map_last(pairs, i);
            }
        }
    }
}

/// Takes a `serde_json::Value` apart by its variants. Claims that the node holds what the value
/// holds, and that no key of an object comes twice.
#[verifier::external_body]
fn open_value(value: serde_json::Value) -> (node: JsonNode)
    ensures
        node_view(node) == value_json(value),
        node matches JsonNode::Object(entries) ==> distinct_keys(entries@),
{
    match value {
        serde_json::Value::Null => JsonNode::Null,
        serde_json::Value::Bool(b) => JsonNode::Bool(b),
        serde_json::Value::Number(n) => JsonNode::Number(n),
        serde_json::Value::String(s) => JsonNode::Str(s),
        serde_json::Value::Array(items) => JsonNode::Array(items),
        serde_json::Value::Object(entries) => JsonNode::Object(entries.into_iter().collect()),
    }
}

/// Makes the `serde_json::Value` of a node, variant by variant. Claims that the value holds what
/// the node holds.
#[verifier::external_body]
fn close_node(node: JsonNode) -> (value: serde_json::Value)
    requires
        node matches JsonNode::Object(entries) ==> distinct_keys(entries@),
    ensures
        value_json(value) == node_view(node),
{
    match node {
        JsonNode::Null => serde_json::Value::Null,
        JsonNode::Bool(b) => serde_json::Value::Bool(b),
        JsonNode::Unsigned(n) => serde_json::Value::from(n),
        JsonNode::Number(n) => serde_json::Value::Number(n),
        JsonNode::Str(s) => serde_json::Value::String(s),
        JsonNode::Array(items) => serde_json::Value::Array(items),
        JsonNode::Object(entries) => serde_json::Value::Object(entries.into_iter().collect()),
    }
}

/// Reads a text with `serde_json::from_str`. What it reads, and whether it accepts the text, is
/// a function of the text, which [`json_parse`] names.
#[verifier::external_body]
fn parse_value(text: &str) -> (value: Option<serde_json::Value>)
    ensures
        value is Some <==> json_parse(text@) is Some,
        value matches Some(v) ==> json_parse(text@) == Some(value_json(v)),
{
    serde_json::from_str(text).ok()
}

/// Prints a value with `serde_json::to_string`, which does not fail on a `Value`. The text is a
/// function of the value, which [`json_text`] names. Claims besides that the text of a value
/// reads back as that value, where the value holds no float and nests no deeper than the parser
/// of `serde_json` follows.
#[verifier::external_body]
fn print_value(value: &serde_json::Value) -> (text: String)
    ensures
        text@ == json_text(value_json(*value)),
        plain_within(value_json(*value), 127) ==> json_parse(text@) == Some(value_json(*value)),
{
    serde_json::to_string(value).unwrap_or_default()
}

/// `serde_json::Number::as_u64` gives a number that is a natural number of 64 bits, and nothing
/// for any other.
pub assume_specification[ serde_json::Number::as_u64 ](number: &serde_json::Number) -> (n: Option<
    u64,
>)
    ensures
        n == unsigned_of(JsonView::Number(number_of(*number))),
;

/// Cloning a `serde_json::Number` gives the same number.
pub assume_specification[ <serde_json::Number as Clone>::clone ](
    number: &serde_json::Number,
) -> (copy: serde_json::Number)
    ensures
        number_of(copy) == number_of(*number),
;

pub proof fn lemma_items_view(items: Seq<Json>)
    ensures
        items_view(items).len() == items.len(),
        forall|i: int| 0 <= i < items.len() ==> #[trigger] items_view(items)[i] == json_view(items[i]),
    decreases items.len(),
{
    if items.len() > 0 {
        lemma_items_view(items.subrange(0, items.len() - 1));
    }
}

pub proof fn lemma_entries_view(entries: Seq<(String, Json)>)
    ensures
        entries_view(entries).len() == entries.len(),
        forall|i: int|
            0 <= i < entries.len() ==> #[trigger] entries_view(entries)[i] == (
                entries[i].0@,
                json_view(entries[i].1),
            ),
    decreases entries.len(),
{
    if entries.len() > 0 {
        lemma_entries_view(entries.subrange(0, entries.len() - 1));
    }
}

/// Turns a `serde_json::Value` into a [`Json`] value.
fn adopt(value: serde_json::Value) -> (json: Json)
    ensures
        json.deep_view() == value_json(value),
    decreases value_json(value),
{
    let ghost whole = value_json(value);
    match open_value(value) {
        JsonNode::Null => Json::Null,
        JsonNode::Bool(b) => Json::Bool(b),
        JsonNode::Unsigned(n) => Json::Number(JsonNumber::Unsigned(n)),
        JsonNode::Number(n) => Json::Number(JsonNumber::Other(n)),
        JsonNode::Str(s) => Json::Str(s),
        JsonNode::Array(items) => {
            let mut out: Vec<Json> = Vec::new();
            let ghost children = items_of(whole)->0;
            for v in it: items
                invariant
                    whole == value_json(value),
                    whole == JsonView::Array(children),
                    it.seq() == items@,
                    children == items@.map_values(|v: serde_json::Value| value_json(v)),
                    out@.len() == it.index(),
                    forall|i: int| 0 <= i < it.index() ==> json_view(#[trigger] out@[i]) == children[i],
            {
                assert(value_json(v) == children[it.index()]);
                assert(decreases_to!(whole => whole->Array_0));
                assert(decreases_to!(children => children[it.index()]));
                out.push(adopt(v));
            }
            proof {
                lemma_items_view(out@);
                assert(items_view(out@) =~= children);
            }
            Json::Array(out)
        },
        JsonNode::Object(entries) => {
            let mut out: Vec<(String, Json)> = Vec::new();
            let ghost pairs = value_entries(entries@);
            let ghost children = entry_map(pairs);
            proof {
                lemma_entry_map_keys(pairs);
            }
            for entry in it: entries
                invariant
                    whole == value_json(value),
                    whole == JsonView::Object(children),
                    it.seq() == entries@,
                    distinct_keys(entries@),
                    pairs == value_entries(entries@),
                    children == entry_map(pairs),
                    children.dom().finite(),
                    out@.len() == it.index(),
                    forall|i: int|
                        0 <= i < it.index() ==> ((#[trigger] out@[i]).0@, json_view(out@[i].1))
                            == pairs[i],
            {
                let ghost at = it.index();
                proof {
                    assert(pairs[at] == (entry.0@, value_json(entry.1)));
                    assert forall|j: int| at < j < pairs.len() implies (#[trigger] pairs[j]).0
                        != pairs[at].0 by {
                        assert(entries@[at].0@ != entries@[j].0@);
                    }
                    lemma_entry_map_last(pairs, at);
                    assert(decreases_to!(whole => whole->Object_0));
                    assert(decreases_to!(children => children[entry.0@]));
                }
                let child = adopt(entry.1);
                out.push((entry.0, child));
            }
            proof {
                lemma_entries_view(out@);
                assert(entries_view(out@) =~= pairs);
            }
            Json::Object(out)
        },
    }
}

/// Finds the entry of a key.
fn find_key(entries: &Vec<(String, serde_json::Value)>, key: &String) -> (found: Option<usize>)
    ensures
        match found {
            Some(i) => i < entries@.len() && entries@[i as int].0@ == key@,
            None => forall|i: int| 0 <= i < entries@.len() ==> (#[trigger] entries@[i]).0@ != key@,
        },
{
    for i in 0..entries.len()
        invariant
            forall|j: int| 0 <= j < i ==> (#[trigger] entries@[j]).0@ != key@,
    {
        if entries[i].0 == *key {
            return Some(i);
        }
    }
    None
}

/// Turns a [`Json`] value into a `serde_json::Value`.
fn release(json: &Json) -> (value: serde_json::Value)
    ensures
        value_json(value) == json.deep_view(),
    decreases *json,
{
    match json {
        Json::Null => close_node(JsonNode::Null),
        Json::Bool(b) => close_node(JsonNode::Bool(*b)),
        Json::Number(JsonNumber::Unsigned(n)) => close_node(JsonNode::Unsigned(*n)),
        Json::Number(JsonNumber::Other(n)) => close_node(JsonNode::Number(n.clone())),
        Json::Str(s) => close_node(JsonNode::Str(s.clone())),
        Json::Array(items) => {
            let mut out: Vec<serde_json::Value> = Vec::new();
            for i in 0..items.len()
                invariant
                    *json == Json::Array(*items),
                    out@.len() == i,
                    forall|j: int|
                        0 <= j < i ==> value_json(#[trigger] out@[j]) == json_view(items@[j]),
            {
                assert(decreases_to!(*json => json->Array_0));
                assert(decreases_to!(*items => items@));
                out.push(release(&items[i]));
            }
            proof {
                lemma_items_view(items@);
                assert(out@.map_values(|v: serde_json::Value| value_json(v)) =~= items_view(items@));
            }
            close_node(JsonNode::Array(out))
        },
        Json::Object(entries) => {
            let mut out: Vec<(String, serde_json::Value)> = Vec::new();
            let ghost pairs = entries_view(entries@);
            proof {
                lemma_entries_view(entries@);
                assert(value_entries(out@) =~= pairs.take(0));
            }
            for i in 0..entries.len()
                invariant
                    *json == Json::Object(*entries),
                    pairs == entries_view(entries@),
                    pairs.len() == entries@.len(),
                    forall|j: int|
                        0 <= j < entries@.len() ==> #[trigger] pairs[j] == (
                            entries@[j].0@,
                            json_view(entries@[j].1),
                        ),
                    distinct_keys(out@),
                    entry_map(value_entries(out@)) == entry_map(pairs.take(i as int)),
            {
                assert(decreases_to!(*json => json->Object_0));
                assert(decreases_to!(*entries => entries@));
                assert(decreases_to!(entries@ => entries@[i as int]));
                let child = release(&entries[i].1);
                let key = entries[i].0.clone();
                let ghost before = out@;
                let ghost added = (key@, value_json(child));
                assert(pairs.take(i + 1).drop_last() =~= pairs.take(i as int));
                assert(pairs.take(i + 1).last() == added);
                match find_key(&out, &key) {
                    Some(at) => {
                        out.set(at, (key, child));
                        proof {
                            lemma_entry_map_replace(
                                value_entries(before),
                                at as int,
                                added.0,
                                added.1,
                            );
                            assert(value_entries(out@) =~= value_entries(before).update(
                                at as int,
                                added,
                            ));
                        }
                    },
                    None => {
                        out.push((key, child));
                        proof {
                            assert(value_entries(out@).drop_last() =~= value_entries(before));
                        }
                    },
                }
            }
            assert(pairs.take(entries@.len() as int) =~= pairs);
            close_node(JsonNode::Object(out))
        },
    }
}

fn copy_json(json: &Json) -> (copy: Json)
    ensures
        copy.deep_view() == json.deep_view(),
    decreases *json,
{
    match json {
        Json::Null => Json::Null,
        Json::Bool(b) => Json::Bool(*b),
        Json::Number(JsonNumber::Unsigned(n)) => Json::Number(JsonNumber::Unsigned(*n)),
        Json::Number(JsonNumber::Other(n)) => Json::Number(JsonNumber::Other(n.clone())),
        Json::Str(s) => Json::Str(s.clone()),
        Json::Array(items) => {
            let mut out: Vec<Json> = Vec::new();
            for i in 0..items.len()
                invariant
                    *json == Json::Array(*items),
                    out@.len() == i,
                    forall|j: int|
                        0 <= j < i ==> json_view(#[trigger] out@[j]) == json_view(items@[j]),
            {
                assert(decreases_to!(*json => json->Array_0));
                assert(decreases_to!(*items => items@));
                out.push(copy_json(&items[i]));
            }
            proof {
                lemma_items_view(items@);
                lemma_items_view(out@);
                assert(items_view(out@) =~= items_view(items@));
            }
            Json::Array(out)
        },
        Json::Object(entries) => {
            let mut out: Vec<(String, Json)> = Vec::new();
            for i in 0..entries.len()
                invariant
                    *json == Json::Object(*entries),
                    out@.len() == i,
                    forall|j: int|
                        0 <= j < i ==> (#[trigger] out@[j]).0@ == entries@[j].0@ && json_view(
                            out@[j].1,
                        ) == json_view(entries@[j].1),
            {
                assert(decreases_to!(*json => json->Object_0));
                assert(decreases_to!(*entries => entries@));
                assert(decreases_to!(entries@ => entries@[i as int]));
                out.push((entries[i].0.clone(), copy_json(&entries[i].1)));
            }
            proof {
                lemma_entries_view(entries@);
                lemma_entries_view(out@);
                assert(entries_view(out@) =~= entries_view(entries@));
            }
            Json::Object(out)
        },
    }
}

impl Clone for Json {
    fn clone(&self) -> (copy: Self)
        ensures
            copy.deep_view() == self.deep_view(),
    {
        copy_json(self)
    }
}

impl Json {
    /// Reads a text as one JSON value.
    pub fn parse(text: &str) -> (json: Option<Json>)
        ensures
            json.deep_view() == json_parse(text@),
    {
        match parse_value(text) {
            Some(value) => Some(adopt(value)),
            None => None,
        }
    }

    /// Prints the value without spaces, an object's members in the order of their keys.
    pub fn to_text(&self) -> (text: String)
        ensures
            text@ == json_text(self.deep_view()),
            plain_within(self.deep_view(), 127) ==> json_parse(text@) == Some(self.deep_view()),
    {
        print_value(&release(self))
    }

    /// The member of an object under a key.
    pub fn get(&self, key: &str) -> (value: Option<&Json>)
        ensures
            value.deep_view() == member(self.deep_view(), key@),
    {
        match self {
            Json::Object(entries) => {
                proof {
                    lemma_entries_view(entries@);
                    lemma_entry_map_keys(entries_view(entries@));
                }
                let wanted = key.to_owned();
                let mut i: usize = entries.len();
                while i > 0
                    invariant
                        *self == Json::Object(*entries),
                        wanted@ == key@,
                        i <= entries@.len(),
                        forall|j: int| i <= j < entries@.len() ==> (#[trigger] entries@[j]).0@ != key@,
                    decreases i,
                {
                    i = i - 1;
                    if entries[i].0 == wanted {
                        proof {
                            let pairs = entries_view(entries@);
                            lemma_entries_view(entries@);
                            assert forall|j: int| i < j < pairs.len() implies (#[trigger] pairs[j]).0
                                != pairs[i as int].0 by {
                                assert(entries@[j].0@ != key@);
                            }
                            lemma_entry_map_last(pairs, i as int);
                        }
                        return Some(&entries[i].1);
                    }
                }
                None
            },
            _ => None,
        }
    }

    /// The text of a string.
    pub fn as_str(&self) -> (text: Option<&str>)
        ensures
            text.deep_view() == str_of(self.deep_view()),
    {
        match self {
            Json::Str(s) => Some(s.as_str()),
            _ => None,
        }
    }

    /// The items of an array.
    pub fn as_array(&self) -> (items: Option<&Vec<Json>>)
        ensures
            items.deep_view() == items_of(self.deep_view()),
    {
        match self {
            Json::Array(items) => {
                proof {
                    lemma_items_view(items@);
                    assert(items.deep_view() =~= items_view(items@));
                }
                Some(items)
            },
            _ => None,
        }
    }

    /// The value of a natural number of 64 bits.
    pub fn as_u64(&self) -> (n: Option<u64>)
        ensures
            n == unsigned_of(self.deep_view()),
    {
        match self {
            Json::Number(JsonNumber::Unsigned(n)) => Some(*n),
            Json::Number(JsonNumber::Other(n)) => n.as_u64(),
            _ => None,
        }
    }
}

/// The members of an object that is being made or changed.
#[derive(Debug)]
pub struct JsonObject {
    pub entries: Vec<(String, Json)>,
}

impl DeepView for JsonObject {
    type V = Map<Seq<char>, JsonView>;

    open spec fn deep_view(&self) -> Map<Seq<char>, JsonView> {
        entry_map(entries_view(self.entries@))
    }
}

impl JsonObject {
    /// An object without members.
    pub fn new() -> (object: Self)
        ensures
            object.deep_view() == Map::<Seq<char>, JsonView>::empty(),
    {
        JsonObject { entries: Vec::new() }
    }

    fn push(&mut self, key: String, value: Json)
        ensures
            final(self).deep_view() == old(self).deep_view().insert(key@, value.deep_view()),
    {
        self.entries.push((key, value));
        proof {
            let before = old(self).entries@;
            let after = self.entries@;
            assert(after.subrange(0, after.len() - 1) =~= before);
            assert(entries_view(after).drop_last() =~= entries_view(before));
        }
    }

    /// Sets a member.
    pub fn insert(&mut self, key: &str, value: Json)
        ensures
            final(self).deep_view() == old(self).deep_view().insert(key@, value.deep_view()),
    {
        self.push(key.to_owned(), value);
    }

    /// Takes a member out.
    pub fn remove(&mut self, key: &str) -> (value: Option<Json>)
        ensures
            final(self).deep_view() == old(self).deep_view().remove(key@),
            value.deep_view() == member(JsonView::Object(old(self).deep_view()), key@),
    {
        let unwanted = key.to_owned();
        let mut entries: Vec<(String, Json)> = Vec::new();
        std::mem::swap(&mut entries, &mut self.entries);
        let ghost pairs = entries_view(entries@);
        proof {
            lemma_entries_view(entries@);
            assert(entry_map(pairs.take(0)).remove(key@) =~= Map::empty());
        }
        let mut found: Option<Json> = None;
        for entry in it: entries
            invariant
                it.seq() == entries@,
                unwanted@ == key@,
                pairs == entries_view(entries@),
                pairs.len() == entries@.len(),
                forall|j: int|
                    0 <= j < entries@.len() ==> #[trigger] pairs[j] == (
                        entries@[j].0@,
                        json_view(entries@[j].1),
                    ),
                self.deep_view() == entry_map(pairs.take(it.index())).remove(key@),
                found.deep_view() == member(
                    JsonView::Object(entry_map(pairs.take(it.index()))),
                    key@,
                ),
        {
            let ghost at = it.index();
            assert(pairs.take(at + 1).drop_last() =~= pairs.take(at));
            assert(pairs.take(at + 1).last() == pairs[at]);
            if entry.0 == unwanted {
                found = Some(entry.1);
            } else {
                self.push(entry.0, entry.1);
            }
            assert(self.deep_view() =~= entry_map(pairs.take(at + 1)).remove(key@));
        }
        assert(pairs.take(pairs.len() as int) =~= pairs);
        found
    }

    /// The object as a value.
    pub fn into_json(self) -> (json: Json)
        ensures
            json.deep_view() == JsonView::Object(self.deep_view()),
    {
        Json::Object(self.entries)
    }
}

/// The array of some values.
pub fn json_array(items: Vec<Json>) -> (json: Json)
    ensures
        json.deep_view() == JsonView::Array(items.deep_view()),
{
    proof {
        lemma_items_view(items@);
        assert(items_view(items@) =~= items.deep_view());
    }
    Json::Array(items)
}

/// The string of a text.
pub fn json_str(text: &str) -> (json: Json)
    ensures
        json.deep_view() == JsonView::Str(text@),
{
    Json::Str(text.to_owned())
}

} // verus!
