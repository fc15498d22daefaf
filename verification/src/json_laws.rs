//! What holds of JSON values.

use vstd::prelude::*;

use crate::entries::{lemma_entry_map_keys, lemma_entry_map_last};
use crate::json::{
    entries_view, items_of, json_parse, lemma_entries_view, lemma_items_view, member, number_of, plain_within,
    str_of, unsigned_of, Json, JsonNumber, JsonView, NumberView,
};
use crate::tools::{arguments_from, arguments_of};

verus! {

/// What is set under a key is the member under it, what is taken out is not, and neither touches
/// the member under another key. A value that is no object has no members.
pub proof fn law_members_are_what_was_set(
    members: Map<Seq<char>, JsonView>,
    key: Seq<char>,
    value: JsonView,
    other: Seq<char>,
)
    ensures
        member(JsonView::Object(members.insert(key, value)), key) == Some(value),
        member(JsonView::Object(members.remove(key)), key) is None,
        other != key ==> member(JsonView::Object(members.insert(key, value)), other) == member(
            JsonView::Object(members),
            other,
        ),
        other != key ==> member(JsonView::Object(members.remove(key)), other) == member(
            JsonView::Object(members),
            other,
        ),
        member(JsonView::Object(members), key) matches Some(v) ==> members.contains_pair(key, v),
        members.contains_key(key) ==> member(JsonView::Object(members), key) is Some,
        !(value is Object) ==> member(value, key) is None,
{
}

/// A value gives its text only if it is a string, its items only if it is an array, and its number
/// only if it is a natural number; each is given as it is.
pub proof fn law_values_give_what_they_hold(value: JsonView)
    ensures
        match str_of(value) {
            Some(text) => value == JsonView::Str(text),
            None => !(value is Str),
        },
        match items_of(value) {
            Some(items) => value == JsonView::Array(items),
            None => !(value is Array),
        },
        match unsigned_of(value) {
            Some(n) => value == JsonView::Number(NumberView::Unsigned(n)),
            None => !(value matches JsonView::Number(NumberView::Unsigned(_))),
        },
{
}

/// A value of the library is what it holds: an array its items in their order, an object its
/// entries, of which the last one of a key counts.
pub proof fn law_a_value_is_what_it_holds(json: Json)
    ensures
        match json {
            Json::Null => json.deep_view() is Null,
            Json::Bool(b) => json.deep_view() == JsonView::Bool(b),
            Json::Number(JsonNumber::Unsigned(n)) => json.deep_view() == JsonView::Number(
                NumberView::Unsigned(n),
            ),
            Json::Number(JsonNumber::Other(n)) => json.deep_view() == JsonView::Number(
                number_of(n),
            ),
            Json::Str(s) => json.deep_view() == JsonView::Str(s@),
            Json::Array(items) => json.deep_view() matches JsonView::Array(all) && all.len()
                == items@.len() && forall|i: int|
                0 <= i < items@.len() ==> #[trigger] all[i] == items@[i].deep_view(),
            Json::Object(entries) => json.deep_view() matches JsonView::Object(members) && (
            forall|key: Seq<char>| #[trigger]
                members.contains_key(key) ==> exists|i: int|
                    0 <= i < entries@.len() && (#[trigger] entries@[i]).0@ == key) && (forall|i: int|
                #![trigger entries@[i]]
                0 <= i < entries@.len() && (forall|j: int|
                    i < j < entries@.len() ==> (#[trigger] entries@[j]).0@ != entries@[i].0@)
                    ==> members.contains_pair(entries@[i].0@, entries@[i].1.deep_view())),
        },
{
    match json {
        Json::Array(items) => {
            lemma_items_view(items@);
        },
        Json::Object(entries) => {
            let pairs = entries_view(entries@);
            lemma_entries_view(entries@);
            lemma_entry_map_keys(pairs);
            let members = json.deep_view()->Object_0;
            assert forall|key: Seq<char>| #[trigger] members.contains_key(key) implies exists|i: int|
                0 <= i < entries@.len() && (#[trigger] entries@[i]).0@ == key by {
                let i = choose|i: int| 0 <= i < pairs.len() && (#[trigger] pairs[i]).0 == key;
                assert(entries@[i].0@ == key);
            }
            assert forall|i: int|
                #![trigger entries@[i]]
                0 <= i < entries@.len() && (forall|j: int|
                    i < j < entries@.len() ==> (#[trigger] entries@[j]).0@
                        != entries@[i].0@) implies members.contains_pair(
                entries@[i].0@,
                entries@[i].1.deep_view(),
            ) by {
                assert(pairs[i] == (entries@[i].0@, entries@[i].1.deep_view()));
                assert forall|j: int| i < j < pairs.len() implies (#[trigger] pairs[j]).0
                    != pairs[i].0 by {
                    assert(entries@[j].0@ != entries@[i].0@);
                }
                lemma_entry_map_last(pairs, i);
            }
        },
        _ => {},
    }
}

/// A value without floats is plain to a depth that its nesting does not exceed: scalars at any,
/// arrays and objects one deeper than what they hold.
pub proof fn law_plain_values(value: JsonView, depth: nat)
    ensures
        plain_within(value, depth + 1) == (match value {
            JsonView::Array(items) => forall|i: int|
                0 <= i < items.len() ==> plain_within(#[trigger] items[i], depth),
            JsonView::Object(members) => forall|key: Seq<char>|
                members.contains_key(key) ==> plain_within(#[trigger] members[key], depth),
            JsonView::Number(NumberView::Float(_)) => false,
            _ => true,
        }),
        plain_within(value, 0) == (match value {
            JsonView::Array(_) | JsonView::Object(_) | JsonView::Number(NumberView::Float(_)) => false,
            _ => true,
        }),
{
    reveal_with_fuel(plain_within, 2);
    let here = (depth + 1) as nat;
    assert((here - 1) as nat == depth);
    match value {
        JsonView::Array(items) => {
            if plain_within(value, here) {
                assert forall|i: int| 0 <= i < items.len() implies plain_within(
                    #[trigger] items[i],
                    depth,
                ) by {
                    assert(plain_within(items[i], (here - 1) as nat));
                }
            }
        },
        JsonView::Object(members) => {
            if plain_within(value, here) {
                assert forall|key: Seq<char>| members.contains_key(key) implies plain_within(
                    #[trigger] members[key],
                    depth,
                ) by {
                    assert(plain_within(members[key], (here - 1) as nat));
                }
            }
        },
        _ => {},
    }
}

/// The arguments that a text gives are the value that it reads as, and a text that does not read
/// as a value is given as it is.
pub proof fn law_arguments_are_read_or_kept(text: Seq<char>, parsed: Option<JsonView>)
    ensures
        parsed matches Some(value) ==> arguments_from(text, parsed) == value,
        parsed is None ==> arguments_from(text, parsed) == JsonView::Str(text),
        match json_parse(text) {
            Some(value) => arguments_of(text) == value,
            None => arguments_of(text) == JsonView::Str(text),
        },
{
}

} // verus!
