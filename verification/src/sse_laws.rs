//! What holds of single events of a stream.

use vstd::prelude::*;

use crate::cost::OpenAiUsage;
use crate::json::{json_parse, member, JsonView, NumberView};
use crate::sse::{
    chunk_event, data_lines, payload_event, sse_event, sse_payload, usage_of, SseEventView,
};
use crate::text::{join_lines, lines};

verus! {

/// Data lines are taken one by one: a line that begins with the prefix carries what follows it,
/// every character of it; any other line carries nothing.
pub proof fn law_lines_carry_data(first: Seq<Seq<char>>, second: Seq<Seq<char>>, rest: Seq<char>)
    ensures
        data_lines(first + second) == data_lines(first) + data_lines(second),
        data_lines(seq!["data: "@ + rest]) == seq![rest],
        first.len() == 1 && !"data: "@.is_prefix_of(first[0]) ==> data_lines(first).len() == 0,
        first.len() == 0 ==> data_lines(first).len() == 0,
    decreases second.len(),
{
    reveal_with_fuel(data_lines, 2);
    let line = "data: "@ + rest;
    assert(seq![line].drop_last() =~= Seq::<Seq<char>>::empty());
    assert(line.subrange(0, "data: "@.len() as int) =~= "data: "@);
    assert(line.skip("data: "@.len() as int) =~= rest);
    assert(data_lines(seq![line]) =~= seq![rest]);
    if first.len() == 1 {
        assert(first.drop_last() =~= Seq::<Seq<char>>::empty());
    }
    if second.len() == 0 {
        assert(first + second =~= first);
        assert(data_lines(first) + data_lines(second) =~= data_lines(first));
    } else {
        law_lines_carry_data(first, second.drop_last(), rest);
        assert((first + second).drop_last() =~= first + second.drop_last());
        assert((first + second).last() == second.last());
        assert(data_lines(first + second) =~= data_lines(first) + data_lines(second));
    }
}

/// The payload of an event is its data, a line feed between each two lines of it. An event without
/// data says nothing, `[DONE]` tells the end, and anything else says what its JSON value says, and
/// nothing if it is none.
pub proof fn law_what_an_event_says(raw: Seq<char>)
    ensures
        sse_payload(raw) == join_lines(data_lines(lines(raw))),
        sse_payload(raw).len() == 0 ==> sse_event(raw) is None,
        sse_payload(raw) == "[DONE]"@ ==> sse_event(raw) == Some(SseEventView::Done),
        sse_payload(raw).len() > 0 && sse_payload(raw) != "[DONE]"@ ==> match json_parse(
            sse_payload(raw),
        ) {
            Some(chunk) => sse_event(raw) == chunk_event(chunk) && !(sse_event(raw) matches Some(
                SseEventView::Done,
            )),
            None => sse_event(raw) is None,
        },
{
    reveal_strlit("[DONE]");
}

/// What a payload says follows from what it reads as, given that.
pub proof fn law_what_a_payload_says(payload: Seq<char>, parsed: Option<JsonView>)
    ensures
        payload.len() == 0 ==> payload_event(payload, parsed) is None,
        payload == "[DONE]"@ ==> payload_event(payload, parsed) == Some(SseEventView::Done),
        payload.len() > 0 && payload != "[DONE]"@ ==> match parsed {
            Some(chunk) => payload_event(payload, parsed) == chunk_event(chunk),
            None => payload_event(payload, parsed) is None,
        },
{
    reveal_strlit("[DONE]");
}

/// Whether an object counts `n` under a key, a missing count being zero.
pub open spec fn counts(members: Map<Seq<char>, JsonView>, key: Seq<char>, n: u64) -> bool {
    if members.contains_key(key) {
        members[key] == JsonView::Number(NumberView::Unsigned(n))
    } else {
        n == 0
    }
}

/// An object is a usage if each of its counts is a natural number or missing, and its details,
/// unless they are missing or null, are again such an object or a short array. The usage has
/// exactly these counts.
pub proof fn law_a_usage_is_read_count_by_count(
    members: Map<Seq<char>, JsonView>,
    usage: OpenAiUsage,
)
    ensures
        usage_of(JsonView::Object(members)) == Some(usage) <==> {
            &&& counts(members, "prompt_tokens"@, usage.prompt_tokens)
            &&& counts(members, "completion_tokens"@, usage.completion_tokens)
            &&& match usage.prompt_tokens_details {
                None => !members.contains_key("prompt_tokens_details"@)
                    || members["prompt_tokens_details"@] is Null,
                Some(d) => members.contains_key("prompt_tokens_details"@)
                    && match members["prompt_tokens_details"@] {
                    JsonView::Object(inner) => counts(inner, "cached_tokens"@, d.cached_tokens)
                        && counts(inner, "cache_write_tokens"@, d.cache_write_tokens),
                    JsonView::Array(items) => items.len() <= 2 && counts_at(
                        items,
                        0,
                        d.cached_tokens,
                    ) && counts_at(items, 1, d.cache_write_tokens),
                    _ => false,
                },
            }
        },
{
}

/// Whether an array counts `n` at a place, a missing count being zero.
pub open spec fn counts_at(items: Seq<JsonView>, at: int, n: u64) -> bool {
    if at < items.len() {
        items[at] == JsonView::Number(NumberView::Unsigned(n))
    } else {
        n == 0
    }
}

/// An array of at most three items is a usage whose counts it lists in order, its details last. No
/// other value but an object is a usage.
pub proof fn law_a_usage_is_read_from_a_list(value: JsonView, usage: OpenAiUsage)
    ensures
        value matches JsonView::Array(items) ==> (usage_of(value) == Some(usage) <==> {
            &&& items.len() <= 3
            &&& counts_at(items, 0, usage.prompt_tokens)
            &&& counts_at(items, 1, usage.completion_tokens)
            &&& match usage.prompt_tokens_details {
                None => items.len() < 3 || items[2] is Null,
                Some(d) => items.len() == 3 && match items[2] {
                    JsonView::Object(inner) => counts(inner, "cached_tokens"@, d.cached_tokens)
                        && counts(inner, "cache_write_tokens"@, d.cache_write_tokens),
                    JsonView::Array(pair) => pair.len() <= 2 && counts_at(pair, 0, d.cached_tokens)
                        && counts_at(pair, 1, d.cache_write_tokens),
                    _ => false,
                },
            }
        }),
        !(value is Array) && !(value is Object) ==> usage_of(value) is None,
{
}

/// Whether the delta of the first choice of a chunk is a value.
pub open spec fn has_delta(chunk: JsonView, delta: JsonView) -> bool {
    member(chunk, "choices"@) matches Some(JsonView::Array(choices)) && choices.len() > 0 && member(
        choices[0],
        "delta"@,
    ) == Some(delta)
}

/// Whether a chunk reports a usage that can be read.
pub open spec fn has_usage(chunk: JsonView) -> bool {
    member(chunk, "usage"@) matches Some(value) && usage_of(value) is Some
}

/// A chunk that reports a usage says that usage and nothing else.
pub proof fn law_a_usage_is_told(chunk: JsonView, value: JsonView, usage: OpenAiUsage)
    requires
        member(chunk, "usage"@) == Some(value),
        usage_of(value) == Some(usage),
    ensures
        chunk_event(chunk) == Some(SseEventView::Usage(usage)),
{
}

/// Content of a delta is told character for character, unless the chunk reports a usage or the
/// content is empty.
pub proof fn law_content_is_told_as_it_is(chunk: JsonView, delta: JsonView, text: Seq<char>)
    requires
        !has_usage(chunk),
        has_delta(chunk, delta),
        member(delta, "content"@) == Some(JsonView::Str(text)),
        text.len() > 0,
    ensures
        chunk_event(chunk) == Some(SseEventView::DeltaContent(text)),
{
}

/// Without content the first fragment of a tool call is told; its place is its index, the first
/// where it has none.
pub proof fn law_a_fragment_is_told_as_it_is(
    chunk: JsonView,
    delta: JsonView,
    calls: Seq<JsonView>,
)
    requires
        !has_usage(chunk),
        has_delta(chunk, delta),
        !(member(delta, "content"@) matches Some(JsonView::Str(text)) && text.len() > 0),
        member(delta, "tool_calls"@) == Some(JsonView::Array(calls)),
    ensures
        calls.len() == 0 ==> chunk_event(chunk) is None,
        calls.len() > 0 ==> (chunk_event(chunk) matches Some(
            SseEventView::DeltaTool { index, id, name, arguments },
        ) && {
            &&& index == (match member(calls[0], "index"@) {
                Some(JsonView::Number(NumberView::Unsigned(n))) => n,
                _ => 0u64,
            }) as usize
            &&& match member(calls[0], "id"@) {
                Some(JsonView::Str(text)) => id == Some(text),
                _ => id is None,
            }
            &&& match member(calls[0], "function"@) {
                Some(function) => {
                    &&& match member(function, "name"@) {
                        Some(JsonView::Str(text)) => name == Some(text),
                        _ => name is None,
                    }
                    &&& match member(function, "arguments"@) {
                        Some(JsonView::Str(text)) => arguments == Some(text),
                        _ => arguments is None,
                    }
                },
                None => name is None && arguments is None,
            }
        }),
{
}

/// A chunk says nothing without a usage, without a delta, or where its delta has neither content
/// nor calls; a reason for which the model finished says nothing either.
pub proof fn law_what_says_nothing(chunk: JsonView)
    ensures
        !has_usage(chunk) && (forall|delta: JsonView| !has_delta(chunk, delta)) ==> chunk_event(
            chunk,
        ) is None,
        forall|delta: JsonView|
            !has_usage(chunk) && #[trigger] has_delta(chunk, delta) && !(member(delta, "content"@) matches Some(
                JsonView::Str(text),
            ) && text.len() > 0) && !(member(delta, "tool_calls"@) is Some && member(
                delta,
                "tool_calls"@,
            )->0 is Array) ==> chunk_event(chunk) is None,
        chunk_event(chunk) != Some(SseEventView::Done),
{
    if !has_usage(chunk) && chunk_event(chunk) is Some {
        let choices = member(chunk, "choices"@)->0->Array_0;
        let delta = member(choices[0], "delta"@)->0;
        assert(has_delta(chunk, delta));
    }
}

} // verus!
