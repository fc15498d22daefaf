//! Server-sent events: what one event of a streamed completion says.

use vstd::prelude::*;

use crate::cost::{OpenAiPromptTokenDetails, OpenAiUsage};
use crate::json::{json_parse, member, str_of, unsigned_of, Json, JsonView};
use crate::text::{after_prefix, join, join_lines, lines, split_lines};

verus! {

/// What one event says.
#[derive(Debug)]
pub enum SseEvent {
    DeltaContent(String),
    DeltaTool {
        index: usize,
        id: Option<String>,
        name: Option<String>,
        arguments: Option<String>,
    },
    Usage(OpenAiUsage),
    Done,
}

pub enum SseEventView {
    DeltaContent(Seq<char>),
    DeltaTool {
        index: usize,
        id: Option<Seq<char>>,
        name: Option<Seq<char>>,
        arguments: Option<Seq<char>>,
    },
    Usage(OpenAiUsage),
    Done,
}

impl DeepView for SseEvent {
    type V = SseEventView;

    open spec fn deep_view(&self) -> SseEventView {
        match *self {
            SseEvent::DeltaContent(text) => SseEventView::DeltaContent(text@),
            SseEvent::DeltaTool { index, id, name, arguments } => SseEventView::DeltaTool {
                index,
                id: id.deep_view(),
                name: name.deep_view(),
                arguments: arguments.deep_view(),
            },
            SseEvent::Usage(usage) => SseEventView::Usage(usage),
            SseEvent::Done => SseEventView::Done,
        }
    }
}

/// A field of a record: a record is an object, or an array of its fields in order.
pub open spec fn field(record: JsonView, name: Seq<char>, at: nat) -> Option<JsonView> {
    match record {
        JsonView::Object(_) => member(record, name),
        JsonView::Array(items) => if at < items.len() {
            Some(items[at as int])
        } else {
            None
        },
        _ => None,
    }
}

/// Whether a value can be a record of `n` fields.
pub open spec fn is_record(value: JsonView, n: nat) -> bool {
    match value {
        JsonView::Object(_) => true,
        JsonView::Array(items) => items.len() <= n,
        _ => false,
    }
}

/// A count in a record: zero where the field is missing.
pub open spec fn count_of(value: Option<JsonView>) -> Option<u64> {
    match value {
        Some(v) => unsigned_of(v),
        None => Some(0),
    }
}

/// The token details that a value is a record of.
pub open spec fn details_of(value: JsonView) -> Option<OpenAiPromptTokenDetails> {
    let cached = count_of(field(value, "cached_tokens"@, 0));
    let written = count_of(field(value, "cache_write_tokens"@, 1));
    if is_record(value, 2) && cached is Some && written is Some {
        Some(
            OpenAiPromptTokenDetails { cached_tokens: cached->0, cache_write_tokens: written->0 },
        )
    } else {
        None
    }
}

/// The usage that a value is a record of. Details that are missing or null are left out; any other
/// field that is not what it should be spoils the record.
pub open spec fn usage_of(value: JsonView) -> Option<OpenAiUsage> {
    let prompt = count_of(field(value, "prompt_tokens"@, 0));
    let completion = count_of(field(value, "completion_tokens"@, 1));
    if is_record(value, 3) && prompt is Some && completion is Some {
        match field(value, "prompt_tokens_details"@, 2) {
            None | Some(JsonView::Null) => Some(
                OpenAiUsage {
                    prompt_tokens: prompt->0,
                    completion_tokens: completion->0,
                    prompt_tokens_details: None,
                },
            ),
            Some(details) => match details_of(details) {
                Some(d) => Some(
                    OpenAiUsage {
                        prompt_tokens: prompt->0,
                        completion_tokens: completion->0,
                        prompt_tokens_details: Some(d),
                    },
                ),
                None => None,
            },
        }
    } else {
        None
    }
}

/// The string under a key.
pub open spec fn str_member(value: JsonView, key: Seq<char>) -> Option<Seq<char>> {
    match member(value, key) {
        Some(v) => str_of(v),
        None => None,
    }
}

/// The first item of an array under a key.
pub open spec fn first_member(value: JsonView, key: Seq<char>) -> Option<JsonView> {
    match member(value, key) {
        Some(JsonView::Array(items)) => if items.len() > 0 {
            Some(items[0])
        } else {
            None
        },
        _ => None,
    }
}

/// What a fragment of a tool call says. A fragment without an index belongs to the first call.
pub open spec fn tool_delta(call: JsonView) -> SseEventView {
    let index: u64 = match member(call, "index"@) {
        Some(v) => match unsigned_of(v) {
            Some(n) => n,
            None => 0,
        },
        None => 0,
    };
    SseEventView::DeltaTool {
        index: index as usize,
        id: str_member(call, "id"@),
        name: match member(call, "function"@) {
            Some(function) => str_member(function, "name"@),
            None => None,
        },
        arguments: match member(call, "function"@) {
            Some(function) => str_member(function, "arguments"@),
            None => None,
        },
    }
}

/// What a delta says: content where it has some, or else the first fragment of a tool call.
pub open spec fn delta_event(delta: JsonView) -> Option<SseEventView> {
    match str_member(delta, "content"@) {
        Some(text) if text.len() > 0 => Some(SseEventView::DeltaContent(text)),
        _ => match first_member(delta, "tool_calls"@) {
            Some(call) => Some(tool_delta(call)),
            None => None,
        },
    }
}

/// What a chunk says: its usage where it has one, or else the delta of its first choice.
pub open spec fn chunk_event(chunk: JsonView) -> Option<SseEventView> {
    match usage_member(chunk) {
        Some(usage) => Some(SseEventView::Usage(usage)),
        None => match first_member(chunk, "choices"@) {
            Some(choice) => match member(choice, "delta"@) {
                Some(delta) => delta_event(delta),
                None => None,
            },
            None => None,
        },
    }
}

/// The usage of a chunk.
pub open spec fn usage_member(chunk: JsonView) -> Option<OpenAiUsage> {
    match member(chunk, "usage"@) {
        Some(value) => usage_of(value),
        None => None,
    }
}

/// The data of lines that begin with the data prefix; other lines, comments among them, carry
/// none.
pub open spec fn data_lines(all: Seq<Seq<char>>) -> Seq<Seq<char>>
    decreases all.len(),
{
    if all.len() == 0 {
        Seq::empty()
    } else if "data: "@.is_prefix_of(all.last()) {
        data_lines(all.drop_last()).push(all.last().skip("data: "@.len() as int))
    } else {
        data_lines(all.drop_last())
    }
}

/// The payload of an event: its data lines joined.
pub open spec fn sse_payload(raw: Seq<char>) -> Seq<char> {
    join_lines(data_lines(lines(raw)))
}

/// What a payload says, once it is known what it reads as.
pub open spec fn payload_event(payload: Seq<char>, parsed: Option<JsonView>) -> Option<
    SseEventView,
> {
    if payload.len() == 0 {
        None
    } else if payload == "[DONE]"@ {
        Some(SseEventView::Done)
    } else {
        match parsed {
            Some(chunk) => chunk_event(chunk),
            None => None,
        }
    }
}

/// What an event says.
pub open spec fn sse_event(raw: Seq<char>) -> Option<SseEventView> {
    payload_event(sse_payload(raw), json_parse(sse_payload(raw)))
}

fn read_field<'a>(record: &'a Json, name: &str, at: usize) -> (value: Option<&'a Json>)
    ensures
        value.deep_view() == field(record.deep_view(), name@, at as nat),
{
    match record.as_array() {
        Some(items) => if at < items.len() {
            assert(items.deep_view()[at as int] == items@[at as int].deep_view());
            Some(&items[at])
        } else {
            None
        },
        None => record.get(name),
    }
}

fn read_is_record(value: &Json, n: usize) -> (yes: bool)
    ensures
        yes == is_record(value.deep_view(), n as nat),
{
    match value {
        Json::Object(_) => true,
        _ => match value.as_array() {
            Some(items) => items.len() <= n,
            None => false,
        },
    }
}

fn read_count(value: Option<&Json>) -> (n: Option<u64>)
    ensures
        n == count_of(value.deep_view()),
{
    match value {
        Some(v) => v.as_u64(),
        None => Some(0),
    }
}

fn read_details(value: &Json) -> (details: Option<OpenAiPromptTokenDetails>)
    ensures
        details == details_of(value.deep_view()),
{
    let cached = read_count(read_field(value, "cached_tokens", 0));
    let written = read_count(read_field(value, "cache_write_tokens", 1));
    if !read_is_record(value, 2) {
        return None;
    }
    match (cached, written) {
        (Some(cached_tokens), Some(cache_write_tokens)) => Some(
            OpenAiPromptTokenDetails { cached_tokens, cache_write_tokens },
        ),
        _ => None,
    }
}

/// Reads a value as a usage record.
pub fn read_usage(value: &Json) -> (usage: Option<OpenAiUsage>)
    ensures
        usage == usage_of(value.deep_view()),
{
    let prompt = read_count(read_field(value, "prompt_tokens", 0));
    let completion = read_count(read_field(value, "completion_tokens", 1));
    if !read_is_record(value, 3) {
        return None;
    }
    match (prompt, completion) {
        (Some(prompt_tokens), Some(completion_tokens)) => {
            let prompt_tokens_details = match read_field(value, "prompt_tokens_details", 2) {
                None => None,
                Some(Json::Null) => None,
                Some(details) => match read_details(details) {
                    Some(d) => Some(d),
                    None => {
                        return None;
                    },
                },
            };
            Some(OpenAiUsage { prompt_tokens, completion_tokens, prompt_tokens_details })
        },
        _ => None,
    }
}

fn read_str(value: &Json, key: &str) -> (text: Option<String>)
    ensures
        text.deep_view() == str_member(value.deep_view(), key@),
{
    match value.get(key) {
        Some(v) => match v.as_str() {
            Some(s) => Some(s.to_owned()),
            None => None,
        },
        None => None,
    }
}

fn read_first<'a>(value: &'a Json, key: &str) -> (item: Option<&'a Json>)
    ensures
        item.deep_view() == first_member(value.deep_view(), key@),
{
    match value.get(key) {
        Some(v) => match v.as_array() {
            Some(items) => if items.len() > 0 {
                assert(items.deep_view()[0] == items@[0].deep_view());
                Some(&items[0])
            } else {
                None
            },
            None => None,
        },
        None => None,
    }
}

fn read_tool_delta(call: &Json) -> (event: SseEvent)
    ensures
        event.deep_view() == tool_delta(call.deep_view()),
{
    let index: u64 = match call.get("index") {
        Some(v) => match v.as_u64() {
            Some(n) => n,
            None => 0,
        },
        None => 0,
    };
    let id = read_str(call, "id");
    let function = call.get("function");
    let name = match function {
        Some(f) => read_str(f, "name"),
        None => None,
    };
    let arguments = match function {
        Some(f) => read_str(f, "arguments"),
        None => None,
    };
    SseEvent::DeltaTool { index: index as usize, id, name, arguments }
}

/// Reads what a chunk says.
pub fn read_chunk(chunk: &Json) -> (event: Option<SseEvent>)
    ensures
        event.deep_view() == chunk_event(chunk.deep_view()),
{
    if let Some(value) = chunk.get("usage") {
        if let Some(usage) = read_usage(value) {
            return Some(SseEvent::Usage(usage));
        }
    }
    let delta = match read_first(chunk, "choices") {
        Some(choice) => match choice.get("delta") {
            Some(delta) => delta,
            None => {
                return None;
            },
        },
        None => {
            return None;
        },
    };
    if let Some(text) = read_str(delta, "content") {
        if !text.as_str().is_empty() {
            return Some(SseEvent::DeltaContent(text));
        }
    }
    match read_first(delta, "tool_calls") {
        Some(call) => Some(read_tool_delta(call)),
        None => None,
    }
}

/// The payload of an event.
pub fn read_payload(raw: &str) -> (payload: String)
    ensures
        payload@ == sse_payload(raw@),
{
    let all = split_lines(raw);
    let mut data: Vec<String> = Vec::new();
    let ghost seen = all.deep_view();
    assert(data.deep_view() =~= data_lines(seen.take(0)));
    for i in 0..all.len()
        invariant
            seen == all.deep_view(),
            data.deep_view() == data_lines(seen.take(i as int)),
    {
        assert(seen.take(i + 1).drop_last() =~= seen.take(i as int));
        let ghost before = data.deep_view();
        if let Some(rest) = after_prefix(all[i].as_str(), "data: ") {
            data.push(rest);
            assert(data.deep_view() =~= before.push(rest@));
        }
    }
    assert(seen.take(seen.len() as int) =~= seen);
    join(&data)
}

/// Reads what a payload says, given what it reads as.
pub fn read_event(payload: &str, parsed: Option<Json>) -> (event: Option<SseEvent>)
    ensures
        event.deep_view() == payload_event(payload@, parsed.deep_view()),
{
    if payload.is_empty() {
        return None;
    }
    if payload.to_owned() == "[DONE]".to_owned() {
        return Some(SseEvent::Done);
    }
    match parsed {
        Some(chunk) => read_chunk(&chunk),
        None => None,
    }
}

/// Reads what an event says, given without the blank line that ends it.
pub fn parse_sse_event(raw: &str) -> (event: Option<SseEvent>)
    ensures
        event.deep_view() == sse_event(raw@),
{
    let payload = read_payload(raw);
    let parsed = Json::parse(payload.as_str());
    read_event(payload.as_str(), parsed)
}

} // verus!
