//! What holds of the answers of the gateway.

use vstd::prelude::*;
use vstd::utf8::{encode_scalar, encode_utf8};

use crate::cost::{DollarsView, ModelRatesView};
use crate::json::{json_parse, JsonView};
use crate::llm::{
    answer_of, error_text, fresh_client, header_byte, header_text, message_of, reply_cost,
    reply_error, LlmErrorView, OpenAiMessageView, OpenAiResponse, OpenAiResponseView,
    DEFAULT_BASE_URL,
};
use crate::text::decimal;

verus! {

/// The message that is read from an answer has the content of the answer, and each of its calls in
/// its place: with the id of the call, the name of its function, and its arguments read as JSON or
/// else kept as text. What is missing in the answer is empty.
pub proof fn law_a_message_is_read_field_by_field(message: OpenAiMessageView, i: int)
    ensures
        match message.content {
            Some(text) => message_of(message).content == text,
            None => message_of(message).content.len() == 0,
        },
        match message.tool_calls {
            Some(calls) => message_of(message).tool_calls.len() == calls.len() && (0 <= i
                < calls.len() ==> {
                let read = message_of(message).tool_calls[i];
                &&& read.id == calls[i].id
                &&& read.name == calls[i].name
                &&& match json_parse(calls[i].arguments) {
                    Some(value) => read.arguments == value,
                    None => read.arguments == JsonView::Str(calls[i].arguments),
                }
            }),
            None => message_of(message).tool_calls.len() == 0,
        },
{
}

/// What an answer gives is its first choice, whatever other choices it has; without a choice it is
/// the error that there is none.
pub proof fn law_the_first_choice_is_the_answer(response: OpenAiResponseView, i: int)
    ensures
        response.choices.len() == 0 ==> (answer_of(response) matches Err(e) && e is EmptyChoices),
        response.choices.len() > 0 ==> (answer_of(response) matches Ok(message) && {
            let first = response.choices[0];
            &&& match first.content {
                Some(text) => message.content == text,
                None => message.content.len() == 0,
            }
            &&& match first.tool_calls {
                Some(calls) => message.tool_calls.len() == calls.len() && (0 <= i < calls.len()
                    ==> message.tool_calls[i].id == calls[i].id && message.tool_calls[i].name
                    == calls[i].name),
                None => message.tool_calls.len() == 0,
            }
        }),
{
    if response.choices.len() > 0 {
        law_a_message_is_read_field_by_field(response.choices[0], i);
    }
}

/// A client that has made no call has the key and the address that it was given, knows the prices
/// that it was given and no last cost. By default the gateway is reached at its own address.
pub proof fn law_a_fresh_client_is_what_it_was_given(
    api_key: Seq<char>,
    base_url: Seq<char>,
    rates: Map<Seq<char>, ModelRatesView>,
)
    ensures
        fresh_client(api_key, base_url, rates).api_key == api_key,
        fresh_client(api_key, base_url, rates).base_url == base_url,
        fresh_client(api_key, base_url, rates).rates == rates,
        fresh_client(api_key, base_url, rates).last_cost is None,
        DEFAULT_BASE_URL@ == "https://api.llmgateway.io/v1"@,
{
}

/// An answer costs something exactly where it succeeds, can be read and reports a usage. The cost
/// has the counts of that usage, none of the cache where the usage has no details, and the total
/// that is given.
pub proof fn law_what_an_answer_costs(
    success: bool,
    parsed: Result<OpenAiResponse, String>,
    total_cost: DollarsView,
)
    ensures
        match reply_cost(success, parsed, total_cost) {
            Some(cost) => success && parsed is Ok && (parsed->Ok_0.usage matches Some(usage) && {
                &&& cost.tokens.input == usage.prompt_tokens
                &&& cost.tokens.output == usage.completion_tokens
                &&& match usage.prompt_tokens_details {
                    Some(d) => cost.tokens.cache_read == d.cached_tokens && cost.tokens.cache_write
                        == d.cache_write_tokens,
                    None => cost.tokens.cache_read == 0 && cost.tokens.cache_write == 0,
                }
                &&& cost.total_cost.bits == total_cost.bits
                &&& cost.total_cost.text == total_cost.text
            }),
            None => !success || parsed is Err || parsed->Ok_0.usage is None,
        },
{
}

/// An answer with a status that is no success fails with that status and the body, whatever the
/// body reads as. One that succeeds and cannot be read fails with the reason and the body, and one
/// that can be read fails for want of choices.
pub proof fn law_why_an_answer_fails(
    status: Seq<char>,
    body: Seq<char>,
    parsed: Result<OpenAiResponse, String>,
)
    ensures
        reply_error(false, status, body, parsed) matches LlmErrorView::Gateway {
            status: s,
            body: b,
        } && s == status && b == body,
        parsed matches Err(reason) ==> (reply_error(true, status, body, parsed) matches
            LlmErrorView::Parse { error: e, body: b } && e == reason@ && b == body),
        parsed is Ok ==> reply_error(true, status, body, parsed) is EmptyChoices,
{
}

/// What errors say: a fixed text each, with what the error carries in its place and in full.
pub proof fn law_what_errors_say(first: Seq<char>, body: Seq<char>, index: usize)
    ensures
        error_text(LlmErrorView::MissingKey) == "LLMGATEWAY_API_KEY not set"@,
        error_text(LlmErrorView::BadHeader) == "failed to parse header value"@,
        error_text(LlmErrorView::Gateway { status: first, body }) == "llm gateway "@ + first + ": "@
            + body,
        error_text(LlmErrorView::Parse { error: first, body }) == "parse response: "@ + first
            + " (body: "@ + body + ")"@,
        error_text(LlmErrorView::EmptyChoices) == "empty choices"@,
        error_text(LlmErrorView::ReplayExhausted { index }) == "replay exhausted at index "@
            + decimal(index as nat),
{
}

/// Whether a character may stand in the value of a header: a tab, or any that is no control
/// character of ASCII.
pub open spec fn header_char(c: char) -> bool {
    c == '\t' || (c as u32 >= 32 && c as u32 != 127)
}

proof fn lemma_header_scalar(c: char)
    ensures
        (forall|i: int|
            0 <= i < encode_scalar(c as u32).len() ==> header_byte(
                #[trigger] encode_scalar(c as u32)[i],
            )) == header_char(c),
{
    let v = c as u32;
    let bytes = encode_scalar(v);
    if v <= 0x7f {
        assert(v <= 0x7f ==> (v & 0x7f) as u8 == v) by (bit_vector);
        assert(bytes.len() == 1 && bytes[0] == v);
        assert(header_byte(bytes[0]) == header_char(c));
    } else {
        assert forall|i: int| 0 <= i < bytes.len() implies header_byte(#[trigger] bytes[i]) by {
            assert(0xc0u8 | ((v >> 6) & 0x1f) as u8 >= 0x80u8) by (bit_vector);
            assert(0xe0u8 | ((v >> 12) & 0x0f) as u8 >= 0x80u8) by (bit_vector);
            assert(0xf0u8 | ((v >> 18) & 0x07) as u8 >= 0x80u8) by (bit_vector);
            assert(0x80u8 | (v & 0x3f) as u8 >= 0x80u8) by (bit_vector);
            assert(0x80u8 | ((v >> 6) & 0x3f) as u8 >= 0x80u8) by (bit_vector);
            assert(0x80u8 | ((v >> 12) & 0x3f) as u8 >= 0x80u8) by (bit_vector);
            assert(bytes[i] >= 0x80);
        }
    }
}

/// A text may be the value of a header exactly if each of its characters may stand in one.
pub proof fn law_header_values_have_no_control_characters(text: Seq<char>)
    ensures
        header_text(text) <==> (forall|i: int| 0 <= i < text.len() ==> header_char(#[trigger] text[i])),
    decreases text.len(),
{
    let bytes = encode_utf8(text);
    if text.len() > 0 {
        let head = encode_scalar(text[0] as u32);
        let rest = text.drop_first();
        let tail = encode_utf8(rest);
        law_header_values_have_no_control_characters(rest);
        lemma_header_scalar(text[0]);
        assert(bytes =~= head + tail);
        if header_text(text) {
            assert forall|i: int| 0 <= i < head.len() implies header_byte(#[trigger] head[i]) by {
                assert(header_byte(bytes[i]));
            }
            assert forall|i: int| 0 <= i < tail.len() implies header_byte(#[trigger] tail[i]) by {
                assert(header_byte(bytes[i + head.len()]));
            }
            assert forall|i: int| 0 <= i < text.len() implies header_char(#[trigger] text[i]) by {
                if i > 0 {
                    assert(header_char(rest[i - 1]));
                }
            }
        }
        if forall|i: int| 0 <= i < text.len() ==> header_char(#[trigger] text[i]) {
            assert(header_char(text[0]));
            assert forall|i: int| 0 <= i < rest.len() implies header_char(#[trigger] rest[i]) by {
                assert(header_char(text[i + 1]));
            }
            assert forall|i: int| 0 <= i < bytes.len() implies header_byte(#[trigger] bytes[i]) by {
                if i < head.len() {
                    assert(header_byte(head[i]));
                } else {
                    assert(header_byte(tail[i - head.len()]));
                }
            }
        }
    }
}

} // verus!
