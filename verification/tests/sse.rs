use twobobs::cost::{OpenAiPromptTokenDetails, OpenAiUsage};
use twobobs::json::{Json, JsonNumber};
use twobobs::sse::{parse_sse_event, read_chunk, read_event, read_payload, read_usage, SseEvent};

fn object(entries: Vec<(&str, Json)>) -> Json {
    Json::Object(entries.into_iter().map(|(k, v)| (k.to_string(), v)).collect())
}

fn number(n: u64) -> Json {
    Json::Number(JsonNumber::Unsigned(n))
}

fn text(s: &str) -> Json {
    Json::Str(s.to_string())
}

#[test]
fn sse_parse_done_event() {
    assert!(matches!(parse_sse_event("data: [DONE]"), Some(SseEvent::Done)));
}

#[test]
fn sse_parse_content_delta() {
    let raw = "data: {\"choices\":[{\"delta\":{\"content\":\"hi\"},\"index\":0}]}";
    match parse_sse_event(raw) {
        Some(SseEvent::DeltaContent(s)) => assert_eq!(s, "hi"),
        other => panic!("expected DeltaContent, got {other:?}"),
    }
}

#[test]
fn sse_parse_tool_call_delta() {
    let raw = "data: {\"choices\":[{\"delta\":{\"tool_calls\":[{\"index\":0,\"id\":\"call_1\",\"function\":{\"name\":\"read\",\"arguments\":\"{\\\"path\\\":\\\"a.txt\\\"}\"}}]},\"index\":0}]}";
    match parse_sse_event(raw) {
        Some(SseEvent::DeltaTool { index, id, name, arguments }) => {
            assert_eq!(index, 0);
            assert_eq!(id.as_deref(), Some("call_1"));
            assert_eq!(name.as_deref(), Some("read"));
            assert!(arguments.unwrap().contains("a.txt"));
        }
        other => panic!("expected DeltaTool, got {other:?}"),
    }
}

#[test]
fn comments_and_empty_events_say_nothing() {
    assert!(parse_sse_event(": ping").is_none());
    assert!(parse_sse_event("").is_none());
    assert!(parse_sse_event("data:[DONE]").is_none());
    assert!(parse_sse_event("event: x\nid: 7").is_none());
    assert!(parse_sse_event("data: ").is_none());
    assert!(parse_sse_event("data: {not json").is_none());
    assert!(parse_sse_event("data: [1]").is_none());
}

#[test]
fn data_lines_are_joined() {
    assert_eq!(read_payload(": x\r\ndata: {\ndata: }\r\nother"), "{\n}");
    let raw = "data: {\"choices\":[{\"delta\":\ndata: {\"content\":\"two lines\"}}]}";
    match parse_sse_event(raw) {
        Some(SseEvent::DeltaContent(s)) => assert_eq!(s, "two lines"),
        other => panic!("got {other:?}"),
    }
}

#[test]
fn done_beats_what_a_payload_reads_as() {
    assert!(matches!(read_event("[DONE]", Some(Json::Null)), Some(SseEvent::Done)));
    assert!(read_event("", Some(Json::Null)).is_none());
    assert!(read_event("x", None).is_none());
}

#[test]
fn usage_beats_choices() {
    let raw = "data: {\"usage\":{\"prompt_tokens\":3},\"choices\":[{\"delta\":{\"content\":\"hi\"}}]}";
    match parse_sse_event(raw) {
        Some(SseEvent::Usage(u)) => {
            assert_eq!(
                u,
                OpenAiUsage { prompt_tokens: 3, completion_tokens: 0, prompt_tokens_details: None }
            );
        }
        other => panic!("got {other:?}"),
    }
}

#[test]
fn usage_that_is_null_is_passed_over() {
    let raw = "data: {\"usage\":null,\"choices\":[{\"delta\":{\"content\":\"hi\"}}]}";
    match parse_sse_event(raw) {
        Some(SseEvent::DeltaContent(s)) => assert_eq!(s, "hi"),
        other => panic!("got {other:?}"),
    }
}

#[test]
fn usage_records() {
    let details = object(vec![("cached_tokens", number(5)), ("more", Json::Null)]);
    let usage = object(vec![
        ("prompt_tokens", number(10)),
        ("completion_tokens", number(2)),
        ("prompt_tokens_details", details),
    ]);
    assert_eq!(
        read_usage(&usage),
        Some(OpenAiUsage {
            prompt_tokens: 10,
            completion_tokens: 2,
            prompt_tokens_details: Some(OpenAiPromptTokenDetails {
                cached_tokens: 5,
                cache_write_tokens: 0
            }),
        })
    );
    let empty = OpenAiUsage { prompt_tokens: 0, completion_tokens: 0, prompt_tokens_details: None };
    assert_eq!(read_usage(&object(vec![])), Some(empty));
    assert_eq!(read_usage(&object(vec![("prompt_tokens_details", Json::Null)])), Some(empty));
    assert_eq!(read_usage(&object(vec![("prompt_tokens", Json::Null)])), None);
    assert_eq!(read_usage(&object(vec![("prompt_tokens", text("3"))])), None);
    assert_eq!(read_usage(&object(vec![("prompt_tokens_details", number(1))])), None);
    assert_eq!(read_usage(&Json::Null), None);
    assert_eq!(read_usage(&number(3)), None);
}

#[test]
fn usage_records_in_order() {
    let row = Json::Array(vec![number(1), number(2), Json::Array(vec![number(3), number(4)])]);
    assert_eq!(
        read_usage(&row),
        Some(OpenAiUsage {
            prompt_tokens: 1,
            completion_tokens: 2,
            prompt_tokens_details: Some(OpenAiPromptTokenDetails {
                cached_tokens: 3,
                cache_write_tokens: 4
            }),
        })
    );
    assert!(read_usage(&Json::Array(vec![])).is_some());
    assert!(read_usage(&Json::Array(vec![number(1), number(2), Json::Null, number(4)])).is_none());
}

#[test]
fn negative_and_fractional_counts_spoil_a_usage() {
    let negative = Json::parse("{\"prompt_tokens\":-1}").unwrap();
    assert_eq!(read_usage(&negative), None);
    let fraction = Json::parse("{\"prompt_tokens\":1.5}").unwrap();
    assert_eq!(read_usage(&fraction), None);
    let whole = Json::parse("{\"prompt_tokens\":18446744073709551615}").unwrap();
    assert_eq!(read_usage(&whole).unwrap().prompt_tokens, u64::MAX);
}

#[test]
fn empty_content_gives_way_to_calls() {
    let call = object(vec![("id", text("c")), ("index", number(4))]);
    let delta = object(vec![("content", text("")), ("tool_calls", Json::Array(vec![call]))]);
    let chunk = object(vec![("choices", Json::Array(vec![object(vec![("delta", delta)])]))]);
    match read_chunk(&chunk) {
        Some(SseEvent::DeltaTool { index, id, name, arguments }) => {
            assert_eq!((index, id.as_deref()), (4, Some("c")));
            assert!(name.is_none() && arguments.is_none());
        }
        other => panic!("got {other:?}"),
    }
}

#[test]
fn chunks_that_say_nothing() {
    let stop = object(vec![("finish_reason", text("stop")), ("delta", object(vec![]))]);
    assert!(read_chunk(&object(vec![("choices", Json::Array(vec![stop]))])).is_none());
    assert!(read_chunk(&object(vec![("choices", Json::Array(vec![]))])).is_none());
    assert!(read_chunk(&object(vec![("choices", Json::Null)])).is_none());
    assert!(read_chunk(&object(vec![])).is_none());
    let no_calls = object(vec![("tool_calls", Json::Array(vec![]))]);
    let choice = object(vec![("delta", no_calls)]);
    assert!(read_chunk(&object(vec![("choices", Json::Array(vec![choice]))])).is_none());
}

#[test]
fn index_defaults_to_the_first_call() {
    let raw = "data: {\"choices\":[{\"delta\":{\"tool_calls\":[{\"index\":\"1\",\"function\":{\"arguments\":\"x\"}}]}}]}";
    match parse_sse_event(raw) {
        Some(SseEvent::DeltaTool { index, id, name, arguments }) => {
            assert_eq!(index, 0);
            assert!(id.is_none() && name.is_none());
            assert_eq!(arguments.as_deref(), Some("x"));
        }
        other => panic!("got {other:?}"),
    }
}
