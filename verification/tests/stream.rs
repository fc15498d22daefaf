use twobobs::history::LlmResponse;
use twobobs::json::Json;
use twobobs::stream::{events_of_response, StreamEvent, StreamReader, StreamStep};
use twobobs::tools::ToolCall;

fn show_event(event: &StreamEvent) -> String {
    match event {
        StreamEvent::Content(s) => format!("content {s}"),
        StreamEvent::ToolCallStart(c) => {
            format!("call {} {} {}", c.id, c.name, c.arguments.to_text())
        }
        StreamEvent::ToolCallDelta(s) => format!("delta {s}"),
        StreamEvent::Cost(c) => format!("cost {}", c.format()),
        StreamEvent::Done => "done".to_string(),
        StreamEvent::Error(e) => format!("error {e}"),
    }
}

fn show(steps: Vec<StreamStep>) -> Vec<String> {
    steps
        .iter()
        .map(|s| match s {
            StreamStep::Emit(e) => show_event(e),
            StreamStep::Bill(u) => format!("bill {}", u.prompt_tokens),
        })
        .collect()
}

fn content(s: &str) -> String {
    format!("data: {{\"choices\":[{{\"delta\":{{\"content\":\"{s}\"}}}}]}}\n\n")
}

fn fragment(index: u64, id: &str, name: &str, arguments: &str) -> String {
    let mut call = format!("\"index\":{index}");
    if !id.is_empty() {
        call.push_str(&format!(",\"id\":\"{id}\""));
    }
    call.push_str(&format!(
        ",\"function\":{{\"name\":{},\"arguments\":\"{arguments}\"}}",
        if name.is_empty() { "null".to_string() } else { format!("\"{name}\"") }
    ));
    format!("data: {{\"choices\":[{{\"delta\":{{\"tool_calls\":[{{{call}}}]}}}}]}}\n\n")
}

fn whole() -> String {
    let mut s = String::new();
    s.push_str(": ping\n\n");
    s.push_str(&content("hel"));
    s.push_str(&fragment(1, "b", "write", "{\\\"x\\\":"));
    s.push_str(&fragment(0, "a", "read", "not json"));
    s.push_str(&content("lo"));
    s.push_str(&fragment(1, "", "", "1}"));
    s.push_str("data: {\"usage\":{\"prompt_tokens\":9}}\n\n");
    s.push_str("data: [DONE]\n\n");
    s
}

fn expected() -> Vec<&'static str> {
    vec![
        "content hel",
        "delta {\"x\":",
        "delta not json",
        "content lo",
        "delta 1}",
        "bill 9",
        "call b write {\"x\":1}",
        "call a read \"not json\"",
        "done",
    ]
}

#[test]
fn a_stream_in_one_chunk() {
    let mut reader = StreamReader::new();
    assert_eq!(show(reader.feed(whole().as_bytes())), expected());
    assert!(reader.is_finished());
    assert!(reader.feed(content("more").as_bytes()).is_empty());
    assert!(reader.close(None).is_empty());
    assert!(reader.close(Some("late".to_string())).is_empty());
}

#[test]
fn cuts_make_no_difference() {
    let text = whole();
    for size in [1usize, 2, 3, 7, 50] {
        let mut reader = StreamReader::new();
        let mut seen = Vec::new();
        for chunk in text.as_bytes().chunks(size) {
            seen.extend(show(reader.feed(chunk)));
        }
        seen.extend(show(reader.close(None)));
        assert_eq!(seen, expected());
    }
}

#[test]
fn text_after_the_end_is_ignored() {
    let mut reader = StreamReader::new();
    let text = format!("data: [DONE]\n\n{}", content("late"));
    assert_eq!(show(reader.feed_str(&text)), vec!["done"]);
}

#[test]
fn a_stream_without_an_end() {
    let mut reader = StreamReader::new();
    assert_eq!(show(reader.feed_str(&fragment(3, "c", "ls", "{}"))), vec!["delta {}"]);
    assert!(reader.feed_str("data: [DONE]\n").is_empty());
    assert_eq!(show(reader.close(None)), vec!["call c ls {}", "done"]);
    assert!(reader.is_finished());
}

#[test]
fn a_stream_that_breaks_off() {
    let mut reader = StreamReader::new();
    assert_eq!(show(reader.feed_str(&fragment(0, "c", "ls", "{}"))), vec!["delta {}"]);
    assert_eq!(
        show(reader.close(Some("reset".to_string()))),
        vec!["error reset", "call c ls {}", "done"]
    );
    assert!(reader.close(None).is_empty());
}

#[test]
fn later_ids_and_names_replace_earlier_ones() {
    let mut reader = StreamReader::new();
    reader.feed_str(&fragment(0, "first", "one", "[1,"));
    reader.feed_str(&fragment(0, "second", "two", "2]"));
    assert_eq!(show(reader.close(None)), vec!["call second two [1,2]", "done"]);
}

#[test]
fn a_fragment_without_arguments_is_silent() {
    let mut reader = StreamReader::new();
    let text = "data: {\"choices\":[{\"delta\":{\"tool_calls\":[{\"index\":0,\"id\":\"z\"}]}}]}\n\n";
    assert!(reader.feed_str(text).is_empty());
    assert_eq!(show(reader.close(None)), vec!["call z  \"\"", "done"]);
}

#[test]
fn three_line_feeds_make_one_blank_line() {
    let mut reader = StreamReader::new();
    let text = format!("{}\n{}", content("a"), content("b"));
    assert_eq!(show(reader.feed_str(&text)), vec!["content a", "content b"]);
}

#[test]
fn bytes_that_are_not_text_are_replaced() {
    let mut reader = StreamReader::new();
    let mut bytes = b"data: {\"choices\":[{\"delta\":{\"content\":\"".to_vec();
    bytes.push(0xff);
    bytes.extend_from_slice("é\"}}]}\n\n".as_bytes());
    assert_eq!(show(reader.feed(&bytes)), vec!["content \u{fffd}é"]);
}

#[test]
fn bytes_cut_between_characters() {
    let text = content("é→😀");
    let bytes = text.as_bytes();
    let mut one = StreamReader::new();
    let mut two = StreamReader::new();
    let cut = text.find('→').unwrap();
    let mut seen = show(two.feed(&bytes[..cut]));
    seen.extend(show(two.feed(&bytes[cut..])));
    assert_eq!(show(one.feed(bytes)), seen);
    assert_eq!(seen, vec!["content é→😀"]);
}

fn response(n: usize) -> LlmResponse {
    let mut tool_calls = Vec::new();
    for i in 0..n {
        tool_calls.push(ToolCall {
            id: format!("id{i}"),
            name: "f".to_string(),
            arguments: Json::Null,
        });
    }
    LlmResponse { content: "text".to_string(), tool_calls }
}

#[test]
fn a_batch_is_told_whole() {
    let events: Vec<String> = events_of_response(response(2)).iter().map(show_event).collect();
    assert_eq!(events, vec!["content text", "call id0 f null", "call id1 f null", "done"]);
    for n in [0usize, 14, 15, 16, 20, 100] {
        let all: Vec<String> = events_of_response(response(n)).iter().map(show_event).collect();
        assert_eq!(all.len(), n + 2);
        assert_eq!(all[0], "content text");
        for i in 0..n {
            assert_eq!(all[i + 1], format!("call id{i} f null"));
        }
        assert_eq!(all[n + 1], "done");
    }
}
