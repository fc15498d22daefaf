use twobobs::agent::{Agent, Config};
use twobobs::cost::{CallCost, Dollars, OpenAiUsage};
use twobobs::history::{LlmResponse, Role};
use twobobs::json::Json;
use twobobs::stream::{events_of_response, StreamEvent, StreamReader, StreamStep};
use twobobs::tools::ToolCall;
use twobobs::tui::{
    speaker_prompt, KeyCode, Reaction, Round, RoundState, TermEvent, TuiAgent,
};
use twobobs::turn::{Turn, TurnAction};

fn tui() -> TuiAgent {
    TuiAgent::new(Agent::new(Config { model: "m1".to_string(), repo_root: "/r".to_string() }))
}

fn key(code: KeyCode) -> TermEvent {
    TermEvent::Key { code, pressed: true, control: false }
}

fn ctrl(c: char) -> TermEvent {
    TermEvent::Key { code: KeyCode::Char(c), pressed: true, control: true }
}

fn call(id: &str) -> ToolCall {
    ToolCall { id: id.to_string(), name: format!("tool_{id}"), arguments: Json::Null }
}

fn chat(t: &TuiAgent) -> Vec<(Role, String)> {
    t.messages.iter().map(|m| (m.role, m.content.clone())).collect()
}

#[test]
fn a_new_terminal() {
    let mut t = tui();
    assert!(t.messages.is_empty() && t.input.is_empty() && !t.busy);
    assert_eq!(t.status, "ready");
    assert_eq!(t.status_line(), "ready");
    t.greet();
    assert_eq!(t.status, "model=m1 cwd=/r — type a message, enter to send, ctrl-c to quit");
}

#[test]
fn typing_and_erasing() {
    let mut t = tui();
    for c in ['h', 'é', 'c', 'd'] {
        assert!(matches!(t.handle_event(key(KeyCode::Char(c))), Reaction::Continue));
    }
    assert_eq!(t.input, "hécd");
    t.handle_event(key(KeyCode::Backspace));
    t.handle_event(ctrl('x'));
    t.handle_event(key(KeyCode::Other));
    t.handle_event(TermEvent::Other);
    t.handle_event(TermEvent::Key { code: KeyCode::Char('z'), pressed: false, control: false });
    assert_eq!(t.input, "héc");
    t.handle_event(key(KeyCode::Char('x')));
    t.handle_event(TermEvent::Key { code: KeyCode::Backspace, pressed: true, control: true });
    assert_eq!(t.input, "héc");
    for _ in 0..5 {
        assert!(matches!(t.handle_event(key(KeyCode::Backspace)), Reaction::Continue));
    }
    assert_eq!(t.input, "");
    assert!(matches!(t.handle_event(key(KeyCode::Enter)), Reaction::Continue));
    assert!(t.messages.is_empty() && !t.busy);
}

#[test]
fn leaving() {
    let mut t = tui();
    assert!(matches!(t.handle_event(ctrl('c')), Reaction::Quit));
    assert!(matches!(t.handle_event(ctrl('d')), Reaction::Quit));
    assert!(matches!(t.handle_event(ctrl('C')), Reaction::Continue));
    t.busy = true;
    assert!(matches!(t.handle_event(ctrl('c')), Reaction::Quit));
    let released = TermEvent::Key { code: KeyCode::Char('c'), pressed: false, control: true };
    assert!(matches!(t.handle_event(released), Reaction::Continue));
}

#[test]
fn submitting() {
    let mut t = tui();
    t.handle_event(key(KeyCode::Char('q')));
    match t.handle_event(key(KeyCode::Enter)) {
        Reaction::Submit(prompt) => assert_eq!(prompt, "q"),
        other => panic!("got {other:?}"),
    }
    assert_eq!(t.input, "");
    assert!(t.busy);
    assert_eq!(t.status, "thinking");
    assert_eq!(t.status_line(), "⟳ thinking (streaming…)");
    assert_eq!(chat(&t), vec![(Role::User, "q".to_string())]);
    t.handle_event(key(KeyCode::Char('x')));
    t.handle_event(key(KeyCode::Enter));
    t.handle_event(key(KeyCode::Backspace));
    assert_eq!(t.input, "");
    assert_eq!(t.messages.len(), 1);
    t.end_turn();
    assert!(!t.busy);
    assert_eq!(t.status, "ready");
}

fn cost(total: f64) -> CallCost {
    let usage = OpenAiUsage { prompt_tokens: 12, completion_tokens: 3, prompt_tokens_details: None };
    CallCost::compute(&usage, Dollars { bits: total.to_bits(), text: format!("{:.6}", total) })
}

#[test]
fn a_turn_without_calls() {
    let mut t = tui();
    t.begin_turn("hello".to_string());
    let request = t.next_request(&vec![]);
    assert_eq!((request.model.as_str(), request.messages.len()), ("m1", 1));
    let mut round = Round::new();
    for e in [
        StreamEvent::Content("a".to_string()),
        StreamEvent::ToolCallDelta("ignored".to_string()),
        StreamEvent::Cost(cost(1.0)),
        StreamEvent::Content("b".to_string()),
        StreamEvent::Cost(cost(0.5)),
    ] {
        assert_eq!(t.take_event(&mut round, e), RoundState::Reading);
    }
    assert_eq!(t.take_event(&mut round, StreamEvent::Done), RoundState::Over);
    assert!(t.end_round(round).is_empty());
    assert_eq!(t.status, "m1 cost $0.500000 (12+3 tok)");
    assert_eq!(
        chat(&t),
        vec![(Role::Assistant, "a".to_string()), (Role::Assistant, "b".to_string())]
    );
    let history = &t.agent.history.messages;
    assert_eq!(history.len(), 2);
    assert_eq!((history[0].role, history[0].content.as_str()), (Role::User, "hello"));
    assert_eq!((history[1].role, history[1].content.as_str()), (Role::Assistant, "ab"));
}

#[test]
fn a_turn_with_calls() {
    let mut t = tui();
    t.status = "kept".to_string();
    t.begin_turn("go".to_string());
    let mut round = Round::new();
    t.take_event(&mut round, StreamEvent::ToolCallStart(call("x")));
    t.take_event(&mut round, StreamEvent::ToolCallStart(call("y")));
    t.take_event(&mut round, StreamEvent::Done);
    let calls = t.end_round(round);
    assert_eq!(calls.len(), 2);
    assert_eq!(t.status, "kept");
    let long = "é".repeat(300);
    t.take_result(&calls[0], "short".to_string());
    t.take_result(&calls[1], long.clone());
    assert_eq!(
        chat(&t),
        vec![
            (Role::Tool, "tool_x → short".to_string()),
            (Role::Tool, format!("tool_y → {}", "é".repeat(200))),
        ]
    );
    let history = &t.agent.history.messages;
    assert_eq!(history.len(), 4);
    assert_eq!(history[1].tool_calls.len(), 2);
    assert_eq!(history[2].tool_call_id.as_deref(), Some("x"));
    assert_eq!(history[3].tool_call_id.as_deref(), Some("y"));
    assert_eq!(history[3].content, long);
}

#[test]
fn a_turn_that_fails() {
    let mut t = tui();
    let mut round = Round::new();
    t.take_event(&mut round, StreamEvent::Content("part".to_string()));
    let state = t.take_event(&mut round, StreamEvent::Error("gone".to_string()));
    assert_eq!(state, RoundState::Failed);
    assert_eq!(chat(&t)[1], (Role::Assistant, "error: gone".to_string()));
    assert!(t.agent.history.messages.is_empty());
}

#[test]
fn a_turn_reads_a_batch() {
    for n in [0usize, 14, 15, 20] {
        let tool_calls: Vec<ToolCall> = (0..n).map(|i| call(&format!("{i}"))).collect();
        let response = LlmResponse { content: "whole".to_string(), tool_calls };
        let mut t = tui();
        let mut round = Round::new();
        let mut state = RoundState::Reading;
        for e in events_of_response(response) {
            state = t.take_event(&mut round, e);
        }
        assert_eq!(round.content, "whole");
        assert_eq!(round.tool_calls.len(), n);
        for i in 0..n {
            assert_eq!(round.tool_calls[i].id, format!("{i}"));
        }
        assert!(round.last_cost.is_none());
        assert_eq!(chat(&t), vec![(Role::Assistant, "whole".to_string())]);
        assert_eq!(state, RoundState::Over);
    }
}

#[test]
fn a_batch_is_in_the_conversation() {
    let tool_calls: Vec<ToolCall> = (0..20).map(|i| call(&format!("{i}"))).collect();
    let response = LlmResponse { content: "whole".to_string(), tool_calls };
    let mut t = tui();
    let (mut turn, _) = Turn::begin(&mut t, "go".to_string(), &vec![]);
    let mut action = TurnAction::Listen;
    for e in events_of_response(response) {
        assert!(matches!(action, TurnAction::Listen));
        action = turn.on_stream(&mut t, Some(e));
    }
    assert!(matches!(action, TurnAction::Dispatch(c) if c.id == "0"));
    assert_eq!(turn.waiting.len(), 20);
    assert_eq!(t.agent.history.messages.len(), 2);
    assert_eq!(t.agent.history.messages[1].content, "whole");
    assert_eq!(t.agent.history.messages[1].tool_calls.len(), 20);
}

#[test]
fn a_turn_reads_a_stream() {
    let mut reader = StreamReader::new();
    let mut steps = reader.feed_str(
        "data: {\"choices\":[{\"delta\":{\"content\":\"to\"}}]}\n\ndata: {\"choices\":[{\"delta\":{\"tool_calls\":[{\"index\":2,\"id\":\"q\",\"function\":{\"name\":\"ls\",\"arguments\":\"{}\"}}]}}]}\n",
    );
    steps.extend(reader.feed_str("\ndata: {\"choices\":[{\"delta\":{\"content\":\"gether\"}}]}\n\n"));
    steps.extend(reader.close(None));
    let mut t = tui();
    let mut round = Round::new();
    let mut state = RoundState::Reading;
    for step in steps {
        if let StreamStep::Emit(e) = step {
            state = t.take_event(&mut round, e);
        }
    }
    assert_eq!(state, RoundState::Over);
    assert_eq!(round.content, "together");
    assert_eq!(round.tool_calls.len(), 1);
    assert_eq!(round.tool_calls[0].arguments_text(), "{}");
}

#[test]
fn the_chat_is_shown_line_by_line() {
    let mut t = tui();
    t.handle_event(key(KeyCode::Char('q')));
    t.handle_event(key(KeyCode::Enter));
    let mut round = Round::new();
    t.take_event(&mut round, StreamEvent::Content("one\r\ntwo\n\nthree".to_string()));
    t.take_event(&mut round, StreamEvent::Content(String::new()));
    t.take_event(&mut round, StreamEvent::Content("\n".to_string()));
    let shown: Vec<(Option<Role>, String)> =
        t.chat_lines().into_iter().map(|l| (l.speaker, l.text)).collect();
    assert_eq!(
        shown,
        vec![
            (Some(Role::User), "q".to_string()),
            (Some(Role::Assistant), "one".to_string()),
            (None, "two".to_string()),
            (None, "".to_string()),
            (None, "three".to_string()),
            (Some(Role::Assistant), "".to_string()),
        ]
    );
    assert_eq!(speaker_prompt(Role::User), "you> ");
    assert_eq!(speaker_prompt(Role::Assistant), "bob> ");
    assert_eq!(speaker_prompt(Role::Tool), "tool> ");
    assert_eq!(speaker_prompt(Role::System), "sys> ");
}

#[test]
fn a_turn_goes_on_until_no_call_is_made() {
    let schemas = vec![Json::Str("schema".to_string())];
    let mut t = tui();
    let (mut turn, action) = Turn::begin(&mut t, "go".to_string(), &schemas);
    match action {
        TurnAction::Ask(r) => {
            assert_eq!((r.model.as_str(), r.messages.len(), r.tools.len()), ("m1", 1, 1))
        }
        other => panic!("got {other:?}"),
    }
    for e in [
        StreamEvent::Content("let me see".to_string()),
        StreamEvent::ToolCallStart(call("x")),
        StreamEvent::ToolCallStart(call("y")),
    ] {
        assert!(matches!(turn.on_stream(&mut t, Some(e)), TurnAction::Listen));
    }
    match turn.on_stream(&mut t, Some(StreamEvent::Done)) {
        TurnAction::Dispatch(c) => assert_eq!(c.id, "x"),
        other => panic!("got {other:?}"),
    }
    match turn.on_result(&mut t, "rx".to_string(), &schemas) {
        TurnAction::Dispatch(c) => assert_eq!(c.id, "y"),
        other => panic!("got {other:?}"),
    }
    match turn.on_result(&mut t, "ry".to_string(), &schemas) {
        TurnAction::Ask(r) => {
            assert_eq!(r.messages.len(), 4);
            assert_eq!(r.messages[1].content, "let me see");
            assert_eq!(r.messages[2].tool_call_id.as_deref(), Some("x"));
            assert_eq!(r.messages[2].content, "rx");
            assert_eq!(r.messages[3].tool_call_id.as_deref(), Some("y"));
            assert_eq!(r.messages[3].content, "ry");
        }
        other => panic!("got {other:?}"),
    }
    let e = StreamEvent::Content("done".to_string());
    assert!(matches!(turn.on_stream(&mut t, Some(e)), TurnAction::Listen));
    assert!(matches!(turn.on_stream(&mut t, None), TurnAction::Finish));
    assert_eq!(t.agent.history.messages.len(), 5);
    assert_eq!(t.agent.history.messages[4].content, "done");
    assert!(matches!(turn.on_result(&mut t, "z".to_string(), &schemas), TurnAction::Finish));
    assert_eq!(t.agent.history.messages.len(), 5);
}

#[test]
fn a_turn_whose_stream_fails_is_over() {
    let mut t = tui();
    let (mut turn, _) = Turn::begin(&mut t, "go".to_string(), &vec![]);
    turn.on_stream(&mut t, Some(StreamEvent::ToolCallStart(call("x"))));
    let action = turn.on_stream(&mut t, Some(StreamEvent::Error("gone".to_string())));
    assert!(matches!(action, TurnAction::Finish));
    assert_eq!(t.agent.history.messages.len(), 1);
    assert_eq!(t.messages[0].content, "error: gone");
}

#[test]
fn a_response_that_breaks_off_is_shown_and_dropped() {
    let mut reader = StreamReader::new();
    let mut steps = reader.feed_str(
        "data: {\"choices\":[{\"delta\":{\"content\":\"half\"}}]}\n\ndata: {\"choices\":[{\"delta\":{\"tool_calls\":[{\"index\":0,\"id\":\"q\"}]}}]}\n\n",
    );
    steps.extend(reader.close(Some("reset".to_string())));
    assert_eq!(steps.len(), 4);
    let mut t = tui();
    let (mut turn, _) = Turn::begin(&mut t, "go".to_string(), &vec![]);
    let mut action = TurnAction::Listen;
    for step in steps {
        if let (TurnAction::Listen, StreamStep::Emit(e)) = (&action, step) {
            action = turn.on_stream(&mut t, Some(e));
        }
    }
    assert!(matches!(action, TurnAction::Finish));
    assert!(turn.waiting.is_empty());
    assert_eq!(
        chat(&t),
        vec![
            (Role::Assistant, "half".to_string()),
            (Role::Assistant, "error: reset".to_string()),
        ]
    );
    assert_eq!(t.agent.history.messages.len(), 1);
}
