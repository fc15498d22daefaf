//! What holds of a turn at the terminal as a whole.

use vstd::prelude::*;

use crate::cost::{CallCostView, OpenAiUsage};
use crate::history::{assistant_message, tool_message, LlmResponseView, MessageView, Role};
use crate::json::JsonView;
use crate::sse::SseEventView;
use crate::stream::{
    assemble, response_events, start_calls, PartialCallView, StreamEventView, StreamStepView,
};
use crate::stream_laws::{
    calls_after, concat, deltas_in, is_done, law_no_errors_but_those_of_the_transport,
    law_the_end_comes_once_and_last, law_what_a_listener_gets,
    lemma_deltas_are_not_done, run, steps_of, steps_of_delta, tells_end,
};
use crate::tools::ToolCallView;
use crate::tui::{
    after_result, after_round, fresh_round, react_to_event, take_event, KeyCode, ReactionView,
    with_message, RoundState, RoundView, TermEvent, TuiMessageView, TuiView,
};
use crate::turn::{
    conclude, fresh_turn, on_result, on_stream, prompted, request_of, TurnActionView, TurnView,
};

verus! {

/// A turn that begins with a prompt puts one message last in the conversation: the user's, whose
/// content is exactly the prompt. All before it stays, and so does all else at the terminal. The
/// request that is made then asks the model of the agent, carries the whole conversation, the
/// prompt last, and the schemas as they are.
pub proof fn law_a_turn_begins_with_the_prompt(
    tui: TuiView,
    prompt: Seq<char>,
    schemas: Seq<JsonView>,
)
    ensures
        ({
            let after = prompted(tui, prompt);
            let request = request_of(after, schemas);
            &&& after.agent.history.len() == tui.agent.history.len() + 1
            &&& after.agent.history.drop_last() == tui.agent.history
            &&& after.agent.history.last().role is User
            &&& after.agent.history.last().content == prompt
            &&& after.agent.history.last().tool_calls.len() == 0
            &&& after.agent.history.last().tool_call_id is None
            &&& after.agent.model == tui.agent.model
            &&& after.agent.repo_root == tui.agent.repo_root
            &&& after.messages == tui.messages
            &&& after.input == tui.input
            &&& after.status == tui.status
            &&& after.busy == tui.busy
            &&& request.model == tui.agent.model
            &&& request.messages.len() == tui.agent.history.len() + 1
            &&& request.messages.drop_last() == tui.agent.history
            &&& request.messages.last().role is User
            &&& request.messages.last().content == prompt
            &&& request.tools == schemas
        }),
{
    assert(prompted(tui, prompt).agent.history.drop_last() =~= tui.agent.history);
}

/// A request asks the model of the agent with the conversation as it is and all schemas.
pub proof fn law_a_request_is_the_conversation(tui: TuiView, schemas: Seq<JsonView>)
    ensures
        request_of(tui, schemas).model == tui.agent.model,
        request_of(tui, schemas).messages == tui.agent.history,
        request_of(tui, schemas).tools == schemas,
{
}

/// A turn begins with nothing read and no call waiting. An event that neither ends nor fails the
/// round leaves the waiting calls, and the turn listens on. An error finishes the turn with nothing
/// left in it, and leaves the conversation alone.
pub proof fn law_a_turn_listens_until_the_end(
    tui: TuiView,
    turn: TurnView,
    event: StreamEventView,
)
    ensures
        fresh_turn().waiting.len() == 0,
        fresh_turn().round.content.len() == 0,
        fresh_turn().round.tool_calls.len() == 0,
        fresh_turn().round.last_cost is None,
        !(event is Done) && !(event is Error) ==> {
            let (after, next, action) = on_stream(tui, turn, Some(event));
            &&& action is Listen
            &&& next.waiting == turn.waiting
            &&& after == take_event(tui, turn.round, event).0
            &&& next.round == take_event(tui, turn.round, event).1
            &&& after.agent == tui.agent
        },
        event is Error ==> {
            let (after, next, action) = on_stream(tui, turn, Some(event));
            &&& action is Finish
            &&& next.waiting.len() == 0
            &&& next.round.content.len() == 0
            &&& next.round.tool_calls.len() == 0
            &&& after == take_event(tui, turn.round, event).0
            &&& after.agent == tui.agent
        },
{
}

/// The end of a stream, told or not, keeps the message that was read: it is last in the
/// conversation with its content and its calls. All its calls wait then, in their order, and the
/// first is run; without any the turn is over. The next message is read from nothing.
pub proof fn law_the_end_of_a_stream_keeps_the_message(
    tui: TuiView,
    turn: TurnView,
    event: Option<StreamEventView>,
)
    requires
        event is None || event->0 is Done,
    ensures
        ({
            let (after, next, action) = on_stream(tui, turn, event);
            let read = turn.round;
            &&& after.agent.history.len() == tui.agent.history.len() + 1
            &&& after.agent.history.drop_last() == tui.agent.history
            &&& after.agent.history.last().role is Assistant
            &&& after.agent.history.last().content == read.content
            &&& after.agent.history.last().tool_calls == read.tool_calls
            &&& after.agent.model == tui.agent.model
            &&& after.agent.repo_root == tui.agent.repo_root
            &&& after.messages == tui.messages
            &&& after.input == tui.input
            &&& after.busy == tui.busy
            &&& read.last_cost is None ==> after.status == tui.status
            &&& after == after_round(tui, read)
            &&& next.waiting == read.tool_calls
            &&& next.round.content.len() == 0
            &&& next.round.tool_calls.len() == 0
            &&& next.round.last_cost is None
            &&& read.tool_calls.len() == 0 ==> action is Finish
            &&& read.tool_calls.len() > 0 ==> action == TurnActionView::Dispatch(read.tool_calls[0])
        }),
{
    assert(on_stream(tui, turn, event).0.agent.history.drop_last() =~= tui.agent.history);
}

/// A result answers the first call that waits: it comes last in the conversation, in full and under
/// the id of that call. The calls behind it wait on; the next of them is run, and after the last
/// the model is asked again, with the conversation that has the result in it.
pub proof fn law_a_result_answers_the_first_call(
    tui: TuiView,
    turn: TurnView,
    result: Seq<char>,
    schemas: Seq<JsonView>,
)
    requires
        turn.waiting.len() > 0,
    ensures
        ({
            let (after, next, action) = on_result(tui, turn, result, schemas);
            &&& after.agent.history.len() == tui.agent.history.len() + 1
            &&& after.agent.history.drop_last() == tui.agent.history
            &&& after.agent.history.last().role is Tool
            &&& after.agent.history.last().content == result
            &&& after.agent.history.last().tool_call_id == Some(turn.waiting[0].id)
            &&& after.agent.model == tui.agent.model
            &&& after.agent.repo_root == tui.agent.repo_root
            &&& after.messages.len() == tui.messages.len() + 1
            &&& after.messages.last().role is Tool
            &&& after.input == tui.input
            &&& after.status == tui.status
            &&& after.busy == tui.busy
            &&& after == after_result(tui, turn.waiting[0], result)
            &&& next.waiting.len() == turn.waiting.len() - 1
            &&& forall|i: int|
                0 <= i < next.waiting.len() ==> #[trigger] next.waiting[i] == turn.waiting[i + 1]
            &&& next.round == turn.round
            &&& turn.waiting.len() > 1 ==> action == TurnActionView::Dispatch(turn.waiting[1])
            &&& turn.waiting.len() == 1 ==> (action matches TurnActionView::Ask(request)
                && request.model == tui.agent.model && request.messages == after.agent.history
                && request.tools == schemas)
        }),
{
    assert(on_result(tui, turn, result, schemas).0.agent.history.drop_last()
        =~= tui.agent.history);
}

/// A result that no call waits for changes nothing and finishes the turn.
pub proof fn law_a_result_that_nobody_waits_for(
    tui: TuiView,
    turn: TurnView,
    result: Seq<char>,
    schemas: Seq<JsonView>,
)
    requires
        turn.waiting.len() == 0,
    ensures
        on_result(tui, turn, result, schemas).0 == tui,
        on_result(tui, turn, result, schemas).1 == turn,
        on_result(tui, turn, result, schemas).2 is Finish,
{
}

/// What events of a stream do, one after the other, until one ends the round.
pub open spec fn take_events(tui: TuiView, round: RoundView, events: Seq<StreamEventView>) -> (
    TuiView,
    RoundView,
    RoundState,
)
    decreases events.len(),
{
    if events.len() == 0 {
        (tui, round, RoundState::Reading)
    } else {
        let (tui1, round1, state) = take_events(tui, round, events.drop_last());
        if state is Reading {
            take_event(tui1, round1, events.last())
        } else {
            (tui1, round1, state)
        }
    }
}

/// The content in some events.
pub open spec fn content_in(events: Seq<StreamEventView>) -> Seq<char>
    decreases events.len(),
{
    if events.len() == 0 {
        Seq::empty()
    } else {
        match events.last() {
            StreamEventView::Content(delta) => content_in(events.drop_last()) + delta,
            _ => content_in(events.drop_last()),
        }
    }
}

/// The calls in some events.
pub open spec fn calls_in(events: Seq<StreamEventView>) -> Seq<ToolCallView>
    decreases events.len(),
{
    if events.len() == 0 {
        Seq::empty()
    } else {
        match events.last() {
            StreamEventView::ToolCallStart(call) => calls_in(events.drop_last()).push(call),
            _ => calls_in(events.drop_last()),
        }
    }
}

/// The last cost in some events.
pub open spec fn cost_in(events: Seq<StreamEventView>) -> Option<CallCostView>
    decreases events.len(),
{
    if events.len() == 0 {
        None
    } else {
        match events.last() {
            StreamEventView::Cost(cost) => Some(cost),
            _ => cost_in(events.drop_last()),
        }
    }
}

/// The messages that show the content in some events as it comes in.
pub open spec fn shown_of(events: Seq<StreamEventView>) -> Seq<TuiMessageView>
    decreases events.len(),
{
    if events.len() == 0 {
        Seq::empty()
    } else {
        match events.last() {
            StreamEventView::Content(delta) => shown_of(events.drop_last()).push(
                TuiMessageView { role: Role::Assistant, content: delta },
            ),
            _ => shown_of(events.drop_last()),
        }
    }
}

/// Whether no event ends the round.
pub open spec fn all_go_on(events: Seq<StreamEventView>) -> bool {
    forall|i: int|
        0 <= i < events.len() ==> !(#[trigger] events[i] is Done) && !(events[i] is Error)
}

/// Reading collects the content, the calls and the last cost, and shows the content as it comes
/// in; it leaves all else alone.
pub proof fn law_reading_collects(tui: TuiView, events: Seq<StreamEventView>)
    requires
        all_go_on(events),
    ensures
        take_events(tui, fresh_round(), events) == (
            TuiView { messages: tui.messages + shown_of(events), ..tui },
            RoundView {
                content: content_in(events),
                tool_calls: calls_in(events),
                last_cost: cost_in(events),
            },
            RoundState::Reading,
        ),
    decreases events.len(),
{
    if events.len() == 0 {
        assert(tui.messages + shown_of(events) =~= tui.messages);
    } else {
        let front = events.drop_last();
        assert(all_go_on(front)) by {
            assert forall|i: int| 0 <= i < front.len() implies !(#[trigger] front[i] is Done) && !(
            front[i] is Error) by {
                assert(front[i] == events[i]);
            }
        }
        law_reading_collects(tui, front);
        assert(!(events[events.len() - 1] is Done) && !(events[events.len() - 1] is Error));
        assert(take_events(tui, fresh_round(), events).0.messages =~= tui.messages + shown_of(
            events,
        ));
    }
}

proof fn lemma_content_and_calls_add_up(a: Seq<StreamEventView>, b: Seq<StreamEventView>)
    ensures
        content_in(a + b) == content_in(a) + content_in(b),
        calls_in(a + b) == calls_in(a) + calls_in(b),
    decreases b.len(),
{
    if b.len() == 0 {
        assert(a + b =~= a);
        assert(content_in(a) + content_in(b) =~= content_in(a));
        assert(calls_in(a) + calls_in(b) =~= calls_in(a));
    } else {
        assert((a + b).drop_last() =~= a + b.drop_last());
        assert((a + b).last() == b.last());
        lemma_content_and_calls_add_up(a, b.drop_last());
        assert(content_in(a + b) =~= content_in(a) + content_in(b));
        assert(calls_in(a + b) =~= calls_in(a) + calls_in(b));
    }
}

/// The event that a step makes, given what usages cost.
pub open spec fn event_of(
    step: StreamStepView,
    price: spec_fn(OpenAiUsage) -> CallCostView,
) -> StreamEventView {
    match step {
        StreamStepView::Emit(event) => event,
        StreamStepView::Bill(usage) => StreamEventView::Cost(price(usage)),
    }
}

/// The events that steps make.
pub open spec fn events_of(
    steps: Seq<StreamStepView>,
    price: spec_fn(OpenAiUsage) -> CallCostView,
) -> Seq<StreamEventView> {
    steps.map_values(|step: StreamStepView| event_of(step, price))
}

/// What the deltas of a response write.
pub open spec fn written(deltas: Seq<SseEventView>) -> Seq<char>
    decreases deltas.len(),
{
    if deltas.len() == 0 {
        Seq::empty()
    } else {
        match deltas.last() {
            SseEventView::DeltaContent(text) => written(deltas.drop_last()) + text,
            _ => written(deltas.drop_last()),
        }
    }
}

/// The calls of a response, complete.
pub open spec fn assembled(calls: Seq<(usize, PartialCallView)>) -> Seq<ToolCallView> {
    Seq::new(calls.len(), |i: int| assemble(calls[i].1))
}

proof fn lemma_deltas_to_events(
    deltas: Seq<SseEventView>,
    price: spec_fn(OpenAiUsage) -> CallCostView,
)
    requires
        forall|i: int| 0 <= i < deltas.len() ==> !(#[trigger] deltas[i] is Done),
    ensures
        all_go_on(events_of(steps_of(deltas), price)),
        content_in(events_of(steps_of(deltas), price)) == written(deltas),
        calls_in(events_of(steps_of(deltas), price)) == Seq::<ToolCallView>::empty(),
    decreases deltas.len(),
{
    reveal_with_fuel(content_in, 2);
    reveal_with_fuel(calls_in, 2);
    if deltas.len() == 0 {
        assert(events_of(steps_of(deltas), price) =~= Seq::<StreamEventView>::empty());
    } else {
        let front = deltas.drop_last();
        let last = deltas.last();
        assert(!(deltas[deltas.len() - 1] is Done));
        assert forall|i: int| 0 <= i < front.len() implies !(#[trigger] front[i] is Done) by {
            assert(front[i] == deltas[i]);
        }
        lemma_deltas_to_events(front, price);
        let before = events_of(steps_of(front), price);
        let added = events_of(steps_of_delta(last), price);
        let all = events_of(steps_of(deltas), price);
        assert(all =~= before + added);
        lemma_content_and_calls_add_up(before, added);
        match last {
            SseEventView::DeltaContent(text) => {
                assert(added =~= seq![StreamEventView::Content(text)]);
                assert(added.drop_last() =~= Seq::<StreamEventView>::empty());
                assert(content_in(added) =~= text);
            },
            SseEventView::DeltaTool { arguments, .. } => {
                match arguments {
                    Some(a) => {
                        assert(added =~= seq![StreamEventView::ToolCallDelta(a)]);
                        assert(added.drop_last() =~= Seq::<StreamEventView>::empty());
                    },
                    None => {
                        assert(added =~= Seq::<StreamEventView>::empty());
                    },
                }
            },
            SseEventView::Usage(usage) => {
                assert(added =~= seq![StreamEventView::Cost(price(usage))]);
                assert(added.drop_last() =~= Seq::<StreamEventView>::empty());
            },
            SseEventView::Done => {},
        }
        assert(content_in(all) =~= written(deltas));
        assert(calls_in(all) =~= Seq::<ToolCallView>::empty());
        assert(all_go_on(all)) by {
            assert forall|i: int| 0 <= i < all.len() implies !(#[trigger] all[i] is Done) && !(
            all[i] is Error) by {
                if i < before.len() {
                    assert(all[i] == before[i]);
                } else {
                    assert(all[i] == added[i - before.len()]);
                }
            }
        }
    }
}

proof fn lemma_started_calls(
    calls: Seq<(usize, PartialCallView)>,
    price: spec_fn(OpenAiUsage) -> CallCostView,
)
    ensures
        all_go_on(events_of(start_calls(calls), price)),
        content_in(events_of(start_calls(calls), price)) == Seq::<char>::empty(),
        calls_in(events_of(start_calls(calls), price)) == assembled(calls),
    decreases calls.len(),
{
    let events = events_of(start_calls(calls), price);
    if calls.len() == 0 {
        assert(events =~= Seq::<StreamEventView>::empty());
        assert(calls_in(events) =~= assembled(calls));
    } else {
        let front = calls.drop_last();
        lemma_started_calls(front, price);
        assert(events.drop_last() =~= events_of(start_calls(front), price));
        assert(calls_in(events) =~= assembled(calls));
    }
}

/// The message that a turn reads from a streamed response is what the response writes and the
/// calls that it makes, however the response is cut into chunks and whatever usages cost.
pub proof fn law_a_turn_reads_what_was_streamed(
    tui: TuiView,
    chunks: Seq<Seq<char>>,
    price: spec_fn(OpenAiUsage) -> CallCostView,
)
    ensures
        ({
            let deltas = deltas_in(concat(chunks));
            let events = events_of(run(chunks, None), price);
            let (after, round, state) = take_events(tui, fresh_round(), events);
            &&& state is Over
            &&& round.content == written(deltas)
            &&& round.tool_calls == assembled(calls_after(Seq::empty(), deltas))
            &&& after.agent == tui.agent
        }),
{
    let deltas = deltas_in(concat(chunks));
    let calls = calls_after(Seq::empty(), deltas);
    law_what_a_listener_gets(chunks, None);
    lemma_deltas_are_not_done(concat(chunks));
    lemma_deltas_to_events(deltas, price);
    lemma_started_calls(calls, price);
    let first = events_of(steps_of(deltas), price);
    let second = events_of(start_calls(calls), price);
    let events = events_of(run(chunks, None), price);
    let body = first + second;
    assert(events =~= body.push(StreamEventView::Done));
    assert(events.drop_last() =~= body);
    lemma_content_and_calls_add_up(first, second);
    assert(all_go_on(body)) by {
        assert forall|i: int| 0 <= i < body.len() implies !(#[trigger] body[i] is Done) && !(
        body[i] is Error) by {
            if i < first.len() {
                assert(body[i] == first[i]);
            } else {
                assert(body[i] == second[i - first.len()]);
            }
        }
    }
    law_reading_collects(tui, body);
    assert(written(deltas) + Seq::<char>::empty() =~= written(deltas));
    assert(Seq::<ToolCallView>::empty() + assembled(calls) =~= assembled(calls));
}

/// What has come in once a response that was not streamed is read.
pub open spec fn batch_round(response: LlmResponseView) -> RoundView {
    RoundView { content: response.content, tool_calls: response.tool_calls, last_cost: None }
}

proof fn lemma_batch_body(content: Seq<char>, calls: Seq<ToolCallView>, n: nat)
    requires
        n <= calls.len(),
    ensures
        ({
            let events = seq![StreamEventView::Content(content)] + Seq::new(
                n,
                |i: int| StreamEventView::ToolCallStart(calls[i]),
            );
            &&& content_in(events) == content
            &&& calls_in(events) == calls.take(n as int)
            &&& cost_in(events) is None
            &&& shown_of(events) == seq![TuiMessageView { role: Role::Assistant, content }]
            &&& all_go_on(events)
        }),
    decreases n,
{
    let head = seq![StreamEventView::Content(content)];
    let events = head + Seq::new(n, |i: int| StreamEventView::ToolCallStart(calls[i]));
    if n > 0 {
        let m = (n - 1) as nat;
        lemma_batch_body(content, calls, m);
        assert(events.drop_last() =~= head + Seq::new(
            m,
            |i: int| StreamEventView::ToolCallStart(calls[i]),
        ));
        assert(calls_in(events) =~= calls.take(n as int));
    } else {
        reveal_with_fuel(content_in, 2);
        reveal_with_fuel(calls_in, 2);
        reveal_with_fuel(cost_in, 2);
        reveal_with_fuel(shown_of, 2);
        assert(events =~= head);
        assert(events.drop_last() =~= Seq::<StreamEventView>::empty());
        assert(content_in(events) =~= content);
        assert(calls_in(events) =~= calls.take(0));
        assert(shown_of(events) =~= seq![TuiMessageView { role: Role::Assistant, content }]);
    }
}

/// A turn reads a response that was not streamed exactly as it is, however many calls it makes,
/// shows its content, and knows that it is over.
pub proof fn law_a_turn_reads_a_batch(tui: TuiView, response: LlmResponseView)
    ensures
        take_events(tui, fresh_round(), response_events(response)) == (
            with_message(tui, Role::Assistant, response.content),
            batch_round(response),
            RoundState::Over,
        ),
{
    let calls = response.tool_calls;
    let events = response_events(response);
    let body = events.drop_last();
    lemma_batch_body(response.content, calls, calls.len());
    assert(body =~= seq![StreamEventView::Content(response.content)] + Seq::new(
        calls.len(),
        |i: int| StreamEventView::ToolCallStart(calls[i]),
    ));
    assert(calls.take(calls.len() as int) =~= calls);
    law_reading_collects(tui, body);
    assert(tui.messages + shown_of(body) =~= with_message(
        tui,
        Role::Assistant,
        response.content,
    ).messages);
}

/// A character that is typed and then erased, with the control key held or not, leaves everything
/// as it was.
pub proof fn law_erasing_undoes_typing(tui: TuiView, c: char, control: bool)
    requires
        !tui.busy,
    ensures
        ({
            let typed = TermEvent::Key { code: KeyCode::Char(c), pressed: true, control: false };
            let erased = TermEvent::Key { code: KeyCode::Backspace, pressed: true, control };
            react_to_event(react_to_event(tui, typed).0, erased) == (tui, ReactionView::Continue)
        }),
{
    assert(tui.input.push(c).drop_last() =~= tui.input);
}

/// While a turn runs no event changes anything or starts another turn.
pub proof fn law_a_running_turn_is_not_disturbed(tui: TuiView, event: TermEvent)
    requires
        tui.busy,
    ensures
        react_to_event(tui, event).0 == tui,
        !(react_to_event(tui, event).1 is Submit),
{
}

/// Control with c or d leaves at any time, and nothing else does.
pub proof fn law_leaving(tui: TuiView, event: TermEvent)
    ensures
        react_to_event(tui, event).1 is Quit <==> (match event {
            TermEvent::Key { code: KeyCode::Char(c), pressed: true, control: true } => c == 'c' || c
                == 'd',
            _ => false,
        }),
{
}

/// A prompt is never empty, is what was typed, and starts a turn at once.
pub proof fn law_submitting(tui: TuiView, event: TermEvent)
    ensures
        react_to_event(tui, event).1 matches ReactionView::Submit(prompt) ==> {
            &&& prompt.len() > 0
            &&& prompt == tui.input
            &&& react_to_event(tui, event).0.busy
            &&& react_to_event(tui, event).0.input.len() == 0
        },
{
}

/// The terminal after the results of some calls, one after the other.
pub open spec fn after_results(
    tui: TuiView,
    calls: Seq<ToolCallView>,
    results: Seq<Seq<char>>,
) -> TuiView
    decreases results.len(),
{
    if results.len() == 0 {
        tui
    } else {
        after_result(
            after_results(tui, calls, results.drop_last()),
            calls[results.len() - 1],
            results.last(),
        )
    }
}

/// The messages that answer calls, each with the id of its call.
pub open spec fn answers(calls: Seq<ToolCallView>, results: Seq<Seq<char>>) -> Seq<MessageView> {
    Seq::new(results.len(), |i: int| tool_message(calls[i].id, results[i]))
}

/// After a round the conversation goes on with the message that was read and with one answer to
/// each of its calls, in their order and in full.
pub proof fn law_each_call_is_answered(
    tui: TuiView,
    round: RoundView,
    results: Seq<Seq<char>>,
)
    requires
        results.len() <= round.tool_calls.len(),
    ensures
        after_results(after_round(tui, round), round.tool_calls, results).agent.history
            == tui.agent.history.push(assistant_message(round.content, round.tool_calls))
            + answers(round.tool_calls, results),
    decreases results.len(),
{
    let calls = round.tool_calls;
    let start = tui.agent.history.push(assistant_message(round.content, calls));
    if results.len() == 0 {
        assert(start + answers(calls, results) =~= start);
    } else {
        law_each_call_is_answered(tui, round, results.drop_last());
        assert(start + answers(calls, results) =~= (start + answers(calls, results.drop_last())).push(
            tool_message(calls[results.len() - 1].id, results.last()),
        ));
    }
}

/// What events of a stream do to a turn, one after the other, while it listens.
pub open spec fn hear(tui: TuiView, turn: TurnView, events: Seq<StreamEventView>) -> (
    TuiView,
    TurnView,
    TurnActionView,
)
    decreases events.len(),
{
    if events.len() == 0 {
        (tui, turn, TurnActionView::Listen)
    } else {
        let (tui1, turn1, action) = hear(tui, turn, events.drop_last());
        if action is Listen {
            on_stream(tui1, turn1, Some(events.last()))
        } else {
            (tui1, turn1, action)
        }
    }
}

proof fn lemma_hearing_is_reading(tui: TuiView, events: Seq<StreamEventView>)
    requires
        all_go_on(events),
    ensures
        ({
            let (after, round, _) = take_events(tui, fresh_round(), events);
            hear(tui, fresh_turn(), events) == (
                after,
                TurnView { round, ..fresh_turn() },
                TurnActionView::Listen,
            )
        }),
    decreases events.len(),
{
    if events.len() > 0 {
        let front = events.drop_last();
        assert(all_go_on(front)) by {
            assert forall|i: int| 0 <= i < front.len() implies !(#[trigger] front[i] is Done) && !(
            front[i] is Error) by {
                assert(front[i] == events[i]);
            }
        }
        lemma_hearing_is_reading(tui, front);
        law_reading_collects(tui, front);
        assert(!(events[events.len() - 1] is Done) && !(events[events.len() - 1] is Error));
    }
}

/// A streamed response that ends, however it is cut into chunks and whatever usages cost, adds to
/// the conversation one message of the assistant with all that the response writes and all calls
/// that it makes; the first call is run next, and without any the turn is over.
pub proof fn law_a_streamed_response_is_in_the_conversation(
    tui: TuiView,
    chunks: Seq<Seq<char>>,
    price: spec_fn(OpenAiUsage) -> CallCostView,
)
    ensures
        ({
            let deltas = deltas_in(concat(chunks));
            let calls = assembled(calls_after(Seq::empty(), deltas));
            let (after, turn, action) = hear(
                tui,
                fresh_turn(),
                events_of(run(chunks, None), price),
            );
            &&& after.agent.history == tui.agent.history.push(
                assistant_message(written(deltas), calls),
            )
            &&& turn.waiting == calls
            &&& calls.len() > 0 ==> action == TurnActionView::Dispatch(calls[0])
            &&& calls.len() == 0 ==> action == TurnActionView::Finish
        }),
{
    let events = events_of(run(chunks, None), price);
    let body = events.drop_last();
    law_a_turn_reads_what_was_streamed(tui, chunks, price);
    law_the_end_comes_once_and_last(chunks, None);
    law_no_errors_but_those_of_the_transport(chunks);
    let steps = run(chunks, None);
    assert(all_go_on(body)) by {
        assert forall|i: int| 0 <= i < body.len() implies !(#[trigger] body[i] is Done) && !(
        body[i] is Error) by {
            assert(body[i] == event_of(steps[i], price));
            assert(!is_done(steps[i]));
        }
    }
    assert(events.last() == StreamEventView::Done);
    lemma_hearing_is_reading(tui, body);
    law_reading_collects(tui, body);
}

/// A response that was not streamed adds to the conversation one message of the assistant with its
/// content and all its calls; the first call is run next, and without any the turn is over.
pub proof fn law_a_batch_is_in_the_conversation(tui: TuiView, response: LlmResponseView)
    ensures
        ({
            let calls = response.tool_calls;
            let (after, turn, action) = hear(tui, fresh_turn(), response_events(response));
            &&& after.agent.history == tui.agent.history.push(
                assistant_message(response.content, calls),
            )
            &&& turn.waiting == calls
            &&& calls.len() > 0 ==> action == TurnActionView::Dispatch(calls[0])
            &&& calls.len() == 0 ==> action == TurnActionView::Finish
        }),
{
    let calls = response.tool_calls;
    let body = response_events(response).drop_last();
    lemma_batch_body(response.content, calls, calls.len());
    assert(body =~= seq![StreamEventView::Content(response.content)] + Seq::new(
        calls.len(),
        |i: int| StreamEventView::ToolCallStart(calls[i]),
    ));
    assert(calls.take(calls.len() as int) =~= calls);
    lemma_hearing_is_reading(tui, body);
    law_reading_collects(tui, body);
}

proof fn lemma_hearing_stops(
    tui: TuiView,
    turn: TurnView,
    first: Seq<StreamEventView>,
    more: Seq<StreamEventView>,
)
    requires
        !(hear(tui, turn, first).2 is Listen),
    ensures
        hear(tui, turn, first + more) == hear(tui, turn, first),
    decreases more.len(),
{
    if more.len() == 0 {
        assert(first + more =~= first);
    } else {
        lemma_hearing_stops(tui, turn, first, more.drop_last());
        assert((first + more).drop_last() =~= first + more.drop_last());
    }
}

/// A streamed response that breaks off with an error before it tells its end finishes the turn.
/// What it wrote and the error are shown, no call of it is run, and nothing of it is in the
/// conversation.
pub proof fn law_a_broken_response_is_not_in_the_conversation(
    tui: TuiView,
    chunks: Seq<Seq<char>>,
    error: Seq<char>,
    price: spec_fn(OpenAiUsage) -> CallCostView,
)
    requires
        !tells_end(concat(chunks)),
    ensures
        hear(tui, fresh_turn(), events_of(run(chunks, Some(error)), price)) == (
            TuiView {
                messages: (tui.messages + shown_of(
                    events_of(steps_of(deltas_in(concat(chunks))), price),
                )).push(TuiMessageView { role: Role::Assistant, content: "error: "@ + error }),
                ..tui
            },
            fresh_turn(),
            TurnActionView::Finish,
        ),
{
    let deltas = deltas_in(concat(chunks));
    law_what_a_listener_gets(chunks, Some(error));
    lemma_deltas_are_not_done(concat(chunks));
    lemma_deltas_to_events(deltas, price);
    let body = events_of(steps_of(deltas), price);
    let failed = body.push(StreamEventView::Error(error));
    let events = events_of(run(chunks, Some(error)), price);
    let more = events.skip(failed.len() as int);
    assert(events =~= failed + more);
    assert(failed.drop_last() =~= body);
    lemma_hearing_is_reading(tui, body);
    law_reading_collects(tui, body);
    lemma_hearing_stops(tui, fresh_turn(), failed, more);
}

/// What the results of calls do to a turn, one after the other.
pub open spec fn answer_all(
    tui: TuiView,
    turn: TurnView,
    results: Seq<Seq<char>>,
    schemas: Seq<JsonView>,
) -> (TuiView, TurnView, TurnActionView)
    decreases results.len(),
{
    if results.len() == 0 {
        (tui, turn, TurnActionView::Listen)
    } else {
        let (tui1, turn1, _) = answer_all(tui, turn, results.drop_last(), schemas);
        on_result(tui1, turn1, results.last(), schemas)
    }
}

/// The calls of a message are run in their order, each once, and after the result of the last the
/// model is asked again with all results in the conversation.
pub proof fn law_calls_are_run_in_order(
    tui: TuiView,
    round: RoundView,
    results: Seq<Seq<char>>,
    schemas: Seq<JsonView>,
)
    requires
        0 < results.len() <= round.tool_calls.len(),
    ensures
        ({
            let calls = round.tool_calls;
            let (start, turn, first) = conclude(tui, round);
            let (after, rest, action) = answer_all(start, turn, results, schemas);
            &&& first == TurnActionView::Dispatch(calls[0])
            &&& after.agent.history == tui.agent.history.push(
                assistant_message(round.content, calls),
            ) + answers(calls, results)
            &&& rest.waiting == calls.skip(results.len() as int)
            &&& action == (if results.len() < calls.len() {
                TurnActionView::Dispatch(calls[results.len() as int])
            } else {
                TurnActionView::Ask(request_of(after, schemas))
            })
        }),
{
    let (start, turn, _) = conclude(tui, round);
    lemma_answering(start, turn, results, schemas);
    law_each_call_is_answered(tui, round, results);
}

proof fn lemma_answering(
    tui: TuiView,
    turn: TurnView,
    results: Seq<Seq<char>>,
    schemas: Seq<JsonView>,
)
    requires
        results.len() <= turn.waiting.len(),
    ensures
        ({
            let (after, rest, action) = answer_all(tui, turn, results, schemas);
            &&& after == after_results(tui, turn.waiting, results)
            &&& rest.waiting == turn.waiting.skip(results.len() as int)
            &&& results.len() > 0 ==> action == (if results.len() < turn.waiting.len() {
                TurnActionView::Dispatch(turn.waiting[results.len() as int])
            } else {
                TurnActionView::Ask(request_of(after, schemas))
            })
        }),
    decreases results.len(),
{
    let calls = turn.waiting;
    if results.len() == 0 {
        assert(calls.skip(0) =~= calls);
    } else {
        let n = results.len() - 1;
        lemma_answering(tui, turn, results.drop_last(), schemas);
        assert(calls.skip(n)[0] == calls[n]);
        assert(calls.skip(n).skip(1) =~= calls.skip(n + 1));
        if n + 1 < calls.len() {
            assert(calls.skip(n + 1)[0] == calls[n + 1]);
        }
    }
}

} // verus!
