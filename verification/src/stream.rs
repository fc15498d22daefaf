//! Streamed completions: from the bytes of the response to the events that a listener gets.

use vstd::prelude::*;
use vstd::utf8::{decode_utf8, valid_utf8};

use crate::cost::{CallCost, CallCostView, OpenAiUsage};
use crate::history::{LlmResponse, LlmResponseView};
use crate::sse::{parse_sse_event, sse_event, SseEvent, SseEventView};
use crate::text::{blank_line, chars_of, find_blank_line, lemma_blank_line, text_between};
use crate::tools::{arguments_of, read_arguments, ToolCall, ToolCallView};

verus! {

/// Events emitted during a streamed call.
#[derive(Debug)]
pub enum StreamEvent {
    /// accumulated content delta
    Content(String),
    /// tool call fully assembled (emitted once per call when complete)
    ToolCallStart(ToolCall),
    /// tool call argument fragment (for live display)
    ToolCallDelta(String),
    /// final usage/cost for this call
    Cost(CallCost),
    /// stream finished, no more events
    Done,
    /// non-fatal stream error
    Error(String),
}

pub enum StreamEventView {
    Content(Seq<char>),
    ToolCallStart(ToolCallView),
    ToolCallDelta(Seq<char>),
    Cost(CallCostView),
    Done,
    Error(Seq<char>),
}

impl DeepView for StreamEvent {
    type V = StreamEventView;

    open spec fn deep_view(&self) -> StreamEventView {
        match *self {
            StreamEvent::Content(text) => StreamEventView::Content(text@),
            StreamEvent::ToolCallStart(call) => StreamEventView::ToolCallStart(call.deep_view()),
            StreamEvent::ToolCallDelta(text) => StreamEventView::ToolCallDelta(text@),
            StreamEvent::Cost(cost) => StreamEventView::Cost(cost.deep_view()),
            StreamEvent::Done => StreamEventView::Done,
            StreamEvent::Error(text) => StreamEventView::Error(text@),
        }
    }
}

impl Clone for StreamEvent {
    fn clone(&self) -> (copy: Self)
        ensures
            copy.deep_view() == self.deep_view(),
    {
        match self {
            StreamEvent::Content(text) => StreamEvent::Content(text.clone()),
            StreamEvent::ToolCallStart(call) => StreamEvent::ToolCallStart(call.clone()),
            StreamEvent::ToolCallDelta(text) => StreamEvent::ToolCallDelta(text.clone()),
            StreamEvent::Cost(cost) => StreamEvent::Cost(cost.clone()),
            StreamEvent::Done => StreamEvent::Done,
            StreamEvent::Error(text) => StreamEvent::Error(text.clone()),
        }
    }
}

/// What to do next for the listener.
#[derive(Debug)]
pub enum StreamStep {
    /// Emit an event.
    Emit(StreamEvent),
    /// Price a usage, record the cost and emit it.
    Bill(OpenAiUsage),
}

pub enum StreamStepView {
    Emit(StreamEventView),
    Bill(OpenAiUsage),
}

impl DeepView for StreamStep {
    type V = StreamStepView;

    open spec fn deep_view(&self) -> StreamStepView {
        match *self {
            StreamStep::Emit(event) => StreamStepView::Emit(event.deep_view()),
            StreamStep::Bill(usage) => StreamStepView::Bill(usage),
        }
    }
}

/// A tool call of which fragments have arrived.
#[derive(Debug)]
pub struct PartialCall {
    pub id: String,
    pub name: String,
    pub arguments: String,
}

pub struct PartialCallView {
    pub id: Seq<char>,
    pub name: Seq<char>,
    pub arguments: Seq<char>,
}

impl DeepView for PartialCall {
    type V = PartialCallView;

    open spec fn deep_view(&self) -> PartialCallView {
        PartialCallView { id: self.id@, name: self.name@, arguments: self.arguments@ }
    }
}

/// A call before any fragment.
pub open spec fn no_fragments() -> PartialCallView {
    PartialCallView { id: Seq::empty(), name: Seq::empty(), arguments: Seq::empty() }
}

/// A call with one more fragment: a later id or name replaces an earlier one, arguments add up.
pub open spec fn extend_call(
    call: PartialCallView,
    id: Option<Seq<char>>,
    name: Option<Seq<char>>,
    arguments: Option<Seq<char>>,
) -> PartialCallView {
    PartialCallView {
        id: match id {
            Some(i) => i,
            None => call.id,
        },
        name: match name {
            Some(n) => n,
            None => call.name,
        },
        arguments: match arguments {
            Some(a) => call.arguments + a,
            None => call.arguments,
        },
    }
}

/// Where the call of an index stands, or the number of calls where it has not arrived.
pub open spec fn call_at(calls: Seq<(usize, PartialCallView)>, index: usize) -> nat
    decreases calls.len(),
{
    if calls.len() == 0 || calls[0].0 == index {
        0
    } else {
        1 + call_at(calls.skip(1), index)
    }
}

/// The calls with one more fragment. A call that is new comes last.
pub open spec fn note_fragment(
    calls: Seq<(usize, PartialCallView)>,
    index: usize,
    id: Option<Seq<char>>,
    name: Option<Seq<char>>,
    arguments: Option<Seq<char>>,
) -> Seq<(usize, PartialCallView)> {
    let at = call_at(calls, index) as int;
    if at < calls.len() {
        calls.update(at, (index, extend_call(calls[at].1, id, name, arguments)))
    } else {
        calls.push((index, extend_call(no_fragments(), id, name, arguments)))
    }
}

/// Whether no index occurs twice.
pub open spec fn distinct_calls(calls: Seq<(usize, PartialCallView)>) -> bool {
    forall|i: int, j: int|
        0 <= i < j < calls.len() ==> (#[trigger] calls[i]).0 != (#[trigger] calls[j]).0
}

/// A call whose fragments are complete.
pub open spec fn assemble(call: PartialCallView) -> ToolCallView {
    ToolCallView { id: call.id, name: call.name, arguments: arguments_of(call.arguments) }
}

/// The steps that hand out the calls, in the order in which they arrived.
pub open spec fn start_calls(calls: Seq<(usize, PartialCallView)>) -> Seq<StreamStepView> {
    Seq::new(
        calls.len(),
        |i: int| StreamStepView::Emit(StreamEventView::ToolCallStart(assemble(calls[i].1))),
    )
}

/// The state of a stream: the text of the event that is not complete, the calls that have
/// arrived, each with its index, and whether the end was told.
pub struct ReaderView {
    pub pending: Seq<char>,
    pub calls: Seq<(usize, PartialCallView)>,
    pub finished: bool,
}

/// The state before the first byte.
pub open spec fn fresh_reader() -> ReaderView {
    ReaderView { pending: Seq::empty(), calls: Seq::empty(), finished: false }
}

/// The end: the calls are handed out, then the listener is told.
pub open spec fn finish(reader: ReaderView) -> (ReaderView, Seq<StreamStepView>) {
    (
        ReaderView { pending: Seq::empty(), calls: Seq::empty(), finished: true },
        start_calls(reader.calls).push(StreamStepView::Emit(StreamEventView::Done)),
    )
}

/// What an event does.
pub open spec fn react(reader: ReaderView, event: SseEventView) -> (
    ReaderView,
    Seq<StreamStepView>,
) {
    match event {
        SseEventView::DeltaContent(text) => (
            reader,
            seq![StreamStepView::Emit(StreamEventView::Content(text))],
        ),
        SseEventView::DeltaTool { index, id, name, arguments } => (
            ReaderView {
                calls: note_fragment(reader.calls, index, id, name, arguments),
                ..reader
            },
            match arguments {
                Some(a) => seq![StreamStepView::Emit(StreamEventView::ToolCallDelta(a))],
                None => Seq::empty(),
            },
        ),
        SseEventView::Usage(usage) => (reader, seq![StreamStepView::Bill(usage)]),
        SseEventView::Done => finish(reader),
    }
}

/// What the text of an event does: nothing, where it says nothing.
pub open spec fn react_to(reader: ReaderView, raw: Seq<char>) -> (ReaderView, Seq<StreamStepView>) {
    match sse_event(raw) {
        Some(event) => react(reader, event),
        None => (reader, Seq::empty()),
    }
}

/// The state after the first complete event is taken out of the text.
pub open spec fn after_event(reader: ReaderView, end: nat) -> ReaderView {
    ReaderView { pending: reader.pending.skip(end as int + 2), ..reader }
}

/// Takes all complete events out of the text, up to one that ends the stream.
pub open spec fn drain(reader: ReaderView) -> (ReaderView, Seq<StreamStepView>)
    decreases reader.pending.len(),
{
    if reader.finished {
        (reader, Seq::empty())
    } else {
        match blank_line(reader.pending) {
            Some(end) => {
                proof {
                    lemma_blank_line(reader.pending);
                }
                let (next, steps) = react_to(
                    after_event(reader, end),
                    reader.pending.take(end as int),
                );
                let (last, more) = drain(next);
                (last, steps + more)
            },
            None => (reader, Seq::empty()),
        }
    }
}

/// What more text does. After the end it does nothing.
pub open spec fn feed_text(reader: ReaderView, text: Seq<char>) -> (
    ReaderView,
    Seq<StreamStepView>,
) {
    if reader.finished {
        (reader, Seq::empty())
    } else {
        drain(ReaderView { pending: reader.pending + text, ..reader })
    }
}

/// What the end of the response does, where nothing told the end before it: an error is passed
/// on, and then the stream is finished.
pub open spec fn close(reader: ReaderView, error: Option<Seq<char>>) -> (
    ReaderView,
    Seq<StreamStepView>,
) {
    if reader.finished {
        (reader, Seq::empty())
    } else {
        let (last, steps) = finish(reader);
        match error {
            Some(e) => (last, seq![StreamStepView::Emit(StreamEventView::Error(e))] + steps),
            None => (last, steps),
        }
    }
}

/// The events of a response that was not streamed: its content at once, its calls and the end.
pub open spec fn response_events(response: LlmResponseView) -> Seq<StreamEventView> {
    seq![StreamEventView::Content(response.content)] + Seq::new(
        response.tool_calls.len(),
        |i: int| StreamEventView::ToolCallStart(response.tool_calls[i]),
    ) + seq![StreamEventView::Done]
}

/// The events that stand for a response that was not streamed.
pub fn events_of_response(response: LlmResponse) -> (events: Vec<StreamEvent>)
    ensures
        events.deep_view() == response_events(response.deep_view()),
{
    let ghost whole = response_events(response.deep_view());
    let ghost calls = response.tool_calls.deep_view();
    let mut events: Vec<StreamEvent> = Vec::new();
    events.push(StreamEvent::Content(response.content));
    assert(events.deep_view() =~= whole.take(1));
    let tool_calls = response.tool_calls;
    for call in it: tool_calls
        invariant
            it.seq() == tool_calls@,
            calls == tool_calls.deep_view(),
            whole == response_events(LlmResponseView { content: response.content@, tool_calls: calls }),
            events.deep_view() == whole.take(1 + it.index()),
    {
        let ghost now = events.deep_view();
        let ghost at = it.index();
        assert(calls[at] == tool_calls@[at].deep_view());
        events.push(StreamEvent::ToolCallStart(call));
        assert(events.deep_view() =~= now.push(whole[1 + at]));
        assert(events.deep_view() =~= whole.take(2 + at));
    }
    let ghost now = events.deep_view();
    events.push(StreamEvent::Done);
    assert(events.deep_view() =~= now.push(StreamEventView::Done));
    assert(events.deep_view() =~= whole);
    events
}

/// The text that `String::from_utf8_lossy` makes of bytes that are not UTF-8.
pub uninterp spec fn utf8_lossy(bytes: Seq<u8>) -> Seq<char>;

/// The text of a chunk.
pub open spec fn chunk_text(bytes: Seq<u8>) -> Seq<char> {
    if valid_utf8(bytes) {
        decode_utf8(bytes)
    } else {
        utf8_lossy(bytes)
    }
}

/// Decodes bytes with `String::from_utf8_lossy`. Of bytes that are UTF-8 it is the text that they
/// encode; of others it is a function of the bytes, which [`utf8_lossy`] names.
#[verifier::external_body]
fn decode_chunk(bytes: &[u8]) -> (text: String)
    ensures
        valid_utf8(bytes@) ==> text@ == decode_utf8(bytes@),
        !valid_utf8(bytes@) ==> text@ == utf8_lossy(bytes@),
{
    String::from_utf8_lossy(bytes).into_owned()
}

/// Reads a streamed response.
#[derive(Debug)]
pub struct StreamReader {
    pending: Vec<char>,
    calls: Vec<(usize, PartialCall)>,
    finished: bool,
}

impl DeepView for StreamReader {
    type V = ReaderView;

    closed spec fn deep_view(&self) -> ReaderView {
        ReaderView {
            pending: self.pending@,
            calls: self.calls.deep_view(),
            finished: self.finished,
        }
    }
}

proof fn lemma_call_at(calls: Seq<(usize, PartialCallView)>, index: usize, at: int)
    requires
        0 <= at <= calls.len(),
        forall|i: int| 0 <= i < at ==> (#[trigger] calls[i]).0 != index,
        at < calls.len() ==> calls[at].0 == index,
    ensures
        call_at(calls, index) == at,
    decreases calls.len(),
{
    if at > 0 {
        assert(calls[0].0 != index);
        let rest = calls.skip(1);
        assert forall|i: int| 0 <= i < at - 1 implies (#[trigger] rest[i]).0 != index by {
            assert(calls[i + 1].0 != index);
        }
        lemma_call_at(rest, index, at - 1);
    }
}

impl StreamReader {
    pub fn new() -> (reader: Self)
        ensures
            reader.deep_view() == fresh_reader(),
    {
        let reader = StreamReader { pending: Vec::new(), calls: Vec::new(), finished: false };
        assert(reader.calls.deep_view() =~= Seq::<(usize, PartialCallView)>::empty());
        reader
    }

    /// Whether the listener was told the end.
    pub fn is_finished(&self) -> (yes: bool)
        ensures
            yes == self.deep_view().finished,
    {
        self.finished
    }

    fn find_call(&self, index: usize) -> (at: usize)
        ensures
            at == call_at(self.calls.deep_view(), index),
            at <= self.calls@.len(),
    {
        let ghost calls = self.calls.deep_view();
        let mut at: usize = 0;
        while at < self.calls.len() && self.calls[at].0 != index
            invariant
                calls == self.calls.deep_view(),
                at <= self.calls@.len(),
                forall|i: int| 0 <= i < at ==> (#[trigger] calls[i]).0 != index,
            decreases self.calls@.len() - at,
        {
            assert(calls[at as int] == self.calls@[at as int].deep_view());
            at = at + 1;
        }
        proof {
            if at < calls.len() {
                assert(calls[at as int] == self.calls@[at as int].deep_view());
            }
            lemma_call_at(calls, index, at as int);
        }
        at
    }

    fn note(
        &mut self,
        index: usize,
        id: Option<String>,
        name: Option<String>,
        arguments: &Option<String>,
    )
        ensures
            final(self).deep_view() == (ReaderView {
                calls: note_fragment(
                    old(self).deep_view().calls,
                    index,
                    id.deep_view(),
                    name.deep_view(),
                    arguments.deep_view(),
                ),
                ..old(self).deep_view()
            }),
    {
        let at = self.find_call(index);
        let known = at < self.calls.len();
        let ghost before = self.calls.deep_view();
        let mut call = if known {
            assert(before[at as int] == self.calls@[at as int].deep_view());
            self.calls.remove(at).1
        } else {
            PartialCall { id: String::new(), name: String::new(), arguments: String::new() }
        };
        if let Some(i) = id {
            call.id = i;
        }
        if let Some(n) = name {
            call.name = n;
        }
        if let Some(a) = arguments {
            call.arguments.append(a.as_str());
        }
        if known {
            self.calls.insert(at, (index, call));
            assert(self.calls.deep_view() =~= before.update(at as int, (index, call.deep_view())));
        } else {
            self.calls.push((index, call));
            assert(self.calls.deep_view() =~= before.push((index, call.deep_view())));
        }
    }

    /// Hands out the calls and tells the end.
    fn finish_into(&mut self, steps: &mut Vec<StreamStep>)
        ensures
            final(self).deep_view() == finish(old(self).deep_view()).0,
            final(steps).deep_view() == old(steps).deep_view() + finish(old(self).deep_view()).1,
    {
        let mut calls: Vec<(usize, PartialCall)> = Vec::new();
        std::mem::swap(&mut calls, &mut self.calls);
        let ghost all = calls.deep_view();
        let ghost before = steps.deep_view();
        assert(steps.deep_view() =~= before + start_calls(all).take(0));
        for entry in it: calls
            invariant
                it.seq() == calls@,
                all == calls.deep_view(),
                steps.deep_view() == before + start_calls(all).take(it.index()),
        {
            let ghost now = steps.deep_view();
            let ghost at = it.index();
            assert(all[at] == calls@[at].deep_view());
            let call = entry.1;
            let arguments = read_arguments(call.arguments);
            let started = ToolCall { id: call.id, name: call.name, arguments };
            assert(started.deep_view() == assemble(all[at].1));
            steps.push(StreamStep::Emit(StreamEvent::ToolCallStart(started)));
            proof {
                assert(steps.deep_view() =~= now.push(start_calls(all)[at]));
                assert(start_calls(all).take(at + 1) =~= start_calls(all).take(at).push(
                    start_calls(all)[at],
                ));
                assert(steps.deep_view() =~= before + start_calls(all).take(at + 1));
            }
        }
        let ghost now = steps.deep_view();
        assert(start_calls(all).take(all.len() as int) =~= start_calls(all));
        steps.push(StreamStep::Emit(StreamEvent::Done));
        assert(steps.deep_view() =~= now.push(StreamStepView::Emit(StreamEventView::Done)));
        self.pending = Vec::new();
        self.finished = true;
        assert(self.calls.deep_view() =~= Seq::<(usize, PartialCallView)>::empty());
        assert(steps.deep_view() =~= before + finish(old(self).deep_view()).1);
    }

    fn react_into(&mut self, event: SseEvent, steps: &mut Vec<StreamStep>)
        ensures
            final(self).deep_view() == react(old(self).deep_view(), event.deep_view()).0,
            final(steps).deep_view() == old(steps).deep_view() + react(
                old(self).deep_view(),
                event.deep_view(),
            ).1,
    {
        let ghost before = steps.deep_view();
        let ghost after = before + react(self.deep_view(), event.deep_view()).1;
        match event {
            SseEvent::DeltaContent(text) => {
                steps.push(StreamStep::Emit(StreamEvent::Content(text)));
                assert(steps.deep_view() =~= after);
            },
            SseEvent::DeltaTool { index, id, name, arguments } => {
                self.note(index, id, name, &arguments);
                if let Some(a) = arguments {
                    steps.push(StreamStep::Emit(StreamEvent::ToolCallDelta(a)));
                }
                assert(steps.deep_view() =~= after);
            },
            SseEvent::Usage(usage) => {
                steps.push(StreamStep::Bill(usage));
                assert(steps.deep_view() =~= after);
            },
            SseEvent::Done => {
                self.finish_into(steps);
            },
        }
    }

    /// Takes in more text of the response.
    pub fn feed_str(&mut self, text: &str) -> (steps: Vec<StreamStep>)
        ensures
            (final(self).deep_view(), steps.deep_view()) == feed_text(old(self).deep_view(), text@),
    {
        let mut steps: Vec<StreamStep> = Vec::new();
        assert(steps.deep_view() =~= Seq::<StreamStepView>::empty());
        if self.finished {
            return steps;
        }
        let mut more = chars_of(text);
        self.pending.append(&mut more);
        let ghost whole = self.deep_view();
        assert(whole == ReaderView {
            pending: old(self).deep_view().pending + text@,
            ..old(self).deep_view()
        });
        assert(steps.deep_view() + drain(whole).1 =~= drain(whole).1);
        loop
            invariant_except_break
                !self.finished,
            invariant
                drain(self.deep_view()).0 == drain(whole).0,
                steps.deep_view() + drain(self.deep_view()).1 == drain(whole).1,
            ensures
                self.deep_view() == drain(whole).0,
                steps.deep_view() == drain(whole).1,
            decreases self.pending@.len(),
        {
            let ghost now = self.deep_view();
            let ghost before = steps.deep_view();
            match find_blank_line(&self.pending) {
                None => {
                    assert(steps.deep_view() + drain(now).1 =~= steps.deep_view());
                    break;
                },
                Some(end) => {
                    let raw = text_between(&self.pending, 0, end);
                    assert(end + 2 <= self.pending.len());
                    let rest = self.pending.split_off(end + 2);
                    self.pending = rest;
                    assert(raw@ =~= now.pending.take(end as int));
                    assert(self.deep_view() == after_event(now, end as nat));
                    if let Some(event) = parse_sse_event(raw.as_str()) {
                        self.react_into(event, &mut steps);
                    }
                    proof {
                        let (next, out) = react_to(after_event(now, end as nat), raw@);
                        assert(steps.deep_view() =~= before + out);
                        assert(self.deep_view() == next);
                        assert(drain(now) == (drain(next).0, out + drain(next).1));
                        assert(steps.deep_view() + drain(next).1 =~= before + drain(now).1);
                    }
                    if self.finished {
                        assert(drain(self.deep_view()).1 =~= Seq::<StreamStepView>::empty());
                        assert(steps.deep_view() + drain(self.deep_view()).1 =~= steps.deep_view());
                        break;
                    }
                },
            }
        }
        steps
    }

    /// Takes in a chunk of the response.
    pub fn feed(&mut self, bytes: &[u8]) -> (steps: Vec<StreamStep>)
        ensures
            (final(self).deep_view(), steps.deep_view()) == feed_text(
                old(self).deep_view(),
                chunk_text(bytes@),
            ),
    {
        let text = decode_chunk(bytes);
        self.feed_str(text.as_str())
    }

    /// Takes in the end of the response, or the error that it broke off with.
    pub fn close(&mut self, error: Option<String>) -> (steps: Vec<StreamStep>)
        ensures
            (final(self).deep_view(), steps.deep_view()) == close(
                old(self).deep_view(),
                error.deep_view(),
            ),
    {
        let mut steps: Vec<StreamStep> = Vec::new();
        assert(steps.deep_view() =~= Seq::<StreamStepView>::empty());
        if self.finished {
            return steps;
        }
        if let Some(e) = error {
            steps.push(StreamStep::Emit(StreamEvent::Error(e)));
        }
        self.finish_into(&mut steps);
        assert(steps.deep_view() =~= close(old(self).deep_view(), error.deep_view()).1);
        steps
    }
}

} // verus!
