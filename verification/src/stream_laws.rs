//! What holds of a streamed response as a whole.

use vstd::prelude::*;
use vstd::utf8::{
    decode_utf8, pop_first_scalar, valid_utf8, valid_utf8_concat,
};

use crate::history::LlmResponseView;
use crate::sse::{sse_event, SseEventView};
use crate::stream::{
    after_event, call_at, chunk_text, close, distinct_calls, drain, extend_call,
    feed_text, fresh_reader, no_fragments, note_fragment, react, react_to, response_events,
    start_calls, PartialCallView, ReaderView, StreamEventView, StreamStepView,
};
use crate::text::{blank_line, lemma_blank_line, lemma_blank_line_first};

verus! {

/// Text appended to what is pending.
pub open spec fn with_more(reader: ReaderView, text: Seq<char>) -> ReaderView {
    ReaderView { pending: reader.pending + text, ..reader }
}

proof fn lemma_drain_more(reader: ReaderView, text: Seq<char>)
    requires
        !reader.finished,
    ensures
        drain(with_more(reader, text)) == ({
            let (mid, steps) = drain(reader);
            let (last, more) = feed_text(mid, text);
            (last, steps + more)
        }),
    decreases reader.pending.len(),
{
    let longer = with_more(reader, text);
    lemma_blank_line(reader.pending);
    match blank_line(reader.pending) {
        None => {
            let (last, more) = feed_text(reader, text);
            assert(Seq::<StreamStepView>::empty() + more =~= more);
        },
        Some(end) => {
            let n = end as int;
            let p = reader.pending;
            let q = longer.pending;
            assert forall|i: int| 0 <= i < n implies !(#[trigger] q[i] == '\n' && q[i + 1]
                == '\n') by {
                assert(q[i] == p[i] && q[i + 1] == p[i + 1]);
            }
            lemma_blank_line_first(q, n);
            assert(q.take(n) =~= p.take(n));
            assert(q.skip(n + 2) =~= p.skip(n + 2) + text);
            let here = after_event(reader, end);
            assert(after_event(longer, end) == with_more(here, text));
            let (next, steps) = react_to(here, p.take(n));
            let (next2, steps2) = react_to(with_more(here, text), p.take(n));
            assert(steps2 == steps);
            if next.finished {
                assert(next2 == next);
                assert(drain(next) == (next, Seq::<StreamStepView>::empty()));
                assert(drain(reader) == (next, steps + Seq::<StreamStepView>::empty()));
                assert(feed_text(next, text) == (next, Seq::<StreamStepView>::empty()));
                assert(steps + Seq::<StreamStepView>::empty() + Seq::<StreamStepView>::empty()
                    =~= steps + Seq::<StreamStepView>::empty());
            } else {
                assert(next2 == with_more(next, text));
                lemma_drain_more(next, text);
                let (mid, more) = drain(next);
                let (last, rest) = feed_text(mid, text);
                assert(steps + (more + rest) =~= (steps + more) + rest);
            }
        },
    }
}

/// Where a response is cut into chunks makes no difference: two texts do what both in one do.
pub proof fn law_cuts_make_no_difference(reader: ReaderView, first: Seq<char>, second: Seq<char>)
    ensures
        feed_text(reader, first + second) == ({
            let (mid, steps) = feed_text(reader, first);
            let (last, more) = feed_text(mid, second);
            (last, steps + more)
        }),
{
    if reader.finished {
        assert(Seq::<StreamStepView>::empty() + Seq::<StreamStepView>::empty() =~= Seq::<
            StreamStepView,
        >::empty());
    } else {
        let longer = with_more(reader, first);
        lemma_drain_more(longer, second);
        assert(reader.pending + first + second =~= reader.pending + (first + second));
    }
}

/// Texts one after the other.
pub open spec fn concat(texts: Seq<Seq<char>>) -> Seq<char>
    decreases texts.len(),
{
    if texts.len() == 0 {
        Seq::empty()
    } else {
        concat(texts.drop_last()) + texts.last()
    }
}

/// What chunks do, one after the other.
pub open spec fn feed_all(reader: ReaderView, chunks: Seq<Seq<char>>) -> (
    ReaderView,
    Seq<StreamStepView>,
)
    decreases chunks.len(),
{
    if chunks.len() == 0 {
        (reader, Seq::empty())
    } else {
        let (mid, steps) = feed_all(reader, chunks.drop_last());
        let (last, more) = feed_text(mid, chunks.last());
        (last, steps + more)
    }
}

/// All steps of a response: those of its chunks, then those of its end or of the error that it
/// broke off with.
pub open spec fn run(chunks: Seq<Seq<char>>, error: Option<Seq<char>>) -> Seq<StreamStepView> {
    let (reader, steps) = feed_all(fresh_reader(), chunks);
    steps + close(reader, error).1
}

/// Any number of chunks do what their text does in one.
pub proof fn law_chunks_do_what_their_text_does(chunks: Seq<Seq<char>>)
    ensures
        feed_all(fresh_reader(), chunks) == feed_text(fresh_reader(), concat(chunks)),
    decreases chunks.len(),
{
    if chunks.len() == 0 {
        assert(fresh_reader().pending + Seq::<char>::empty() =~= Seq::<char>::empty());
    } else {
        law_chunks_do_what_their_text_does(chunks.drop_last());
        law_cuts_make_no_difference(
            fresh_reader(),
            concat(chunks.drop_last()),
            chunks.last(),
        );
    }
}

/// Bytes that are cut between characters decode to the text that they decode to in one.
pub proof fn law_bytes_cut_between_characters(first: Seq<u8>, second: Seq<u8>)
    requires
        valid_utf8(first),
        valid_utf8(second),
    ensures
        chunk_text(first + second) == chunk_text(first) + chunk_text(second),
    decreases first.len(),
{
    valid_utf8_concat(first, second);
    if first.len() == 0 {
        assert(first + second =~= second);
        assert(chunk_text(first) + chunk_text(second) =~= chunk_text(second));
    } else {
        let rest = pop_first_scalar(first);
        assert(pop_first_scalar(first + second) =~= rest + second);
        law_bytes_cut_between_characters(rest, second);
        assert(decode_utf8(first + second) =~= decode_utf8(first) + decode_utf8(second));
    }
}

/// What the complete events of a text say, up to the one that tells the end.
pub open spec fn deltas_in(text: Seq<char>) -> Seq<SseEventView>
    decreases text.len(),
{
    match blank_line(text) {
        Some(end) => {
            proof {
                lemma_blank_line(text);
            }
            match sse_event(text.take(end as int)) {
                Some(SseEventView::Done) => Seq::empty(),
                Some(event) => seq![event] + deltas_in(text.skip(end as int + 2)),
                None => deltas_in(text.skip(end as int + 2)),
            }
        },
        None => Seq::empty(),
    }
}

/// Whether a complete event of a text tells the end.
pub open spec fn tells_end(text: Seq<char>) -> bool
    decreases text.len(),
{
    match blank_line(text) {
        Some(end) => {
            proof {
                lemma_blank_line(text);
            }
            sse_event(text.take(end as int)) == Some(SseEventView::Done) || tells_end(
                text.skip(end as int + 2),
            )
        },
        None => false,
    }
}

/// The steps that one delta asks for at once.
pub open spec fn steps_of_delta(delta: SseEventView) -> Seq<StreamStepView> {
    react(fresh_reader(), delta).1
}

/// The calls after one delta.
pub open spec fn calls_after_delta(
    calls: Seq<(usize, PartialCallView)>,
    delta: SseEventView,
) -> Seq<(usize, PartialCallView)> {
    match delta {
        SseEventView::DeltaTool { index, id, name, arguments } => note_fragment(
            calls,
            index,
            id,
            name,
            arguments,
        ),
        _ => calls,
    }
}

/// The steps that deltas ask for at once, in their order.
pub open spec fn steps_of(deltas: Seq<SseEventView>) -> Seq<StreamStepView>
    decreases deltas.len(),
{
    if deltas.len() == 0 {
        Seq::empty()
    } else {
        steps_of(deltas.drop_last()) + steps_of_delta(deltas.last())
    }
}

/// The calls after some deltas.
pub open spec fn calls_after(
    calls: Seq<(usize, PartialCallView)>,
    deltas: Seq<SseEventView>,
) -> Seq<(usize, PartialCallView)>
    decreases deltas.len(),
{
    if deltas.len() == 0 {
        calls
    } else {
        calls_after_delta(calls_after(calls, deltas.drop_last()), deltas.last())
    }
}

proof fn lemma_first_delta(
    calls: Seq<(usize, PartialCallView)>,
    first: SseEventView,
    rest: Seq<SseEventView>,
)
    ensures
        steps_of(seq![first] + rest) == steps_of_delta(first) + steps_of(rest),
        calls_after(calls, seq![first] + rest) == calls_after(
            calls_after_delta(calls, first),
            rest,
        ),
    decreases rest.len(),
{
    let all = seq![first] + rest;
    if rest.len() == 0 {
        let none = Seq::<SseEventView>::empty();
        assert(all.drop_last() =~= none);
        assert(all.last() == first);
        assert(steps_of(none) == Seq::<StreamStepView>::empty());
        assert(calls_after(calls, none) == calls);
        assert(steps_of(all) =~= steps_of_delta(first) + steps_of(rest));
    } else {
        assert(all.drop_last() =~= seq![first] + rest.drop_last());
        assert(all.last() == rest.last());
        lemma_first_delta(calls, first, rest.drop_last());
        assert(steps_of(all) =~= steps_of_delta(first) + steps_of(rest));
    }
}

proof fn lemma_drain(reader: ReaderView)
    requires
        !reader.finished,
    ensures
        ({
            let (last, steps) = drain(reader);
            let deltas = deltas_in(reader.pending);
            let calls = calls_after(reader.calls, deltas);
            &&& last.finished == tells_end(reader.pending)
            &&& last.finished ==> steps == steps_of(deltas) + start_calls(calls).push(
                StreamStepView::Emit(StreamEventView::Done),
            )
            &&& !last.finished ==> steps == steps_of(deltas) && last.calls == calls
        }),
    decreases reader.pending.len(),
{
    lemma_blank_line(reader.pending);
    match blank_line(reader.pending) {
        None => {},
        Some(end) => {
            let raw = reader.pending.take(end as int);
            let here = after_event(reader, end);
            let (next, steps) = react_to(here, raw);
            let (last, more) = drain(next);
            match sse_event(raw) {
                None => {
                    lemma_drain(next);
                    assert(steps + more =~= more);
                },
                Some(event) => {
                    if event is Done {
                        assert(steps + more =~= steps);
                        assert(Seq::<StreamStepView>::empty() + steps =~= steps);
                    } else {
                        lemma_drain(next);
                        let rest = deltas_in(here.pending);
                        lemma_first_delta(reader.calls, event, rest);
                        assert(steps == steps_of_delta(event));
                        assert(next.calls == calls_after_delta(reader.calls, event));
                        let calls = calls_after(next.calls, rest);
                        let told = start_calls(calls).push(
                            StreamStepView::Emit(StreamEventView::Done),
                        );
                        assert(steps + (steps_of(rest) + told) =~= steps + steps_of(rest) + told);
                    }
                },
            }
        },
    }
}

/// What a listener gets of a response, however it is cut into chunks: what each delta asks for, in
/// order; the error, where the response broke off with one before it told its end; each call
/// once, in the order in which the calls arrived; and the end.
pub proof fn law_what_a_listener_gets(chunks: Seq<Seq<char>>, error: Option<Seq<char>>)
    ensures
        ({
            let deltas = deltas_in(concat(chunks));
            let calls = start_calls(calls_after(Seq::empty(), deltas));
            let failure = match error {
                Some(e) if !tells_end(concat(chunks)) => seq![
                    StreamStepView::Emit(StreamEventView::Error(e)),
                ],
                _ => Seq::empty(),
            };
            run(chunks, error) == steps_of(deltas) + failure + calls + seq![
                StreamStepView::Emit(StreamEventView::Done),
            ]
        }),
{
    let text = concat(chunks);
    law_chunks_do_what_their_text_does(chunks);
    assert(fresh_reader().pending + text =~= text);
    let reader = with_more(fresh_reader(), text);
    lemma_drain(reader);
    let (last, steps) = drain(reader);
    let deltas = deltas_in(text);
    let calls = start_calls(calls_after(Seq::empty(), deltas));
    let told = seq![StreamStepView::Emit(StreamEventView::Done)];
    let failure = match error {
        Some(e) if !tells_end(text) => seq![StreamStepView::Emit(StreamEventView::Error(e))],
        _ => Seq::empty(),
    };
    assert(run(chunks, error) =~= steps_of(deltas) + failure + calls + told);
}

/// Whether a step tells the end.
pub open spec fn is_done(step: StreamStepView) -> bool {
    step == StreamStepView::Emit(StreamEventView::Done)
}

pub proof fn lemma_deltas_are_not_done(text: Seq<char>)
    ensures
        forall|i: int| 0 <= i < deltas_in(text).len() ==> !(#[trigger] deltas_in(text)[i] is Done),
    decreases text.len(),
{
    lemma_blank_line(text);
    match blank_line(text) {
        Some(end) => {
            let rest = text.skip(end as int + 2);
            lemma_deltas_are_not_done(rest);
        },
        None => {},
    }
}

proof fn lemma_steps_are_not_done(deltas: Seq<SseEventView>)
    requires
        forall|i: int| 0 <= i < deltas.len() ==> !(#[trigger] deltas[i] is Done),
    ensures
        forall|i: int| 0 <= i < steps_of(deltas).len() ==> !is_done(#[trigger] steps_of(deltas)[i]),
    decreases deltas.len(),
{
    if deltas.len() > 0 {
        let front = deltas.drop_last();
        assert forall|i: int| 0 <= i < front.len() implies !(#[trigger] front[i] is Done) by {
            assert(!(deltas[i] is Done));
        }
        lemma_steps_are_not_done(front);
        let last = deltas[deltas.len() - 1];
        assert(!(last is Done));
        let steps = steps_of_delta(last);
        assert forall|i: int| 0 <= i < steps.len() implies !is_done(#[trigger] steps[i]) by {}
        let all = steps_of(deltas);
        assert forall|i: int| 0 <= i < all.len() implies !is_done(#[trigger] all[i]) by {
            let n = steps_of(front).len() as int;
            if i < n {
                assert(all[i] == steps_of(front)[i]);
            } else {
                assert(all[i] == steps[i - n]);
            }
        }
    }
}

/// The end is told once, and nothing comes after it.
pub proof fn law_the_end_comes_once_and_last(chunks: Seq<Seq<char>>, error: Option<Seq<char>>)
    ensures
        run(chunks, error).len() > 0,
        is_done(run(chunks, error).last()),
        forall|i: int|
            0 <= i < run(chunks, error).len() - 1 ==> !is_done(#[trigger] run(chunks, error)[i]),
{
    law_what_a_listener_gets(chunks, error);
    lemma_deltas_are_not_done(concat(chunks));
    lemma_steps_are_not_done(deltas_in(concat(chunks)));
}

/// Whether a step passes an error on.
pub open spec fn is_error(step: StreamStepView) -> bool {
    step matches StreamStepView::Emit(StreamEventView::Error(_))
}

proof fn lemma_steps_are_no_errors(deltas: Seq<SseEventView>)
    requires
        forall|i: int| 0 <= i < deltas.len() ==> !(#[trigger] deltas[i] is Done),
    ensures
        forall|i: int| 0 <= i < steps_of(deltas).len() ==> !is_error(#[trigger] steps_of(deltas)[i]),
    decreases deltas.len(),
{
    if deltas.len() > 0 {
        let front = deltas.drop_last();
        assert forall|i: int| 0 <= i < front.len() implies !(#[trigger] front[i] is Done) by {
            assert(!(deltas[i] is Done));
        }
        lemma_steps_are_no_errors(front);
        let last = deltas[deltas.len() - 1];
        assert(!(last is Done));
        let steps = steps_of_delta(last);
        assert forall|i: int| 0 <= i < steps.len() implies !is_error(#[trigger] steps[i]) by {}
        let all = steps_of(deltas);
        assert forall|i: int| 0 <= i < all.len() implies !is_error(#[trigger] all[i]) by {
            let n = steps_of(front).len() as int;
            if i < n {
                assert(all[i] == steps_of(front)[i]);
            } else {
                assert(all[i] == steps[i - n]);
            }
        }
    }
}

/// A response that does not break off gives no error, whatever its events say.
pub proof fn law_no_errors_but_those_of_the_transport(chunks: Seq<Seq<char>>)
    ensures
        forall|i: int| 0 <= i < run(chunks, None).len() ==> !is_error(#[trigger] run(chunks, None)[i]),
{
    law_what_a_listener_gets(chunks, None);
    lemma_deltas_are_not_done(concat(chunks));
    lemma_steps_are_no_errors(deltas_in(concat(chunks)));
}

/// The indices of tool calls in the order in which they first occur.
pub open spec fn arrivals(deltas: Seq<SseEventView>) -> Seq<usize>
    decreases deltas.len(),
{
    if deltas.len() == 0 {
        Seq::empty()
    } else {
        let before = arrivals(deltas.drop_last());
        match deltas.last() {
            SseEventView::DeltaTool { index, .. } => if before.contains(index) {
                before
            } else {
                before.push(index)
            },
            _ => before,
        }
    }
}

/// The call of an index, made of the fragments of that index alone.
pub open spec fn call_of(deltas: Seq<SseEventView>, wanted: usize) -> PartialCallView
    decreases deltas.len(),
{
    if deltas.len() == 0 {
        no_fragments()
    } else {
        let before = call_of(deltas.drop_last(), wanted);
        match deltas.last() {
            SseEventView::DeltaTool { index, id, name, arguments } => if index == wanted {
                extend_call(before, id, name, arguments)
            } else {
                before
            },
            _ => before,
        }
    }
}

pub proof fn lemma_call_found(calls: Seq<(usize, PartialCallView)>, index: usize)
    ensures
        call_at(calls, index) <= calls.len(),
        call_at(calls, index) < calls.len() ==> calls[call_at(calls, index) as int].0 == index,
        forall|i: int| 0 <= i < call_at(calls, index) ==> (#[trigger] calls[i]).0 != index,
    decreases calls.len(),
{
    if calls.len() > 0 && calls[0].0 != index {
        let rest = calls.skip(1);
        lemma_call_found(rest, index);
        assert forall|i: int| 0 <= i < call_at(calls, index) implies (#[trigger] calls[i]).0
            != index by {
            if i > 0 {
                assert(rest[i - 1] == calls[i]);
            }
        }
    }
}

proof fn lemma_call_of_stranger(deltas: Seq<SseEventView>, wanted: usize)
    requires
        !arrivals(deltas).contains(wanted),
    ensures
        call_of(deltas, wanted) == no_fragments(),
    decreases deltas.len(),
{
    if deltas.len() > 0 {
        let before = arrivals(deltas.drop_last());
        assert(!before.contains(wanted)) by {
            if before.contains(wanted) {
                let i = choose|i: int| 0 <= i < before.len() && before[i] == wanted;
                assert(arrivals(deltas)[i] == wanted);
            }
        }
        lemma_call_of_stranger(deltas.drop_last(), wanted);
        match deltas.last() {
            SseEventView::DeltaTool { index, .. } => {
                if index == wanted {
                    assert(arrivals(deltas)[before.len() as int] == wanted);
                }
            },
            _ => {},
        }
    }
}

/// Calls stand in the order in which they arrived, none twice, each made of its own fragments.
pub proof fn law_calls_arrive_once_and_in_order(deltas: Seq<SseEventView>)
    ensures
        ({
            let calls = calls_after(Seq::empty(), deltas);
            &&& distinct_calls(calls)
            &&& calls.len() == arrivals(deltas).len()
            &&& forall|i: int|
                0 <= i < calls.len() ==> #[trigger] calls[i] == (
                    arrivals(deltas)[i],
                    call_of(deltas, arrivals(deltas)[i]),
                )
        }),
    decreases deltas.len(),
{
    if deltas.len() > 0 {
        let front = deltas.drop_last();
        law_calls_arrive_once_and_in_order(front);
        let before = calls_after(Seq::empty(), front);
        let calls = calls_after(Seq::empty(), deltas);
        match deltas.last() {
            SseEventView::DeltaTool { index, id, name, arguments } => {
                lemma_call_found(before, index);
                let at = call_at(before, index) as int;
                if at < before.len() {
                    assert(arrivals(front)[at] == index);
                    assert(arrivals(front).contains(index));
                    assert forall|i: int| 0 <= i < calls.len() implies #[trigger] calls[i] == (
                        arrivals(deltas)[i],
                        call_of(deltas, arrivals(deltas)[i]),
                    ) by {
                        assert(before[i] == (arrivals(front)[i], call_of(front, arrivals(front)[i])));
                        if i != at {
                            assert(before[i].0 != before[at].0);
                        }
                    }
                    assert(distinct_calls(calls)) by {
                        assert forall|i: int, j: int| 0 <= i < j < calls.len() implies (
                        #[trigger] calls[i]).0 != (#[trigger] calls[j]).0 by {
                            assert(before[i].0 != before[j].0);
                        }
                    }
                } else {
                    assert(!arrivals(front).contains(index)) by {
                        if arrivals(front).contains(index) {
                            let i = choose|i: int|
                                0 <= i < arrivals(front).len() && arrivals(front)[i] == index;
                            assert(before[i].0 == index);
                        }
                    }
                    lemma_call_of_stranger(front, index);
                    assert forall|i: int| 0 <= i < calls.len() implies #[trigger] calls[i] == (
                        arrivals(deltas)[i],
                        call_of(deltas, arrivals(deltas)[i]),
                    ) by {
                        if i < before.len() {
                            assert(before[i] == (
                                arrivals(front)[i],
                                call_of(front, arrivals(front)[i]),
                            ));
                            assert(before[i].0 != index);
                        }
                    }
                    assert(distinct_calls(calls)) by {
                        assert forall|i: int, j: int| 0 <= i < j < calls.len() implies (
                        #[trigger] calls[i]).0 != (#[trigger] calls[j]).0 by {
                            assert(before[i].0 != index);
                            if j < before.len() {
                                assert(before[i].0 != before[j].0);
                            }
                        }
                    }
                }
            },
            _ => {
                assert forall|i: int| 0 <= i < calls.len() implies #[trigger] calls[i] == (
                    arrivals(deltas)[i],
                    call_of(deltas, arrivals(deltas)[i]),
                ) by {
                    assert(before[i] == (arrivals(front)[i], call_of(front, arrivals(front)[i])));
                }
            },
        }
    }
}

/// No index is ever noted twice: text keeps the calls of a reader distinct.
pub proof fn law_feeding_keeps_calls_distinct(reader: ReaderView, text: Seq<char>)
    requires
        distinct_calls(reader.calls),
    ensures
        distinct_calls(feed_text(reader, text).0.calls),
{
    if !reader.finished {
        lemma_drain_keeps_distinct(with_more(reader, text));
    }
}

proof fn lemma_note_keeps_distinct(
    calls: Seq<(usize, PartialCallView)>,
    index: usize,
    id: Option<Seq<char>>,
    name: Option<Seq<char>>,
    arguments: Option<Seq<char>>,
)
    requires
        distinct_calls(calls),
    ensures
        distinct_calls(note_fragment(calls, index, id, name, arguments)),
{
    lemma_call_found(calls, index);
    let after = note_fragment(calls, index, id, name, arguments);
    assert forall|i: int, j: int| 0 <= i < j < after.len() implies (#[trigger] after[i]).0 != (
    #[trigger] after[j]).0 by {
        assert(calls[i].0 == after[i].0);
        if j < calls.len() {
            assert(calls[j].0 == after[j].0);
        }
    }
}

proof fn lemma_drain_keeps_distinct(reader: ReaderView)
    requires
        distinct_calls(reader.calls),
    ensures
        distinct_calls(drain(reader).0.calls),
    decreases reader.pending.len(),
{
    if !reader.finished {
        lemma_blank_line(reader.pending);
        match blank_line(reader.pending) {
            Some(end) => {
                let raw = reader.pending.take(end as int);
                let here = after_event(reader, end);
                match sse_event(raw) {
                    Some(SseEventView::DeltaTool { index, id, name, arguments }) => {
                        lemma_note_keeps_distinct(here.calls, index, id, name, arguments);
                    },
                    _ => {},
                }
                lemma_drain_keeps_distinct(react_to(here, raw).0);
            },
            None => {},
        }
    }
}

/// A response that was not streamed reaches a listener whole, however many calls it makes: its
/// content, each call once and in order, and the end, which is told once and last.
pub proof fn law_a_batch_arrives_whole(response: LlmResponseView)
    ensures
        ({
            let events = response_events(response);
            let calls = response.tool_calls;
            &&& events.len() == calls.len() + 2
            &&& events[0] == StreamEventView::Content(response.content)
            &&& forall|i: int|
                0 <= i < calls.len() ==> events[i + 1] == StreamEventView::ToolCallStart(
                    #[trigger] calls[i],
                )
            &&& events.last() == StreamEventView::Done
            &&& forall|i: int| 0 <= i < events.len() - 1 ==> !(#[trigger] events[i] is Done)
        }),
{
}

} // verus!
