//! What a listener of a stream is told, event by event and over a whole response.

use vstd::prelude::*;
use vstd::utf8::{encode_utf8, encode_utf8_decode_utf8, encode_utf8_valid_utf8};

use crate::cost::OpenAiUsage;
use crate::json::{json_parse, JsonView};
use crate::sse::{sse_event, SseEventView};
use crate::stream::{
    call_at, chunk_text, close, drain, feed_text, fresh_reader, note_fragment, start_calls,
    PartialCallView, ReaderView, StreamEventView, StreamStepView,
};
use crate::stream_laws::{
    arrivals, call_of, calls_after, concat, deltas_in, law_calls_arrive_once_and_in_order,
    law_what_a_listener_gets, lemma_call_found, lemma_deltas_are_not_done, run, steps_of,
    steps_of_delta, tells_end, with_more,
};
use crate::text::{blank_line, lemma_blank_line, lemma_blank_line_first};
use crate::tools::ToolCallView;

verus! {

// ---- one event ----

/// Whether a text can stand before the blank line that ends an event: no blank line is in it, nor
/// does it end in the middle of one.
pub open spec fn is_one_event(raw: Seq<char>) -> bool {
    forall|i: int|
        0 <= i < raw.len() ==> !(#[trigger] raw[i] == '\n' && (i + 1 == raw.len() || raw[i + 1]
            == '\n'))
}

/// Whether steps hand out calls and then tell the end: each call in its place, with its id, its
/// name and its arguments, which are read as JSON or else kept as text.
pub open spec fn hands_out(
    calls: Seq<(usize, PartialCallView)>,
    steps: Seq<StreamStepView>,
) -> bool {
    &&& steps.len() == calls.len() + 1
    &&& steps.last() == StreamStepView::Emit(StreamEventView::Done)
    &&& forall|i: int|
        0 <= i < calls.len() ==> {
            &&& #[trigger] steps[i] matches StreamStepView::Emit(
                StreamEventView::ToolCallStart(call),
            )
            &&& call.id == calls[i].1.id
            &&& call.name == calls[i].1.name
            &&& match json_parse(calls[i].1.arguments) {
                Some(value) => call.arguments == value,
                None => call.arguments == JsonView::Str(calls[i].1.arguments),
            }
        }
}

/// Whether calls differ by one fragment: the call of its index has the id and the name of the
/// fragment, where it has them, and its arguments after those that came before; a new call comes
/// last, and all other calls stay as they are.
pub open spec fn notes(
    before: Seq<(usize, PartialCallView)>,
    after: Seq<(usize, PartialCallView)>,
    index: usize,
    id: Option<Seq<char>>,
    name: Option<Seq<char>>,
    arguments: Option<Seq<char>>,
) -> bool {
    let at = call_at(before, index) as int;
    let known = at < before.len();
    let added = match arguments {
        Some(a) => a,
        None => Seq::empty(),
    };
    &&& known ==> before[at].0 == index && after.len() == before.len()
    &&& !known ==> (forall|k: int| 0 <= k < before.len() ==> (#[trigger] before[k]).0 != index)
        && at == before.len() && after.len() == before.len() + 1
    &&& forall|k: int| 0 <= k < before.len() && k != at ==> #[trigger] after[k] == before[k]
    &&& after[at].0 == index
    &&& id matches Some(i) ==> after[at].1.id == i
    &&& name matches Some(n) ==> after[at].1.name == n
    &&& known && id is None ==> after[at].1.id == before[at].1.id
    &&& known && name is None ==> after[at].1.name == before[at].1.name
    &&& !known && id is None ==> after[at].1.id.len() == 0
    &&& !known && name is None ==> after[at].1.name.len() == 0
    &&& known ==> after[at].1.arguments == before[at].1.arguments + added
    &&& !known ==> after[at].1.arguments == added
}

/// An event that is complete does what it says and leaves all else alone. Content is told as it
/// is; a usage is billed as it is, all its counts unchanged; a fragment is noted with its call, and
/// the arguments in it are told; the end hands out all calls. An event that says nothing does
/// nothing.
pub proof fn law_an_event_does_what_it_says(reader: ReaderView, raw: Seq<char>)
    requires
        !reader.finished,
        reader.pending.len() == 0,
        is_one_event(raw),
    ensures
        ({
            let (after, steps) = feed_text(reader, raw + seq!['\n', '\n']);
            match sse_event(raw) {
                None => after == reader && steps.len() == 0,
                Some(SseEventView::DeltaContent(text)) => {
                    &&& after == reader
                    &&& steps.len() == 1
                    &&& steps[0] == StreamStepView::Emit(StreamEventView::Content(text))
                },
                Some(SseEventView::Usage(usage)) => {
                    &&& after == reader
                    &&& steps.len() == 1
                    &&& steps[0] == StreamStepView::Bill(usage)
                },
                Some(SseEventView::DeltaTool { index, id, name, arguments }) => {
                    &&& after.pending.len() == 0
                    &&& !after.finished
                    &&& notes(reader.calls, after.calls, index, id, name, arguments)
                    &&& arguments is None ==> steps.len() == 0
                    &&& arguments matches Some(a) ==> steps.len() == 1 && steps[0]
                        == StreamStepView::Emit(StreamEventView::ToolCallDelta(a))
                },
                Some(SseEventView::Done) => {
                    &&& after.finished
                    &&& after.pending.len() == 0
                    &&& after.calls.len() == 0
                    &&& hands_out(reader.calls, steps)
                },
            }
        }),
{
    let text = raw + seq!['\n', '\n'];
    let whole = with_more(reader, text);
    let n = raw.len() as int;
    assert(reader.pending + text =~= text);
    assert forall|i: int| 0 <= i < n implies !(#[trigger] text[i] == '\n' && text[i + 1] == '\n') by {
        assert(text[i] == raw[i]);
        if i + 1 < n {
            assert(text[i + 1] == raw[i + 1]);
        }
    }
    lemma_blank_line_first(text, n);
    assert(text.take(n) =~= raw);
    assert(text.skip(n + 2) =~= reader.pending);
    reveal_with_fuel(drain, 2);
    lemma_blank_line(reader.pending);
    match sse_event(raw) {
        Some(SseEventView::DeltaTool { index, id, name, arguments }) => {
            lemma_notes(reader.calls, index, id, name, arguments);
        },
        _ => {},
    }
}

proof fn lemma_notes(
    before: Seq<(usize, PartialCallView)>,
    index: usize,
    id: Option<Seq<char>>,
    name: Option<Seq<char>>,
    arguments: Option<Seq<char>>,
)
    ensures
        notes(before, note_fragment(before, index, id, name, arguments), index, id, name, arguments),
{
    lemma_call_found(before, index);
    let after = note_fragment(before, index, id, name, arguments);
    let at = call_at(before, index) as int;
    if at < before.len() {
        if arguments is None {
            assert(before[at].1.arguments + Seq::<char>::empty() =~= before[at].1.arguments);
        }
    } else {
        match arguments {
            Some(a) => {
                assert(Seq::<char>::empty() + a =~= a);
            },
            None => {},
        }
    }
}

/// Where a call stands is where its index first occurs, or behind all calls where it does not.
pub proof fn law_where_a_call_stands(calls: Seq<(usize, PartialCallView)>, index: usize)
    ensures
        call_at(calls, index) <= calls.len(),
        call_at(calls, index) < calls.len() ==> calls[call_at(calls, index) as int].0 == index,
        forall|i: int| 0 <= i < call_at(calls, index) ==> (#[trigger] calls[i]).0 != index,
{
    lemma_call_found(calls, index);
}

/// Text that completes no event waits and does nothing else.
pub proof fn law_what_is_not_complete_waits(reader: ReaderView, text: Seq<char>)
    requires
        !reader.finished,
        forall|i: int|
            0 <= i < (reader.pending + text).len() - 1 ==> !(#[trigger] (reader.pending + text)[i]
                == '\n' && (reader.pending + text)[i + 1] == '\n'),
    ensures
        feed_text(reader, text).1.len() == 0,
        feed_text(reader, text).0.pending == reader.pending + text,
        feed_text(reader, text).0.calls == reader.calls,
        !feed_text(reader, text).0.finished,
{
    lemma_blank_line(reader.pending + text);
    if blank_line(reader.pending + text) is Some {
        let n = blank_line(reader.pending + text)->0 as int;
        assert((reader.pending + text)[n] == '\n');
    }
}

/// After the end nothing is told any more.
pub proof fn law_nothing_follows_the_end(
    reader: ReaderView,
    text: Seq<char>,
    error: Option<Seq<char>>,
)
    requires
        reader.finished,
    ensures
        feed_text(reader, text).0 == reader,
        feed_text(reader, text).1.len() == 0,
        close(reader, error).0 == reader,
        close(reader, error).1.len() == 0,
{
}

/// Where a response ends, or breaks off, without having told its end, all its calls are handed out
/// and the end is told; an error comes before that, as it is.
pub proof fn law_closing(reader: ReaderView, error: Option<Seq<char>>)
    requires
        !reader.finished,
    ensures
        close(reader, error).0.finished,
        close(reader, error).0.calls.len() == 0,
        match error {
            None => hands_out(reader.calls, close(reader, error).1),
            Some(e) => {
                &&& close(reader, error).1.len() > 0
                &&& close(reader, error).1[0] == StreamStepView::Emit(StreamEventView::Error(e))
                &&& hands_out(reader.calls, close(reader, error).1.skip(1))
            },
        },
{
    let (last, steps) = close(reader, error);
    if error is Some {
        let rest = steps.skip(1);
        assert(rest =~= close(reader, None).1);
        assert(hands_out(reader.calls, close(reader, None).1));
    }
}

/// Before the first byte nothing waits, no call has come in and the end was not told.
pub proof fn law_a_fresh_reader_holds_nothing()
    ensures
        fresh_reader().pending.len() == 0,
        fresh_reader().calls.len() == 0,
        !fresh_reader().finished,
{
}

/// The bytes of a text are taken as that text.
pub proof fn law_bytes_are_taken_as_their_text(text: Seq<char>)
    ensures
        chunk_text(encode_utf8(text)) == text,
{
    encode_utf8_valid_utf8(text);
    encode_utf8_decode_utf8(text);
}

// ---- a whole response ----

/// The deltas of a text are those of its complete events, each in its place, up to the end.
pub proof fn law_deltas_come_event_by_event(raw: Seq<char>, rest: Seq<char>)
    requires
        is_one_event(raw),
    ensures
        ({
            let text = raw + seq!['\n', '\n'] + rest;
            match sse_event(raw) {
                None => deltas_in(text) == deltas_in(rest) && tells_end(text) == tells_end(rest),
                Some(SseEventView::Done) => deltas_in(text).len() == 0 && tells_end(text),
                Some(event) => {
                    &&& deltas_in(text).len() == deltas_in(rest).len() + 1
                    &&& deltas_in(text)[0] == event
                    &&& deltas_in(text).skip(1) == deltas_in(rest)
                    &&& tells_end(text) == tells_end(rest)
                },
            }
        }),
{
    let text = raw + seq!['\n', '\n'] + rest;
    let n = raw.len() as int;
    assert forall|i: int| 0 <= i < n implies !(#[trigger] text[i] == '\n' && text[i + 1] == '\n') by {
        assert(text[i] == raw[i]);
        if i + 1 < n {
            assert(text[i + 1] == raw[i + 1]);
        }
    }
    lemma_blank_line_first(text, n);
    assert(text.take(n) =~= raw);
    assert(text.skip(n + 2) =~= rest);
    match sse_event(raw) {
        Some(event) => {
            if !(event is Done) {
                assert(deltas_in(text).skip(1) =~= deltas_in(rest));
            }
        },
        None => {},
    }
}

/// A text without a complete event has no deltas and does not tell the end.
pub proof fn law_no_deltas_without_a_complete_event(text: Seq<char>)
    requires
        forall|i: int| 0 <= i < text.len() - 1 ==> !(#[trigger] text[i] == '\n' && text[i + 1] == '\n'),
    ensures
        deltas_in(text).len() == 0,
        !tells_end(text),
{
    lemma_blank_line(text);
    if blank_line(text) is Some {
        let n = blank_line(text)->0 as int;
        assert(text[n] == '\n');
    }
}

/// The contents that steps tell.
pub open spec fn contents_told(steps: Seq<StreamStepView>) -> Seq<Seq<char>>
    decreases steps.len(),
{
    if steps.len() == 0 {
        Seq::empty()
    } else {
        match steps.last() {
            StreamStepView::Emit(StreamEventView::Content(text)) => contents_told(
                steps.drop_last(),
            ).push(text),
            _ => contents_told(steps.drop_last()),
        }
    }
}

/// The fragments of arguments that steps tell.
pub open spec fn fragments_told(steps: Seq<StreamStepView>) -> Seq<Seq<char>>
    decreases steps.len(),
{
    if steps.len() == 0 {
        Seq::empty()
    } else {
        match steps.last() {
            StreamStepView::Emit(StreamEventView::ToolCallDelta(text)) => fragments_told(
                steps.drop_last(),
            ).push(text),
            _ => fragments_told(steps.drop_last()),
        }
    }
}

/// The usages that steps bill.
pub open spec fn usages_billed(steps: Seq<StreamStepView>) -> Seq<OpenAiUsage>
    decreases steps.len(),
{
    if steps.len() == 0 {
        Seq::empty()
    } else {
        match steps.last() {
            StreamStepView::Bill(usage) => usages_billed(steps.drop_last()).push(usage),
            _ => usages_billed(steps.drop_last()),
        }
    }
}

/// The calls that steps tell.
pub open spec fn calls_told(steps: Seq<StreamStepView>) -> Seq<ToolCallView>
    decreases steps.len(),
{
    if steps.len() == 0 {
        Seq::empty()
    } else {
        match steps.last() {
            StreamStepView::Emit(StreamEventView::ToolCallStart(call)) => calls_told(
                steps.drop_last(),
            ).push(call),
            _ => calls_told(steps.drop_last()),
        }
    }
}

/// The contents of deltas.
pub open spec fn contents_in(deltas: Seq<SseEventView>) -> Seq<Seq<char>>
    decreases deltas.len(),
{
    if deltas.len() == 0 {
        Seq::empty()
    } else {
        match deltas.last() {
            SseEventView::DeltaContent(text) => contents_in(deltas.drop_last()).push(text),
            _ => contents_in(deltas.drop_last()),
        }
    }
}

/// The arguments of the fragments in deltas.
pub open spec fn fragments_in(deltas: Seq<SseEventView>) -> Seq<Seq<char>>
    decreases deltas.len(),
{
    if deltas.len() == 0 {
        Seq::empty()
    } else {
        match deltas.last() {
            SseEventView::DeltaTool { arguments: Some(text), .. } => fragments_in(
                deltas.drop_last(),
            ).push(text),
            _ => fragments_in(deltas.drop_last()),
        }
    }
}

/// The usages in deltas.
pub open spec fn usages_in(deltas: Seq<SseEventView>) -> Seq<OpenAiUsage>
    decreases deltas.len(),
{
    if deltas.len() == 0 {
        Seq::empty()
    } else {
        match deltas.last() {
            SseEventView::Usage(usage) => usages_in(deltas.drop_last()).push(usage),
            _ => usages_in(deltas.drop_last()),
        }
    }
}

proof fn lemma_told_adds_up(a: Seq<StreamStepView>, b: Seq<StreamStepView>)
    ensures
        contents_told(a + b) == contents_told(a) + contents_told(b),
        fragments_told(a + b) == fragments_told(a) + fragments_told(b),
        usages_billed(a + b) == usages_billed(a) + usages_billed(b),
        calls_told(a + b) == calls_told(a) + calls_told(b),
    decreases b.len(),
{
    if b.len() == 0 {
        assert(a + b =~= a);
    } else {
        lemma_told_adds_up(a, b.drop_last());
        assert((a + b).drop_last() =~= a + b.drop_last());
        assert((a + b).last() == b.last());
    }
    assert(contents_told(a + b) =~= contents_told(a) + contents_told(b));
    assert(fragments_told(a + b) =~= fragments_told(a) + fragments_told(b));
    assert(usages_billed(a + b) =~= usages_billed(a) + usages_billed(b));
    assert(calls_told(a + b) =~= calls_told(a) + calls_told(b));
}

proof fn lemma_one_step_told(step: StreamStepView)
    ensures
        contents_told(seq![step]) == (match step {
            StreamStepView::Emit(StreamEventView::Content(text)) => seq![text],
            _ => Seq::empty(),
        }),
        fragments_told(seq![step]) == (match step {
            StreamStepView::Emit(StreamEventView::ToolCallDelta(text)) => seq![text],
            _ => Seq::empty(),
        }),
        usages_billed(seq![step]) == (match step {
            StreamStepView::Bill(usage) => seq![usage],
            _ => Seq::empty(),
        }),
        calls_told(seq![step]) == (match step {
            StreamStepView::Emit(StreamEventView::ToolCallStart(call)) => seq![call],
            _ => Seq::empty(),
        }),
{
    reveal_with_fuel(contents_told, 2);
    reveal_with_fuel(fragments_told, 2);
    reveal_with_fuel(usages_billed, 2);
    reveal_with_fuel(calls_told, 2);
    assert(seq![step].drop_last() =~= Seq::<StreamStepView>::empty());
    assert(seq![step].last() == step);
}

proof fn lemma_deltas_told(deltas: Seq<SseEventView>)
    requires
        forall|i: int| 0 <= i < deltas.len() ==> !(#[trigger] deltas[i] is Done),
    ensures
        contents_told(steps_of(deltas)) == contents_in(deltas),
        fragments_told(steps_of(deltas)) == fragments_in(deltas),
        usages_billed(steps_of(deltas)) == usages_in(deltas),
        calls_told(steps_of(deltas)).len() == 0,
    decreases deltas.len(),
{
    if deltas.len() > 0 {
        let front = deltas.drop_last();
        let last = deltas.last();
        assert(!(deltas[deltas.len() - 1] is Done));
        assert forall|i: int| 0 <= i < front.len() implies !(#[trigger] front[i] is Done) by {
            assert(front[i] == deltas[i]);
        }
        lemma_deltas_told(front);
        let added = steps_of_delta(last);
        lemma_told_adds_up(steps_of(front), added);
        if added.len() == 1 {
            lemma_one_step_told(added[0]);
            assert(added =~= seq![added[0]]);
        } else {
            assert(added =~= Seq::<StreamStepView>::empty());
        }
        assert(contents_told(steps_of(deltas)) =~= contents_in(deltas));
        assert(fragments_told(steps_of(deltas)) =~= fragments_in(deltas));
        assert(usages_billed(steps_of(deltas)) =~= usages_in(deltas));
    }
}

proof fn lemma_started(calls: Seq<(usize, PartialCallView)>)
    ensures
        contents_told(start_calls(calls)).len() == 0,
        fragments_told(start_calls(calls)).len() == 0,
        usages_billed(start_calls(calls)).len() == 0,
        calls_told(start_calls(calls)).len() == calls.len(),
        forall|i: int|
            0 <= i < calls.len() ==> {
                let call = #[trigger] calls_told(start_calls(calls))[i];
                &&& call.id == calls[i].1.id
                &&& call.name == calls[i].1.name
                &&& match json_parse(calls[i].1.arguments) {
                    Some(value) => call.arguments == value,
                    None => call.arguments == JsonView::Str(calls[i].1.arguments),
                }
            },
    decreases calls.len(),
{
    if calls.len() > 0 {
        let front = calls.drop_last();
        lemma_started(front);
        assert(start_calls(calls).drop_last() =~= start_calls(front));
    }
}

/// Over a whole response, however it is cut into chunks and however it ends, the listener is told
/// the contents of its deltas, the fragments of arguments in them, and nothing more of either, in
/// their order; and the usages that are billed are the usages of its deltas, in their order.
pub proof fn law_what_a_response_says_is_told(chunks: Seq<Seq<char>>, error: Option<Seq<char>>)
    ensures
        contents_told(run(chunks, error)) == contents_in(deltas_in(concat(chunks))),
        fragments_told(run(chunks, error)) == fragments_in(deltas_in(concat(chunks))),
        usages_billed(run(chunks, error)) == usages_in(deltas_in(concat(chunks))),
{
    lemma_run_told(chunks, error);
}

proof fn lemma_run_told(chunks: Seq<Seq<char>>, error: Option<Seq<char>>)
    ensures
        ({
            let deltas = deltas_in(concat(chunks));
            &&& contents_told(run(chunks, error)) == contents_in(deltas)
            &&& fragments_told(run(chunks, error)) == fragments_in(deltas)
            &&& usages_billed(run(chunks, error)) == usages_in(deltas)
            &&& calls_told(run(chunks, error)) == calls_told(
                start_calls(calls_after(Seq::empty(), deltas)),
            )
        }),
{
    let deltas = deltas_in(concat(chunks));
    let calls = calls_after(Seq::empty(), deltas);
    law_what_a_listener_gets(chunks, error);
    lemma_deltas_are_not_done(concat(chunks));
    lemma_deltas_told(deltas);
    lemma_started(calls);
    let first = steps_of(deltas);
    let failure = match error {
        Some(e) if !tells_end(concat(chunks)) => seq![
            StreamStepView::Emit(StreamEventView::Error(e)),
        ],
        _ => Seq::empty(),
    };
    let told = seq![StreamStepView::Emit(StreamEventView::Done)];
    if failure.len() == 1 {
        lemma_one_step_told(failure[0]);
        assert(failure =~= seq![failure[0]]);
    }
    lemma_one_step_told(told[0]);
    lemma_told_adds_up(first, failure);
    lemma_told_adds_up(first + failure, start_calls(calls));
    lemma_told_adds_up(first + failure + start_calls(calls), told);
    assert(contents_told(run(chunks, error)) =~= contents_in(deltas));
    assert(fragments_told(run(chunks, error)) =~= fragments_in(deltas));
    assert(usages_billed(run(chunks, error)) =~= usages_in(deltas));
    assert(calls_told(run(chunks, error)) =~= calls_told(start_calls(calls)));
}

/// The id that the fragments of a call give it last, if they give it one.
pub open spec fn last_id(deltas: Seq<SseEventView>, wanted: usize) -> Seq<char>
    decreases deltas.len(),
{
    if deltas.len() == 0 {
        Seq::empty()
    } else {
        match deltas.last() {
            SseEventView::DeltaTool { index, id: Some(i), .. } if index == wanted => i,
            _ => last_id(deltas.drop_last(), wanted),
        }
    }
}

/// The name that the fragments of a call give it last, if they give it one.
pub open spec fn last_name(deltas: Seq<SseEventView>, wanted: usize) -> Seq<char>
    decreases deltas.len(),
{
    if deltas.len() == 0 {
        Seq::empty()
    } else {
        match deltas.last() {
            SseEventView::DeltaTool { index, name: Some(n), .. } if index == wanted => n,
            _ => last_name(deltas.drop_last(), wanted),
        }
    }
}

/// The arguments in the fragments of a call, one after the other.
pub open spec fn all_arguments(deltas: Seq<SseEventView>, wanted: usize) -> Seq<char>
    decreases deltas.len(),
{
    if deltas.len() == 0 {
        Seq::empty()
    } else {
        match deltas.last() {
            SseEventView::DeltaTool { index, arguments: Some(a), .. } if index == wanted =>
                all_arguments(deltas.drop_last(), wanted) + a,
            _ => all_arguments(deltas.drop_last(), wanted),
        }
    }
}

proof fn lemma_call_of_fragments(deltas: Seq<SseEventView>, wanted: usize)
    ensures
        call_of(deltas, wanted).id == last_id(deltas, wanted),
        call_of(deltas, wanted).name == last_name(deltas, wanted),
        call_of(deltas, wanted).arguments == all_arguments(deltas, wanted),
    decreases deltas.len(),
{
    if deltas.len() > 0 {
        lemma_call_of_fragments(deltas.drop_last(), wanted);
    }
}

/// Over a whole response, each call of which a fragment came in is started once, in the order in
/// which the calls first came in. It has the id and the name that its fragments gave last, and the
/// arguments of all its fragments together, read as JSON or else kept as text.
pub proof fn law_each_call_is_started_as_it_came_in(
    chunks: Seq<Seq<char>>,
    error: Option<Seq<char>>,
    i: int,
)
    ensures
        ({
            let deltas = deltas_in(concat(chunks));
            let started = calls_told(run(chunks, error));
            let order = arrivals(deltas);
            &&& started.len() == order.len()
            &&& 0 <= i < started.len() ==> {
                &&& started[i].id == last_id(deltas, order[i])
                &&& started[i].name == last_name(deltas, order[i])
                &&& match json_parse(all_arguments(deltas, order[i])) {
                    Some(value) => started[i].arguments == value,
                    None => started[i].arguments == JsonView::Str(all_arguments(deltas, order[i])),
                }
            }
        }),
{
    let deltas = deltas_in(concat(chunks));
    let calls = calls_after(Seq::empty(), deltas);
    lemma_run_told(chunks, error);
    lemma_started(calls);
    law_calls_arrive_once_and_in_order(deltas);
    if 0 <= i < calls.len() {
        lemma_call_of_fragments(deltas, arrivals(deltas)[i]);
        assert(calls[i] == (arrivals(deltas)[i], call_of(deltas, arrivals(deltas)[i])));
    }
}

} // verus!
