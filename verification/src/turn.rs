//! A turn: what to do next, from the prompt to the message that calls no more tools.

use vstd::prelude::*;

use crate::agent::AgentView;
use crate::history::{user_message, LlmRequest, LlmRequestView};
use crate::json::{Json, JsonView};
use crate::stream::{StreamEvent, StreamEventView};
use crate::tools::{ToolCall, ToolCallView};
use crate::tui::{
    after_result, after_round, fresh_round, take_event, Round, RoundState, RoundView, TuiAgent,
    TuiView,
};

verus! {

/// What to do next in a turn.
#[derive(Debug)]
pub enum TurnAction {
    /// Send a request and listen to the stream of its response.
    Ask(LlmRequest),
    /// Wait for the next event of the stream.
    Listen,
    /// Run a call and hand in its result.
    Dispatch(ToolCall),
    /// The turn is over.
    Finish,
}

pub enum TurnActionView {
    Ask(LlmRequestView),
    Listen,
    Dispatch(ToolCallView),
    Finish,
}

impl DeepView for TurnAction {
    type V = TurnActionView;

    open spec fn deep_view(&self) -> TurnActionView {
        match *self {
            TurnAction::Ask(request) => TurnActionView::Ask(request.deep_view()),
            TurnAction::Listen => TurnActionView::Listen,
            TurnAction::Dispatch(call) => TurnActionView::Dispatch(call.deep_view()),
            TurnAction::Finish => TurnActionView::Finish,
        }
    }
}

/// Where a turn stands: what has come in of the message that is being read, and the calls that
/// wait for their results.
#[derive(Debug)]
pub struct Turn {
    pub round: Round,
    pub waiting: Vec<ToolCall>,
}

pub struct TurnView {
    pub round: RoundView,
    pub waiting: Seq<ToolCallView>,
}

impl DeepView for Turn {
    type V = TurnView;

    open spec fn deep_view(&self) -> TurnView {
        TurnView { round: self.round.deep_view(), waiting: self.waiting.deep_view() }
    }
}

/// A turn in which nothing has come in.
pub open spec fn fresh_turn() -> TurnView {
    TurnView { round: fresh_round(), waiting: Seq::empty() }
}

/// The request that a terminal makes next.
pub open spec fn request_of(tui: TuiView, schemas: Seq<JsonView>) -> LlmRequestView {
    LlmRequestView {
        model: tui.agent.model,
        messages: tui.agent.history,
        tools: schemas,
    }
}

/// The terminal with a prompt in its conversation.
pub open spec fn prompted(tui: TuiView, prompt: Seq<char>) -> TuiView {
    TuiView {
        agent: AgentView {
            history: tui.agent.history.push(user_message(prompt)),
            ..tui.agent
        },
        ..tui
    }
}

/// The end of a message: its calls are run one by one, and without any the turn is over.
pub open spec fn conclude(tui: TuiView, round: RoundView) -> (TuiView, TurnView, TurnActionView) {
    (
        after_round(tui, round),
        TurnView { round: fresh_round(), waiting: round.tool_calls },
        if round.tool_calls.len() > 0 {
            TurnActionView::Dispatch(round.tool_calls[0])
        } else {
            TurnActionView::Finish
        },
    )
}

/// What an event of the stream, or its end, does to a turn.
pub open spec fn on_stream(tui: TuiView, turn: TurnView, event: Option<StreamEventView>) -> (
    TuiView,
    TurnView,
    TurnActionView,
) {
    match event {
        Some(e) => {
            let (tui1, round, state) = take_event(tui, turn.round, e);
            match state {
                RoundState::Reading => (
                    tui1,
                    TurnView { round, ..turn },
                    TurnActionView::Listen,
                ),
                RoundState::Over => conclude(tui1, round),
                RoundState::Failed => (tui1, fresh_turn(), TurnActionView::Finish),
            }
        },
        None => conclude(tui, turn.round),
    }
}

/// What the result of the first waiting call does to a turn: the next call is run, and after the
/// last the model is asked again.
pub open spec fn on_result(
    tui: TuiView,
    turn: TurnView,
    result: Seq<char>,
    schemas: Seq<JsonView>,
) -> (TuiView, TurnView, TurnActionView) {
    if turn.waiting.len() == 0 {
        (tui, turn, TurnActionView::Finish)
    } else {
        let tui1 = after_result(tui, turn.waiting[0], result);
        let waiting = turn.waiting.skip(1);
        (
            tui1,
            TurnView { waiting, ..turn },
            if waiting.len() > 0 {
                TurnActionView::Dispatch(waiting[0])
            } else {
                TurnActionView::Ask(request_of(tui1, schemas))
            },
        )
    }
}

impl Turn {
    /// Begins a turn with a prompt.
    pub fn begin(tui: &mut TuiAgent, prompt: String, schemas: &Vec<Json>) -> (begun: (
        Turn,
        TurnAction,
    ))
        ensures
            final(tui).deep_view() == prompted(old(tui).deep_view(), prompt@),
            begun.0.deep_view() == fresh_turn(),
            begun.1.deep_view() == TurnActionView::Ask(
                request_of(final(tui).deep_view(), schemas.deep_view()),
            ),
            final(tui).agent.history.messages@.len() == old(tui).agent.history.messages@.len() + 1,
            final(tui).agent.history.messages@.last().content@ == prompt@,
            begun.1 matches TurnAction::Ask(request) && request.messages@.len() > 0
                && request.messages@.last().content@ == prompt@,
    {
        tui.begin_turn(prompt);
        let turn = Turn { round: Round::new(), waiting: Vec::new() };
        assert(turn.waiting.deep_view() =~= Seq::<ToolCallView>::empty());
        let request = tui.next_request(schemas);
        proof {
            let sent = request.messages.deep_view();
            let kept = tui.agent.history.messages.deep_view();
            let last = kept.len() - 1;
            assert(sent == kept);
            assert(sent[last] == request.messages@[last].deep_view());
            assert(kept[last] == tui.agent.history.messages@[last].deep_view());
        }
        (turn, TurnAction::Ask(request))
    }

    fn conclude(&mut self, tui: &mut TuiAgent) -> (action: TurnAction)
        ensures
            (final(tui).deep_view(), final(self).deep_view(), action.deep_view()) == conclude(
                old(tui).deep_view(),
                old(self).deep_view().round,
            ),
    {
        let mut round = Round::new();
        std::mem::swap(&mut round, &mut self.round);
        self.waiting = tui.end_round(round);
        self.next_call()
    }

    fn next_call(&self) -> (action: TurnAction)
        ensures
            action.deep_view() == (if self.deep_view().waiting.len() > 0 {
                TurnActionView::Dispatch(self.deep_view().waiting[0])
            } else {
                TurnActionView::Finish
            }),
    {
        if self.waiting.len() > 0 {
            assert(self.deep_view().waiting[0] == self.waiting@[0].deep_view());
            TurnAction::Dispatch(self.waiting[0].clone())
        } else {
            TurnAction::Finish
        }
    }

    /// Takes in an event of the stream, or its end.
    pub fn on_stream(&mut self, tui: &mut TuiAgent, event: Option<StreamEvent>) -> (action:
        TurnAction)
        ensures
            (final(tui).deep_view(), final(self).deep_view(), action.deep_view()) == on_stream(
                old(tui).deep_view(),
                old(self).deep_view(),
                event.deep_view(),
            ),
    {
        match event {
            Some(e) => match tui.take_event(&mut self.round, e) {
                RoundState::Reading => TurnAction::Listen,
                RoundState::Over => self.conclude(tui),
                RoundState::Failed => {
                    self.round = Round::new();
                    self.waiting = Vec::new();
                    assert(self.waiting.deep_view() =~= Seq::<ToolCallView>::empty());
                    TurnAction::Finish
                },
            },
            None => self.conclude(tui),
        }
    }

    /// Takes in the result of the call that was to be run.
    pub fn on_result(&mut self, tui: &mut TuiAgent, result: String, schemas: &Vec<Json>) -> (action:
        TurnAction)
        ensures
            (final(tui).deep_view(), final(self).deep_view(), action.deep_view()) == on_result(
                old(tui).deep_view(),
                old(self).deep_view(),
                result@,
                schemas.deep_view(),
            ),
    {
        if self.waiting.len() == 0 {
            return TurnAction::Finish;
        }
        assert(self.deep_view().waiting[0] == self.waiting@[0].deep_view());
        let call = self.waiting.remove(0);
        assert(self.waiting.deep_view() =~= old(self).waiting.deep_view().skip(1));
        tui.take_result(&call, result);
        if self.waiting.len() > 0 {
            self.next_call()
        } else {
            TurnAction::Ask(tui.next_request(schemas))
        }
    }
}

} // verus!
