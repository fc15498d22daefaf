//! The terminal: what keys do, how a turn goes, and what is shown.

use vstd::prelude::*;

use crate::agent::{Agent, AgentView};
use crate::cost::{CallCost, CallCostView};
use crate::history::{
    assistant_message, tool_message, user_message, LlmRequest, LlmRequestView, Role,
};
use crate::json::Json;
use crate::stream::{StreamEvent, StreamEventView};
use crate::text::{decimal, first_chars, lines, push_decimal, split_lines, take_chars};
use crate::tools::{ToolCall, ToolCallView};

verus! {

/// A message of the chat.
#[derive(Debug)]
pub struct TuiMessage {
    pub role: Role,
    pub content: String,
}

pub struct TuiMessageView {
    pub role: Role,
    pub content: Seq<char>,
}

impl DeepView for TuiMessage {
    type V = TuiMessageView;

    open spec fn deep_view(&self) -> TuiMessageView {
        TuiMessageView { role: self.role, content: self.content@ }
    }
}

/// The terminal's agent.
#[derive(Debug)]
pub struct TuiAgent {
    pub agent: Agent,
    pub messages: Vec<TuiMessage>,
    pub input: String,
    pub status: String,
    pub busy: bool,
}

pub struct TuiView {
    pub agent: AgentView,
    pub messages: Seq<TuiMessageView>,
    pub input: Seq<char>,
    pub status: Seq<char>,
    pub busy: bool,
}

impl DeepView for TuiAgent {
    type V = TuiView;

    open spec fn deep_view(&self) -> TuiView {
        TuiView {
            agent: self.agent.deep_view(),
            messages: self.messages.deep_view(),
            input: self.input@,
            status: self.status@,
            busy: self.busy,
        }
    }
}

/// The terminal with one more message in the chat.
pub open spec fn with_message(tui: TuiView, role: Role, content: Seq<char>) -> TuiView {
    TuiView { messages: tui.messages.push(TuiMessageView { role, content }), ..tui }
}

// ---- keys ----

/// Which key was hit.
#[derive(Clone, Copy, Debug, PartialEq, Eq, Structural)]
pub enum KeyCode {
    Enter,
    Backspace,
    Char(char),
    Other,
}

/// What happened at the terminal.
#[derive(Clone, Copy, Debug, PartialEq, Eq, Structural)]
pub enum TermEvent {
    /// A key: whether it was pressed, rather than repeated or released, and whether the control
    /// key was held.
    Key { code: KeyCode, pressed: bool, control: bool },
    Other,
}

/// What is to be done about an event.
#[derive(Debug)]
pub enum Reaction {
    /// Go on.
    Continue,
    /// Leave.
    Quit,
    /// Run a turn with a prompt.
    Submit(String),
}

pub enum ReactionView {
    Continue,
    Quit,
    Submit(Seq<char>),
}

impl DeepView for Reaction {
    type V = ReactionView;

    open spec fn deep_view(&self) -> ReactionView {
        match *self {
            Reaction::Continue => ReactionView::Continue,
            Reaction::Quit => ReactionView::Quit,
            Reaction::Submit(prompt) => ReactionView::Submit(prompt@),
        }
    }
}

/// The terminal after a prompt is submitted.
pub open spec fn submitted(tui: TuiView) -> TuiView {
    TuiView {
        input: Seq::empty(),
        busy: true,
        status: "thinking"@,
        ..with_message(tui, Role::User, tui.input)
    }
}

/// What an event does. Only a pressed key does anything. Control with c or d leaves; while a turn
/// runs nothing else has an effect.
pub open spec fn react_to_event(tui: TuiView, event: TermEvent) -> (TuiView, ReactionView) {
    match event {
        TermEvent::Key { code, pressed: true, control } => match code {
            KeyCode::Enter => if !tui.busy && tui.input.len() > 0 {
                (submitted(tui), ReactionView::Submit(tui.input))
            } else {
                (tui, ReactionView::Continue)
            },
            KeyCode::Char(c) => if control && (c == 'c' || c == 'd') {
                (tui, ReactionView::Quit)
            } else if !tui.busy && !control {
                (TuiView { input: tui.input.push(c), ..tui }, ReactionView::Continue)
            } else {
                (tui, ReactionView::Continue)
            },
            KeyCode::Backspace => if !tui.busy && tui.input.len() > 0 {
                (TuiView { input: tui.input.drop_last(), ..tui }, ReactionView::Continue)
            } else {
                (tui, ReactionView::Continue)
            },
            KeyCode::Other => (tui, ReactionView::Continue),
        },
        _ => (tui, ReactionView::Continue),
    }
}

// ---- turns ----

/// What has come in of the assistant's message.
#[derive(Debug)]
pub struct Round {
    pub content: String,
    pub tool_calls: Vec<ToolCall>,
    pub last_cost: Option<CallCost>,
}

pub struct RoundView {
    pub content: Seq<char>,
    pub tool_calls: Seq<ToolCallView>,
    pub last_cost: Option<CallCostView>,
}

impl DeepView for Round {
    type V = RoundView;

    open spec fn deep_view(&self) -> RoundView {
        RoundView {
            content: self.content@,
            tool_calls: self.tool_calls.deep_view(),
            last_cost: self.last_cost.deep_view(),
        }
    }
}

/// A round in which nothing has come in.
pub open spec fn fresh_round() -> RoundView {
    RoundView { content: Seq::empty(), tool_calls: Seq::empty(), last_cost: None }
}

/// How a round stands.
#[derive(Clone, Copy, Debug, PartialEq, Eq, Structural)]
pub enum RoundState {
    /// More events may come.
    Reading,
    /// The message is complete.
    Over,
    /// The stream failed, and the turn ends without the message.
    Failed,
}

/// What an event of the stream does: content is shown at once and adds up, calls are collected,
/// fragments of calls are passed over, and the last cost counts.
pub open spec fn take_event(tui: TuiView, round: RoundView, event: StreamEventView) -> (
    TuiView,
    RoundView,
    RoundState,
) {
    match event {
        StreamEventView::Content(delta) => (
            with_message(tui, Role::Assistant, delta),
            RoundView { content: round.content + delta, ..round },
            RoundState::Reading,
        ),
        StreamEventView::ToolCallStart(call) => (
            tui,
            RoundView { tool_calls: round.tool_calls.push(call), ..round },
            RoundState::Reading,
        ),
        StreamEventView::ToolCallDelta(_) => (tui, round, RoundState::Reading),
        StreamEventView::Cost(cost) => (
            tui,
            RoundView { last_cost: Some(cost), ..round },
            RoundState::Reading,
        ),
        StreamEventView::Done => (tui, round, RoundState::Over),
        StreamEventView::Error(e) => (
            with_message(tui, Role::Assistant, "error: "@ + e),
            round,
            RoundState::Failed,
        ),
    }
}

/// The status that reports a cost.
pub open spec fn cost_status(model: Seq<char>, cost: CallCostView) -> Seq<char> {
    model + " cost $"@ + cost.total_cost.text + " ("@ + decimal(cost.tokens.input as nat) + "+"@
        + decimal(cost.tokens.output as nat) + " tok)"@
}

/// The terminal after a message is complete: its cost is shown, and it is in the conversation.
pub open spec fn after_round(tui: TuiView, round: RoundView) -> TuiView {
    TuiView {
        status: match round.last_cost {
            Some(cost) => cost_status(tui.agent.model, cost),
            None => tui.status,
        },
        agent: AgentView {
            history: tui.agent.history.push(assistant_message(round.content, round.tool_calls)),
            ..tui.agent
        },
        ..tui
    }
}

/// The terminal of an agent before anything has happened.
pub open spec fn fresh_terminal(agent: AgentView) -> TuiView {
    TuiView {
        agent,
        messages: Seq::empty(),
        input: Seq::empty(),
        status: "ready"@,
        busy: false,
    }
}

/// The status that greets the user.
pub open spec fn greeting(model: Seq<char>, repo_root: Seq<char>) -> Seq<char> {
    "model="@ + model + " cwd="@ + repo_root + " — type a message, enter to send, ctrl-c to quit"@
}

/// The text of the status line, which tells whether a turn runs.
pub open spec fn status_text(tui: TuiView) -> Seq<char> {
    if tui.busy {
        "⟳ "@ + tui.status + " (streaming…)"@
    } else {
        tui.status
    }
}

/// The terminal after a turn.
pub open spec fn after_turn(tui: TuiView) -> TuiView {
    TuiView { busy: false, status: "ready"@, ..tui }
}

/// How many characters of a result are shown.
pub const SHOWN_RESULT: usize = 200;

/// The terminal after the result of a call: its beginning is shown, and all of it is in the
/// conversation.
pub open spec fn after_result(tui: TuiView, call: ToolCallView, result: Seq<char>) -> TuiView {
    let shown = with_message(
        tui,
        Role::Tool,
        call.name + " → "@ + first_chars(result, SHOWN_RESULT as nat),
    );
    TuiView {
        agent: AgentView {
            history: tui.agent.history.push(tool_message(call.id, result)),
            ..tui.agent
        },
        ..shown
    }
}

// ---- what is shown ----

/// A line of the chat: who speaks, where a message begins, and the text.
#[derive(Debug)]
pub struct ChatLine {
    pub speaker: Option<Role>,
    pub text: String,
}

pub struct ChatLineView {
    pub speaker: Option<Role>,
    pub text: Seq<char>,
}

impl DeepView for ChatLine {
    type V = ChatLineView;

    open spec fn deep_view(&self) -> ChatLineView {
        ChatLineView { speaker: self.speaker, text: self.text@ }
    }
}

/// The lines of a message: the first tells who speaks.
pub open spec fn message_lines(message: TuiMessageView) -> Seq<ChatLineView> {
    let all = lines(message.content);
    Seq::new(
        all.len(),
        |i: int|
            ChatLineView {
                speaker: if i == 0 {
                    Some(message.role)
                } else {
                    None
                },
                text: all[i],
            },
    )
}

/// The lines of the chat, message by message.
pub open spec fn chat_of(messages: Seq<TuiMessageView>) -> Seq<ChatLineView>
    decreases messages.len(),
{
    if messages.len() == 0 {
        Seq::empty()
    } else {
        chat_of(messages.drop_last()) + message_lines(messages.last())
    }
}

/// What stands before the first line of a message.
pub open spec fn prompt_of(role: Role) -> Seq<char> {
    match role {
        Role::User => "you> "@,
        Role::Assistant => "bob> "@,
        Role::Tool => "tool> "@,
        Role::System => "sys> "@,
    }
}

/// What stands before the first line of a message.
pub fn speaker_prompt(role: Role) -> (text: &'static str)
    ensures
        text@ == prompt_of(role),
{
    match role {
        Role::User => "you> ",
        Role::Assistant => "bob> ",
        Role::Tool => "tool> ",
        Role::System => "sys> ",
    }
}

impl Round {
    pub fn new() -> (round: Self)
        ensures
            round.deep_view() == fresh_round(),
    {
        let round = Round { content: String::new(), tool_calls: Vec::new(), last_cost: None };
        assert(round.tool_calls.deep_view() =~= Seq::<ToolCallView>::empty());
        round
    }
}

impl TuiAgent {
    pub fn new(agent: Agent) -> (tui: Self)
        ensures
            tui.deep_view() == fresh_terminal(agent.deep_view()),
    {
        let tui = TuiAgent {
            agent,
            messages: Vec::new(),
            input: String::new(),
            status: "ready".to_owned(),
            busy: false,
        };
        assert(tui.messages.deep_view() =~= Seq::<TuiMessageView>::empty());
        tui
    }

    /// Greets the user in the status line.
    pub fn greet(&mut self)
        ensures
            final(self).deep_view() == (TuiView {
                status: greeting(
                    old(self).deep_view().agent.model,
                    old(self).deep_view().agent.repo_root,
                ),
                ..old(self).deep_view()
            }),
    {
        let mut status = "model=".to_owned();
        status.append(self.agent.config.model.as_str());
        status.append(" cwd=");
        status.append(self.agent.config.repo_root.as_str());
        status.append(" — type a message, enter to send, ctrl-c to quit");
        self.status = status;
    }

    fn show(&mut self, role: Role, content: String)
        ensures
            final(self).deep_view() == with_message(old(self).deep_view(), role, content@),
    {
        self.messages.push(TuiMessage { role, content });
        assert(self.messages.deep_view() =~= old(self).messages.deep_view().push(
            TuiMessageView { role, content: content@ },
        ));
    }

    /// Reacts to an event at the terminal.
    pub fn handle_event(&mut self, event: TermEvent) -> (reaction: Reaction)
        ensures
            (final(self).deep_view(), reaction.deep_view()) == react_to_event(
                old(self).deep_view(),
                event,
            ),
    {
        if let TermEvent::Key { code, pressed, control } = event {
            if !pressed {
                return Reaction::Continue;
            }
            match code {
                KeyCode::Enter => if !self.busy && !self.input.as_str().is_empty() {
                    let mut prompt = String::new();
                    std::mem::swap(&mut prompt, &mut self.input);
                    self.show(Role::User, prompt.clone());
                    self.busy = true;
                    self.status = "thinking".to_owned();
                    return Reaction::Submit(prompt);
                },
                KeyCode::Char(c) => if control && (c == 'c' || c == 'd') {
                    return Reaction::Quit;
                } else if !self.busy && !control {
                    self.input.push(c);
                },
                KeyCode::Backspace => if !self.busy {
                    let _ = self.input.pop();
                },
                KeyCode::Other => {},
            }
        }
        Reaction::Continue
    }

    /// Begins a turn: the prompt is in the conversation.
    pub fn begin_turn(&mut self, prompt: String)
        ensures
            final(self).deep_view() == (TuiView {
                agent: AgentView {
                    history: old(self).deep_view().agent.history.push(user_message(prompt@)),
                    ..old(self).deep_view().agent
                },
                ..old(self).deep_view()
            }),
            final(self).agent.history.messages@.len() == old(self).agent.history.messages@.len() + 1,
            final(self).agent.history.messages@.last().content@ == prompt@,
    {
        self.agent.history.append_user(prompt);
    }

    /// The request for the next message, with the schemas of the tools.
    pub fn next_request(&self, schemas: &Vec<Json>) -> (request: LlmRequest)
        ensures
            request.deep_view() == (LlmRequestView {
                model: self.deep_view().agent.model,
                messages: self.deep_view().agent.history,
                tools: schemas.deep_view(),
            }),
    {
        self.agent.history.to_request(self.agent.config.model.as_str(), schemas)
    }

    /// Takes in an event of the stream.
    pub fn take_event(&mut self, round: &mut Round, event: StreamEvent) -> (state: RoundState)
        ensures
            (final(self).deep_view(), final(round).deep_view(), state) == take_event(
                old(self).deep_view(),
                old(round).deep_view(),
                event.deep_view(),
            ),
    {
        match event {
            StreamEvent::Content(delta) => {
                round.content.append(delta.as_str());
                self.show(Role::Assistant, delta);
                RoundState::Reading
            },
            StreamEvent::ToolCallStart(call) => {
                round.tool_calls.push(call);
                assert(round.tool_calls.deep_view() =~= old(round).tool_calls.deep_view().push(
                    call.deep_view(),
                ));
                RoundState::Reading
            },
            StreamEvent::ToolCallDelta(_) => RoundState::Reading,
            StreamEvent::Cost(cost) => {
                round.last_cost = Some(cost);
                RoundState::Reading
            },
            StreamEvent::Done => RoundState::Over,
            StreamEvent::Error(e) => {
                let mut text = "error: ".to_owned();
                text.append(e.as_str());
                self.show(Role::Assistant, text);
                RoundState::Failed
            },
        }
    }

    /// Takes in the end of a message. Gives the calls to run; with none the turn is over.
    pub fn end_round(&mut self, round: Round) -> (calls: Vec<ToolCall>)
        ensures
            final(self).deep_view() == after_round(old(self).deep_view(), round.deep_view()),
            calls.deep_view() == round.deep_view().tool_calls,
    {
        if let Some(cost) = &round.last_cost {
            let mut status = self.agent.config.model.clone();
            status.append(" cost $");
            status.append(cost.total_cost.text.as_str());
            status.append(" (");
            push_decimal(&mut status, cost.input_tokens);
            status.append("+");
            push_decimal(&mut status, cost.output_tokens);
            status.append(" tok)");
            self.status = status;
        }
        let calls = round.tool_calls.clone();
        assert(calls.deep_view() =~= round.tool_calls.deep_view());
        if round.tool_calls.len() == 0 {
            assert(round.tool_calls.deep_view() =~= Seq::<ToolCallView>::empty());
            self.agent.history.append_assistant(round.content);
        } else {
            self.agent.history.append_assistant_with_tools(round.content, round.tool_calls);
        }
        calls
    }

    /// Takes in the result of a call.
    pub fn take_result(&mut self, call: &ToolCall, result: String)
        ensures
            final(self).deep_view() == after_result(
                old(self).deep_view(),
                call.deep_view(),
                result@,
            ),
    {
        let mut text = call.name.clone();
        text.append(" → ");
        text.append(take_chars(result.as_str(), SHOWN_RESULT).as_str());
        self.show(Role::Tool, text);
        self.agent.history.append_tool_result(call.id.clone(), result);
    }

    /// Ends a turn.
    pub fn end_turn(&mut self)
        ensures
            final(self).deep_view() == after_turn(old(self).deep_view()),
    {
        self.busy = false;
        self.status = "ready".to_owned();
    }

    /// The lines of the chat.
    pub fn chat_lines(&self) -> (chat: Vec<ChatLine>)
        ensures
            chat.deep_view() == chat_of(self.deep_view().messages),
    {
        let mut chat: Vec<ChatLine> = Vec::new();
        let ghost all = self.messages.deep_view();
        assert(chat.deep_view() =~= chat_of(all.take(0)));
        for i in 0..self.messages.len()
            invariant
                all == self.messages.deep_view(),
                chat.deep_view() == chat_of(all.take(i as int)),
        {
            let ghost before = chat.deep_view();
            let message = &self.messages[i];
            let texts = split_lines(message.content.as_str());
            let ghost wanted = message_lines(message.deep_view());
            let ghost split = texts.deep_view();
            assert(chat.deep_view() =~= before + wanted.take(0));
            let mut first = true;
            for text in it: texts
                invariant
                    it.seq() == texts@,
                    split == texts.deep_view(),
                    split == lines(message.content@),
                    wanted == message_lines(message.deep_view()),
                    first == (it.index() == 0),
                    chat.deep_view() == before + wanted.take(it.index()),
            {
                let ghost now = chat.deep_view();
                let ghost at = it.index();
                assert(split[at] == texts@[at]@);
                let speaker = if first {
                    Some(message.role)
                } else {
                    None
                };
                chat.push(ChatLine { speaker, text });
                first = false;
                assert(chat.deep_view() =~= now.push(wanted[at]));
                assert(chat.deep_view() =~= before + wanted.take(at + 1));
            }
            proof {
                assert(wanted.take(wanted.len() as int) =~= wanted);
                assert(all.take(i + 1).drop_last() =~= all.take(i as int));
                assert(all.take(i + 1).last() == message.deep_view());
            }
        }
        assert(all.take(all.len() as int) =~= all);
        chat
    }

    /// The text of the status line.
    pub fn status_line(&self) -> (text: String)
        ensures
            text@ == status_text(self.deep_view()),
    {
        if self.busy {
            let mut text = "⟳ ".to_owned();
            text.append(self.status.as_str());
            text.append(" (streaming…)");
            text
        } else {
            self.status.clone()
        }
    }
}

} // verus!
