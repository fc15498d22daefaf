//! What holds of the terminal: what keys and events do to it, and what it shows.

use vstd::prelude::*;

use crate::agent::{fresh_agent, AgentView};
use crate::history::{assistant_message, tool_message, user_message, Role};
use crate::stream::StreamEventView;
use crate::text::{decimal, lines};
use crate::text_laws::law_first_characters;
use crate::tools::ToolCallView;
use crate::tui::{
    after_result, after_round, after_turn, chat_of, cost_status, fresh_round, fresh_terminal,
    greeting, message_lines, prompt_of, react_to_event, status_text, take_event, with_message, KeyCode,
    ReactionView, RoundView, TermEvent, TuiMessageView, TuiView,
};

verus! {

// ---- messages ----

/// A message of the user, of the assistant and of a tool have their own role, what they are made
/// of in full, and nothing else.
pub proof fn law_messages_are_what_they_are_made_of(
    content: Seq<char>,
    calls: Seq<ToolCallView>,
    id: Seq<char>,
)
    ensures
        user_message(content).role is User,
        user_message(content).content == content,
        user_message(content).tool_calls.len() == 0,
        user_message(content).tool_call_id is None,
        assistant_message(content, calls).role is Assistant,
        assistant_message(content, calls).content == content,
        assistant_message(content, calls).tool_calls == calls,
        assistant_message(content, calls).tool_call_id is None,
        tool_message(id, content).role is Tool,
        tool_message(id, content).content == content,
        tool_message(id, content).tool_calls.len() == 0,
        tool_message(id, content).tool_call_id == Some(id),
{
}

/// A message that is shown comes last in the chat, with its role and all its content, and leaves
/// all else alone.
pub proof fn law_a_message_is_shown_as_it_is(tui: TuiView, role: Role, content: Seq<char>)
    ensures
        ({
            let after = with_message(tui, role, content);
            &&& after.messages.len() == tui.messages.len() + 1
            &&& forall|i: int|
                0 <= i < tui.messages.len() ==> #[trigger] after.messages[i] == tui.messages[i]
            &&& after.messages.last().role == role
            &&& after.messages.last().content == content
            &&& same_but_messages(tui, after)
        }),
{
}

/// Whether two terminals differ at most in their chats.
pub open spec fn same_but_messages(before: TuiView, after: TuiView) -> bool {
    &&& after.agent == before.agent
    &&& after.input == before.input
    &&& after.status == before.status
    &&& after.busy == before.busy
}

// ---- keys ----

/// A character that is typed comes last in the input, and all else stays.
pub proof fn law_typing_appends_the_character(tui: TuiView, c: char)
    requires
        !tui.busy,
    ensures
        ({
            let typed = TermEvent::Key { code: KeyCode::Char(c), pressed: true, control: false };
            let (after, reaction) = react_to_event(tui, typed);
            &&& reaction is Continue
            &&& after.input.len() == tui.input.len() + 1
            &&& after.input.last() == c
            &&& after.input.drop_last() == tui.input
            &&& after.agent == tui.agent
            &&& after.messages == tui.messages
            &&& after.status == tui.status
            &&& after.busy == tui.busy
        }),
{
    assert(tui.input.push(c).drop_last() =~= tui.input);
}

/// Backspace takes the last character off the input, if there is one, and all else stays.
pub proof fn law_backspace_takes_one_character(tui: TuiView, control: bool)
    requires
        !tui.busy,
    ensures
        ({
            let erased = TermEvent::Key { code: KeyCode::Backspace, pressed: true, control };
            let (after, reaction) = react_to_event(tui, erased);
            &&& reaction is Continue
            &&& tui.input.len() == 0 ==> after == tui
            &&& tui.input.len() > 0 ==> after.input.push(tui.input.last()) == tui.input
            &&& after.agent == tui.agent
            &&& after.messages == tui.messages
            &&& after.status == tui.status
            &&& after.busy == tui.busy
        }),
{
    if tui.input.len() > 0 {
        assert(tui.input.drop_last().push(tui.input.last()) =~= tui.input);
    }
}

/// Enter submits what was typed, if anything was and no turn runs. The prompt is shown as the
/// user's, the input is empty, the terminal is busy and says that it thinks; the conversation is
/// not touched.
pub proof fn law_enter_submits_the_input(tui: TuiView, control: bool)
    ensures
        ({
            let enter = TermEvent::Key { code: KeyCode::Enter, pressed: true, control };
            let (after, reaction) = react_to_event(tui, enter);
            &&& tui.busy || tui.input.len() == 0 ==> reaction is Continue && after == tui
            &&& !tui.busy && tui.input.len() > 0 ==> {
                &&& reaction == ReactionView::Submit(tui.input)
                &&& after.messages.len() == tui.messages.len() + 1
                &&& after.messages.drop_last() == tui.messages
                &&& after.messages.last().role is User
                &&& after.messages.last().content == tui.input
                &&& after.input.len() == 0
                &&& after.busy
                &&& after.status == "thinking"@
                &&& after.agent == tui.agent
            }
        }),
{
    let shown = TuiMessageView { role: Role::User, content: tui.input };
    assert(tui.messages.push(shown).drop_last() =~= tui.messages);
}

/// What is no key, a key that is not pressed, any other key, a character with control and leaving
/// change nothing.
pub proof fn law_what_does_nothing(tui: TuiView, event: TermEvent)
    requires
        match event {
            TermEvent::Key { code, pressed, control } => !pressed || match code {
                KeyCode::Char(_) => control,
                KeyCode::Other => true,
                _ => false,
            },
            TermEvent::Other => true,
        },
    ensures
        react_to_event(tui, event).0 == tui,
        !(react_to_event(tui, event).1 is Submit),
{
}

// ---- rounds ----

/// What an event of a stream does to what has come in and to what is shown: content is shown as it
/// is and adds to the content, a call adds to the calls, a cost replaces the last one, an error is
/// shown and fails the round, the end ends it. Whatever an event does not touch stays.
pub proof fn law_what_stream_events_do(tui: TuiView, round: RoundView, event: StreamEventView)
    ensures
        ({
            let (after, next, state) = take_event(tui, round, event);
            &&& same_but_messages(tui, after)
            &&& event matches StreamEventView::Content(delta) ==> {
                &&& next.content == round.content + delta
                &&& after.messages.len() == tui.messages.len() + 1
                &&& after.messages.drop_last() == tui.messages
                &&& after.messages.last().role is Assistant
                &&& after.messages.last().content == delta
            }
            &&& !(event is Content) ==> next.content == round.content
            &&& event matches StreamEventView::ToolCallStart(call) ==> {
                &&& next.tool_calls.len() == round.tool_calls.len() + 1
                &&& next.tool_calls.drop_last() == round.tool_calls
                &&& next.tool_calls.last() == call
            }
            &&& !(event is ToolCallStart) ==> next.tool_calls == round.tool_calls
            &&& event matches StreamEventView::Cost(cost) ==> next.last_cost == Some(cost)
            &&& !(event is Cost) ==> next.last_cost == round.last_cost
            &&& event matches StreamEventView::Error(e) ==> {
                &&& after.messages.len() == tui.messages.len() + 1
                &&& after.messages.drop_last() == tui.messages
                &&& after.messages.last().role is Assistant
                &&& after.messages.last().content == "error: "@ + e
            }
            &&& !(event is Content) && !(event is Error) ==> after.messages == tui.messages
            &&& state is Over <==> event is Done
            &&& state is Failed <==> event is Error
        }),
{
    let (after, next, state) = take_event(tui, round, event);
    if event is Content || event is Error {
        assert(after.messages.drop_last() =~= tui.messages);
    }
    if event is ToolCallStart {
        assert(next.tool_calls.drop_last() =~= round.tool_calls);
    }
}

/// Before anything has come in, nothing has.
pub proof fn law_a_fresh_round_is_empty()
    ensures
        fresh_round().content.len() == 0,
        fresh_round().tool_calls.len() == 0,
        fresh_round().last_cost is None,
{
}

/// A message that is complete comes last in the conversation, as the assistant's, with its content
/// and its calls in full. Its cost, if there is one, is the status; the chat and the input stay.
pub proof fn law_a_complete_message_is_kept(tui: TuiView, round: RoundView)
    ensures
        ({
            let after = after_round(tui, round);
            &&& after.agent.history.len() == tui.agent.history.len() + 1
            &&& after.agent.history.drop_last() == tui.agent.history
            &&& after.agent.history.last().role is Assistant
            &&& after.agent.history.last().content == round.content
            &&& after.agent.history.last().tool_calls == round.tool_calls
            &&& after.agent.history.last().tool_call_id is None
            &&& after.agent.model == tui.agent.model
            &&& after.agent.repo_root == tui.agent.repo_root
            &&& after.messages == tui.messages
            &&& after.input == tui.input
            &&& after.busy == tui.busy
            &&& round.last_cost is None ==> after.status == tui.status
            &&& round.last_cost matches Some(cost) ==> after.status == tui.agent.model
                + " cost $"@ + cost.total_cost.text + " ("@ + decimal(cost.tokens.input as nat)
                + "+"@ + decimal(cost.tokens.output as nat) + " tok)"@
        }),
{
    assert(after_round(tui, round).agent.history.drop_last() =~= tui.agent.history);
    if round.last_cost is Some {
        let cost = round.last_cost->0;
        assert(cost_status(tui.agent.model, cost) == tui.agent.model + " cost $"@
            + cost.total_cost.text + " ("@ + decimal(cost.tokens.input as nat) + "+"@ + decimal(
            cost.tokens.output as nat,
        ) + " tok)"@);
    }
}

/// The result of a call comes last in the conversation, in full, as the tool's answer to the id of
/// the call. What is shown of it is the name of the tool, an arrow, and the first 200 characters.
pub proof fn law_a_result_is_kept_and_shown(
    tui: TuiView,
    call: ToolCallView,
    result: Seq<char>,
)
    ensures
        ({
            let after = after_result(tui, call, result);
            let head = call.name + " → "@;
            &&& after.agent.history.len() == tui.agent.history.len() + 1
            &&& after.agent.history.drop_last() == tui.agent.history
            &&& after.agent.history.last().role is Tool
            &&& after.agent.history.last().content == result
            &&& after.agent.history.last().tool_calls.len() == 0
            &&& after.agent.history.last().tool_call_id == Some(call.id)
            &&& after.agent.model == tui.agent.model
            &&& after.agent.repo_root == tui.agent.repo_root
            &&& after.messages.len() == tui.messages.len() + 1
            &&& after.messages.drop_last() == tui.messages
            &&& after.messages.last().role is Tool
            &&& result.len() <= 200 ==> after.messages.last().content == head + result
            &&& result.len() > 200 ==> after.messages.last().content == head + result.take(200)
            &&& after.input == tui.input
            &&& after.status == tui.status
            &&& after.busy == tui.busy
        }),
{
    let after = after_result(tui, call, result);
    law_first_characters(result, 200);
    assert(after.agent.history.drop_last() =~= tui.agent.history);
    assert(after.messages.drop_last() =~= tui.messages);
}

/// A new terminal has its agent as it is, an empty chat and an empty input, and is ready; a new
/// agent has its model, its directory and an empty conversation.
pub proof fn law_a_new_terminal_is_empty(
    agent: AgentView,
    model: Seq<char>,
    repo_root: Seq<char>,
)
    ensures
        fresh_terminal(agent).agent == agent,
        fresh_terminal(agent).messages.len() == 0,
        fresh_terminal(agent).input.len() == 0,
        fresh_terminal(agent).status == "ready"@,
        !fresh_terminal(agent).busy,
        fresh_agent(model, repo_root).model == model,
        fresh_agent(model, repo_root).repo_root == repo_root,
        fresh_agent(model, repo_root).history.len() == 0,
{
}

/// After a turn the terminal is ready for the next, and all else stays.
pub proof fn law_a_turn_leaves_the_terminal_ready(tui: TuiView)
    ensures
        !after_turn(tui).busy,
        after_turn(tui).status == "ready"@,
        after_turn(tui).agent == tui.agent,
        after_turn(tui).messages == tui.messages,
        after_turn(tui).input == tui.input,
{
}

// ---- what is shown ----

/// The chat is shown message by message: of two parts first the one, then the other. A message is
/// shown as the lines of its content, all of them and in full, and its first line alone tells who
/// speaks.
pub proof fn law_the_chat_is_shown_in_order(
    first: Seq<TuiMessageView>,
    second: Seq<TuiMessageView>,
    message: TuiMessageView,
    i: int,
)
    ensures
        first.len() == 0 ==> chat_of(first).len() == 0,
        chat_of(first + second) == chat_of(first) + chat_of(second),
        chat_of(seq![message]) == message_lines(message),
        message_lines(message).len() == lines(message.content).len(),
        0 <= i < lines(message.content).len() ==> {
            &&& message_lines(message)[i].text == lines(message.content)[i]
            &&& i == 0 ==> message_lines(message)[i].speaker == Some(message.role)
            &&& i > 0 ==> message_lines(message)[i].speaker is None
        },
    decreases second.len(),
{
    reveal_with_fuel(chat_of, 2);
    assert(seq![message].drop_last() =~= Seq::<TuiMessageView>::empty());
    assert(chat_of(seq![message]) =~= message_lines(message));
    if second.len() == 0 {
        assert(first + second =~= first);
        assert(chat_of(first) + chat_of(second) =~= chat_of(first));
    } else {
        law_the_chat_is_shown_in_order(first, second.drop_last(), message, i);
        assert((first + second).drop_last() =~= first + second.drop_last());
        assert((first + second).last() == second.last());
        assert(chat_of(first + second) =~= chat_of(first) + chat_of(second));
    }
}

/// Who speaks is told by a short name.
pub proof fn law_who_speaks()
    ensures
        prompt_of(Role::User) == "you> "@,
        prompt_of(Role::Assistant) == "bob> "@,
        prompt_of(Role::Tool) == "tool> "@,
        prompt_of(Role::System) == "sys> "@,
{
}

/// The greeting names the model and the directory, and the status line shows the status as it is,
/// marked while a turn runs.
pub proof fn law_what_the_status_says(tui: TuiView)
    ensures
        greeting(tui.agent.model, tui.agent.repo_root) == "model="@ + tui.agent.model + " cwd="@
            + tui.agent.repo_root + " — type a message, enter to send, ctrl-c to quit"@,
        !tui.busy ==> status_text(tui) == tui.status,
        tui.busy ==> status_text(tui) == "⟳ "@ + tui.status + " (streaming…)"@,
{
}

} // verus!
