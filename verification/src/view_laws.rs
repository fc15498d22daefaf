//! What the parts of the library are in contracts: field for field what they hold.

use vstd::prelude::*;

use crate::agent::Agent;
use crate::cost::{CallCost, Dollars, GatewayModel, GatewayPricing, GatewayProvider, ModelRates};
use crate::history::{History, LlmRequest, LlmResponse, Message};
use crate::llm::{
    result_view, GatewayRequest, LlmError, LlmErrorView, OpenAiChoice, OpenAiMessage,
    OpenAiResponse, OpenAiToolCall,
};
use crate::sse::{SseEvent, SseEventView};
use crate::stream::{PartialCall, StreamEvent, StreamEventView, StreamStep, StreamStepView};
use crate::tools::ToolCall;
use crate::tui::{ChatLine, Reaction, ReactionView, Round, TuiAgent, TuiMessage};
use crate::turn::{Turn, TurnAction, TurnActionView};

verus! {

/// A tool call is its id, its name and its arguments.
pub proof fn law_a_tool_call_is_its_fields(call: ToolCall)
    ensures
        call.deep_view().id == call.id@,
        call.deep_view().name == call.name@,
        call.deep_view().arguments == call.arguments.deep_view(),
{
}

/// A message is its role, its content, its calls in their order and the id that it answers.
pub proof fn law_a_message_is_its_fields(message: Message)
    ensures
        message.deep_view().role == message.role,
        message.deep_view().content == message.content@,
        message.deep_view().tool_calls.len() == message.tool_calls@.len(),
        forall|i: int|
            0 <= i < message.tool_calls@.len() ==> #[trigger] message.deep_view().tool_calls[i]
                == message.tool_calls@[i].deep_view(),
        match message.tool_call_id {
            Some(id) => message.deep_view().tool_call_id == Some(id@),
            None => message.deep_view().tool_call_id is None,
        },
{
}

/// A conversation is its messages in their order.
pub proof fn law_a_conversation_is_its_messages(history: History)
    ensures
        history.deep_view().len() == history.messages@.len(),
        forall|i: int|
            0 <= i < history.messages@.len() ==> #[trigger] history.deep_view()[i]
                == history.messages@[i].deep_view(),
{
}

/// A request is its model, its messages and its tools, in their order.
pub proof fn law_a_request_is_its_fields(request: LlmRequest)
    ensures
        request.deep_view().model == request.model@,
        request.deep_view().messages.len() == request.messages@.len(),
        forall|i: int|
            0 <= i < request.messages@.len() ==> #[trigger] request.deep_view().messages[i]
                == request.messages@[i].deep_view(),
        request.deep_view().tools.len() == request.tools@.len(),
        forall|i: int|
            0 <= i < request.tools@.len() ==> #[trigger] request.deep_view().tools[i]
                == request.tools@[i].deep_view(),
{
}

/// A response is its content and its calls in their order.
pub proof fn law_a_response_is_its_fields(response: LlmResponse)
    ensures
        response.deep_view().content == response.content@,
        response.deep_view().tool_calls.len() == response.tool_calls@.len(),
        forall|i: int|
            0 <= i < response.tool_calls@.len() ==> #[trigger] response.deep_view().tool_calls[i]
                == response.tool_calls@[i].deep_view(),
{
}

/// An agent is its model, its directory and its conversation.
pub proof fn law_an_agent_is_its_fields(agent: Agent)
    ensures
        agent.deep_view().model == agent.config.model@,
        agent.deep_view().repo_root == agent.config.repo_root@,
        agent.deep_view().history == agent.history.deep_view(),
{
}

/// A terminal is its agent, its chat in order, its input, its status and whether it is busy.
pub proof fn law_a_terminal_is_its_fields(tui: TuiAgent)
    ensures
        tui.deep_view().agent == tui.agent.deep_view(),
        tui.deep_view().messages.len() == tui.messages@.len(),
        forall|i: int|
            0 <= i < tui.messages@.len() ==> (#[trigger] tui.deep_view().messages[i]).role
                == tui.messages@[i].role && tui.deep_view().messages[i].content
                == tui.messages@[i].content@,
        tui.deep_view().input == tui.input@,
        tui.deep_view().status == tui.status@,
        tui.deep_view().busy == tui.busy,
{
}

/// A message and a line of the chat are who speaks and what is said.
pub proof fn law_what_is_shown_is_its_fields(message: TuiMessage, line: ChatLine)
    ensures
        message.deep_view().role == message.role,
        message.deep_view().content == message.content@,
        line.deep_view().speaker == line.speaker,
        line.deep_view().text == line.text@,
{
}

/// What has come in of a message is its content, its calls in their order and its last cost.
pub proof fn law_a_round_is_its_fields(round: Round, turn: Turn)
    ensures
        round.deep_view().content == round.content@,
        round.deep_view().tool_calls.len() == round.tool_calls@.len(),
        forall|i: int|
            0 <= i < round.tool_calls@.len() ==> #[trigger] round.deep_view().tool_calls[i]
                == round.tool_calls@[i].deep_view(),
        match round.last_cost {
            Some(cost) => round.deep_view().last_cost == Some(cost.deep_view()),
            None => round.deep_view().last_cost is None,
        },
        turn.deep_view().round == turn.round.deep_view(),
        turn.deep_view().waiting.len() == turn.waiting@.len(),
        forall|i: int|
            0 <= i < turn.waiting@.len() ==> #[trigger] turn.deep_view().waiting[i]
                == turn.waiting@[i].deep_view(),
{
}

/// What is to be done next, and what is to be done about an event, say what they carry.
pub proof fn law_actions_are_what_they_carry(action: TurnAction, reaction: Reaction)
    ensures
        match action {
            TurnAction::Ask(request) => action.deep_view() == TurnActionView::Ask(
                request.deep_view(),
            ),
            TurnAction::Listen => action.deep_view() is Listen,
            TurnAction::Dispatch(call) => action.deep_view() == TurnActionView::Dispatch(
                call.deep_view(),
            ),
            TurnAction::Finish => action.deep_view() is Finish,
        },
        match reaction {
            Reaction::Continue => reaction.deep_view() is Continue,
            Reaction::Quit => reaction.deep_view() is Quit,
            Reaction::Submit(prompt) => reaction.deep_view() == ReactionView::Submit(prompt@),
        },
{
}

/// An event for a listener is what it carries, and so is the step that emits it.
pub proof fn law_stream_events_are_what_they_carry(event: StreamEvent, step: StreamStep)
    ensures
        match event {
            StreamEvent::Content(text) => event.deep_view() == StreamEventView::Content(text@),
            StreamEvent::ToolCallStart(call) => event.deep_view() == StreamEventView::ToolCallStart(
                call.deep_view(),
            ),
            StreamEvent::ToolCallDelta(text) => event.deep_view() == StreamEventView::ToolCallDelta(
                text@,
            ),
            StreamEvent::Cost(cost) => event.deep_view() == StreamEventView::Cost(cost.deep_view()),
            StreamEvent::Done => event.deep_view() is Done,
            StreamEvent::Error(text) => event.deep_view() == StreamEventView::Error(text@),
        },
        match step {
            StreamStep::Emit(e) => step.deep_view() == StreamStepView::Emit(e.deep_view()),
            StreamStep::Bill(usage) => step.deep_view() == StreamStepView::Bill(usage),
        },
{
}

/// An event of a stream is what it carries, and a call of which fragments came in is its parts.
pub proof fn law_sse_events_are_what_they_carry(event: SseEvent, call: PartialCall)
    ensures
        match event {
            SseEvent::DeltaContent(text) => event.deep_view() == SseEventView::DeltaContent(text@),
            SseEvent::DeltaTool { index, id, name, arguments } => event.deep_view() matches
                SseEventView::DeltaTool { index: at, id: i, name: n, arguments: a } && {
                &&& at == index
                &&& i is Some == id is Some && (id is Some ==> i->0 == id->0@)
                &&& n is Some == name is Some && (name is Some ==> n->0 == name->0@)
                &&& a is Some == arguments is Some && (arguments is Some ==> a->0 == arguments->0@)
            },
            SseEvent::Usage(usage) => event.deep_view() == SseEventView::Usage(usage),
            SseEvent::Done => event.deep_view() is Done,
        },
        call.deep_view().id == call.id@,
        call.deep_view().name == call.name@,
        call.deep_view().arguments == call.arguments@,
{
}

/// A cost is its counts and its total.
pub proof fn law_a_cost_is_its_fields(cost: CallCost, total: Dollars)
    ensures
        cost.deep_view().tokens.input == cost.input_tokens,
        cost.deep_view().tokens.output == cost.output_tokens,
        cost.deep_view().tokens.cache_read == cost.cache_read_tokens,
        cost.deep_view().tokens.cache_write == cost.cache_write_tokens,
        cost.deep_view().total_cost == cost.total_cost.deep_view(),
        total.deep_view().bits == total.bits,
        total.deep_view().text == total.text@,
{
}

/// Rates are their four prices. A provider's price of the prompt is that of input, its price of
/// the completion that of output, and its prices of the cache are those of the cache.
pub proof fn law_prices_are_what_they_are_for(
    rates: ModelRates,
    pricing: GatewayPricing,
    provider: GatewayProvider,
    model: GatewayModel,
)
    ensures
        rates.deep_view().input == rates.input.deep_view(),
        rates.deep_view().output == rates.output.deep_view(),
        rates.deep_view().cache_read == rates.cache_read.deep_view(),
        rates.deep_view().cache_write == rates.cache_write.deep_view(),
        pricing.deep_view().input == pricing.prompt.deep_view(),
        pricing.deep_view().output == pricing.completion.deep_view(),
        pricing.deep_view().cache_read == pricing.input_cache_read.deep_view(),
        pricing.deep_view().cache_write == pricing.input_cache_write.deep_view(),
        match provider.pricing {
            Some(p) => provider.deep_view() == Some(p.deep_view()),
            None => provider.deep_view() is None,
        },
        model.deep_view().id == model.id@,
        model.deep_view().providers.len() == model.providers@.len(),
        forall|i: int|
            0 <= i < model.providers@.len() ==> #[trigger] model.deep_view().providers[i]
                == model.providers@[i].deep_view(),
{
}

/// A call in an answer is its id and its function's name and arguments.
pub proof fn law_an_answered_call_is_its_fields(call: OpenAiToolCall)
    ensures
        call.deep_view().id == call.id@,
        call.deep_view().name == call.function.name@,
        call.deep_view().arguments == call.function.arguments@,
{
}

/// An answer is the messages of its choices in their order, and its usage.
pub proof fn law_an_answer_is_its_fields(
    message: OpenAiMessage,
    choice: OpenAiChoice,
    response: OpenAiResponse,
)
    ensures
        match message.content {
            Some(text) => message.deep_view().content == Some(text@),
            None => message.deep_view().content is None,
        },
        match message.tool_calls {
            Some(calls) => message.deep_view().tool_calls matches Some(all) && all.len()
                == calls@.len() && forall|i: int|
                0 <= i < calls@.len() ==> #[trigger] all[i] == calls@[i].deep_view(),
            None => message.deep_view().tool_calls is None,
        },
        choice.deep_view() == choice.message.deep_view(),
        response.deep_view().choices.len() == response.choices@.len(),
        forall|i: int|
            0 <= i < response.choices@.len() ==> #[trigger] response.deep_view().choices[i]
                == response.choices@[i].message.deep_view(),
        response.deep_view().usage == response.usage,
{
}

/// A request to the gateway is its address, its headers in their order and its body.
pub proof fn law_a_gateway_request_is_its_fields(request: GatewayRequest)
    ensures
        request.deep_view().url == request.url@,
        request.deep_view().headers.len() == request.headers@.len(),
        forall|i: int|
            0 <= i < request.headers@.len() ==> (#[trigger] request.deep_view().headers[i]).0
                == request.headers@[i].0@ && request.deep_view().headers[i].1
                == request.headers@[i].1@,
        match request.body {
            Some(body) => request.deep_view().body == Some(body@),
            None => request.deep_view().body is None,
        },
{
}

/// An error is what it carries, and what a call gave is its response or its error.
pub proof fn law_errors_are_what_they_carry(
    error: LlmError,
    result: Result<LlmResponse, LlmError>,
)
    ensures
        match error {
            LlmError::MissingKey => error.deep_view() is MissingKey,
            LlmError::BadHeader => error.deep_view() is BadHeader,
            LlmError::Gateway { status, body } => error.deep_view() == (LlmErrorView::Gateway {
                status: status@,
                body: body@,
            }),
            LlmError::Parse { error: e, body } => error.deep_view() == (LlmErrorView::Parse {
                error: e@,
                body: body@,
            }),
            LlmError::EmptyChoices => error.deep_view() is EmptyChoices,
            LlmError::ReplayExhausted { index } => error.deep_view() == (
            LlmErrorView::ReplayExhausted { index }),
        },
        match result {
            Ok(response) => result_view(result) == Ok::<_, LlmErrorView>(response.deep_view()),
            Err(e) => result_view(result) matches Err(v) && v == e.deep_view(),
        },
{
}

} // verus!
