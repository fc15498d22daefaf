//! The conversation: its messages, the requests made from it and the responses to them.

use vstd::prelude::*;

use crate::json::{Json, JsonView};
use crate::tools::{ToolCall, ToolCallView};

verus! {

/// Who a message is from.
#[derive(Clone, Copy, Debug, PartialEq, Eq, Structural)]
pub enum Role {
    System,
    User,
    Assistant,
    Tool,
}

/// One message of the conversation.
#[derive(Debug)]
pub struct Message {
    pub role: Role,
    pub content: String,
    pub tool_calls: Vec<ToolCall>,
    pub tool_call_id: Option<String>,
}

pub struct MessageView {
    pub role: Role,
    pub content: Seq<char>,
    pub tool_calls: Seq<ToolCallView>,
    pub tool_call_id: Option<Seq<char>>,
}

impl DeepView for Message {
    type V = MessageView;

    open spec fn deep_view(&self) -> MessageView {
        MessageView {
            role: self.role,
            content: self.content@,
            tool_calls: self.tool_calls.deep_view(),
            tool_call_id: self.tool_call_id.deep_view(),
        }
    }
}

impl Clone for Message {
    fn clone(&self) -> (copy: Self)
        ensures
            copy.deep_view() == self.deep_view(),
    {
        let copy = Message {
            role: self.role,
            content: self.content.clone(),
            tool_calls: self.tool_calls.clone(),
            tool_call_id: self.tool_call_id.clone(),
        };
        assert(copy.tool_calls.deep_view() =~= self.tool_calls.deep_view());
        copy
    }
}

/// A request for the next message of the assistant.
#[derive(Debug)]
pub struct LlmRequest {
    pub model: String,
    pub messages: Vec<Message>,
    pub tools: Vec<Json>,
}

pub struct LlmRequestView {
    pub model: Seq<char>,
    pub messages: Seq<MessageView>,
    pub tools: Seq<JsonView>,
}

impl DeepView for LlmRequest {
    type V = LlmRequestView;

    open spec fn deep_view(&self) -> LlmRequestView {
        LlmRequestView {
            model: self.model@,
            messages: self.messages.deep_view(),
            tools: self.tools.deep_view(),
        }
    }
}

/// A message of the assistant.
#[derive(Debug)]
pub struct LlmResponse {
    pub content: String,
    pub tool_calls: Vec<ToolCall>,
}

pub struct LlmResponseView {
    pub content: Seq<char>,
    pub tool_calls: Seq<ToolCallView>,
}

impl DeepView for LlmResponse {
    type V = LlmResponseView;

    open spec fn deep_view(&self) -> LlmResponseView {
        LlmResponseView { content: self.content@, tool_calls: self.tool_calls.deep_view() }
    }
}

impl Clone for LlmResponse {
    fn clone(&self) -> (copy: Self)
        ensures
            copy.deep_view() == self.deep_view(),
    {
        let copy = LlmResponse {
            content: self.content.clone(),
            tool_calls: self.tool_calls.clone(),
        };
        assert(copy.tool_calls.deep_view() =~= self.tool_calls.deep_view());
        copy
    }
}

/// A message of the user.
pub open spec fn user_message(content: Seq<char>) -> MessageView {
    MessageView { role: Role::User, content, tool_calls: Seq::empty(), tool_call_id: None }
}

/// A message of the assistant with the calls that it asks for.
pub open spec fn assistant_message(
    content: Seq<char>,
    tool_calls: Seq<ToolCallView>,
) -> MessageView {
    MessageView { role: Role::Assistant, content, tool_calls, tool_call_id: None }
}

/// The result of a call.
pub open spec fn tool_message(id: Seq<char>, result: Seq<char>) -> MessageView {
    MessageView {
        role: Role::Tool,
        content: result,
        tool_calls: Seq::empty(),
        tool_call_id: Some(id),
    }
}

/// The messages of the conversation, oldest first.
#[derive(Debug)]
pub struct History {
    pub messages: Vec<Message>,
}

impl DeepView for History {
    type V = Seq<MessageView>;

    open spec fn deep_view(&self) -> Seq<MessageView> {
        self.messages.deep_view()
    }
}

impl History {
    /// A conversation that has not begun.
    pub fn new() -> (history: Self)
        ensures
            history.deep_view() == Seq::<MessageView>::empty(),
    {
        History { messages: Vec::new() }
    }

    fn append(&mut self, message: Message)
        ensures
            final(self).deep_view() == old(self).deep_view().push(message.deep_view()),
            final(self).messages@ == old(self).messages@.push(message),
    {
        self.messages.push(message);
        assert(self.deep_view() =~= old(self).deep_view().push(message.deep_view()));
    }

    pub fn append_user(&mut self, content: String)
        ensures
            final(self).deep_view() == old(self).deep_view().push(user_message(content@)),
            final(self).messages@.len() == old(self).messages@.len() + 1,
            final(self).messages@.last().role is User,
            final(self).messages@.last().content@ == content@,
            final(self).messages@.last().tool_calls@.len() == 0,
            final(self).messages@.last().tool_call_id is None,
    {
        let message = Message {
            role: Role::User,
            content,
            tool_calls: Vec::new(),
            tool_call_id: None,
        };
        assert(message.tool_calls.deep_view() =~= Seq::<ToolCallView>::empty());
        self.append(message);
    }

    pub fn append_assistant(&mut self, content: String)
        ensures
            final(self).deep_view() == old(self).deep_view().push(
                assistant_message(content@, Seq::empty()),
            ),
            final(self).messages@.len() == old(self).messages@.len() + 1,
            final(self).messages@.last().role is Assistant,
            final(self).messages@.last().content@ == content@,
            final(self).messages@.last().tool_calls@.len() == 0,
            final(self).messages@.last().tool_call_id is None,
    {
        let tool_calls: Vec<ToolCall> = Vec::new();
        assert(tool_calls.deep_view() =~= Seq::<ToolCallView>::empty());
        self.append_assistant_with_tools(content, tool_calls);
    }

    pub fn append_assistant_with_tools(&mut self, content: String, tool_calls: Vec<ToolCall>)
        ensures
            final(self).deep_view() == old(self).deep_view().push(
                assistant_message(content@, tool_calls.deep_view()),
            ),
            final(self).messages@.len() == old(self).messages@.len() + 1,
            final(self).messages@.last().role is Assistant,
            final(self).messages@.last().content@ == content@,
            final(self).messages@.last().tool_calls@ == tool_calls@,
            final(self).messages@.last().tool_call_id is None,
    {
        self.append(Message { role: Role::Assistant, content, tool_calls, tool_call_id: None });
    }

    pub fn append_tool_result(&mut self, id: String, result: String)
        ensures
            final(self).deep_view() == old(self).deep_view().push(tool_message(id@, result@)),
            final(self).messages@.len() == old(self).messages@.len() + 1,
            final(self).messages@.last().role is Tool,
            final(self).messages@.last().content@ == result@,
            final(self).messages@.last().tool_calls@.len() == 0,
            final(self).messages@.last().tool_call_id matches Some(answered) && answered@ == id@,
    {
        let message = Message {
            role: Role::Tool,
            content: result,
            tool_calls: Vec::new(),
            tool_call_id: Some(id),
        };
        assert(message.tool_calls.deep_view() =~= Seq::<ToolCallView>::empty());
        self.append(message);
    }

    /// The request that asks a model to go on from here.
    pub fn to_request(&self, model: &str, tools: &Vec<Json>) -> (request: LlmRequest)
        ensures
            request.deep_view() == (LlmRequestView {
                model: model@,
                messages: self.deep_view(),
                tools: tools.deep_view(),
            }),
    {
        let request = LlmRequest {
            model: model.to_owned(),
            messages: self.messages.clone(),
            tools: tools.clone(),
        };
        assert(request.messages.deep_view() =~= self.deep_view());
        assert(request.tools.deep_view() =~= tools.deep_view());
        request
    }
}

} // verus!
