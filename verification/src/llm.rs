//! Clients of a language model: what is asked of the gateway, and how its answers are read.

use std::sync::atomic::{AtomicUsize, Ordering};
use std::sync::Arc;
use vstd::prelude::*;
use vstd::utf8::encode_utf8;

use crate::cost::{
    rates_by_id, rates_of, token_counts, CallCost, CallCostView, Dollars, DollarsView, GatewayModel,
    ModelRates, ModelRatesView, OpenAiUsage, RateTable,
};
use crate::history::{
    LlmRequest, LlmRequestView, LlmResponse, LlmResponseView, Message, MessageView, Role,
};
use crate::json::{json_array, json_str, json_text, Json, JsonObject, JsonView};
use crate::stream::{assemble, PartialCallView};
use crate::text::{decimal, push_decimal, trim_slashes, without_slashes};
use crate::tools::{arguments_of, read_arguments, ToolCall, ToolCallView};

verus! {

/// Where the gateway is reached by default.
pub const DEFAULT_BASE_URL: &'static str = "https://api.llmgateway.io/v1";

// ---- the body of a request ----

/// The name of a role in a request.
pub open spec fn role_text(role: Role) -> Seq<char> {
    match role {
        Role::System => "system"@,
        Role::User => "user"@,
        Role::Assistant => "assistant"@,
        Role::Tool => "tool"@,
    }
}

/// A call in a request, given the text of its arguments.
pub open spec fn call_json_with(
    id: Seq<char>,
    name: Seq<char>,
    arguments: Seq<char>,
) -> JsonView {
    JsonView::Object(
        Map::<Seq<char>, JsonView>::empty().insert("id"@, JsonView::Str(id)).insert(
            "type"@,
            JsonView::Str("function"@),
        ).insert(
            "function"@,
            JsonView::Object(
                Map::<Seq<char>, JsonView>::empty().insert("name"@, JsonView::Str(name)).insert(
                    "arguments"@,
                    JsonView::Str(arguments),
                ),
            ),
        ),
    )
}

/// A call in a request: its arguments are the text of their value.
pub open spec fn call_json(call: ToolCallView) -> JsonView {
    call_json_with(call.id, call.name, json_text(call.arguments))
}

/// A message in a request: calls and the id of a call stand in it only where it has some.
pub open spec fn message_json(message: MessageView) -> JsonView {
    let plain = Map::<Seq<char>, JsonView>::empty().insert(
        "role"@,
        JsonView::Str(role_text(message.role)),
    ).insert("content"@, JsonView::Str(message.content));
    let called = if message.tool_calls.len() > 0 {
        plain.insert(
            "tool_calls"@,
            JsonView::Array(message.tool_calls.map_values(|c: ToolCallView| call_json(c))),
        )
    } else {
        plain
    };
    JsonView::Object(
        match message.tool_call_id {
            Some(id) => called.insert("tool_call_id"@, JsonView::Str(id)),
            None => called,
        },
    )
}

/// The description of a function: a schema's input schema goes by the name of parameters.
pub open spec fn function_json(schema: JsonView) -> JsonView {
    match schema {
        JsonView::Object(members) => if members.contains_key("input_schema"@) {
            JsonView::Object(
                members.remove("input_schema"@).insert("parameters"@, members["input_schema"@]),
            )
        } else {
            schema
        },
        _ => schema,
    }
}

/// A tool in a request.
pub open spec fn tool_json(schema: JsonView) -> JsonView {
    JsonView::Object(
        Map::<Seq<char>, JsonView>::empty().insert("type"@, JsonView::Str("function"@)).insert(
            "function"@,
            function_json(schema),
        ),
    )
}

/// The body of a request, tools standing in it only where there are some.
pub open spec fn body_json(request: LlmRequestView, stream: bool) -> JsonView {
    let plain = Map::<Seq<char>, JsonView>::empty().insert("model"@, JsonView::Str(request.model)).insert(
        "messages"@,
        JsonView::Array(request.messages.map_values(|m: MessageView| message_json(m))),
    ).insert("stream"@, JsonView::Bool(stream));
    JsonView::Object(
        if request.tools.len() > 0 {
            plain.insert(
                "tools"@,
                JsonView::Array(request.tools.map_values(|t: JsonView| tool_json(t))),
            )
        } else {
            plain
        },
    )
}

fn role_name(role: Role) -> (name: &'static str)
    ensures
        name@ == role_text(role),
{
    match role {
        Role::System => "system",
        Role::User => "user",
        Role::Assistant => "assistant",
        Role::Tool => "tool",
    }
}

/// Builds a call, given the text of its arguments.
pub fn build_call_with(call: &ToolCall, arguments: String) -> (json: Json)
    ensures
        json.deep_view() == call_json_with(call.id@, call.name@, arguments@),
{
    let mut function = JsonObject::new();
    function.insert("name", json_str(call.name.as_str()));
    function.insert("arguments", Json::Str(arguments));
    let mut object = JsonObject::new();
    object.insert("id", json_str(call.id.as_str()));
    object.insert("type", json_str("function"));
    object.insert("function", function.into_json());
    object.into_json()
}

fn build_call(call: &ToolCall) -> (json: Json)
    ensures
        json.deep_view() == call_json(call.deep_view()),
{
    build_call_with(call, call.arguments_text())
}

fn build_message(message: &Message) -> (json: Json)
    ensures
        json.deep_view() == message_json(message.deep_view()),
{
    let mut object = JsonObject::new();
    object.insert("role", json_str(role_name(message.role)));
    object.insert("content", json_str(message.content.as_str()));
    if message.tool_calls.len() > 0 {
        let mut calls: Vec<Json> = Vec::new();
        let ghost wanted = message.deep_view().tool_calls.map_values(
            |c: ToolCallView| call_json(c),
        );
        for i in 0..message.tool_calls.len()
            invariant
                wanted == message.deep_view().tool_calls.map_values(|c: ToolCallView| call_json(c)),
                calls.deep_view() == wanted.take(i as int),
        {
            let ghost now = calls.deep_view();
            assert(message.deep_view().tool_calls[i as int]
                == message.tool_calls@[i as int].deep_view());
            calls.push(build_call(&message.tool_calls[i]));
            assert(calls.deep_view() =~= now.push(wanted[i as int]));
            assert(calls.deep_view() =~= wanted.take(i + 1));
        }
        assert(wanted.take(wanted.len() as int) =~= wanted);
        object.insert("tool_calls", json_array(calls));
    }
    if let Some(id) = &message.tool_call_id {
        object.insert("tool_call_id", json_str(id.as_str()));
    }
    object.into_json()
}

fn build_function(schema: &Json) -> (json: Json)
    ensures
        json.deep_view() == function_json(schema.deep_view()),
{
    match schema.clone() {
        Json::Object(entries) => {
            let mut object = JsonObject { entries };
            let ghost members = object.deep_view();
            match object.remove("input_schema") {
                Some(input) => {
                    object.insert("parameters", input);
                },
                None => {
                    assert(members.remove("input_schema"@) =~= members);
                },
            }
            object.into_json()
        },
        other => other,
    }
}

fn build_tool(schema: &Json) -> (json: Json)
    ensures
        json.deep_view() == tool_json(schema.deep_view()),
{
    let mut object = JsonObject::new();
    object.insert("type", json_str("function"));
    object.insert("function", build_function(schema));
    object.into_json()
}

/// Builds the body of a request, for a response at once or for a stream.
pub fn build_openai_body(request: &LlmRequest, stream: bool) -> (body: Json)
    ensures
        body.deep_view() == body_json(request.deep_view(), stream),
{
    let ghost view = request.deep_view();
    let mut messages: Vec<Json> = Vec::new();
    let ghost wanted = view.messages.map_values(|m: MessageView| message_json(m));
    for i in 0..request.messages.len()
        invariant
            wanted == request.deep_view().messages.map_values(|m: MessageView| message_json(m)),
            messages.deep_view() == wanted.take(i as int),
    {
        let ghost now = messages.deep_view();
        assert(request.deep_view().messages[i as int] == request.messages@[i as int].deep_view());
        messages.push(build_message(&request.messages[i]));
        assert(messages.deep_view() =~= now.push(wanted[i as int]));
        assert(messages.deep_view() =~= wanted.take(i + 1));
    }
    assert(wanted.take(wanted.len() as int) =~= wanted);
    let mut object = JsonObject::new();
    object.insert("model", json_str(request.model.as_str()));
    object.insert("messages", json_array(messages));
    object.insert("stream", Json::Bool(stream));
    if request.tools.len() > 0 {
        let mut tools: Vec<Json> = Vec::new();
        let ghost listed = view.tools.map_values(|t: JsonView| tool_json(t));
        for i in 0..request.tools.len()
            invariant
                listed == request.deep_view().tools.map_values(|t: JsonView| tool_json(t)),
                tools.deep_view() == listed.take(i as int),
        {
            let ghost now = tools.deep_view();
            assert(request.deep_view().tools[i as int] == request.tools@[i as int].deep_view());
            tools.push(build_tool(&request.tools[i]));
            assert(tools.deep_view() =~= now.push(listed[i as int]));
            assert(tools.deep_view() =~= listed.take(i + 1));
        }
        assert(listed.take(listed.len() as int) =~= listed);
        object.insert("tools", json_array(tools));
    }
    object.into_json()
}

// ---- errors ----

/// Why a call of the model did not succeed.
#[derive(Debug)]
pub enum LlmError {
    /// The environment names no key.
    MissingKey,
    /// The key cannot stand in a header.
    BadHeader,
    /// The gateway answered with a status that is no success.
    Gateway { status: String, body: String },
    /// The answer is not a completion.
    Parse { error: String, body: String },
    /// The completion has no choice.
    EmptyChoices,
    /// There is no response recorded for the call.
    ReplayExhausted { index: usize },
}

pub enum LlmErrorView {
    MissingKey,
    BadHeader,
    Gateway { status: Seq<char>, body: Seq<char> },
    Parse { error: Seq<char>, body: Seq<char> },
    EmptyChoices,
    ReplayExhausted { index: usize },
}

impl DeepView for LlmError {
    type V = LlmErrorView;

    open spec fn deep_view(&self) -> LlmErrorView {
        match *self {
            LlmError::MissingKey => LlmErrorView::MissingKey,
            LlmError::BadHeader => LlmErrorView::BadHeader,
            LlmError::Gateway { status, body } => LlmErrorView::Gateway {
                status: status@,
                body: body@,
            },
            LlmError::Parse { error, body } => LlmErrorView::Parse { error: error@, body: body@ },
            LlmError::EmptyChoices => LlmErrorView::EmptyChoices,
            LlmError::ReplayExhausted { index } => LlmErrorView::ReplayExhausted { index },
        }
    }
}

/// What an error says.
pub open spec fn error_text(error: LlmErrorView) -> Seq<char> {
    match error {
        LlmErrorView::MissingKey => "LLMGATEWAY_API_KEY not set"@,
        LlmErrorView::BadHeader => "failed to parse header value"@,
        LlmErrorView::Gateway { status, body } => "llm gateway "@ + status + ": "@ + body,
        LlmErrorView::Parse { error, body } => "parse response: "@ + error + " (body: "@ + body
            + ")"@,
        LlmErrorView::EmptyChoices => "empty choices"@,
        LlmErrorView::ReplayExhausted { index } => "replay exhausted at index "@ + decimal(
            index as nat,
        ),
    }
}

impl LlmError {
    pub fn message(&self) -> (text: String)
        ensures
            text@ == error_text(self.deep_view()),
    {
        match self {
            LlmError::MissingKey => "LLMGATEWAY_API_KEY not set".to_owned(),
            LlmError::BadHeader => "failed to parse header value".to_owned(),
            LlmError::Gateway { status, body } => {
                let mut out = "llm gateway ".to_owned();
                out.append(status.as_str());
                out.append(": ");
                out.append(body.as_str());
                out
            },
            LlmError::Parse { error, body } => {
                let mut out = "parse response: ".to_owned();
                out.append(error.as_str());
                out.append(" (body: ");
                out.append(body.as_str());
                out.append(")");
                out
            },
            LlmError::EmptyChoices => "empty choices".to_owned(),
            LlmError::ReplayExhausted { index } => {
                let mut out = "replay exhausted at index ".to_owned();
                push_decimal(&mut out, *index as u64);
                out
            },
        }
    }
}

// ---- requests ----

/// Declares `reqwest::header::HeaderValue`; the library only asks whether one can be made.
#[verifier::external_type_specification]
#[verifier::external_body]
pub struct ExHeaderValue(reqwest::header::HeaderValue);

/// Declares `reqwest::header::InvalidHeaderValue`, which holds nothing.
#[verifier::external_type_specification]
#[verifier::external_body]
pub struct ExInvalidHeaderValue(reqwest::header::InvalidHeaderValue);

/// Whether a byte may stand in the value of a header: any but a control character, a tab excepted.
pub open spec fn header_byte(b: u8) -> bool {
    b >= 32 && b != 127 || b == 9
}

/// Whether a text may be the value of a header.
pub open spec fn header_text(text: Seq<char>) -> bool {
    forall|i: int|
        0 <= i < encode_utf8(text).len() ==> header_byte(#[trigger] encode_utf8(text)[i])
}

/// `reqwest::header::HeaderValue::from_str` accepts a text if none of its bytes is a control
/// character other than a tab. What the value holds is not stated: no caller reads it.
pub assume_specification[ reqwest::header::HeaderValue::from_str ](src: &str) -> (value: Result<
    reqwest::header::HeaderValue,
    reqwest::header::InvalidHeaderValue,
>)
    ensures
        value is Ok <==> header_text(src@),
;

/// A request to the gateway: it is a `GET` without a body and a `POST` with one.
#[derive(Debug)]
pub struct GatewayRequest {
    pub url: String,
    pub headers: Vec<(String, String)>,
    pub body: Option<String>,
}

pub struct GatewayRequestView {
    pub url: Seq<char>,
    pub headers: Seq<(Seq<char>, Seq<char>)>,
    pub body: Option<Seq<char>>,
}

impl DeepView for GatewayRequest {
    type V = GatewayRequestView;

    open spec fn deep_view(&self) -> GatewayRequestView {
        GatewayRequestView {
            url: self.url@,
            headers: self.headers.deep_view(),
            body: self.body.deep_view(),
        }
    }
}

/// The value of the header that authorizes a request.
pub open spec fn bearer_text(api_key: Seq<char>) -> Seq<char> {
    "Bearer "@ + api_key
}

/// The request for the list of models.
pub open spec fn models_request(base_url: Seq<char>, api_key: Seq<char>) -> GatewayRequestView {
    GatewayRequestView {
        url: trim_slashes(base_url) + "/models?exclude_deprecated=true"@,
        headers: seq![("authorization"@, bearer_text(api_key))],
        body: None,
    }
}

/// The request for a completion, at once or as a stream, given the text of its body.
pub open spec fn completion_request_with(
    base_url: Seq<char>,
    api_key: Seq<char>,
    body: Seq<char>,
    stream: bool,
) -> GatewayRequestView {
    let headers = seq![
        ("authorization"@, bearer_text(api_key)),
        ("content-type"@, "application/json"@),
    ];
    GatewayRequestView {
        url: trim_slashes(base_url) + "/chat/completions"@,
        headers: if stream {
            headers.push(("accept"@, "text/event-stream"@))
        } else {
            headers
        },
        body: Some(body),
    }
}

/// The request for a completion, at once or as a stream.
pub open spec fn completion_request(
    base_url: Seq<char>,
    api_key: Seq<char>,
    request: LlmRequestView,
    stream: bool,
) -> GatewayRequestView {
    completion_request_with(base_url, api_key, json_text(body_json(request, stream)), stream)
}

/// The value of the header that authorizes a request, where the key can stand in one.
fn bearer(api_key: &str) -> (value: Result<String, LlmError>)
    ensures
        match value {
            Ok(text) => header_text(bearer_text(api_key@)) && text@ == bearer_text(api_key@),
            Err(e) => !header_text(bearer_text(api_key@)) && e is BadHeader,
        },
{
    let mut text = "Bearer ".to_owned();
    text.append(api_key);
    match reqwest::header::HeaderValue::from_str(text.as_str()) {
        Ok(_) => Ok(text),
        Err(_) => Err(LlmError::BadHeader),
    }
}

fn endpoint(base_url: &str, path: &str) -> (url: String)
    ensures
        url@ == trim_slashes(base_url@) + path@,
{
    let mut url = without_slashes(base_url);
    url.append(path);
    url
}

fn push_header(headers: &mut Vec<(String, String)>, name: &str, value: String)
    ensures
        final(headers).deep_view() == old(headers).deep_view().push((name@, value@)),
{
    headers.push((name.to_owned(), value));
    assert(headers.deep_view() =~= old(headers).deep_view().push((name@, value@)));
}

/// Makes the request for the list of models.
pub fn list_models(base_url: &str, api_key: &str) -> (request: Result<GatewayRequest, LlmError>)
    ensures
        match request {
            Ok(r) => header_text(bearer_text(api_key@)) && r.deep_view() == models_request(
                base_url@,
                api_key@,
            ),
            Err(e) => !header_text(bearer_text(api_key@)) && e is BadHeader,
        },
{
    let value = match bearer(api_key) {
        Ok(value) => value,
        Err(e) => {
            return Err(e);
        },
    };
    let mut headers: Vec<(String, String)> = Vec::new();
    push_header(&mut headers, "authorization", value);
    let request = GatewayRequest {
        url: endpoint(base_url, "/models?exclude_deprecated=true"),
        headers,
        body: None,
    };
    assert(request.headers.deep_view() =~= models_request(base_url@, api_key@).headers);
    Ok(request)
}

// ---- responses ----

/// A function that the model calls, its arguments as text.
#[derive(Debug)]
pub struct OpenAiToolFunction {
    pub name: String,
    pub arguments: String,
}

/// A call as the gateway answers it.
#[derive(Debug)]
pub struct OpenAiToolCall {
    pub id: String,
    pub function: OpenAiToolFunction,
}

/// A message as the gateway answers it.
#[derive(Debug)]
pub struct OpenAiMessage {
    pub content: Option<String>,
    pub tool_calls: Option<Vec<OpenAiToolCall>>,
}

/// A choice of a completion.
#[derive(Debug)]
pub struct OpenAiChoice {
    pub message: OpenAiMessage,
}

/// A completion as the gateway answers it.
#[derive(Debug)]
pub struct OpenAiResponse {
    pub choices: Vec<OpenAiChoice>,
    pub usage: Option<OpenAiUsage>,
}

pub struct OpenAiMessageView {
    pub content: Option<Seq<char>>,
    pub tool_calls: Option<Seq<PartialCallView>>,
}

pub struct OpenAiResponseView {
    pub choices: Seq<OpenAiMessageView>,
    pub usage: Option<OpenAiUsage>,
}

impl DeepView for OpenAiToolCall {
    type V = PartialCallView;

    open spec fn deep_view(&self) -> PartialCallView {
        PartialCallView {
            id: self.id@,
            name: self.function.name@,
            arguments: self.function.arguments@,
        }
    }
}

impl DeepView for OpenAiMessage {
    type V = OpenAiMessageView;

    open spec fn deep_view(&self) -> OpenAiMessageView {
        OpenAiMessageView {
            content: self.content.deep_view(),
            tool_calls: self.tool_calls.deep_view(),
        }
    }
}

impl DeepView for OpenAiChoice {
    type V = OpenAiMessageView;

    open spec fn deep_view(&self) -> OpenAiMessageView {
        self.message.deep_view()
    }
}

impl DeepView for OpenAiResponse {
    type V = OpenAiResponseView;

    open spec fn deep_view(&self) -> OpenAiResponseView {
        OpenAiResponseView { choices: self.choices.deep_view(), usage: self.usage }
    }
}

/// The message that an answer holds: what is missing in it is empty.
pub open spec fn message_of(message: OpenAiMessageView) -> LlmResponseView {
    LlmResponseView {
        content: match message.content {
            Some(text) => text,
            None => Seq::empty(),
        },
        tool_calls: match message.tool_calls {
            Some(calls) => calls.map_values(|c: PartialCallView| assemble(c)),
            None => Seq::empty(),
        },
    }
}

/// What an answer gives: the message of its first choice, or the error that it has none.
pub open spec fn answer_of(response: OpenAiResponseView) -> Result<LlmResponseView, LlmErrorView> {
    if response.choices.len() > 0 {
        Ok(message_of(response.choices[0]))
    } else {
        Err(LlmErrorView::EmptyChoices)
    }
}

/// Reads a call, its arguments as JSON where they are.
pub fn parse_tool_call(call: OpenAiToolCall) -> (parsed: ToolCall)
    ensures
        parsed.deep_view() == assemble(call.deep_view()),
        parsed.id@ == call.id@,
        parsed.name@ == call.function.name@,
        parsed.arguments.deep_view() == arguments_of(call.function.arguments@),
{
    let arguments = read_arguments(call.function.arguments);
    ToolCall { id: call.id, name: call.function.name, arguments }
}

/// Checks the status of an answer, which is an error with the body where it is no success.
pub fn check_status(success: bool, status: &str, body: &str) -> (result: Result<(), LlmError>)
    ensures
        result is Ok <==> success,
        result matches Err(e) ==> e.deep_view() == (LlmErrorView::Gateway {
            status: status@,
            body: body@,
        }),
{
    if success {
        Ok(())
    } else {
        Err(LlmError::Gateway { status: status.to_owned(), body: body.to_owned() })
    }
}

/// Reads a completion: the message of its first choice.
pub fn read_response(response: OpenAiResponse) -> (message: Result<LlmResponse, LlmError>)
    ensures
        match message {
            Ok(m) => response.choices@.len() > 0 && m.deep_view() == message_of(
                response.deep_view().choices[0],
            ),
            Err(e) => response.choices@.len() == 0 && e is EmptyChoices,
        },
        result_view(message) == answer_of(response.deep_view()),
{
    let mut choices = response.choices;
    if choices.len() == 0 {
        return Err(LlmError::EmptyChoices);
    }
    assert(response.deep_view().choices[0] == response.choices@[0].deep_view());
    let message = choices.remove(0).message;
    let content = match message.content {
        Some(text) => text,
        None => String::new(),
    };
    let mut tool_calls: Vec<ToolCall> = Vec::new();
    assert(tool_calls.deep_view() =~= Seq::<ToolCallView>::empty());
    if let Some(calls) = message.tool_calls {
        let ghost all = calls.deep_view().map_values(|c: PartialCallView| assemble(c));
        assert(tool_calls.deep_view() =~= all.take(0));
        for call in it: calls
            invariant
                it.seq() == calls@,
                all == calls.deep_view().map_values(|c: PartialCallView| assemble(c)),
                tool_calls.deep_view() == all.take(it.index()),
        {
            let ghost now = tool_calls.deep_view();
            let ghost at = it.index();
            assert(calls.deep_view()[at] == calls@[at].deep_view());
            tool_calls.push(parse_tool_call(call));
            assert(tool_calls.deep_view() =~= now.push(all[at]));
            assert(tool_calls.deep_view() =~= all.take(at + 1));
        }
        assert(all.take(all.len() as int) =~= all);
    }
    Ok(LlmResponse { content, tool_calls })
}

/// What an answer cost, where it can be read and reports a usage.
pub open spec fn reply_cost(
    success: bool,
    parsed: Result<OpenAiResponse, String>,
    total_cost: DollarsView,
) -> Option<CallCostView> {
    match parsed {
        Ok(response) => match response.usage {
            Some(usage) if success => Some(
                CallCostView { tokens: token_counts(usage), total_cost },
            ),
            _ => None,
        },
        Err(_) => None,
    }
}

/// What is wrong with an answer without a message.
pub open spec fn reply_error(
    success: bool,
    status: Seq<char>,
    body: Seq<char>,
    parsed: Result<OpenAiResponse, String>,
) -> LlmErrorView {
    if !success {
        LlmErrorView::Gateway { status, body }
    } else {
        match parsed {
            Ok(_) => LlmErrorView::EmptyChoices,
            Err(error) => LlmErrorView::Parse { error: error@, body },
        }
    }
}

// ---- the client of the gateway ----

/// A client of the gateway: its key, where it reaches the gateway, what models cost there, and
/// what the last call cost.
#[derive(Debug)]
pub struct HttpLlmClient {
    api_key: String,
    base_url: String,
    last_cost: Option<CallCost>,
    rates: RateTable,
}

pub struct ClientView {
    pub api_key: Seq<char>,
    pub base_url: Seq<char>,
    pub last_cost: Option<CallCostView>,
    pub rates: Map<Seq<char>, ModelRatesView>,
}

impl DeepView for HttpLlmClient {
    type V = ClientView;

    closed spec fn deep_view(&self) -> ClientView {
        ClientView {
            api_key: self.api_key@,
            base_url: self.base_url@,
            last_cost: self.last_cost.deep_view(),
            rates: self.rates.deep_view(),
        }
    }
}

/// A client that has made no call.
pub open spec fn fresh_client(
    api_key: Seq<char>,
    base_url: Seq<char>,
    rates: Map<Seq<char>, ModelRatesView>,
) -> ClientView {
    ClientView { api_key, base_url, last_cost: None, rates }
}

impl HttpLlmClient {
    /// A client with the key that the environment names, and with the models that the gateway
    /// lists, if it lists them.
    pub fn from_env(api_key: Option<String>, models: Option<Vec<GatewayModel>>) -> (client: Result<
        Self,
        LlmError,
    >)
        ensures
            match client {
                Ok(c) => api_key is Some && c.deep_view() == fresh_client(
                    api_key->0@,
                    DEFAULT_BASE_URL@,
                    match models {
                        Some(listed) => rates_by_id(listed.deep_view()),
                        None => Map::empty(),
                    },
                ),
                Err(e) => api_key is None && e is MissingKey,
            },
    {
        match api_key {
            Some(key) => {
                let rates = match models {
                    Some(listed) => RateTable::from_models(&listed),
                    None => RateTable::new(),
                };
                Ok(
                    HttpLlmClient {
                        api_key: key,
                        base_url: DEFAULT_BASE_URL.to_owned(),
                        last_cost: None,
                        rates,
                    },
                )
            },
            None => Err(LlmError::MissingKey),
        }
    }

    /// A client that knows no prices.
    pub fn with_base_url(api_key: String, base_url: String) -> (client: Self)
        ensures
            client.deep_view() == fresh_client(api_key@, base_url@, Map::empty()),
    {
        HttpLlmClient { api_key, base_url, last_cost: None, rates: RateTable::new() }
    }

    /// What the last call cost.
    pub fn last_cost(&self) -> (cost: Option<CallCost>)
        ensures
            cost.deep_view() == self.deep_view().last_cost,
    {
        self.last_cost.clone()
    }

    /// What a model costs.
    pub fn rates_for(&self, model: &str) -> (rates: ModelRates)
        ensures
            rates.deep_view() == rates_of(self.deep_view().rates, model@),
    {
        self.rates.rates_for(model)
    }

    /// Records what a call cost, from its usage and from the total that it comes to.
    pub fn record_cost(&mut self, usage: &OpenAiUsage, total_cost: Dollars) -> (cost: CallCost)
        ensures
            cost.deep_view() == (CallCostView {
                tokens: token_counts(*usage),
                total_cost: total_cost.deep_view(),
            }),
            final(self).deep_view() == (ClientView {
                last_cost: Some(cost.deep_view()),
                ..old(self).deep_view()
            }),
            cost.input_tokens == usage.prompt_tokens,
            cost.output_tokens == usage.completion_tokens,
            cost.total_cost.bits == total_cost.bits,
    {
        let cost = CallCost::compute(usage, total_cost);
        self.last_cost = Some(cost.clone());
        cost
    }

    /// Takes in the answer to a request for a completion at once: its status, its body, what the
    /// body reads as, and the total that its usage comes to. Records the cost where the answer
    /// reports a usage, and reads the message. An answer that is refused or that cannot be read
    /// changes nothing.
    pub fn complete_reply(
        &mut self,
        success: bool,
        status: &str,
        body: &str,
        parsed: Result<OpenAiResponse, String>,
        total_cost: Dollars,
    ) -> (reply: (Option<CallCost>, Result<LlmResponse, LlmError>))
        ensures
            reply.0.deep_view() == reply_cost(success, parsed, total_cost.deep_view()),
            final(self).deep_view() == (ClientView {
                last_cost: match reply.0 {
                    Some(cost) => Some(cost.deep_view()),
                    None => old(self).deep_view().last_cost,
                },
                ..old(self).deep_view()
            }),
            match reply.1 {
                Ok(message) => success && parsed is Ok && parsed->Ok_0.choices@.len() > 0
                    && message.deep_view() == message_of(parsed->Ok_0.deep_view().choices[0]),
                Err(e) => e.deep_view() == reply_error(success, status@, body@, parsed) && !(success
                    && parsed is Ok && parsed->Ok_0.choices@.len() > 0),
            },
            success && parsed is Ok ==> result_view(reply.1) == answer_of(parsed->Ok_0.deep_view()),
    {
        match check_status(success, status, body) {
            Ok(_) => {},
            Err(e) => {
                return (None, Err(e));
            },
        }
        match parsed {
            Ok(response) => {
                let cost = match &response.usage {
                    Some(usage) => Some(self.record_cost(usage, total_cost)),
                    None => None,
                };
                (cost, read_response(response))
            },
            Err(error) => (None, Err(LlmError::Parse { error, body: body.to_owned() })),
        }
    }

    /// Makes the request for a completion, given the text of its body.
    pub fn post_completion(&self, body: String, stream: bool) -> (result: Result<
        GatewayRequest,
        LlmError,
    >)
        ensures
            match result {
                Ok(r) => header_text(bearer_text(self.deep_view().api_key)) && r.deep_view()
                    == completion_request_with(
                    self.deep_view().base_url,
                    self.deep_view().api_key,
                    body@,
                    stream,
                ),
                Err(e) => !header_text(bearer_text(self.deep_view().api_key)) && e is BadHeader,
            },
    {
        let url = endpoint(self.base_url.as_str(), "/chat/completions");
        let value = match bearer(self.api_key.as_str()) {
            Ok(value) => value,
            Err(e) => {
                return Err(e);
            },
        };
        let mut headers: Vec<(String, String)> = Vec::new();
        assert(headers.deep_view() =~= Seq::<(Seq<char>, Seq<char>)>::empty());
        push_header(&mut headers, "authorization", value);
        push_header(&mut headers, "content-type", "application/json".to_owned());
        if stream {
            push_header(&mut headers, "accept", "text/event-stream".to_owned());
        }
        let result = GatewayRequest { url, headers, body: Some(body) };
        assert(result.headers.deep_view() =~= completion_request_with(
            self.base_url@,
            self.api_key@,
            body@,
            stream,
        ).headers);
        Ok(result)
    }

    /// Makes the request for a completion, at once or as a stream.
    pub fn complete_request(&self, request: &LlmRequest, stream: bool) -> (result: Result<
        GatewayRequest,
        LlmError,
    >)
        ensures
            match result {
                Ok(r) => header_text(bearer_text(self.deep_view().api_key)) && r.deep_view()
                    == completion_request(
                    self.deep_view().base_url,
                    self.deep_view().api_key,
                    request.deep_view(),
                    stream,
                ),
                Err(e) => !header_text(bearer_text(self.deep_view().api_key)) && e is BadHeader,
            },
    {
        let body = build_openai_body(request, stream).to_text();
        self.post_completion(body, stream)
    }
}

// ---- the client that replays ----

/// What a call of the model gave, its response or its error.
pub open spec fn result_view(result: Result<LlmResponse, LlmError>) -> Result<
    LlmResponseView,
    LlmErrorView,
> {
    match result {
        Ok(response) => Ok(response.deep_view()),
        Err(e) => Err(e.deep_view()),
    }
}

/// What is recorded for the call of an index, counted from zero.
pub open spec fn replay_at(responses: Seq<LlmResponseView>, index: usize) -> Result<
    LlmResponseView,
    LlmErrorView,
> {
    if index < responses.len() {
        Ok(responses[index as int])
    } else {
        Err(LlmErrorView::ReplayExhausted { index })
    }
}

/// The index of the next call. After the largest index it is zero again.
pub open spec fn next_index(index: usize) -> usize {
    if index == usize::MAX {
        0
    } else {
        (index + 1) as usize
    }
}

/// One call of a replay: the index of the next call, and what is recorded for this one.
pub fn replay_step(responses: &Vec<LlmResponse>, index: usize) -> (step: (
    usize,
    Result<LlmResponse, LlmError>,
))
    ensures
        step.0 == next_index(index),
        result_view(step.1) == replay_at(responses.deep_view(), index),
{
    let result = if index < responses.len() {
        assert(responses.deep_view()[index as int] == responses@[index as int].deep_view());
        Ok(responses[index].clone())
    } else {
        Err(LlmError::ReplayExhausted { index })
    };
    let next: usize = if index == usize::MAX {
        0
    } else {
        index + 1
    };
    (next, result)
}

/// A client that gives recorded responses, one per call. Copies of a client share its place.
#[derive(Clone, Debug, Default)]
pub struct ReplayLlmClient {
    pub responses: Vec<LlmResponse>,
    pub index: Arc<AtomicUsize>,
}

impl ReplayLlmClient {
    /// A client at the start of its responses. That its place is zero is not stated: an atomic
    /// has no value that a clause could speak of.
    pub fn new(responses: Vec<LlmResponse>) -> (client: Self)
        ensures
            client.responses == responses,
    {
        ReplayLlmClient { responses, index: Arc::new(AtomicUsize::new(0)) }
    }

    /// The response recorded for the call of an index, counted from zero.
    pub fn response_at(&self, index: usize) -> (response: Result<LlmResponse, LlmError>)
        ensures
            result_view(response) == replay_at(self.responses.deep_view(), index),
    {
        replay_step(&self.responses, index).1
    }

    /// Gives the next response: the step of [`replay_step`] from the place of the client, which
    /// the call moves on by one. The place is an atomic that the copies of the client share, so
    /// it is not stated which index it is; whatever it is, what is recorded for it is given.
    pub fn complete(&self, _request: &LlmRequest) -> (response: Result<LlmResponse, LlmError>)
        ensures
            exists|index: usize|
                result_view(response) == #[trigger] replay_at(self.responses.deep_view(), index),
    {
        let index = self.index.fetch_add(1, Ordering::SeqCst);
        self.response_at(index)
    }
}

} // verus!
