//! What holds of the requests to the gateway.

use vstd::prelude::*;

use crate::history::{LlmRequestView, MessageView, Role};
use crate::json::{json_text, member, JsonView};
use crate::llm::{
    bearer_text, body_json, call_json, call_json_with, completion_request, completion_request_with,
    function_json, message_json, models_request, tool_json,
};
use crate::sse::{data_lines, sse_event};
use crate::text::lines;
use crate::tools::ToolCallView;

verus! {

proof fn lemma_body_keys()
    ensures
        "model"@ != "messages"@,
        "model"@ != "stream"@,
        "model"@ != "tools"@,
        "messages"@ != "stream"@,
        "messages"@ != "tools"@,
        "stream"@ != "tools"@,
{
    reveal_strlit("model");
    reveal_strlit("messages");
    reveal_strlit("stream");
    reveal_strlit("tools");
    assert("model"@[0] == 'm' && "tools"@[0] == 't');
    assert("model"@.len() == 5 && "messages"@.len() == 8 && "stream"@.len() == 6 && "tools"@.len()
        == 5);
}

/// A body names its model, has one message for each message of the conversation in its order, says
/// whether a stream is wanted, and lists tools only where there are some.
pub proof fn law_what_a_body_says(request: LlmRequestView, stream: bool)
    ensures
        ({
            let body = body_json(request, stream);
            &&& member(body, "model"@) == Some(JsonView::Str(request.model))
            &&& member(body, "stream"@) == Some(JsonView::Bool(stream))
            &&& member(body, "messages"@) == Some(
                JsonView::Array(request.messages.map_values(|m: MessageView| message_json(m))),
            )
            &&& member(body, "tools"@) == (if request.tools.len() > 0 {
                Some(JsonView::Array(request.tools.map_values(|t: JsonView| tool_json(t))))
            } else {
                None
            })
        }),
{
    lemma_body_keys();
}

/// Asking for a stream or not changes one member of the body alone.
pub proof fn law_streaming_changes_one_member(request: LlmRequestView, key: Seq<char>)
    requires
        key != "stream"@,
    ensures
        member(body_json(request, true), key) == member(body_json(request, false), key),
{
}

/// A body has no members but its model, its messages, whether a stream is wanted and its tools. It
/// has as many messages as the conversation, each in its place, and as many tools as there are.
pub proof fn law_a_body_is_complete(request: LlmRequestView, stream: bool, key: Seq<char>)
    ensures
        ({
            let body = body_json(request, stream);
            &&& key != "model"@ && key != "messages"@ && key != "stream"@ && key != "tools"@
                ==> member(body, key) is None
            &&& member(body, "messages"@) matches Some(JsonView::Array(items)) && items.len()
                == request.messages.len() && forall|i: int|
                0 <= i < items.len() ==> member(#[trigger] items[i], "content"@) == Some(
                    JsonView::Str(request.messages[i].content),
                )
            &&& request.tools.len() > 0 ==> (member(body, "tools"@) matches Some(
                JsonView::Array(items),
            ) && items.len() == request.tools.len() && forall|i: int|
                0 <= i < items.len() ==> member(#[trigger] items[i], "type"@) == Some(
                    JsonView::Str("function"@),
                ))
        }),
{
    law_what_a_body_says(request, stream);
    let body = body_json(request, stream);
    let items = member(body, "messages"@)->0->Array_0;
    assert forall|i: int| 0 <= i < items.len() implies member(#[trigger] items[i], "content"@)
        == Some(JsonView::Str(request.messages[i].content)) by {
        law_what_a_message_says(request.messages[i], 0);
    }
    if request.tools.len() > 0 {
        let tools = member(body, "tools"@)->0->Array_0;
        assert forall|i: int| 0 <= i < tools.len() implies member(#[trigger] tools[i], "type"@)
            == Some(JsonView::Str("function"@)) by {
            law_a_tool_describes_a_function(request.tools[i], key);
        }
    }
}

/// A message tells its role by name, and its content. A message with calls lists all of them, each
/// in its place with its id, its name and the text of its arguments; a message that answers a call
/// tells the id of it. Neither stands in a message that has none.
pub proof fn law_what_a_message_says(message: MessageView, i: int)
    ensures
        ({
            let json = message_json(message);
            &&& member(json, "role"@) == Some(
                JsonView::Str(
                    match message.role {
                        Role::System => "system"@,
                        Role::User => "user"@,
                        Role::Assistant => "assistant"@,
                        Role::Tool => "tool"@,
                    },
                ),
            )
            &&& member(json, "content"@) == Some(JsonView::Str(message.content))
            &&& member(json, "tool_calls"@) is Some <==> message.tool_calls.len() > 0
            &&& message.tool_calls.len() > 0 ==> (member(json, "tool_calls"@) matches Some(
                JsonView::Array(items),
            ) && items.len() == message.tool_calls.len() && (0 <= i < items.len() ==> {
                let call = message.tool_calls[i];
                &&& member(items[i], "id"@) == Some(JsonView::Str(call.id))
                &&& member(items[i], "type"@) == Some(JsonView::Str("function"@))
                &&& member(items[i], "function"@) matches Some(function) && member(
                    function,
                    "name"@,
                ) == Some(JsonView::Str(call.name)) && member(function, "arguments"@) == Some(
                    JsonView::Str(json_text(call.arguments)),
                )
            }))
            &&& member(json, "tool_call_id"@) == (match message.tool_call_id {
                Some(id) => Some(JsonView::Str(id)),
                None => None,
            })
        }),
{
    lemma_message_keys();
    if 0 <= i < message.tool_calls.len() {
        let call = message.tool_calls[i];
        law_what_a_call_says(call.id, call.name, json_text(call.arguments), "id"@);
    }
}

proof fn lemma_message_keys()
    ensures
        "role"@ != "content"@,
        "role"@ != "tool_calls"@,
        "role"@ != "tool_call_id"@,
        "content"@ != "tool_calls"@,
        "content"@ != "tool_call_id"@,
        "tool_calls"@ != "tool_call_id"@,
{
    reveal_strlit("role");
    reveal_strlit("content");
    reveal_strlit("tool_calls");
    reveal_strlit("tool_call_id");
    assert("role"@.len() == 4 && "content"@.len() == 7 && "tool_calls"@.len() == 10
        && "tool_call_id"@.len() == 12);
}

/// A message has no members but its role, its content, its calls and the id that it answers.
pub proof fn law_a_message_says_nothing_else(message: MessageView, key: Seq<char>)
    requires
        key != "role"@,
        key != "content"@,
        key != "tool_calls"@,
        key != "tool_call_id"@,
    ensures
        member(message_json(message), key) is None,
{
}

/// A call tells its id, its function's name and the text of its arguments, and nothing else but
/// that it is of a function.
pub proof fn law_what_a_call_says(
    id: Seq<char>,
    name: Seq<char>,
    arguments: Seq<char>,
    key: Seq<char>,
)
    ensures
        ({
            let json = call_json_with(id, name, arguments);
            &&& member(json, "id"@) == Some(JsonView::Str(id))
            &&& member(json, "type"@) == Some(JsonView::Str("function"@))
            &&& key != "id"@ && key != "type"@ && key != "function"@ ==> member(json, key) is None
            &&& member(json, "function"@) matches Some(function) && {
                &&& member(function, "name"@) == Some(JsonView::Str(name))
                &&& member(function, "arguments"@) == Some(JsonView::Str(arguments))
                &&& key != "name"@ && key != "arguments"@ ==> member(function, key) is None
            }
        }),
{
    reveal_strlit("id");
    reveal_strlit("type");
    reveal_strlit("function");
    reveal_strlit("name");
    reveal_strlit("arguments");
    assert("id"@.len() == 2 && "type"@.len() == 4 && "function"@.len() == 8 && "name"@.len() == 4
        && "arguments"@.len() == 9);
}

/// A call of a conversation goes into a request with its own id and name and with the text of its
/// own arguments.
pub proof fn law_a_call_is_sent_as_it_is(call: ToolCallView)
    ensures
        member(call_json(call), "id"@) == Some(JsonView::Str(call.id)),
        member(call_json(call), "function"@) matches Some(function) && member(function, "name"@)
            == Some(JsonView::Str(call.name)) && member(function, "arguments"@) == Some(
            JsonView::Str(json_text(call.arguments)),
        ),
{
    law_what_a_call_says(call.id, call.name, json_text(call.arguments), "id"@);
}

/// A tool is a function with its description, and nothing else.
pub proof fn law_a_tool_describes_a_function(schema: JsonView, key: Seq<char>)
    ensures
        member(tool_json(schema), "type"@) == Some(JsonView::Str("function"@)),
        member(tool_json(schema), "function"@) == Some(function_json(schema)),
        key != "type"@ && key != "function"@ ==> member(tool_json(schema), key) is None,
{
    reveal_strlit("type");
    reveal_strlit("function");
    assert("type"@.len() == 4 && "function"@.len() == 8);
}

/// A schema without an input schema, or that is no object, describes a function as it is.
pub proof fn law_a_schema_without_input_stays(schema: JsonView)
    requires
        member(schema, "input_schema"@) is None,
    ensures
        function_json(schema) == schema,
{
}

/// In the description of a function the input schema of a schema goes by the name of parameters,
/// and all other members stay.
pub proof fn law_a_schema_is_renamed(members: Map<Seq<char>, JsonView>, key: Seq<char>)
    requires
        members.contains_key("input_schema"@),
    ensures
        ({
            let function = function_json(JsonView::Object(members));
            &&& member(function, "parameters"@) == Some(members["input_schema"@])
            &&& member(function, "input_schema"@) is None
            &&& key != "parameters"@ && key != "input_schema"@ ==> member(function, key) == member(
                JsonView::Object(members),
                key,
            )
        }),
{
    reveal_strlit("parameters");
    reveal_strlit("input_schema");
    assert("parameters"@.len() == 10 && "input_schema"@.len() == 12);
}

/// A slash at the end of the base makes no difference to where requests go.
pub proof fn law_a_slash_at_the_end_makes_no_difference(
    base_url: Seq<char>,
    api_key: Seq<char>,
    request: LlmRequestView,
    stream: bool,
)
    ensures
        completion_request(base_url.push('/'), api_key, request, stream) == completion_request(
            base_url,
            api_key,
            request,
            stream,
        ),
        models_request(base_url.push('/'), api_key) == models_request(base_url, api_key),
{
    assert(base_url.push('/').drop_last() =~= base_url);
}

/// The requests go to the base without the slashes at its end, followed by what is asked for there.
pub proof fn law_where_requests_go(
    base_url: Seq<char>,
    api_key: Seq<char>,
    body: Seq<char>,
    stream: bool,
)
    requires
        base_url.len() == 0 || base_url.last() != '/',
    ensures
        completion_request_with(base_url, api_key, body, stream).url == base_url
            + "/chat/completions"@,
        models_request(base_url, api_key).url == base_url + "/models?exclude_deprecated=true"@,
{
}

/// A request for a completion posts its body as it is. It is authorized by the key, says that its
/// body is JSON, and asks for events where a stream is wanted; it has no other headers. The list
/// of models is asked for with the key alone and without a body.
pub proof fn law_what_requests_carry(
    base_url: Seq<char>,
    api_key: Seq<char>,
    body: Seq<char>,
    stream: bool,
)
    ensures
        ({
            let request = completion_request_with(base_url, api_key, body, stream);
            &&& request.body == Some(body)
            &&& request.headers.len() == (if stream {
                3int
            } else {
                2int
            })
            &&& request.headers[0].0 == "authorization"@
            &&& request.headers[0].1 == "Bearer "@ + api_key
            &&& request.headers[1].0 == "content-type"@
            &&& request.headers[1].1 == "application/json"@
            &&& stream ==> request.headers[2].0 == "accept"@ && request.headers[2].1
                == "text/event-stream"@
        }),
        ({
            let request = models_request(base_url, api_key);
            &&& request.body is None
            &&& request.headers.len() == 1
            &&& request.headers[0].0 == "authorization"@
            &&& request.headers[0].1 == "Bearer "@ + api_key
        }),
        bearer_text(api_key) == "Bearer "@ + api_key,
{
}

/// The body that is posted for a request is the text of its model, its messages, its tools and
/// whether a stream is wanted.
pub proof fn law_a_request_posts_its_body(
    base_url: Seq<char>,
    api_key: Seq<char>,
    request: LlmRequestView,
    stream: bool,
)
    ensures
        ({
            let posted = completion_request(base_url, api_key, request, stream);
            let with_body = completion_request_with(
                base_url,
                api_key,
                json_text(body_json(request, stream)),
                stream,
            );
            posted.body == Some(json_text(body_json(request, stream))) && posted.url
                == with_body.url && posted.headers == with_body.headers
        }),
{
}

/// An event without a data line, such as one of comments alone, says nothing.
pub proof fn law_comments_say_nothing(raw: Seq<char>)
    requires
        forall|i: int|
            0 <= i < lines(raw).len() ==> !("data: "@.is_prefix_of(#[trigger] lines(raw)[i])),
    ensures
        sse_event(raw) is None,
{
    lemma_no_data(lines(raw));
}

proof fn lemma_no_data(all: Seq<Seq<char>>)
    requires
        forall|i: int| 0 <= i < all.len() ==> !("data: "@.is_prefix_of(#[trigger] all[i])),
    ensures
        data_lines(all).len() == 0,
    decreases all.len(),
{
    if all.len() > 0 {
        let front = all.drop_last();
        assert forall|i: int| 0 <= i < front.len() implies !("data: "@.is_prefix_of(
            #[trigger] front[i],
        )) by {
            assert(front[i] == all[i]);
        }
        lemma_no_data(front);
        assert(!("data: "@.is_prefix_of(all[all.len() - 1])));
    }
}

} // verus!
