use twobobs::cost::{
    CallCost, Dollars, GatewayModel, GatewayPricing, GatewayProvider, ModelRates,
    OpenAiPromptTokenDetails, OpenAiUsage, RateTable,
};
use twobobs::history::{History, LlmRequest, LlmResponse, Message, Role};
use twobobs::json::{Json, JsonNumber};
use twobobs::llm::{
    build_call_with, build_openai_body, check_status, list_models, parse_tool_call, read_response,
    replay_step, HttpLlmClient, LlmError, OpenAiChoice, OpenAiMessage, OpenAiResponse, OpenAiToolCall,
    OpenAiToolFunction, ReplayLlmClient, DEFAULT_BASE_URL,
};
use twobobs::tools::ToolCall;

fn dollars(total: f64) -> Dollars {
    Dollars { bits: total.to_bits(), text: format!("{:.6}", total) }
}

fn message(role: Role, content: &str) -> Message {
    Message { role, content: content.to_string(), tool_calls: vec![], tool_call_id: None }
}

fn object(entries: Vec<(&str, Json)>) -> Json {
    Json::Object(entries.into_iter().map(|(k, v)| (k.to_string(), v)).collect())
}

fn text(s: &str) -> Json {
    Json::Str(s.to_string())
}

#[test]
fn cost_compute_gpt4o_mini_rates() {
    let (input, output, cache_read, cache_write) = (0.15e-6, 0.6e-6, 0.075e-6, 0.0);
    let usage = OpenAiUsage {
        prompt_tokens: 174,
        completion_tokens: 10,
        prompt_tokens_details: Some(OpenAiPromptTokenDetails {
            cached_tokens: 0,
            cache_write_tokens: 0,
        }),
    };
    let counts = usage.counts();
    let total = input * counts.input as f64
        + output * counts.output as f64
        + cache_read * counts.cache_read as f64
        + cache_write * counts.cache_write as f64;
    let cost = CallCost::compute(&usage, dollars(total));
    let expected = 174.0 * 0.15e-6 + 10.0 * 0.6e-6;
    assert!((f64::from_bits(cost.total_cost.bits) - expected).abs() < 1e-9);
    assert_eq!(cost.input_tokens, 174);
    assert_eq!(cost.output_tokens, 10);
}

#[test]
fn cost_is_reported_in_a_line() {
    let usage = OpenAiUsage {
        prompt_tokens: 1200,
        completion_tokens: 34,
        prompt_tokens_details: Some(OpenAiPromptTokenDetails {
            cached_tokens: 5,
            cache_write_tokens: 18446744073709551615,
        }),
    };
    let cost = CallCost::compute(&usage, dollars(0.25));
    assert_eq!(
        cost.format(),
        "tokens in=1200|cache_read=5|cache_write=18446744073709551615 out=34 cost $0.250000"
    );
    let plain = OpenAiUsage { prompt_tokens: 0, completion_tokens: 9, prompt_tokens_details: None };
    let cost = CallCost::compute(&plain, dollars(0.0));
    assert_eq!(
        cost.log_line("m"),
        "[cost] tokens in=0|cache_read=0|cache_write=0 out=9 cost $0.000000 model=m"
    );
}

fn pricing(prompt: &str) -> GatewayPricing {
    GatewayPricing {
        prompt: Some(prompt.to_string()),
        completion: Some("2".to_string()),
        input_cache_read: None,
        input_cache_write: Some("4".to_string()),
    }
}

fn listed(id: &str, providers: Vec<GatewayProvider>) -> GatewayModel {
    GatewayModel { id: id.to_string(), providers }
}

fn show(rates: ModelRates) -> String {
    format!("{:?} {:?} {:?} {:?}", rates.input, rates.output, rates.cache_read, rates.cache_write)
}

#[test]
fn rates_are_those_of_the_first_provider_and_the_last_listing() {
    let models = vec![
        listed(
            "a",
            vec![
                GatewayProvider { pricing: Some(pricing("1")) },
                GatewayProvider { pricing: Some(pricing("7")) },
            ],
        ),
        listed("b", vec![GatewayProvider { pricing: None }]),
        listed("c", vec![]),
        listed("d", vec![GatewayProvider { pricing: Some(pricing("3")) }]),
        listed("d", vec![GatewayProvider { pricing: Some(pricing("5")) }]),
    ];
    let table = RateTable::from_models(&models);
    let none = show(ModelRates::default());
    assert_eq!(none, "None None None None");
    assert_eq!(show(table.rates_for("a")), "Some(\"1\") Some(\"2\") None Some(\"4\")");
    assert_eq!(show(table.rates_for("b")), none);
    assert_eq!(show(table.rates_for("c")), none);
    assert_eq!(show(table.rates_for("d")), "Some(\"5\") Some(\"2\") None Some(\"4\")");
    assert_eq!(show(table.rates_for("e")), none);
}

#[test]
fn a_body_without_tools() {
    let request = LlmRequest {
        model: "gpt".to_string(),
        messages: vec![message(Role::System, "be\n\"good\""), message(Role::User, "hi")],
        tools: vec![],
    };
    assert_eq!(
        build_openai_body(&request, false).to_text(),
        "{\"messages\":[{\"content\":\"be\\n\\\"good\\\"\",\"role\":\"system\"},{\"content\":\"hi\",\"role\":\"user\"}],\"model\":\"gpt\",\"stream\":false}"
    );
}

#[test]
fn a_body_with_calls_and_tools() {
    let call = ToolCall {
        id: "c1".to_string(),
        name: "read".to_string(),
        arguments: object(vec![("path", text("a.txt"))]),
    };
    let asked = Message {
        role: Role::Assistant,
        content: String::new(),
        tool_calls: vec![call],
        tool_call_id: None,
    };
    let answered = Message {
        role: Role::Tool,
        content: "data".to_string(),
        tool_calls: vec![],
        tool_call_id: Some("c1".to_string()),
    };
    let schema = object(vec![
        ("name", text("read")),
        ("input_schema", object(vec![("type", text("object"))])),
    ]);
    let request = LlmRequest {
        model: "m".to_string(),
        messages: vec![asked, answered],
        tools: vec![schema, text("odd"), object(vec![("name", text("plain"))])],
    };
    let body = build_openai_body(&request, true);
    assert_eq!(
        body.get("messages").unwrap().to_text(),
        "[{\"content\":\"\",\"role\":\"assistant\",\"tool_calls\":[{\"function\":{\"arguments\":\"{\\\"path\\\":\\\"a.txt\\\"}\",\"name\":\"read\"},\"id\":\"c1\",\"type\":\"function\"}]},{\"content\":\"data\",\"role\":\"tool\",\"tool_call_id\":\"c1\"}]"
    );
    assert_eq!(
        body.get("tools").unwrap().to_text(),
        "[{\"function\":{\"name\":\"read\",\"parameters\":{\"type\":\"object\"}},\"type\":\"function\"},{\"function\":\"odd\",\"type\":\"function\"},{\"function\":{\"name\":\"plain\"},\"type\":\"function\"}]"
    );
    assert_eq!(body.get("stream").unwrap().to_text(), "true");
}

#[test]
fn a_schema_that_has_parameters_already() {
    let schema = object(vec![("parameters", text("old")), ("input_schema", text("new"))]);
    let request = LlmRequest { model: String::new(), messages: vec![], tools: vec![schema] };
    let body = build_openai_body(&request, false);
    assert_eq!(
        body.get("tools").unwrap().to_text(),
        "[{\"function\":{\"parameters\":\"new\"},\"type\":\"function\"}]"
    );
}

fn raw_call(arguments: &str) -> OpenAiToolCall {
    OpenAiToolCall {
        id: "i".to_string(),
        function: OpenAiToolFunction {
            name: "n".to_string(),
            arguments: arguments.to_string(),
        },
    }
}

#[test]
fn arguments_are_json_or_text() {
    let call = parse_tool_call(raw_call("{\"b\":[1,-2,1.5e3,null,true],\"a\":\"x\"}"));
    assert_eq!((call.id.as_str(), call.name.as_str()), ("i", "n"));
    assert_eq!(call.arguments_text(), "{\"a\":\"x\",\"b\":[1,-2,1500.0,null,true]}");
    let broken = parse_tool_call(raw_call("{\"b\":"));
    assert_eq!(broken.arguments.as_str(), Some("{\"b\":"));
    let empty = parse_tool_call(raw_call(""));
    assert_eq!(empty.arguments.as_str(), Some(""));
}

#[test]
fn arguments_survive_a_request() {
    let texts = ["{\"k\":[{\"z\":\"\\u0000\\\"é\"},7,-7,18446744073709551615]}", "[]", "\"s\"", "null"];
    for t in texts {
        let first = parse_tool_call(raw_call(t));
        let again = parse_tool_call(raw_call(&first.arguments_text()));
        assert_eq!(first.arguments_text(), again.arguments_text());
    }
}

fn completion(choices: Vec<OpenAiChoice>, usage: Option<OpenAiUsage>) -> OpenAiResponse {
    OpenAiResponse { choices, usage }
}

fn choice(content: Option<&str>, tool_calls: Option<Vec<OpenAiToolCall>>) -> OpenAiChoice {
    OpenAiChoice {
        message: OpenAiMessage { content: content.map(|s| s.to_string()), tool_calls },
    }
}

#[test]
fn the_first_choice_counts() {
    let response = completion(
        vec![
            choice(Some("one"), Some(vec![raw_call("1"), raw_call("x")])),
            choice(Some("two"), None),
        ],
        None,
    );
    let read = read_response(response).unwrap();
    assert_eq!(read.content, "one");
    assert_eq!(read.tool_calls.len(), 2);
    assert_eq!(read.tool_calls[0].arguments.as_u64(), Some(1));
    assert_eq!(read.tool_calls[1].arguments.as_str(), Some("x"));
    let blank = read_response(completion(vec![choice(None, None)], None)).unwrap();
    assert_eq!(blank.content, "");
    assert!(blank.tool_calls.is_empty());
    let none = read_response(completion(vec![], None)).unwrap_err();
    assert_eq!(none.message(), "empty choices");
}

#[test]
fn replies_are_taken_in() {
    let usage = OpenAiUsage { prompt_tokens: 5, completion_tokens: 6, prompt_tokens_details: None };
    let mut client = HttpLlmClient::with_base_url("k".to_string(), "http://x".to_string());
    assert!(client.last_cost().is_none());

    let (cost, reply) = client.complete_reply(
        false,
        "500 Internal Server Error",
        "oops",
        Ok(completion(vec![choice(Some("hi"), None)], Some(usage))),
        dollars(1.0),
    );
    assert!(cost.is_none() && client.last_cost().is_none());
    assert_eq!(reply.unwrap_err().message(), "llm gateway 500 Internal Server Error: oops");

    let (cost, reply) =
        client.complete_reply(true, "200 OK", "<html>", Err("eof".to_string()), dollars(1.0));
    assert!(cost.is_none() && client.last_cost().is_none());
    assert_eq!(reply.unwrap_err().message(), "parse response: eof (body: <html>)");

    let (cost, reply) = client.complete_reply(
        true,
        "200 OK",
        "",
        Ok(completion(vec![], Some(usage))),
        dollars(2.5),
    );
    assert_eq!(cost.unwrap().output_tokens, 6);
    assert!(matches!(reply, Err(LlmError::EmptyChoices)));
    let last = client.last_cost().unwrap();
    assert_eq!(f64::from_bits(last.total_cost.bits), 2.5);
    assert_eq!(last.input_tokens, 5);

    let (cost, reply) = client.complete_reply(
        true,
        "200 OK",
        "",
        Ok(completion(vec![choice(Some("hi"), None)], None)),
        dollars(9.0),
    );
    assert!(cost.is_none());
    assert_eq!(reply.unwrap().content, "hi");
    assert_eq!(f64::from_bits(client.last_cost().unwrap().total_cost.bits), 2.5);
}

#[test]
fn statuses() {
    assert!(check_status(true, "200 OK", "x").is_ok());
    let e = check_status(false, "429 Too Many Requests", "slow").unwrap_err();
    assert_eq!(e.message(), "llm gateway 429 Too Many Requests: slow");
}

#[test]
fn clients_from_the_environment() {
    let e = HttpLlmClient::from_env(None, None).unwrap_err();
    assert_eq!(e.message(), "LLMGATEWAY_API_KEY not set");
    let models = vec![listed("a", vec![GatewayProvider { pricing: Some(pricing("1")) }])];
    let client = HttpLlmClient::from_env(Some("k".to_string()), Some(models)).unwrap();
    assert_eq!(client.rates_for("a").input.as_deref(), Some("1"));
    let request = LlmRequest { model: "a".to_string(), messages: vec![], tools: vec![] };
    let sent = client.complete_request(&request, false).unwrap();
    assert_eq!(sent.url, format!("{DEFAULT_BASE_URL}/chat/completions"));
    assert_eq!(sent.url, "https://api.llmgateway.io/v1/chat/completions");
    let bare = HttpLlmClient::from_env(Some("k".to_string()), None).unwrap();
    assert!(bare.rates_for("a").input.is_none());
}

fn pairs(headers: &Vec<(String, String)>) -> Vec<(&str, &str)> {
    headers.iter().map(|(n, v)| (n.as_str(), v.as_str())).collect()
}

#[test]
fn requests_to_the_gateway() {
    let client = HttpLlmClient::with_base_url("SECRET-REDACTED".to_string(), "http://h/v1//".to_string());
    let request = LlmRequest { model: "m".to_string(), messages: vec![], tools: vec![] };
    let batch = client.complete_request(&request, false).unwrap();
    assert_eq!(batch.url, "http://h/v1/chat/completions");
    assert_eq!(
        pairs(&batch.headers),
        vec![("authorization", "Bearer SECRET-REDACTED"), ("content-type", "application/json")]
    );
    assert_eq!(batch.body.as_deref(), Some("{\"messages\":[],\"model\":\"m\",\"stream\":false}"));
    let stream = client.complete_request(&request, true).unwrap();
    assert_eq!(pairs(&stream.headers)[2], ("accept", "text/event-stream"));
    assert_eq!(stream.body.as_deref(), Some("{\"messages\":[],\"model\":\"m\",\"stream\":true}"));
    let list = list_models("http://h/", "k").unwrap();
    assert_eq!(list.url, "http://h/models?exclude_deprecated=true");
    assert_eq!(pairs(&list.headers), vec![("authorization", "Bearer k")]);
    assert!(list.body.is_none());
}

#[test]
fn a_body_is_posted_as_it_is() {
    let client = HttpLlmClient::with_base_url("k".to_string(), "http://h".to_string());
    let post = client.post_completion("{ }".to_string(), false).unwrap();
    assert_eq!(post.url, "http://h/chat/completions");
    assert_eq!(
        pairs(&post.headers),
        vec![("authorization", "Bearer k"), ("content-type", "application/json")]
    );
    assert_eq!(post.body.as_deref(), Some("{ }"));
}

#[test]
fn a_call_carries_its_arguments_as_text() {
    let call = ToolCall { id: "c1".to_string(), name: "read".to_string(), arguments: Json::Null };
    assert_eq!(
        build_call_with(&call, "[1]".to_string()).to_text(),
        "{\"function\":{\"arguments\":\"[1]\",\"name\":\"read\"},\"id\":\"c1\",\"type\":\"function\"}"
    );
}

#[test]
fn keys_that_cannot_stand_in_a_header() {
    let request = LlmRequest { model: "m".to_string(), messages: vec![], tools: vec![] };
    for key in ["a\nb", "a\u{7f}", "\u{0}"] {
        let client = HttpLlmClient::with_base_url(key.to_string(), "http://h".to_string());
        let e = client.complete_request(&request, true).unwrap_err();
        assert_eq!(e.message(), "failed to parse header value");
        assert!(matches!(list_models("http://h", key), Err(LlmError::BadHeader)));
    }
    for key in ["a\tb", "é", "", "~ !"] {
        assert!(list_models("http://h", key).is_ok());
    }
}

fn recorded(s: &str) -> LlmResponse {
    LlmResponse { content: s.to_string(), tool_calls: vec![] }
}

#[test]
fn replaying() {
    let request = LlmRequest { model: "m".to_string(), messages: vec![], tools: vec![] };
    let client = ReplayLlmClient::new(vec![recorded("a"), recorded("b")]);
    let copy = client.clone();
    assert_eq!(client.complete(&request).unwrap().content, "a");
    assert_eq!(copy.complete(&request).unwrap().content, "b");
    let e = client.complete(&request).unwrap_err();
    assert_eq!(e.message(), "replay exhausted at index 2");
    assert_eq!(copy.complete(&request).unwrap_err().message(), "replay exhausted at index 3");
    assert_eq!(client.response_at(1).unwrap().content, "b");
    assert!(matches!(client.response_at(2), Err(LlmError::ReplayExhausted { index: 2 })));
    assert!(ReplayLlmClient::default().complete(&request).is_err());
}

#[test]
fn a_replay_goes_step_by_step() {
    let responses = vec![recorded("a"), recorded("b")];
    let mut index = 0usize;
    let mut given = Vec::new();
    for _ in 0..4 {
        let (next, result) = replay_step(&responses, index);
        assert_eq!(next, index + 1);
        index = next;
        given.push(match result {
            Ok(response) => response.content,
            Err(e) => e.message(),
        });
    }
    assert_eq!(
        given,
        vec!["a", "b", "replay exhausted at index 2", "replay exhausted at index 3"]
    );
    let (next, result) = replay_step(&responses, usize::MAX);
    assert_eq!(next, 0);
    assert!(matches!(result, Err(LlmError::ReplayExhausted { index: usize::MAX })));
}

#[test]
fn a_cost_of_nothing() {
    let cost = CallCost::default();
    assert_eq!(cost.total_cost.bits, 0.0f64.to_bits());
    assert_eq!(
        cost.format(),
        "tokens in=0|cache_read=0|cache_write=0 out=0 cost $0.000000"
    );
}

#[test]
fn conversations_become_requests() {
    let mut history = History::new();
    history.append_user("hi".to_string());
    history.append_assistant("yes".to_string());
    let call = ToolCall { id: "c".to_string(), name: "n".to_string(), arguments: Json::Null };
    history.append_assistant_with_tools("wait".to_string(), vec![call]);
    history.append_tool_result("c".to_string(), "out".to_string());
    let request = history.to_request("m", &vec![Json::Number(JsonNumber::Unsigned(1))]);
    assert_eq!(request.model, "m");
    let roles: Vec<Role> = request.messages.iter().map(|m| m.role).collect();
    assert_eq!(roles, vec![Role::User, Role::Assistant, Role::Assistant, Role::Tool]);
    assert_eq!(request.messages[2].tool_calls[0].id, "c");
    assert_eq!(request.messages[3].tool_call_id.as_deref(), Some("c"));
    assert_eq!(request.messages[3].content, "out");
    assert_eq!(request.tools[0].as_u64(), Some(1));
}
