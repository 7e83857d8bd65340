//! Chat requests, replies and errors.
use mcpg_plugin_backend_llm_openai::adapter::{
    body_excerpt, class_of_status, conclude_chat, decode_parsed, decode_response, decode_usage,
    encode_messages, encode_request, encode_streaming_request, finish_call, finish_reason,
    map_reqwest_error, map_status_error, raw_call, text_excerpt, truncate_count,
};
use mcpg_plugin_backend_llm_openai::error::{ErrorClass, ProviderError};
use mcpg_plugin_backend_llm_openai::json::{parse_text, print, to_value, Json, PARSER_DEPTH};
use mcpg_plugin_backend_llm_openai::normalized::{
    AudioContent, AudioFormat, AudioSource, ContentPart, FileContent, FileSource, FinishReason,
    ImageContent, ImageDetail, ImageSource, Message, MessageContent, NormalizedChatRequest, Role,
    ToolCall, ToolChoiceWire, ToolDef,
};
use mcpg_plugin_backend_llm_openai::text::take_within;
use mcpg_plugin_backend_llm_openai::upstream::{Exchange, TransportFault};
use mcpg_plugin_backend_llm_openai::{OpenAiAdapter, OpenAiVariant};
use serde_json::Value;

fn doc(text: &str) -> Json {
    parse_text(text).unwrap()
}

fn float(f: f64) -> Json {
    Json::Number(serde_json::Number::from_f64(f).unwrap())
}

fn text_message(role: Role, text: &str) -> Message {
    Message {
        role,
        content: MessageContent::Text(text.to_string()),
        tool_calls: vec![],
        tool_call_id: None,
    }
}

fn user_parts(parts: Vec<ContentPart>) -> Message {
    Message {
        role: Role::User,
        content: MessageContent::Parts { parts, text: String::new() },
        tool_calls: vec![],
        tool_call_id: None,
    }
}

fn request(model: &str, messages: Vec<Message>) -> NormalizedChatRequest {
    NormalizedChatRequest {
        model: model.to_string(),
        messages,
        response_schema: None,
        strict_response: false,
        tools: vec![],
        tool_choice: ToolChoiceWire::Auto,
        temperature: None,
        top_p: None,
        max_completion_tokens: None,
        seed: None,
    }
}

fn encoded(req: &NormalizedChatRequest) -> Value {
    to_value(&encode_request(req))
}

#[test]
fn encode_request_minimal_text() {
    let req = NormalizedChatRequest {
        strict_response: true,
        temperature: Some(float(0.5)),
        max_completion_tokens: Some(64),
        ..request(
            "gpt-4o-mini",
            vec![text_message(Role::System, "you are helpful"), text_message(Role::User, "hi")],
        )
    };
    let body = encoded(&req);
    assert_eq!(body["model"], "gpt-4o-mini");
    assert_eq!(body["messages"][0]["role"], "system");
    assert_eq!(body["messages"][1]["role"], "user");
    assert_eq!(body["temperature"], 0.5);
    assert_eq!(body["max_completion_tokens"], 64);
    assert!(body.get("tools").is_none());
    assert!(body.get("response_format").is_none());
    assert!(body.get("top_p").is_none());
    assert!(body.get("seed").is_none());
    assert_eq!(body["messages"][0]["content"], "you are helpful");
    assert_eq!(body["messages"][1]["content"], "hi");
    assert!(body.get("tool_choice").is_none());
}

#[test]
fn encode_request_with_response_schema() {
    let schema = "{\"type\": \"object\", \"properties\": {\"x\": {\"type\": \"string\"}}}";
    let req = NormalizedChatRequest {
        response_schema: Some(doc(schema)),
        strict_response: true,
        ..request("gpt-4o-mini", vec![text_message(Role::User, "hi")])
    };
    let body = encoded(&req);
    assert_eq!(body["response_format"]["type"], "json_schema");
    assert_eq!(body["response_format"]["json_schema"]["strict"], true);
    assert_eq!(
        body["response_format"]["json_schema"]["schema"],
        serde_json::from_str::<Value>(schema).unwrap()
    );
    assert_eq!(body["response_format"]["json_schema"]["name"], "structured_output");
}

#[test]
fn encode_request_with_tools_emits_function_defs() {
    let req = NormalizedChatRequest {
        tools: vec![ToolDef {
            name: "linear.fetch_issue".to_string(),
            description: "Fetch a Linear issue".to_string(),
            parameters: doc("{\"type\": \"object\"}"),
        }],
        tool_choice: ToolChoiceWire::Required,
        ..request("x", vec![text_message(Role::User, "y")])
    };
    let body = encoded(&req);
    assert_eq!(body["tools"][0]["type"], "function");
    assert_eq!(body["tools"][0]["function"]["name"], "linear.fetch_issue");
    assert_eq!(body["tool_choice"], "required");
    assert_eq!(body["tools"][0]["function"]["description"], "Fetch a Linear issue");
    assert_eq!(body["tools"][0]["function"]["parameters"]["type"], "object");
}

#[test]
fn tool_choices_have_their_names() {
    for (choice, name) in [
        (ToolChoiceWire::Auto, "auto"),
        (ToolChoiceWire::Required, "required"),
        (ToolChoiceWire::Never, "none"),
    ] {
        let req = NormalizedChatRequest {
            tools: vec![ToolDef {
                name: "t".to_string(),
                description: String::new(),
                parameters: Json::Null,
            }],
            tool_choice: choice,
            ..request("x", vec![])
        };
        assert_eq!(encoded(&req)["tool_choice"], name);
    }
}

#[test]
fn assistant_message_with_only_tool_calls_serializes_null_content() {
    let msg = Message {
        role: Role::Assistant,
        content: MessageContent::Text(String::new()),
        tool_calls: vec![ToolCall {
            id: "call_1".to_string(),
            name: "x".to_string(),
            arguments: doc("{\"a\": 1}"),
        }],
        tool_call_id: None,
    };
    let v = to_value(&encode_messages(&[msg]));
    assert_eq!(v[0]["role"], "assistant");
    assert_eq!(v[0]["content"], Value::Null);
    assert_eq!(v[0]["tool_calls"][0]["function"]["arguments"], "{\"a\":1}");
    assert_eq!(v[0]["tool_calls"][0]["id"], "call_1");
    assert_eq!(v[0]["tool_calls"][0]["type"], "function");
    assert_eq!(v[0]["tool_calls"][0]["function"]["name"], "x");
}

#[test]
fn assistant_and_tool_messages_keep_their_text() {
    let mut tool = text_message(Role::Tool, "42");
    tool.tool_call_id = Some("call_1".to_string());
    let v = to_value(&encode_messages(&[
        text_message(Role::Assistant, "hello"),
        tool,
        text_message(Role::Tool, "no id"),
    ]));
    assert_eq!(v[0]["content"], "hello");
    assert!(v[0].get("tool_calls").is_none());
    assert_eq!(v[1]["role"], "tool");
    assert_eq!(v[1]["tool_call_id"], "call_1");
    assert_eq!(v[1]["content"], "42");
    assert_eq!(v[2]["tool_call_id"], "");
}

#[test]
fn system_content_is_text_even_for_parts() {
    let v = to_value(&encode_messages(&[Message {
        role: Role::System,
        content: MessageContent::Parts {
            parts: vec![ContentPart::Text("a".to_string())],
            text: "a flattened".to_string(),
        },
        tool_calls: vec![],
        tool_call_id: None,
    }]));
    assert_eq!(v[0]["content"], "a flattened");
}

#[test]
fn decode_response_text_only() {
    let raw = doc(
        "{\"choices\": [{\"message\": {\"role\": \"assistant\", \"content\": \"hello back\"}, \
         \"finish_reason\": \"stop\"}], \
         \"usage\": {\"prompt_tokens\": 10, \"completion_tokens\": 3}}",
    );
    let r = decode_response(&raw).unwrap();
    assert_eq!(r.content, "hello back");
    assert!(r.tool_calls.is_empty());
    assert_eq!(r.finish_reason, FinishReason::Stop);
    assert_eq!(r.usage.input_tokens, 10);
    assert_eq!(r.usage.output_tokens, 3);
    assert_eq!(r.usage.cached_input_tokens, 0);
}

#[test]
fn decode_response_with_tool_calls() {
    let raw = doc(
        "{\"choices\": [{\"message\": {\"role\": \"assistant\", \"content\": null, \
         \"tool_calls\": [{\"id\": \"call_1\", \"type\": \"function\", \"function\": \
         {\"name\": \"fetch\", \"arguments\": \"{\\\"id\\\":42}\"}}]}, \
         \"finish_reason\": \"tool_calls\"}], \
         \"usage\": {\"prompt_tokens\": 5, \"completion_tokens\": 8}}",
    );
    let r = decode_response(&raw).unwrap();
    assert_eq!(r.tool_calls.len(), 1);
    assert_eq!(r.tool_calls[0].id, "call_1");
    assert_eq!(r.tool_calls[0].name, "fetch");
    assert_eq!(
        to_value(&r.tool_calls[0].arguments),
        serde_json::from_str::<Value>("{\"id\": 42}").unwrap()
    );
    assert_eq!(r.finish_reason, FinishReason::ToolCalls);
}

#[test]
fn decode_response_rejects_malformed_tool_args() {
    let raw = doc(
        "{\"choices\": [{\"message\": {\"role\": \"assistant\", \"content\": null, \
         \"tool_calls\": [{\"id\": \"c\", \"type\": \"function\", \"function\": \
         {\"name\": \"f\", \"arguments\": \"not json\"}}]}, \"finish_reason\": \"tool_calls\"}]}",
    );
    let err = decode_response(&raw).unwrap_err();
    assert!(matches!(err, ProviderError::Malformed { .. }));
    assert!(err.message().starts_with("tool_call 'f' has malformed arguments: expected"));
}

#[test]
fn replies_without_their_parts_are_malformed() {
    for (text, message) in [
        ("{}", "response has no choices[0]"),
        ("{\"choices\": []}", "response has no choices[0]"),
        ("{\"choices\": 3}", "response has no choices[0]"),
        ("{\"choices\": [{}]}", "choices[0].message missing"),
        ("{\"choices\": [{\"message\": {\"tool_calls\": [{}]}}]}", "tool_call without function"),
    ] {
        let err = decode_response(&doc(text)).unwrap_err();
        assert!(matches!(err, ProviderError::Malformed { .. }));
        assert_eq!(err.message(), message);
    }
}

#[test]
fn missing_members_of_a_call_have_defaults() {
    let raw = doc("{\"choices\": [{\"message\": {\"tool_calls\": [{\"function\": {}}]}}]}");
    let r = decode_response(&raw).unwrap();
    assert_eq!(r.content, "");
    assert_eq!(r.tool_calls[0].id, "");
    assert_eq!(r.tool_calls[0].name, "");
    assert_eq!(to_value(&r.tool_calls[0].arguments), Value::Object(serde_json::Map::new()));
    assert_eq!(r.finish_reason, FinishReason::Other);
    assert_eq!(r.usage.input_tokens, 0);
}

#[test]
fn the_first_bad_call_counts() {
    let raw = doc(
        "{\"choices\": [{\"message\": {\"tool_calls\": [\
         {\"function\": {\"name\": \"a\", \"arguments\": \"{}\"}}, \
         {\"id\": \"x\"}, \
         {\"function\": {\"name\": \"b\", \"arguments\": \"oops\"}}]}}]}",
    );
    assert_eq!(decode_response(&raw).unwrap_err().message(), "tool_call without function");
}

#[test]
fn a_call_is_completed_with_what_the_parser_says() {
    let item = doc("{\"id\": \"i\", \"function\": {\"name\": \"n\", \"arguments\": \"x\"}}");
    let call = raw_call(&item).unwrap();
    assert_eq!(call.arguments, "x");
    let done = finish_call(call, Ok(Json::Bool(true))).unwrap();
    assert_eq!((done.id.as_str(), done.name.as_str()), ("i", "n"));
    let err = finish_call(raw_call(&item).unwrap(), Err("why".to_string())).unwrap_err();
    assert_eq!(err.message(), "tool_call 'n' has malformed arguments: why");
}

#[test]
fn a_call_survives_being_sent_and_read_back() {
    let arguments = "{\"a\":[1,2,{\"b\":null}],\"c\":\"d\"}";
    let message = Message {
        role: Role::Assistant,
        content: MessageContent::Text(String::new()),
        tool_calls: vec![ToolCall {
            id: "i".to_string(),
            name: "n".to_string(),
            arguments: doc(arguments),
        }],
        tool_call_id: None,
    };
    let sent = encode_messages(&[message]);
    let item = sent.as_array().unwrap()[0].get("tool_calls").unwrap().as_array().unwrap()[0].clone();
    let call = raw_call(&item).unwrap();
    let parsed = parse_text(&call.arguments);
    let back = finish_call(call, parsed).unwrap();
    assert_eq!(back.id, "i");
    assert_eq!(back.name, "n");
    assert_eq!(to_value(&back.arguments), serde_json::from_str::<Value>(arguments).unwrap());
}

fn spoken(text: &str, calls: &[(&str, &str)]) -> Message {
    Message {
        role: Role::Assistant,
        content: MessageContent::Text(text.to_string()),
        tool_calls: calls
            .iter()
            .map(|(id, arguments)| ToolCall {
                id: id.to_string(),
                name: format!("tool_{}", id),
                arguments: doc(arguments),
            })
            .collect(),
        tool_call_id: None,
    }
}

#[test]
fn assistant_messages_survive_being_sent_and_read_back() {
    let deep = format!("{}1{}", "[".repeat(PARSER_DEPTH), "]".repeat(PARSER_DEPTH));
    let calls = [("i", "{\"a\":[1,\"\\u0000\\n\\\"é\"]}"), ("j", "[-7,18446744073709551615]"), ("k", deep.as_str())];
    for (text, calls) in [("hi", &calls[..]), ("", &calls[..1]), ("only text", &[]), ("", &[])] {
        let sent = encode_messages(&[spoken(text, calls)]);
        let reply = Json::Object(vec![(
            "choices".to_string(),
            Json::Array(vec![Json::Object(vec![(
                "message".to_string(),
                sent.as_array().unwrap()[0].clone(),
            )])]),
        )]);
        let back = decode_response(&reply).unwrap();
        assert_eq!(back.content, text);
        assert_eq!(back.tool_calls.len(), calls.len());
        for (call, (id, arguments)) in back.tool_calls.iter().zip(calls) {
            assert_eq!(call.id, *id);
            assert_eq!(call.name, format!("tool_{}", id));
            assert_eq!(to_value(&call.arguments), serde_json::from_str::<Value>(arguments).unwrap());
        }
    }
}

#[test]
fn documents_that_nest_too_deep_do_not_come_back() {
    let nested = |n: usize| (0..n).fold(Json::Unsigned(1), |j, _| Json::Array(vec![j]));
    assert!(parse_text(&print(&nested(PARSER_DEPTH))).is_ok());
    assert!(parse_text(&print(&nested(PARSER_DEPTH + 1))).is_err());
}

#[test]
fn finish_reasons_have_their_names() {
    assert_eq!(finish_reason("stop"), FinishReason::Stop);
    assert_eq!(finish_reason("tool_calls"), FinishReason::ToolCalls);
    assert_eq!(finish_reason("length"), FinishReason::Length);
    assert_eq!(finish_reason("content_filter"), FinishReason::ContentFilter);
    assert_eq!(finish_reason("function_call"), FinishReason::Other);
}

#[test]
fn usage_counts_cached_tokens_and_keeps_32_bits() {
    let u = doc(
        "{\"prompt_tokens\": 4294967298, \"completion_tokens\": \"7\", \
         \"prompt_tokens_details\": {\"cached_tokens\": 5}}",
    );
    let usage = decode_usage(Some(&u));
    assert_eq!(usage.input_tokens, 2);
    assert_eq!(usage.output_tokens, 0);
    assert_eq!(usage.cached_input_tokens, 5);
    assert_eq!(decode_usage(None).input_tokens, 0);
    assert_eq!(truncate_count(u64::MAX), u32::MAX);
}

#[test]
fn map_status_429_is_rate_limited() {
    let e = map_status_error(429, b"slow down");
    assert!(matches!(e, ProviderError::RateLimited { .. }));
    assert_eq!(e.message(), "slow down");
}

#[test]
fn map_status_401_is_auth_failed() {
    let e = map_status_error(401, b"bad key");
    assert!(matches!(e, ProviderError::AuthFailed { .. }));
    assert!(matches!(map_status_error(403, b""), ProviderError::AuthFailed { .. }));
}

#[test]
fn map_status_400_with_context_marker_is_context_limit() {
    let e = map_status_error(400, b"This model's maximum context length is 8192 tokens.");
    assert!(matches!(e, ProviderError::ContextLimit { .. }));
    assert!(matches!(map_status_error(400, b"context_length"), ProviderError::ContextLimit { .. }));
    assert!(matches!(map_status_error(400, b"token limit"), ProviderError::ContextLimit { .. }));
    assert!(matches!(map_status_error(400, b"Token Limit"), ProviderError::BadRequest { .. }));
    assert!(matches!(map_status_error(413, b""), ProviderError::ContextLimit { .. }));
}

#[test]
fn map_status_500_is_server() {
    let e = map_status_error(500, b"oops");
    assert!(matches!(e, ProviderError::Server { .. }));
    assert!(matches!(map_status_error(404, b""), ProviderError::Server { .. }));
    assert!(matches!(map_status_error(302, b""), ProviderError::Server { .. }));
}

#[test]
fn body_excerpt_truncates_long_bodies() {
    let body = vec![b'x'; 1000];
    let s = body_excerpt(&body);
    assert!(s.ends_with("[truncated]"));
    assert!(s.len() < body.len());
    assert_eq!(s, format!("{}…[truncated]", "x".repeat(512)));
    assert_eq!(body_excerpt(&body[..512]), "x".repeat(512));
}

#[test]
fn body_excerpt_replaces_what_is_no_text() {
    assert_eq!(body_excerpt(b"a\xffb"), "a\u{fffd}b");
}

#[test]
fn a_character_across_the_limit_is_left_out() {
    let mark = "…[truncated]";
    let body = "x".to_owned() + &"é".repeat(300);
    let s = body_excerpt(body.as_bytes());
    assert_eq!(s, format!("x{}{}", "é".repeat(255), mark));
    assert_eq!(s.len(), 511 + 14);
    let even = "é".repeat(300);
    let s = body_excerpt(even.as_bytes());
    assert_eq!(s, format!("{}{}", "é".repeat(256), mark));
    assert_eq!(s.len(), 526);
    let wide = "x".repeat(509) + "\u{1f600}";
    assert_eq!(body_excerpt(wide.as_bytes()), "x".repeat(509) + mark);
    assert_eq!(text_excerpt("é".repeat(256)), "é".repeat(256));
    assert_eq!(take_within("aéb", 2), "a");
    assert_eq!(take_within("aéb", 3), "aé");
    assert_eq!(take_within("é", 1), "");
    assert_eq!(take_within("", 0), "");

    let e = map_status_error(500, body.as_bytes());
    assert!(matches!(e, ProviderError::Server { .. }));
    assert!(e.message().ends_with(mark));
    let r = conclude_chat(Exchange::Replied { status: 401, body: body.into_bytes() });
    assert!(matches!(r.unwrap_err(), ProviderError::AuthFailed { .. }));
}

#[test]
fn what_is_cut_off_does_not_count() {
    let far = "x".repeat(512) + "context_length";
    assert!(matches!(map_status_error(400, far.as_bytes()), ProviderError::BadRequest { .. }));
    let near = "x".repeat(498) + "context_length" + "y";
    assert!(matches!(map_status_error(400, near.as_bytes()), ProviderError::ContextLimit { .. }));
    assert_eq!(class_of_status(400, "the token limit"), ErrorClass::ContextLimit);
    assert_eq!(class_of_status(413, ""), ErrorClass::ContextLimit);
    assert_eq!(class_of_status(404, ""), ErrorClass::Server);
}

#[test]
fn provider_error_retryability_matches_design() {
    let m = || "x".to_string();
    assert!(ProviderError::RateLimited { message: m() }.is_retryable());
    assert!(ProviderError::Server { message: m() }.is_retryable());
    assert!(ProviderError::Network { message: m() }.is_retryable());
    assert!(!ProviderError::AuthFailed { message: m() }.is_retryable());
    assert!(!ProviderError::BadRequest { message: m() }.is_retryable());
    assert!(!ProviderError::ContextLimit { message: m() }.is_retryable());
}

#[test]
fn statuses_are_retried_as_they_should() {
    for status in [429, 500, 503, 599] {
        assert!(map_status_error(status, b"").is_retryable());
    }
    for status in [400, 401, 403, 413] {
        assert!(!map_status_error(status, b"").is_retryable());
    }
}

#[test]
fn encode_user_image_url_emits_image_url_part() {
    let parts = vec![
        ContentPart::Text("describe".to_string()),
        ContentPart::Image(ImageContent {
            source: ImageSource::Url("https://ex.com/a.png".to_string()),
            detail: Some(ImageDetail::High),
        }),
    ];
    let body = encoded(&request("gpt-4o", vec![user_parts(parts)]));
    let arr = body["messages"][0]["content"].as_array().unwrap();
    assert_eq!(arr[0]["type"], "text");
    assert_eq!(arr[1]["type"], "image_url");
    assert_eq!(arr[1]["image_url"]["url"], "https://ex.com/a.png");
    assert_eq!(arr[1]["image_url"]["detail"], "high");
    assert_eq!(arr[0]["text"], "describe");
}

#[test]
fn encode_user_image_base64_emits_data_url() {
    let parts = vec![ContentPart::Image(ImageContent {
        source: ImageSource::Base64 {
            mime_type: "image/png".to_string(),
            data: "aGVsbG8=".to_string(),
        },
        detail: None,
    })];
    let body = encoded(&request("gpt-4o", vec![user_parts(parts)]));
    let url = body["messages"][0]["content"][0]["image_url"]["url"].as_str().unwrap();
    assert!(url.starts_with("data:image/png;base64,"));
    assert!(url.ends_with("aGVsbG8="));
    assert!(body["messages"][0]["content"][0]["image_url"].get("detail").is_none());
}

#[test]
fn encode_user_unresolved_resource_falls_back_to_text() {
    let parts = vec![ContentPart::Image(ImageContent {
        source: ImageSource::McpResource("mcpg-resource://hash:abc".to_string()),
        detail: None,
    })];
    let body = encoded(&request("gpt-4o", vec![user_parts(parts)]));
    let arr = body["messages"][0]["content"].as_array().unwrap();
    assert_eq!(arr[0]["type"], "text");
    assert!(arr[0]["text"].as_str().unwrap().contains("hash:abc"));
    assert_eq!(arr[0]["text"], "[unresolved image resource: mcpg-resource://hash:abc]");
}

#[test]
fn audio_and_file_parts_become_one_item_each() {
    let parts = vec![
        ContentPart::Audio(AudioContent {
            source: AudioSource::Base64 { data: "QQ==".to_string() },
            format: AudioFormat::Wav,
        }),
        ContentPart::Audio(AudioContent {
            source: AudioSource::Url("https://a".to_string()),
            format: AudioFormat::Mp3,
        }),
        ContentPart::Audio(AudioContent {
            source: AudioSource::McpResource("r".to_string()),
            format: AudioFormat::Ogg,
        }),
        ContentPart::File(FileContent {
            source: FileSource::Base64 { data: "QQ==".to_string() },
            mime_type: "application/pdf".to_string(),
            filename: Some("f.pdf".to_string()),
        }),
        ContentPart::File(FileContent {
            source: FileSource::Url("https://f".to_string()),
            mime_type: "application/pdf".to_string(),
            filename: None,
        }),
        ContentPart::File(FileContent {
            source: FileSource::McpResource("r".to_string()),
            mime_type: "application/pdf".to_string(),
            filename: None,
        }),
    ];
    let body = encoded(&request("m", vec![user_parts(parts)]));
    let arr = body["messages"][0]["content"].as_array().unwrap();
    assert_eq!(arr.len(), 6);
    assert_eq!(arr[0]["type"], "input_audio");
    assert_eq!(arr[0]["input_audio"]["data"], "QQ==");
    assert_eq!(arr[0]["input_audio"]["format"], "wav");
    assert_eq!(arr[1]["text"], "[audio url: https://a]");
    assert_eq!(arr[2]["text"], "[unresolved audio resource: r]");
    assert_eq!(arr[3]["type"], "file");
    assert_eq!(arr[3]["file"]["file_data"], "data:application/pdf;base64,QQ==");
    assert_eq!(arr[3]["file"]["filename"], "f.pdf");
    assert_eq!(arr[4]["file"]["file_data"], "https://f");
    assert!(arr[4]["file"].get("filename").is_none());
    assert_eq!(arr[5]["text"], "[unresolved file resource: r]");
}

#[test]
fn a_streaming_request_asks_for_the_usage() {
    let req = request("m", vec![text_message(Role::User, "hi")]);
    let mut body = to_value(&encode_streaming_request(&req));
    assert_eq!(body["stream"], true);
    assert_eq!(body["stream_options"]["include_usage"], true);
    let members = body.as_object_mut().unwrap();
    members.remove("stream");
    members.remove("stream_options");
    assert_eq!(body, encoded(&req));
}

fn fault(timeout: bool, connect: bool, request: bool, body: bool, decode: bool) -> TransportFault {
    TransportFault { timeout, connect, request, body, decode, detail: "d".to_string() }
}

#[test]
fn transport_faults_are_told_apart() {
    for (f, message) in [
        (fault(true, true, true, false, false), "timeout: d"),
        (fault(false, true, true, false, false), "connect failed: d"),
        (fault(false, false, true, false, false), "transport: d"),
        (fault(false, false, false, true, false), "transport: d"),
        (fault(false, false, false, false, true), "transport: d"),
        (fault(false, false, false, false, false), "d"),
    ] {
        let e = map_reqwest_error(f);
        assert!(matches!(e, ProviderError::Network { .. }));
        assert_eq!(e.message(), message);
    }
}

#[test]
fn exchanges_are_concluded() {
    let ok = conclude_chat(Exchange::Replied {
        status: 200,
        body: b"{\"choices\": [{\"message\": {\"content\": \"hi\"}}]}".to_vec(),
    });
    assert_eq!(ok.unwrap().content, "hi");
    let bad = conclude_chat(Exchange::Replied { status: 200, body: b"<html>".to_vec() });
    let err = bad.unwrap_err();
    assert!(matches!(err, ProviderError::Malformed { .. }));
    assert!(err.message().starts_with("response is not JSON: expected value"));
    let refused = conclude_chat(Exchange::Replied { status: 401, body: b"no".to_vec() });
    assert!(matches!(refused.unwrap_err(), ProviderError::AuthFailed { .. }));
    let broken = conclude_chat(Exchange::ReadFailed("eof".to_string()));
    assert_eq!(broken.unwrap_err().message(), "read response body: eof");
    let unsent = conclude_chat(Exchange::SendFailed(fault(true, false, false, false, false)));
    assert_eq!(unsent.unwrap_err().message(), "timeout: d");
    let err = decode_parsed(Err("e".to_string())).unwrap_err();
    assert_eq!(err.message(), "response is not JSON: e");
}

#[test]
fn chat_requests_are_addressed_and_authorised() {
    let a = OpenAiAdapter::new(
        OpenAiVariant::OpenAi,
        "openai",
        "https://api.openai.com/v1/".to_string(),
        "k".to_string(),
    )
    .unwrap_or_else(|e| panic!("{:?}", e));
    assert_eq!(a.label(), "openai");
    assert_eq!(a.endpoint_url(), "https://api.openai.com/v1/chat/completions");
    let req = request("m", vec![]);
    let post = a.chat_completion(&req).unwrap_or_else(|e| panic!("{:?}", e));
    assert_eq!(post.url, "https://api.openai.com/v1/chat/completions");
    assert_eq!(
        post.headers,
        vec![
            ("content-type".to_string(), "application/json".to_string()),
            ("authorization".to_string(), "Bearer k".to_string()),
        ]
    );
    assert_eq!(to_value(&post.body), encoded(&req));
    let stream = a.stream_chat_completion(&req).unwrap_or_else(|e| panic!("{:?}", e));
    assert_eq!(to_value(&stream.body)["stream"], true);
}
