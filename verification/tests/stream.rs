//! Streamed chat replies.
use mcpg_plugin_backend_llm_openai::error::ProviderError;
use mcpg_plugin_backend_llm_openai::json::{parse_text, to_value, Json};
use mcpg_plugin_backend_llm_openai::normalized::FinishReason;
use mcpg_plugin_backend_llm_openai::sse::{
    event_payload, find_event_boundary, strip_boundary_prefix, take_event,
};
use mcpg_plugin_backend_llm_openai::stream::{complete_call, open_stream, ChatStream, PartialCall};

fn event(data: &str) -> String {
    format!("data: {}\n\n", data)
}

fn content(text: &str) -> String {
    event(&format!("{{\"choices\": [{{\"delta\": {{\"content\": \"{}\"}}}}]}}", text))
}

#[test]
fn boundaries_are_found() {
    assert_eq!(find_event_boundary(b""), None);
    assert_eq!(find_event_boundary(b"\n"), None);
    assert_eq!(find_event_boundary(b"a\n\nb"), Some(1));
    assert_eq!(find_event_boundary(b"\n\n"), Some(0));
    assert_eq!(find_event_boundary(b"a\r\n\r\nb"), Some(1));
    assert_eq!(find_event_boundary(b"a\r\n\r"), None);
    assert_eq!(find_event_boundary(b"x\n\ny\r\n\r\n"), Some(4));
    assert_eq!(find_event_boundary(b"x\r\n\r\ny\n\n"), Some(1));
}

#[test]
fn separators_are_dropped() {
    for (before, dropped, after) in [
        (&b"\r\n\r\nx"[..], 4, &b"x"[..]),
        (&b"\n\nx"[..], 2, &b"x"[..]),
        (&b"\nx"[..], 0, &b"\nx"[..]),
        (&b"x\n\n"[..], 0, &b"x\n\n"[..]),
        (&b""[..], 0, &b""[..]),
    ] {
        let mut buf = before.to_vec();
        assert_eq!(strip_boundary_prefix(&mut buf), dropped);
        assert_eq!(buf, after);
    }
}

#[test]
fn events_are_taken_off_one_by_one() {
    let mut buf = b"a\n\nb\n\nc".to_vec();
    assert_eq!(take_event(&mut buf), Some(b"a".to_vec()));
    assert_eq!(take_event(&mut buf), Some(b"b".to_vec()));
    assert_eq!(take_event(&mut buf), None);
    assert_eq!(buf, b"c");
}

#[test]
fn payloads_are_the_data_lines() {
    assert_eq!(event_payload(b"data: x").as_deref(), Some("x"));
    assert_eq!(event_payload(b"data:x").as_deref(), Some("x"));
    assert_eq!(event_payload(b"data:   x ").as_deref(), Some("x "));
    assert_eq!(event_payload(b"event: e\ndata: a\r\nid: 1\ndata: b\r").as_deref(), Some("a\nb\r"));
    assert_eq!(event_payload(b": comment"), None);
    assert_eq!(event_payload(b" data: x"), None);
    assert_eq!(event_payload(b""), None);
    assert_eq!(event_payload(b"data:").as_deref(), Some(""));
    assert_eq!(event_payload(b"data: \xff"), None);
}

#[test]
fn text_is_handed_out_as_it_comes() {
    let mut s = ChatStream::new();
    assert_eq!(s.push_chunk(content("Hel").as_bytes()), vec!["Hel"]);
    let rest = content("lo");
    assert!(s.push_chunk(&rest.as_bytes()[..7]).is_empty());
    assert_eq!(s.push_chunk(&rest.as_bytes()[7..]), vec!["lo"]);
    assert!(s.push_chunk(content("").as_bytes()).is_empty());
    assert!(s.push_chunk(b"data: not json\n\n").is_empty());
    assert!(s.push_chunk(b": ping\n\n").is_empty());
    assert!(!s.is_done());
    let two = format!("{}{}", content("a"), content("b"));
    assert_eq!(s.push_chunk(two.as_bytes()), vec!["a", "b"]);
}

#[test]
fn the_end_carries_reason_and_usage() {
    let mut s = ChatStream::new();
    s.push_chunk(event("{\"choices\": [{\"delta\": {}, \"finish_reason\": \"length\"}]}").as_bytes());
    s.push_chunk(
        event("{\"choices\": [], \"usage\": {\"prompt_tokens\": 3, \"completion_tokens\": 4}}")
            .as_bytes(),
    );
    assert!(s.push_chunk(b"data:  [DONE] \n\n").is_empty());
    assert!(s.is_done());
    assert!(s.push_chunk(content("late").as_bytes()).is_empty());
    let (calls, end) = s.finish(None);
    assert!(calls.is_empty());
    let end = end.unwrap();
    assert_eq!(end.reason, FinishReason::Length);
    assert_eq!(end.usage.input_tokens, 3);
    assert_eq!(end.usage.output_tokens, 4);
}

#[test]
fn a_stream_without_a_reason_ends_with_other() {
    let (calls, end) = ChatStream::new().finish(None);
    assert!(calls.is_empty());
    let end = end.unwrap();
    assert_eq!(end.reason, FinishReason::Other);
    assert_eq!(end.usage.input_tokens, 0);
}

fn call_delta(body: &str) -> String {
    event(&format!("{{\"choices\": [{{\"delta\": {{\"tool_calls\": [{}]}}}}]}}", body))
}

fn call_stream() -> Vec<String> {
    vec![
        call_delta("{\"index\": 2, \"id\": \"c\", \"function\": {\"name\": \"third\"}}"),
        call_delta(
            "{\"index\": 0, \"id\": \"a\", \"function\": {\"name\": \"first\", \
             \"arguments\": \"{\\\"x\\\"\"}}",
        ),
        call_delta("{\"index\": 0, \"function\": {\"arguments\": \":1}\"}}, {\"id\": \"lost\"}"),
        call_delta("{\"index\": 1, \"id\": \"b\"}"),
        call_delta("{\"index\": 2, \"id\": \"d\"}"),
    ]
}

#[test]
fn calls_are_put_together_and_handed_out_in_order() {
    let mut s = ChatStream::new();
    for e in call_stream() {
        assert!(s.push_chunk(e.as_bytes()).is_empty());
    }
    let (calls, end) = s.finish(None);
    assert!(end.is_ok());
    assert_eq!(calls.len(), 2);
    assert_eq!((calls[0].id.as_str(), calls[0].name.as_str()), ("a", "first"));
    assert_eq!(to_value(&calls[0].arguments)["x"], 1);
    assert_eq!((calls[1].id.as_str(), calls[1].name.as_str()), ("d", "third"));
    assert_eq!(to_value(&calls[1].arguments), serde_json::Value::Null);
}

#[test]
fn a_stream_that_breaks_off_hands_out_its_calls_first() {
    let mut s = ChatStream::new();
    for e in call_stream() {
        s.push_chunk(e.as_bytes());
    }
    let (calls, end) = s.finish(Some("reset".to_string()));
    assert_eq!(calls.len(), 2);
    let err = end.unwrap_err();
    assert!(matches!(err, ProviderError::Network { .. }));
    assert_eq!(err.message(), "read sse chunk: reset");
}

#[test]
fn a_call_is_handed_out_with_what_the_parser_says() {
    let parts = |id: Option<String>| PartialCall {
        id,
        name: "n".to_string(),
        arguments: "a".to_string(),
    };
    let call = complete_call(parts(None), Ok(Json::Bool(true)));
    assert_eq!((call.id.as_str(), call.name.as_str()), ("", "n"));
    assert_eq!(to_value(&call.arguments), true);
    let call = complete_call(parts(Some("i".to_string())), Err("e".to_string()));
    assert_eq!(call.id, "i");
    assert_eq!(to_value(&call.arguments), serde_json::Value::Null);
}

#[test]
fn events_can_be_applied_directly() {
    let mut s = ChatStream::new();
    let e = parse_text("{\"choices\": [{\"delta\": {\"content\": \"x\"}, \"finish_reason\": \"stop\"}]}");
    assert_eq!(s.apply_event(&e.unwrap()).as_deref(), Some("x"));
    let usage = parse_text("{\"usage\": {\"prompt_tokens\": 9}}");
    assert_eq!(s.apply_event(&usage.unwrap()), None);
    let (_, end) = s.finish(None);
    let end = end.unwrap();
    assert_eq!(end.reason, FinishReason::Stop);
    assert_eq!(end.usage.input_tokens, 9);
}

fn run(chunks: &[&[u8]]) -> (Vec<String>, usize, FinishReason, bool) {
    let mut s = ChatStream::new();
    let mut texts = vec![];
    for c in chunks {
        texts.extend(s.push_chunk(c));
    }
    let done = s.is_done();
    let (calls, end) = s.finish(None);
    (texts, calls.len(), end.unwrap().reason, done)
}

#[test]
fn chunks_do_not_matter() {
    let lf = format!(
        "{}{}{}data: [DONE]\n\n{}",
        content("é"),
        call_stream().concat(),
        content("b"),
        content("late")
    );
    let crlf = lf.replace('\n', "\r\n");
    for all in [lf, crlf] {
        let bytes = all.as_bytes();
        let whole = run(&[bytes]);
        assert_eq!(whole.0, vec!["é", "b"]);
        assert!(whole.3);
        for i in 0..=bytes.len() {
            assert_eq!(run(&[&bytes[..i], &bytes[i..]]), whole);
        }
        let single: Vec<&[u8]> = bytes.chunks(1).collect();
        assert_eq!(run(&single), whole);
    }
}

#[test]
fn mixed_separators_are_cut_as_they_come() {
    let first = format!("{}x", content("a").trim_end_matches('\n').to_string() + "\n\n");
    let all = format!("{}\r\n\r\n", first);
    assert_eq!(run(&[first.as_bytes(), b"\r\n\r\n"]).0, vec!["a"]);
    assert_eq!(run(&[all.as_bytes()]).0, vec!["a"]);
    let two = format!("{}{}", content("a"), content("b").replace('\n', "\r\n"));
    let cut = content("a").len();
    assert_eq!(run(&[&two.as_bytes()[..cut], &two.as_bytes()[cut..]]).0, vec!["a", "b"]);
    assert!(run(&[two.as_bytes()]).0.is_empty());
}

#[test]
fn streams_open_on_success_only() {
    assert!(open_stream(200, b"ignored").is_ok());
    match open_stream(429, b"slow") {
        Err(e) => {
            assert!(matches!(e, ProviderError::RateLimited { .. }));
            assert_eq!(e.message(), "slow");
        }
        _ => panic!("opened"),
    }
    let mut long = vec![b'x'; 511];
    long.extend_from_slice("éé".as_bytes());
    match open_stream(500, &long) {
        Err(e) => assert_eq!(e.message(), "x".repeat(511) + "…[truncated]"),
        _ => panic!("opened"),
    }
}
