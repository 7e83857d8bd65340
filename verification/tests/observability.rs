//! What a chat call leaves behind.
use mcpg_plugin_backend_llm_openai::error::BackendError;
use mcpg_plugin_backend_llm_openai::host_handle_obs::{
    audit_action_for_outcome, emit_chat_observability, outcome_label, priced_usage,
    span_attributes, synthetic_system_identity, transport_message_label, Actor, AuditOutcome,
    ChatCall, OpenAiKind, UsageSnapshot,
};
use mcpg_plugin_backend_llm_openai::json::{to_value, Json};
use mcpg_plugin_backend_llm_openai::plugin::kind_span_name;

#[test]
fn names_of_the_two_kinds() {
    let a = OpenAiKind::OpenAi;
    let z = OpenAiKind::Azure;
    assert_eq!((a.provider_slug(), z.provider_slug()), ("openai", "azure_openai"));
    assert_eq!((a.span_name(), z.span_name()), ("llm_openai.execute", "llm_azure_openai.execute"));
    assert_eq!(a.latency_metric(), "mcpg_llm_openai_latency_seconds");
    assert_eq!(z.latency_metric(), "mcpg_llm_azure_openai_latency_seconds");
    assert_eq!(a.calls_metric(), "mcpg_llm_openai_calls_total");
    assert_eq!(z.calls_metric(), "mcpg_llm_azure_openai_calls_total");
    assert_eq!(a.input_tokens_metric(), "mcpg_llm_openai_input_tokens_total");
    assert_eq!(z.input_tokens_metric(), "mcpg_llm_azure_openai_input_tokens_total");
    assert_eq!(a.output_tokens_metric(), "mcpg_llm_openai_output_tokens_total");
    assert_eq!(z.output_tokens_metric(), "mcpg_llm_azure_openai_output_tokens_total");
    assert_eq!(a.cost_metric(), "mcpg_llm_openai_cost_usd_micros_total");
    assert_eq!(z.cost_metric(), "mcpg_llm_azure_openai_cost_usd_micros_total");
    assert_eq!(a.completion_action(), "dev.mcpg.llm.openai.completion");
    assert_eq!(z.completion_action(), "dev.mcpg.llm.azure_openai.completion");
    assert_eq!(a.failure_action(), "dev.mcpg.llm.openai.failure");
    assert_eq!(z.failure_action(), "dev.mcpg.llm.azure_openai.failure");
    assert_eq!((a.rate_card_provider(), z.rate_card_provider()), ("openai", "openai"));
    assert_eq!(kind_span_name(a), "llm_openai.execute");
    assert_eq!(kind_span_name(z), "llm_azure_openai.execute");
}

#[test]
fn messages_are_labelled() {
    for (message, label) in [
        ("HTTP 429", "rate_limited"),
        ("Rate Limit hit", "rate_limited"),
        ("rate_limit_exceeded", "rate_limited"),
        ("401", "auth_failed"),
        ("403", "auth_failed"),
        ("AUTHentication", "auth_failed"),
        ("Forbidden", "auth_failed"),
        ("404", "model_not_found"),
        ("Model not found", "model_not_found"),
        ("x does not exist", "model_not_found"),
        ("500", "server_error"),
        ("502", "server_error"),
        ("503", "server_error"),
        ("504", "server_error"),
        ("Server Error", "server_error"),
        ("400", "client_error"),
        ("Invalid", "client_error"),
        ("timed out", "timeout"),
        ("Timeout", "timeout"),
        ("reset by peer", "transport"),
        ("", "transport"),
        ("500 after 429", "rate_limited"),
        ("invalid timeout", "client_error"),
    ] {
        assert_eq!(transport_message_label(message), label);
    }
}

#[test]
fn outcomes_are_labelled_and_audited() {
    let m = || "x".to_string();
    let cases = [
        (BackendError::ProfileNotFound { backend_name: m() }, "model_not_found"),
        (BackendError::Timeout { timeout_ms: 1 }, "timeout"),
        (BackendError::InvalidSpec { message: m() }, "client_error"),
        (BackendError::Transport { message: "429".to_string() }, "rate_limited"),
        (BackendError::Transport { message: m() }, "transport"),
    ];
    for (e, label) in &cases {
        assert_eq!(outcome_label(Err(e)), *label);
        assert_eq!(
            audit_action_for_outcome(OpenAiKind::OpenAi, label),
            "dev.mcpg.llm.openai.failure"
        );
    }
    assert_eq!(outcome_label(Ok(())), "ok");
    assert_eq!(
        audit_action_for_outcome(OpenAiKind::Azure, "ok"),
        "dev.mcpg.llm.azure_openai.completion"
    );
}

#[test]
fn prices_are_asked_for_what_fits() {
    let u = priced_usage(UsageSnapshot {
        input_tokens: 5,
        output_tokens: u64::MAX,
        cached_input_tokens: 4294967295,
    });
    assert_eq!(u.input_tokens, 5);
    assert_eq!(u.output_tokens, u32::MAX);
    assert_eq!(u.cached_input_tokens, u32::MAX);
}

#[test]
fn spans_name_binding_and_model() {
    let v = to_value(&span_attributes("b", "m"));
    assert_eq!(v["binding"], "b");
    assert_eq!(v["model"], "m");
}

#[test]
fn the_system_has_an_identity() {
    let i = synthetic_system_identity(OpenAiKind::Azure);
    assert_eq!(i.kind, "system");
    assert_eq!(i.trust_level, "verified");
    assert_eq!(i.subject_id.as_deref(), Some("dev.mcpg.backend.azure_openai.chat"));
    assert!(i.auth_provider.is_none() && i.issuer.is_none());
    assert!(i.roles.is_empty() && i.groups.is_empty() && i.scopes.is_empty());
    assert!(i.attributes.is_empty());
}

fn call<'a>(result: Result<(), &'a BackendError>, usage: Option<UsageSnapshot>) -> ChatCall<'a> {
    ChatCall {
        kind: OpenAiKind::OpenAi,
        backend_name: "bind",
        model: "gpt",
        request_id: "req",
        elapsed_nanos: 1_234_567_890,
        result,
        error_text: "printed",
        usage,
        cost_usd_micros: Some(42),
    }
}

#[test]
fn nobody_listens_without_a_host() {
    let r = emit_chat_observability::<u8>(None, &call(Ok(()), None), None, "t".to_string());
    assert!(r.is_none());
}

#[test]
fn a_plain_call_leaves_a_latency_a_count_and_an_event() {
    let alias = Some(Json::Str("main".to_string()));
    let r = emit_chat_observability(alias, &call(Ok(()), None), Some(9u8), "now".to_string());
    let r = r.unwrap();
    let label = |n: &str, v: &str| (n.to_string(), v.to_string());
    let labels = vec![label("outcome", "ok"), label("model", "gpt")];
    assert_eq!(r.latency_metric, "mcpg_llm_openai_latency_seconds");
    assert_eq!(r.latency_labels, labels);
    assert_eq!(r.counters.len(), 1);
    assert_eq!(r.counters[0].name, "mcpg_llm_openai_calls_total");
    assert_eq!(r.counters[0].value, 1);
    assert_eq!(r.counters[0].labels, labels);
    let a = r.audit;
    assert_eq!(a.event_id, "llm-openai-req-1234567890");
    assert_eq!(a.occurred_at, "now");
    assert!(matches!(a.actor, Actor::Caller(9)));
    assert_eq!(a.action, "dev.mcpg.llm.openai.completion");
    assert_eq!(a.resource, "llm-binding://openai/bind");
    assert_eq!(a.outcome, AuditOutcome::Success);
    assert_eq!(a.request_id, "req");
    assert!(a.node_id.is_none() && a.prev_event_hash.is_none());
    let d = to_value(&a.details);
    assert_eq!(d["binding"], "bind");
    assert_eq!(d["model"], "gpt");
    assert_eq!(d["outcome"], "ok");
    assert_eq!(d["provider"], "openai");
    assert_eq!(d["duration_ms"], 1234);
    assert_eq!(d["alias"], "main");
    assert_eq!(d.as_object().unwrap().len(), 6);
}

#[test]
fn a_streamed_call_leaves_its_tokens_and_their_cost() {
    let usage = UsageSnapshot { input_tokens: 10, output_tokens: 20, cached_input_tokens: 3 };
    let r = emit_chat_observability::<u8>(
        Some(Json::Null),
        &call(Ok(()), Some(usage)),
        None,
        "now".to_string(),
    )
    .unwrap();
    let counted: Vec<(&str, u64)> = r.counters.iter().map(|c| (c.name.as_str(), c.value)).collect();
    assert_eq!(
        counted,
        vec![
            ("mcpg_llm_openai_calls_total", 1),
            ("mcpg_llm_openai_input_tokens_total", 10),
            ("mcpg_llm_openai_output_tokens_total", 20),
            ("mcpg_llm_openai_cost_usd_micros_total", 42),
        ]
    );
    assert_eq!(r.counters[1].labels, vec![("model".to_string(), "gpt".to_string())]);
    assert!(matches!(r.audit.actor, Actor::System(_)));
    let d = to_value(&r.audit.details);
    assert_eq!(d["input_tokens"], 10);
    assert_eq!(d["output_tokens"], 20);
    assert_eq!(d["total_tokens"], 30);
    assert_eq!(d["cached_input_tokens"], 3);
    assert_eq!(d["cost_usd_micros"], 42);
    let none = UsageSnapshot { input_tokens: 1, output_tokens: 1, cached_input_tokens: 0 };
    let mut c = call(Ok(()), Some(none));
    c.cost_usd_micros = None;
    let r = emit_chat_observability::<u8>(Some(Json::Null), &c, None, String::new()).unwrap();
    assert_eq!(r.counters.len(), 3);
    let d = to_value(&r.audit.details);
    assert!(d.get("cached_input_tokens").is_none());
    assert!(d.get("cost_usd_micros").is_none());
}

#[test]
fn a_failed_call_leaves_its_error() {
    let e = BackendError::Transport { message: "HTTP 503".to_string() };
    let r = emit_chat_observability::<u8>(
        Some(Json::Null),
        &call(Err(&e), None),
        None,
        "now".to_string(),
    )
    .unwrap();
    assert_eq!(r.audit.action, "dev.mcpg.llm.openai.failure");
    assert_eq!(r.audit.outcome, AuditOutcome::Failure);
    let d = to_value(&r.audit.details);
    assert_eq!(d["outcome"], "server_error");
    assert_eq!(d["error_class"], "server_error");
    assert_eq!(d["error_message"], "printed");
    assert_eq!(r.counters[0].labels[0], ("outcome".to_string(), "server_error".to_string()));
}
