//! What is reported of calls.
use vstd::prelude::*;

use crate::call::{call_count, call_labels};
use crate::error::BackendFailure;
use crate::host_handle_obs::{
    audits, clamped, label_of, result_view, span_json, transport_label, Actor, AuditEvent,
    AuditOutcome, ChatCall, CounterView, OpenAiKind,
};
use crate::json::{
    group_fields, lemma_last_field_counts, lemma_no_such_field, object, JsonView,
};
use crate::laws::names::lemma_report_names;
use crate::laws::requests::{lemma_two, only_two};
use crate::text::{ascii_lower, ascii_lower_char, contains, decimal};

verus! {

/// The provider of the two chat backends, as it stands in names.
pub open spec fn provider_name(kind: OpenAiKind) -> Seq<char> {
    match kind {
        OpenAiKind::OpenAi => "openai"@,
        OpenAiKind::Azure => "azure_openai"@,
    }
}

/// The names of the span, of the metrics and of the audit actions are all built
/// from the name of the provider in the same way.
pub proof fn law_names_are_built_from_the_provider(kind: OpenAiKind)
    ensures
        kind.spec_provider_slug() == provider_name(kind),
        kind.spec_span_name() == "llm_"@ + provider_name(kind) + ".execute"@,
        kind.spec_latency_metric() == "mcpg_llm_"@ + provider_name(kind) + "_latency_seconds"@,
        kind.spec_calls_metric() == "mcpg_llm_"@ + provider_name(kind) + "_calls_total"@,
        kind.spec_input_tokens_metric() == "mcpg_llm_"@ + provider_name(kind)
            + "_input_tokens_total"@,
        kind.spec_output_tokens_metric() == "mcpg_llm_"@ + provider_name(kind)
            + "_output_tokens_total"@,
        kind.spec_cost_metric() == "mcpg_llm_"@ + provider_name(kind) + "_cost_usd_micros_total"@,
        kind.spec_completion_action() == "dev.mcpg.llm."@ + provider_name(kind) + ".completion"@,
        kind.spec_failure_action() == "dev.mcpg.llm."@ + provider_name(kind) + ".failure"@,
{
    reveal_strlit("openai");
    reveal_strlit("azure_openai");
    reveal_strlit("llm_");
    reveal_strlit(".execute");
    reveal_strlit("mcpg_llm_");
    reveal_strlit("_latency_seconds");
    reveal_strlit("_calls_total");
    reveal_strlit("_input_tokens_total");
    reveal_strlit("_output_tokens_total");
    reveal_strlit("_cost_usd_micros_total");
    reveal_strlit("dev.mcpg.llm.");
    reveal_strlit(".completion");
    reveal_strlit(".failure");
    reveal_strlit("llm_openai.execute");
    reveal_strlit("llm_azure_openai.execute");
    reveal_strlit("mcpg_llm_openai_latency_seconds");
    reveal_strlit("mcpg_llm_azure_openai_latency_seconds");
    reveal_strlit("mcpg_llm_openai_calls_total");
    reveal_strlit("mcpg_llm_azure_openai_calls_total");
    reveal_strlit("mcpg_llm_openai_input_tokens_total");
    reveal_strlit("mcpg_llm_azure_openai_input_tokens_total");
    reveal_strlit("mcpg_llm_openai_output_tokens_total");
    reveal_strlit("mcpg_llm_azure_openai_output_tokens_total");
    reveal_strlit("mcpg_llm_openai_cost_usd_micros_total");
    reveal_strlit("mcpg_llm_azure_openai_cost_usd_micros_total");
    reveal_strlit("dev.mcpg.llm.openai.completion");
    reveal_strlit("dev.mcpg.llm.azure_openai.completion");
    reveal_strlit("dev.mcpg.llm.openai.failure");
    reveal_strlit("dev.mcpg.llm.azure_openai.failure");
    let name = provider_name(kind);
    assert(kind.spec_span_name() =~= "llm_"@ + name + ".execute"@);
    assert(kind.spec_latency_metric() =~= "mcpg_llm_"@ + name + "_latency_seconds"@);
    assert(kind.spec_calls_metric() =~= "mcpg_llm_"@ + name + "_calls_total"@);
    assert(kind.spec_input_tokens_metric() =~= "mcpg_llm_"@ + name + "_input_tokens_total"@);
    assert(kind.spec_output_tokens_metric() =~= "mcpg_llm_"@ + name + "_output_tokens_total"@);
    assert(kind.spec_cost_metric() =~= "mcpg_llm_"@ + name + "_cost_usd_micros_total"@);
    assert(kind.spec_completion_action() =~= "dev.mcpg.llm."@ + name + ".completion"@);
    assert(kind.spec_failure_action() =~= "dev.mcpg.llm."@ + name + ".failure"@);
}

// ---------------------------------------------------------------------------
// Outcomes
// ---------------------------------------------------------------------------
/// Whether two characters are the same but for the case of an ASCII letter.
pub open spec fn same_letter(a: char, b: char) -> bool {
    ||| a == b
    ||| 'A' <= a <= 'Z' && b as u32 == a as u32 + 32
    ||| 'A' <= b <= 'Z' && a as u32 == b as u32 + 32
}

proof fn lemma_lower(a: char, b: char)
    requires
        'A' <= a <= 'Z',
        b as u32 == a as u32 + 32,
    ensures
        ascii_lower_char(a) == b,
        ascii_lower_char(b) == b,
{
    assert((a as u8 + 32) as u8 as u32 == b as u32);
}

/// The case of the letters in the message of a failed exchange does not matter
/// to its label.
pub proof fn law_case_does_not_matter(a: Seq<char>, b: Seq<char>)
    requires
        a.len() == b.len(),
        forall|i: int| 0 <= i < a.len() ==> same_letter(#[trigger] a[i], b[i]),
    ensures
        transport_label(a) == transport_label(b),
{
    assert forall|i: int| 0 <= i < a.len() implies #[trigger] ascii_lower(a)[i] == ascii_lower(
        b,
    )[i] by {
        assert(same_letter(a[i], b[i]));
        if 'A' <= a[i] <= 'Z' && b[i] as u32 == a[i] as u32 + 32 {
            lemma_lower(a[i], b[i]);
        } else if 'A' <= b[i] <= 'Z' && a[i] as u32 == b[i] as u32 + 32 {
            lemma_lower(b[i], a[i]);
        }
    }
    assert(ascii_lower(a) =~= ascii_lower(b));
}

/// Whether a message, in lower case, speaks of a rate limit.
pub open spec fn speaks_of_rate(m: Seq<char>) -> bool {
    contains(m, "429"@) || contains(m, "rate limit"@) || contains(m, "rate_limit"@)
}

/// Whether a message, in lower case, speaks of a refused key.
pub open spec fn speaks_of_auth(m: Seq<char>) -> bool {
    contains(m, "401"@) || contains(m, "403"@) || contains(m, "auth"@) || contains(
        m,
        "unauthorized"@,
    ) || contains(m, "forbidden"@)
}

/// Whether a message, in lower case, speaks of a missing model.
pub open spec fn speaks_of_model(m: Seq<char>) -> bool {
    contains(m, "404"@) || contains(m, "model not found"@) || contains(m, "does not exist"@)
}

/// Whether a message, in lower case, speaks of a fault of the server.
pub open spec fn speaks_of_server(m: Seq<char>) -> bool {
    contains(m, "500"@) || contains(m, "502"@) || contains(m, "503"@) || contains(m, "504"@)
        || contains(m, "server error"@)
}

/// Whether a message, in lower case, speaks of a bad request.
pub open spec fn speaks_of_request(m: Seq<char>) -> bool {
    contains(m, "400"@) || contains(m, "invalid"@)
}

/// Whether a message, in lower case, speaks of a time limit.
pub open spec fn speaks_of_time(m: Seq<char>) -> bool {
    contains(m, "timed out"@) || contains(m, "timeout"@)
}

/// The outcome of a call is labelled by what happened: success, a missing
/// profile, a time limit, a bad configuration, or what the message of a failed
/// exchange speaks of; where it speaks of several things the first in the order
/// of a rate limit, the key, the model, the server, the request and the time
/// counts.
pub proof fn law_outcomes_are_labelled(result: Result<(), BackendFailure>)
    ensures
        match result {
            Ok(_) => label_of(result) == "ok"@,
            Err(BackendFailure::ProfileNotFound { .. }) => label_of(result) == "model_not_found"@,
            Err(BackendFailure::Timeout { .. }) => label_of(result) == "timeout"@,
            Err(BackendFailure::InvalidSpec { .. }) => label_of(result) == "client_error"@,
            Err(BackendFailure::Transport { message }) => {
                let m = ascii_lower(message);
                &&& speaks_of_rate(m) ==> label_of(result) == "rate_limited"@
                &&& !speaks_of_rate(m) && speaks_of_auth(m) ==> label_of(result) == "auth_failed"@
                &&& !speaks_of_rate(m) && !speaks_of_auth(m) && speaks_of_model(m) ==> label_of(
                    result,
                ) == "model_not_found"@
                &&& !speaks_of_rate(m) && !speaks_of_auth(m) && !speaks_of_model(m)
                    && speaks_of_server(m) ==> label_of(result) == "server_error"@
                &&& !speaks_of_rate(m) && !speaks_of_auth(m) && !speaks_of_model(m)
                    && !speaks_of_server(m) && speaks_of_request(m) ==> label_of(result)
                    == "client_error"@
                &&& !speaks_of_rate(m) && !speaks_of_auth(m) && !speaks_of_model(m)
                    && !speaks_of_server(m) && !speaks_of_request(m) && speaks_of_time(m)
                    ==> label_of(result) == "timeout"@
                &&& !speaks_of_rate(m) && !speaks_of_auth(m) && !speaks_of_model(m)
                    && !speaks_of_server(m) && !speaks_of_request(m) && !speaks_of_time(m)
                    ==> label_of(result) == "transport"@
            },
        },
{
}

// ---------------------------------------------------------------------------
// What a call leaves behind
// ---------------------------------------------------------------------------
/// A span says which binding and which model is at work, and nothing else.
pub proof fn law_a_span_names_binding_and_model(backend_name: Seq<char>, model: Seq<char>)
    ensures
        ({
            let said = span_json(backend_name, model);
            &&& said.field("binding"@) == Some(JsonView::Str(backend_name))
            &&& said.field("model"@) == Some(JsonView::Str(model))
            &&& only_two(said, "binding"@, "model"@)
        }),
{
    lemma_report_names();
    lemma_two(
        seq![("binding"@, JsonView::Str(backend_name)), ("model"@, JsonView::Str(model))],
    );
}

/// Whether a counter has the given name, value and labels.
pub open spec fn counts_as(
    counter: CounterView,
    name: Seq<char>,
    value: u64,
    labels: Seq<(Seq<char>, Seq<char>)>,
) -> bool {
    counter.name == name && counter.value == value && counter.labels == labels
}

/// A chat call is counted once, under its outcome and its model.  Where its
/// tokens are known those sent and those brought back are counted under the
/// model, and where they have a price that is too.
pub proof fn law_a_chat_call_is_counted(call: ChatCall<'_>)
    ensures
        ({
            let counts = call.counts();
            let outcome = label_of(result_view(call.result));
            let prefix = "mcpg_llm_"@ + provider_name(call.kind);
            let by_model = seq![("model"@, call.model@)];
            &&& call.outcome_labels() == seq![("outcome"@, outcome), ("model"@, call.model@)]
            &&& counts.len() == (match (call.usage, call.cost_usd_micros) {
                (None, _) => 1nat,
                (Some(_), None) => 3nat,
                (Some(_), Some(_)) => 4nat,
            })
            &&& counts_as(
                counts[0],
                prefix + "_calls_total"@,
                1,
                seq![("outcome"@, outcome), ("model"@, call.model@)],
            )
            &&& call.usage matches Some(snap) ==> {
                &&& counts_as(
                    counts[1],
                    prefix + "_input_tokens_total"@,
                    snap.input_tokens,
                    by_model,
                )
                &&& counts_as(
                    counts[2],
                    prefix + "_output_tokens_total"@,
                    snap.output_tokens,
                    by_model,
                )
                &&& call.cost_usd_micros matches Some(micros) ==> counts_as(
                    counts[3],
                    prefix + "_cost_usd_micros_total"@,
                    micros,
                    by_model,
                )
            }
        }),
{
    law_names_are_built_from_the_provider(call.kind);
}

/// The details of an audit event say which binding, model and provider the call
/// was for, how it went, and how many milliseconds it took; the tokens and the
/// cost where they are known; and the error if there was one.  They say nothing
/// else.
pub proof fn law_an_audit_event_says_what_happened(call: ChatCall<'_>, alias: JsonView)
    requires
        call.countable(),
    ensures
        ({
            let said = call.details(alias);
            let outcome = label_of(result_view(call.result));
            &&& said.field("binding"@) == Some(JsonView::Str(call.backend_name@))
            &&& said.field("model"@) == Some(JsonView::Str(call.model@))
            &&& said.field("outcome"@) == Some(JsonView::Str(outcome))
            &&& said.field("provider"@) == Some(JsonView::Str(provider_name(call.kind)))
            &&& said.field("alias"@) == Some(alias)
            &&& said.field("duration_ms"@) matches Some(JsonView::Unsigned(ms)) && ms == (
            call.elapsed_nanos as int / 1_000_000) % 0x1_0000_0000_0000_0000
            &&& match call.usage {
                Some(snap) => {
                    &&& said.field("input_tokens"@) == Some(JsonView::Unsigned(snap.input_tokens))
                    &&& said.field("output_tokens"@) == Some(JsonView::Unsigned(snap.output_tokens))
                    &&& said.field("total_tokens"@) matches Some(JsonView::Unsigned(total))
                        && total == snap.input_tokens + snap.output_tokens
                    &&& said.field("cached_input_tokens"@) == if snap.cached_input_tokens > 0 {
                        Some(JsonView::Unsigned(snap.cached_input_tokens))
                    } else {
                        None
                    }
                    &&& said.field("cost_usd_micros"@) == match call.cost_usd_micros {
                        Some(micros) => Some(JsonView::Unsigned(micros)),
                        None => None,
                    }
                },
                None => {
                    &&& said.field("input_tokens"@) is None
                    &&& said.field("output_tokens"@) is None
                    &&& said.field("total_tokens"@) is None
                    &&& said.field("cached_input_tokens"@) is None
                    &&& said.field("cost_usd_micros"@) is None
                },
            }
            &&& match call.result {
                Ok(_) => said.field("error_class"@) is None && said.field("error_message"@) is None,
                Err(_) => {
                    &&& said.field("error_class"@) == Some(JsonView::Str(outcome))
                    &&& said.field("error_message"@) == Some(JsonView::Str(call.error_text@))
                },
            }
            &&& forall|n: Seq<char>| #[trigger]
                said.field(n) is Some ==> n == "binding"@ || n == "model"@ || n == "outcome"@ || n
                    == "provider"@ || n == "duration_ms"@ || n == "alias"@ || n == "input_tokens"@
                    || n == "output_tokens"@ || n == "total_tokens"@ || n == "cached_input_tokens"@
                    || n == "cost_usd_micros"@ || n == "error_class"@ || n == "error_message"@
        }),
{
    broadcast use group_fields;

    lemma_report_names();
    law_names_are_built_from_the_provider(call.kind);
    let head = seq![
        ("binding"@, JsonView::Str(call.backend_name@)),
        ("model"@, JsonView::Str(call.model@)),
        ("outcome"@, JsonView::Str(call.label())),
        ("provider"@, JsonView::Str(call.kind.spec_provider_slug())),
        ("duration_ms"@, JsonView::Unsigned(crate::host_handle_obs::millis(call.elapsed_nanos))),
        ("alias"@, alias),
    ];
    lemma_last_field_counts(head, "binding"@, 0);
    lemma_last_field_counts(head, "model"@, 1);
    lemma_last_field_counts(head, "outcome"@, 2);
    lemma_last_field_counts(head, "provider"@, 3);
    lemma_last_field_counts(head, "duration_ms"@, 4);
    lemma_last_field_counts(head, "alias"@, 5);
    assert forall|n: Seq<char>|
        n != "binding"@ && n != "model"@ && n != "outcome"@ && n != "provider"@ && n
            != "duration_ms"@ && n != "alias"@ implies #[trigger] object(head).field(n) is None by {
        lemma_no_such_field(head, n);
    }
    if let Some(snap) = call.usage {
        let tokens = seq![
            ("input_tokens"@, JsonView::Unsigned(snap.input_tokens)),
            ("output_tokens"@, JsonView::Unsigned(snap.output_tokens)),
            ("total_tokens"@, JsonView::Unsigned((snap.input_tokens + snap.output_tokens) as u64)),
        ];
        crate::laws::requests::lemma_three(tokens);
    } else {
        assert(call.usage_details() =~= seq![]);
    }
    if call.result is Err {
        lemma_two(
            seq![
                ("error_class"@, JsonView::Str(call.label())),
                ("error_message"@, JsonView::Str(call.error_text@)),
            ],
        );
    } else {
        assert(call.error_details() =~= seq![]);
    }
}

/// An audit event names the call, the time, who acted, what was done to which
/// binding and whether it succeeded; who acted is the caller, or the system
/// itself if no caller is known.
pub proof fn law_an_audit_event_names_the_call<I>(
    event: AuditEvent<I>,
    call: ChatCall<'_>,
    identity: Option<I>,
    alias: JsonView,
    occurred_at: Seq<char>,
)
    requires
        audits(event, call, identity, alias, occurred_at),
    ensures
        event.event_id@ == "llm-"@ + provider_name(call.kind) + "-"@ + call.request_id@ + "-"@
            + decimal(call.elapsed_nanos as nat),
        event.occurred_at@ == occurred_at,
        event.request_id@ == call.request_id@,
        event.resource@ == "llm-binding://"@ + provider_name(call.kind) + "/"@ + call.backend_name@,
        event.action@ == "dev.mcpg.llm."@ + provider_name(call.kind) + (if call.result is Ok {
            ".completion"@
        } else {
            ".failure"@
        }),
        event.outcome == AuditOutcome::Success <==> call.result is Ok,
        event.details@ == call.details(alias),
        event.node_id is None,
        event.prev_event_hash is None,
        match identity {
            Some(caller) => event.actor == Actor::Caller(caller),
            None => event.actor matches Actor::System(system) && system.kind@ == "system"@
                && system.trust_level@ == "verified"@ && (system.subject_id matches Some(id) && id@
                == "dev.mcpg.backend."@ + provider_name(call.kind) + ".chat"@)
                && system.auth_provider is None && system.issuer is None && system.roles@.len() == 0
                && system.groups@.len() == 0 && system.scopes@.len() == 0
                && system.attributes@.len() == 0,
        },
{
    law_names_are_built_from_the_provider(call.kind);
    crate::host_handle_obs::law_completion_means_success(call.kind, result_view(call.result));
}

/// The tokens that a call is charged for are those that it took, or the largest
/// number that can be charged if there are more.
pub proof fn law_charges_are_capped(n: u64)
    ensures
        n <= 0xffff_ffff ==> clamped(n) == n,
        n > 0xffff_ffff ==> clamped(n) == 0xffff_ffffu32,
{
}

/// A call of any backend is counted once, under the binding, the provider, the
/// model, and whether it succeeded.
pub proof fn law_a_call_is_counted(
    name: Seq<char>,
    backend_name: Seq<char>,
    provider: Seq<char>,
    model: Seq<char>,
    ok: bool,
)
    ensures
        ({
            let count = call_count(name, backend_name, provider, model, ok);
            &&& count.name == name
            &&& count.value == 1
            &&& count.labels.len() == 4
            &&& count.labels.contains(("binding"@, backend_name))
            &&& count.labels.contains(("provider"@, provider))
            &&& count.labels.contains(("model"@, model))
            &&& count.labels.contains(
                (
                    "status"@,
                    if ok {
                        "ok"@
                    } else {
                        "error"@
                    },
                ),
            )
            &&& call_labels(backend_name, provider, model) == count.labels.take(3)
        }),
{
    let labels = call_count(name, backend_name, provider, model, ok).labels;
    assert(labels[0] == ("binding"@, backend_name));
    assert(labels[1] == ("provider"@, provider));
    assert(labels[2] == ("model"@, model));
    assert(labels[3].0 == "status"@);
    assert(labels.contains(labels[0]) && labels.contains(labels[1]) && labels.contains(labels[2])
        && labels.contains(labels[3]));
    assert(labels.take(3) =~= call_labels(backend_name, provider, model));
}

} // verus!
