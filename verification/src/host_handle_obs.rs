//! What a chat call leaves behind for the operator: a latency sample, counters
//! and one audit event.
use vstd::prelude::*;

use crate::error::{BackendError, BackendFailure};
use crate::json::{object, optional, Fields, Json, JsonView};
use crate::normalized::TokenUsage;
use crate::text::{
    ascii_lower, concat3, concat4, contains, decimal, str_contains, str_eq, to_ascii_lower,
    to_decimal,
};

verus! {

/// Which of the two chat backends is at work.
#[derive(Copy, Clone, Debug, PartialEq, Eq, Structural)]
pub enum OpenAiKind {
    OpenAi,
    Azure,
}

impl OpenAiKind {
    /// The name of the provider in ids and names.
    pub open spec fn spec_provider_slug(self) -> Seq<char> {
        match self {
            OpenAiKind::OpenAi => "openai"@,
            OpenAiKind::Azure => "azure_openai"@,
        }
    }

    /// The name of the provider in ids and names.
    pub fn provider_slug(self) -> (r: &'static str)
        ensures
            r@ == self.spec_provider_slug(),
    {
        match self {
            OpenAiKind::OpenAi => "openai",
            OpenAiKind::Azure => "azure_openai",
        }
    }

    /// The span of a call.
    pub open spec fn spec_span_name(self) -> Seq<char> {
        match self {
            OpenAiKind::OpenAi => "llm_openai.execute"@,
            OpenAiKind::Azure => "llm_azure_openai.execute"@,
        }
    }

    /// The span of a call.
    pub fn span_name(self) -> (r: &'static str)
        ensures
            r@ == self.spec_span_name(),
    {
        match self {
            OpenAiKind::OpenAi => "llm_openai.execute",
            OpenAiKind::Azure => "llm_azure_openai.execute",
        }
    }

    /// The histogram of the latency of calls.
    pub open spec fn spec_latency_metric(self) -> Seq<char> {
        match self {
            OpenAiKind::OpenAi => "mcpg_llm_openai_latency_seconds"@,
            OpenAiKind::Azure => "mcpg_llm_azure_openai_latency_seconds"@,
        }
    }

    /// The histogram of the latency of calls.
    pub fn latency_metric(self) -> (r: &'static str)
        ensures
            r@ == self.spec_latency_metric(),
    {
        match self {
            OpenAiKind::OpenAi => "mcpg_llm_openai_latency_seconds",
            OpenAiKind::Azure => "mcpg_llm_azure_openai_latency_seconds",
        }
    }

    /// The counter of calls.
    pub open spec fn spec_calls_metric(self) -> Seq<char> {
        match self {
            OpenAiKind::OpenAi => "mcpg_llm_openai_calls_total"@,
            OpenAiKind::Azure => "mcpg_llm_azure_openai_calls_total"@,
        }
    }

    /// The counter of calls.
    pub fn calls_metric(self) -> (r: &'static str)
        ensures
            r@ == self.spec_calls_metric(),
    {
        match self {
            OpenAiKind::OpenAi => "mcpg_llm_openai_calls_total",
            OpenAiKind::Azure => "mcpg_llm_azure_openai_calls_total",
        }
    }

    /// The counter of tokens that were sent.
    pub open spec fn spec_input_tokens_metric(self) -> Seq<char> {
        match self {
            OpenAiKind::OpenAi => "mcpg_llm_openai_input_tokens_total"@,
            OpenAiKind::Azure => "mcpg_llm_azure_openai_input_tokens_total"@,
        }
    }

    /// The counter of tokens that were sent.
    pub fn input_tokens_metric(self) -> (r: &'static str)
        ensures
            r@ == self.spec_input_tokens_metric(),
    {
        match self {
            OpenAiKind::OpenAi => "mcpg_llm_openai_input_tokens_total",
            OpenAiKind::Azure => "mcpg_llm_azure_openai_input_tokens_total",
        }
    }

    /// The counter of tokens that came back.
    pub open spec fn spec_output_tokens_metric(self) -> Seq<char> {
        match self {
            OpenAiKind::OpenAi => "mcpg_llm_openai_output_tokens_total"@,
            OpenAiKind::Azure => "mcpg_llm_azure_openai_output_tokens_total"@,
        }
    }

    /// The counter of tokens that came back.
    pub fn output_tokens_metric(self) -> (r: &'static str)
        ensures
            r@ == self.spec_output_tokens_metric(),
    {
        match self {
            OpenAiKind::OpenAi => "mcpg_llm_openai_output_tokens_total",
            OpenAiKind::Azure => "mcpg_llm_azure_openai_output_tokens_total",
        }
    }

    /// The counter of the cost, in micro-dollars.
    pub open spec fn spec_cost_metric(self) -> Seq<char> {
        match self {
            OpenAiKind::OpenAi => "mcpg_llm_openai_cost_usd_micros_total"@,
            OpenAiKind::Azure => "mcpg_llm_azure_openai_cost_usd_micros_total"@,
        }
    }

    /// The counter of the cost, in micro-dollars.
    pub fn cost_metric(self) -> (r: &'static str)
        ensures
            r@ == self.spec_cost_metric(),
    {
        match self {
            OpenAiKind::OpenAi => "mcpg_llm_openai_cost_usd_micros_total",
            OpenAiKind::Azure => "mcpg_llm_azure_openai_cost_usd_micros_total",
        }
    }

    /// The audit action of a call that succeeded.
    pub open spec fn spec_completion_action(self) -> Seq<char> {
        match self {
            OpenAiKind::OpenAi => "dev.mcpg.llm.openai.completion"@,
            OpenAiKind::Azure => "dev.mcpg.llm.azure_openai.completion"@,
        }
    }

    /// The audit action of a call that succeeded.
    pub fn completion_action(self) -> (r: &'static str)
        ensures
            r@ == self.spec_completion_action(),
    {
        match self {
            OpenAiKind::OpenAi => "dev.mcpg.llm.openai.completion",
            OpenAiKind::Azure => "dev.mcpg.llm.azure_openai.completion",
        }
    }

    /// The audit action of a call that failed.
    pub open spec fn spec_failure_action(self) -> Seq<char> {
        match self {
            OpenAiKind::OpenAi => "dev.mcpg.llm.openai.failure"@,
            OpenAiKind::Azure => "dev.mcpg.llm.azure_openai.failure"@,
        }
    }

    /// The audit action of a call that failed.
    pub fn failure_action(self) -> (r: &'static str)
        ensures
            r@ == self.spec_failure_action(),
    {
        match self {
            OpenAiKind::OpenAi => "dev.mcpg.llm.openai.failure",
            OpenAiKind::Azure => "dev.mcpg.llm.azure_openai.failure",
        }
    }

    /// The provider whose rates price a call: Azure runs the same models at the
    /// public rates.
    pub fn rate_card_provider(self) -> (r: &'static str)
        ensures
            r@ == "openai"@,
    {
        "openai"
    }
}

// ---------------------------------------------------------------------------
// Outcomes
// ---------------------------------------------------------------------------
/// What the message of a failed exchange, in lower case, points to.
pub open spec fn lower_label(lower: Seq<char>) -> Seq<char> {
    if contains(lower, "429"@) || contains(lower, "rate limit"@) || contains(lower, "rate_limit"@) {
        "rate_limited"@
    } else if contains(lower, "401"@)
        || contains(lower, "403"@)
        || contains(lower, "auth"@)
        || contains(lower, "unauthorized"@)
        || contains(lower, "forbidden"@) {
        "auth_failed"@
    } else if contains(lower, "404"@)
        || contains(lower, "model not found"@)
        || contains(lower, "does not exist"@) {
        "model_not_found"@
    } else if contains(lower, "500"@)
        || contains(lower, "502"@)
        || contains(lower, "503"@)
        || contains(lower, "504"@)
        || contains(lower, "server error"@) {
        "server_error"@
    } else if contains(lower, "400"@) || contains(lower, "invalid"@) {
        "client_error"@
    } else if contains(lower, "timed out"@) || contains(lower, "timeout"@) {
        "timeout"@
    } else {
        "transport"@
    }
}

/// What the message of a failed exchange points to.
pub open spec fn transport_label(message: Seq<char>) -> Seq<char> {
    lower_label(ascii_lower(message))
}

/// What the message of a failed exchange points to.
pub fn transport_message_label(message: &str) -> (r: &'static str)
    ensures
        r@ == transport_label(message@),
{
    let text = to_ascii_lower(message);
    let lower = text.as_str();
    if str_contains(lower, "429")
        || str_contains(lower, "rate limit")
        || str_contains(lower, "rate_limit") {
        "rate_limited"
    } else if str_contains(lower, "401")
        || str_contains(lower, "403")
        || str_contains(lower, "auth")
        || str_contains(lower, "unauthorized")
        || str_contains(lower, "forbidden") {
        "auth_failed"
    } else if str_contains(lower, "404")
        || str_contains(lower, "model not found")
        || str_contains(lower, "does not exist") {
        "model_not_found"
    } else if str_contains(lower, "500")
        || str_contains(lower, "502")
        || str_contains(lower, "503")
        || str_contains(lower, "504")
        || str_contains(lower, "server error") {
        "server_error"
    } else if str_contains(lower, "400") || str_contains(lower, "invalid") {
        "client_error"
    } else if str_contains(lower, "timed out") || str_contains(lower, "timeout") {
        "timeout"
    } else {
        "transport"
    }
}

/// The outcome of a call, as one of a few labels.
pub open spec fn label_of(result: Result<(), BackendFailure>) -> Seq<char> {
    match result {
        Ok(_) => "ok"@,
        Err(BackendFailure::ProfileNotFound { .. }) => "model_not_found"@,
        Err(BackendFailure::Timeout { .. }) => "timeout"@,
        Err(BackendFailure::InvalidSpec { .. }) => "client_error"@,
        Err(BackendFailure::Transport { message }) => transport_label(message),
    }
}

/// The outcome of a call, as a value.
pub open spec fn result_view(result: Result<(), &BackendError>) -> Result<(), BackendFailure> {
    match result {
        Ok(_) => Ok(()),
        Err(e) => Err(e@),
    }
}

/// The outcome of a call, as one of a few labels.
pub fn outcome_label(result: Result<(), &BackendError>) -> (r: &'static str)
    ensures
        r@ == label_of(result_view(result)),
{
    match result {
        Ok(_) => "ok",
        Err(err) => match err {
            BackendError::ProfileNotFound { .. } => "model_not_found",
            BackendError::Timeout { .. } => "timeout",
            BackendError::InvalidSpec { .. } => "client_error",
            BackendError::Transport { message } => transport_message_label(message.as_str()),
        },
    }
}

/// The audit action for an outcome.
pub open spec fn action_of(kind: OpenAiKind, label: Seq<char>) -> Seq<char> {
    if label == "ok"@ {
        kind.spec_completion_action()
    } else {
        kind.spec_failure_action()
    }
}

/// The audit action for an outcome.
pub fn audit_action_for_outcome(kind: OpenAiKind, label: &str) -> (r: &'static str)
    ensures
        r@ == action_of(kind, label@),
{
    if str_eq(label, "ok") {
        kind.completion_action()
    } else {
        kind.failure_action()
    }
}

// ---------------------------------------------------------------------------
// Usage
// ---------------------------------------------------------------------------
/// The tokens of a call, summed up over all of its iterations.
#[derive(Debug, Clone, Copy, PartialEq, Eq, Structural)]
pub struct UsageSnapshot {
    pub input_tokens: u64,
    pub output_tokens: u64,
    pub cached_input_tokens: u64,
}

/// No tokens at all.
pub open spec fn no_tokens() -> UsageSnapshot {
    UsageSnapshot { input_tokens: 0, output_tokens: 0, cached_input_tokens: 0 }
}

impl Default for UsageSnapshot {
    fn default() -> (r: UsageSnapshot)
        ensures
            r == no_tokens(),
    {
        UsageSnapshot { input_tokens: 0, output_tokens: 0, cached_input_tokens: 0 }
    }
}

/// `n`, or the largest 32-bit number if `n` is larger.
pub open spec fn clamped(n: u64) -> u32 {
    if n <= u32::MAX {
        n as u32
    } else {
        u32::MAX
    }
}

fn clamp(n: u64) -> (r: u32)
    ensures
        r == clamped(n),
{
    if n <= u32::MAX as u64 {
        n as u32
    } else {
        u32::MAX
    }
}

/// The tokens that a call is charged for.
pub fn priced_usage(snap: UsageSnapshot) -> (r: TokenUsage)
    ensures
        r.input_tokens == clamped(snap.input_tokens),
        r.output_tokens == clamped(snap.output_tokens),
        r.cached_input_tokens == clamped(snap.cached_input_tokens),
{
    TokenUsage {
        input_tokens: clamp(snap.input_tokens),
        output_tokens: clamp(snap.output_tokens),
        cached_input_tokens: clamp(snap.cached_input_tokens),
    }
}

// ---------------------------------------------------------------------------
// Spans
// ---------------------------------------------------------------------------
/// What a span says of its call.
pub open spec fn span_json(backend_name: Seq<char>, model: Seq<char>) -> JsonView {
    object(seq![("binding"@, JsonView::Str(backend_name)), ("model"@, JsonView::Str(model))])
}

/// What a span says of its call.
pub fn span_attributes(backend_name: &str, model: &str) -> (r: Json)
    ensures
        r@ == span_json(backend_name@, model@),
{
    let mut f = Fields::new();
    f.put_str("binding", backend_name);
    f.put_str("model", model);
    assert(f@ =~= seq![
        ("binding"@, JsonView::Str(backend_name@)),
        ("model"@, JsonView::Str(model@)),
    ]);
    f.into_json()
}

// ---------------------------------------------------------------------------
// Observations
// ---------------------------------------------------------------------------
/// A label of a metric.
pub type Label = (String, String);

/// The labels, as values.
pub open spec fn label_views(labels: Seq<Label>) -> Seq<(Seq<char>, Seq<char>)> {
    labels.map_values(|l: Label| (l.0@, l.1@))
}

/// An increment of a counter.
pub struct Counter {
    pub name: String,
    pub value: u64,
    pub labels: Vec<Label>,
}

/// What a [`Counter`] counts.
pub struct CounterView {
    pub name: Seq<char>,
    pub value: u64,
    pub labels: Seq<(Seq<char>, Seq<char>)>,
}

impl View for Counter {
    type V = CounterView;

    open spec fn view(&self) -> CounterView {
        CounterView { name: self.name@, value: self.value, labels: label_views(self.labels@) }
    }
}

/// The counters, as values.
pub open spec fn counter_views(counters: Seq<Counter>) -> Seq<CounterView> {
    counters.map_values(|c: Counter| c@)
}

/// Who is known to have acted.
pub struct PluginIdentity {
    pub kind: String,
    pub trust_level: String,
    pub subject_id: Option<String>,
    pub auth_provider: Option<String>,
    pub issuer: Option<String>,
    pub roles: Vec<String>,
    pub groups: Vec<String>,
    pub scopes: Vec<String>,
    /// Whatever else is known, by name.
    pub attributes: Vec<(String, Json)>,
}

/// Whether `identity` is that of the system itself.
pub open spec fn is_system(identity: PluginIdentity, kind: OpenAiKind) -> bool {
    &&& identity.kind@ == "system"@
    &&& identity.trust_level@ == "verified"@
    &&& identity.subject_id matches Some(id)
    &&& id@ == "dev.mcpg.backend."@ + kind.spec_provider_slug() + ".chat"@
    &&& identity.auth_provider is None
    &&& identity.issuer is None
    &&& identity.roles@.len() == 0
    &&& identity.groups@.len() == 0
    &&& identity.scopes@.len() == 0
    &&& identity.attributes@.len() == 0
}

/// The identity of the system itself, for calls that no caller made.
pub fn synthetic_system_identity(kind: OpenAiKind) -> (r: PluginIdentity)
    ensures
        is_system(r, kind),
{
    PluginIdentity {
        kind: "system".to_owned(),
        trust_level: "verified".to_owned(),
        subject_id: Some(concat3("dev.mcpg.backend.", kind.provider_slug(), ".chat")),
        auth_provider: None,
        issuer: None,
        roles: Vec::new(),
        groups: Vec::new(),
        scopes: Vec::new(),
        attributes: Vec::new(),
    }
}

/// Who acted.
pub enum Actor<I> {
    /// The caller, by the identity that the host gave.
    Caller(I),
    /// The system itself.
    System(PluginIdentity),
}

/// How an audited action ended.
#[derive(Debug, Clone, Copy, PartialEq, Eq, Structural)]
pub enum AuditOutcome {
    Success,
    Failure,
}

/// An audit event.
pub struct AuditEvent<I> {
    pub event_id: String,
    pub occurred_at: String,
    pub actor: Actor<I>,
    pub action: String,
    pub resource: String,
    pub outcome: AuditOutcome,
    pub request_id: String,
    /// The node that the action happened on; the host knows it.
    pub node_id: Option<String>,
    pub details: Json,
    /// The hash of the event before; the host chains the events.
    pub prev_event_hash: Option<String>,
}

/// What a chat call leaves behind.
pub struct ChatObservation<I> {
    /// The histogram that the latency goes to.
    pub latency_metric: &'static str,
    pub latency_labels: Vec<Label>,
    pub counters: Vec<Counter>,
    pub audit: AuditEvent<I>,
}

/// A chat call that ended.
pub struct ChatCall<'a> {
    pub kind: OpenAiKind,
    pub backend_name: &'a str,
    pub model: &'a str,
    pub request_id: &'a str,
    pub elapsed_nanos: u128,
    pub result: Result<(), &'a BackendError>,
    /// The error of `result`, printed.
    pub error_text: &'a str,
    /// The tokens of the call, where they are known.
    pub usage: Option<UsageSnapshot>,
    /// The cost of these tokens, where the model has a rate.
    pub cost_usd_micros: Option<u64>,
}

/// Whole milliseconds, kept to 64 bits.
pub open spec fn millis(nanos: u128) -> u64 {
    ((nanos / 1_000_000) % 0x1_0000_0000_0000_0000) as u64
}

fn millis_of(nanos: u128) -> (r: u64)
    ensures
        r == millis(nanos),
{
    let ms: u128 = nanos / 1_000_000;
    assert(ms as u64 == (ms % 0x1_0000_0000_0000_0000) as u64) by (bit_vector);
    ms as u64
}

impl<'a> ChatCall<'a> {
    /// The outcome of the call, as a label.
    pub open spec fn label(self) -> Seq<char> {
        label_of(result_view(self.result))
    }

    /// The labels of the latency and of the counter of calls.
    pub open spec fn outcome_labels(self) -> Seq<(Seq<char>, Seq<char>)> {
        seq![("outcome"@, self.label()), ("model"@, self.model@)]
    }

    /// What the call adds to the counters.  Tokens are counted only where they
    /// are known, and their cost only where there is one.
    pub open spec fn counts(self) -> Seq<CounterView> {
        let by_model = seq![("model"@, self.model@)];
        let calls = seq![
            CounterView {
                name: self.kind.spec_calls_metric(),
                value: 1,
                labels: self.outcome_labels(),
            },
        ];
        match self.usage {
            None => calls,
            Some(snap) => {
                let tokens = seq![
                    CounterView {
                        name: self.kind.spec_input_tokens_metric(),
                        value: snap.input_tokens,
                        labels: by_model,
                    },
                    CounterView {
                        name: self.kind.spec_output_tokens_metric(),
                        value: snap.output_tokens,
                        labels: by_model,
                    },
                ];
                match self.cost_usd_micros {
                    None => calls + tokens,
                    Some(micros) => calls + tokens + seq![
                        CounterView {
                            name: self.kind.spec_cost_metric(),
                            value: micros,
                            labels: by_model,
                        },
                    ],
                }
            },
        }
    }

    /// What the audit event says of the tokens.
    pub open spec fn usage_details(self) -> Seq<(Seq<char>, JsonView)> {
        match self.usage {
            None => seq![],
            Some(snap) => seq![
                ("input_tokens"@, JsonView::Unsigned(snap.input_tokens)),
                ("output_tokens"@, JsonView::Unsigned(snap.output_tokens)),
                (
                    "total_tokens"@,
                    JsonView::Unsigned((snap.input_tokens + snap.output_tokens) as u64),
                ),
            ] + optional(
                "cached_input_tokens"@,
                if snap.cached_input_tokens > 0 {
                    Some(JsonView::Unsigned(snap.cached_input_tokens))
                } else {
                    None
                },
            ) + optional(
                "cost_usd_micros"@,
                match self.cost_usd_micros {
                    Some(micros) => Some(JsonView::Unsigned(micros)),
                    None => None,
                },
            ),
        }
    }

    /// What the audit event says of the error.
    pub open spec fn error_details(self) -> Seq<(Seq<char>, JsonView)> {
        match self.result {
            Ok(_) => seq![],
            Err(_) => seq![
                ("error_class"@, JsonView::Str(self.label())),
                ("error_message"@, JsonView::Str(self.error_text@)),
            ],
        }
    }

    /// What the audit event says of the call.
    pub open spec fn details(self, alias: JsonView) -> JsonView {
        object(
            seq![
                ("binding"@, JsonView::Str(self.backend_name@)),
                ("model"@, JsonView::Str(self.model@)),
                ("outcome"@, JsonView::Str(self.label())),
                ("provider"@, JsonView::Str(self.kind.spec_provider_slug())),
                ("duration_ms"@, JsonView::Unsigned(millis(self.elapsed_nanos))),
                ("alias"@, alias),
            ] + self.usage_details() + self.error_details(),
        )
    }

    /// Whether the tokens can be summed up.
    pub open spec fn countable(self) -> bool {
        self.usage matches Some(snap) ==> snap.input_tokens + snap.output_tokens <= u64::MAX
    }
}

/// Whether `event` is the audit event of `call`.
pub open spec fn audits<I>(
    event: AuditEvent<I>,
    call: ChatCall<'_>,
    identity: Option<I>,
    alias: JsonView,
    occurred_at: Seq<char>,
) -> bool {
    let slug = call.kind.spec_provider_slug();
    &&& event.event_id@ == "llm-"@ + slug + "-"@ + call.request_id@ + "-"@ + decimal(
        call.elapsed_nanos as nat,
    )
    &&& event.occurred_at@ == occurred_at
    &&& match identity {
        Some(caller) => event.actor == Actor::Caller(caller),
        None => event.actor matches Actor::System(system) && is_system(system, call.kind),
    }
    &&& event.action@ == action_of(call.kind, call.label())
    &&& event.resource@ == "llm-binding://"@ + slug + "/"@ + call.backend_name@
    &&& event.outcome == if call.result is Ok {
        AuditOutcome::Success
    } else {
        AuditOutcome::Failure
    }
    &&& event.request_id@ == call.request_id@
    &&& event.node_id is None
    &&& event.details@ == call.details(alias)
    &&& event.prev_event_hash is None
}

fn one_label(name: &str, value: &str) -> (r: Vec<Label>)
    ensures
        label_views(r@) == seq![(name@, value@)],
{
    let mut r: Vec<Label> = Vec::new();
    r.push((name.to_owned(), value.to_owned()));
    assert(label_views(r@) =~= seq![(name@, value@)]);
    r
}

fn two_labels(a: &str, x: &str, b: &str, y: &str) -> (r: Vec<Label>)
    ensures
        label_views(r@) == seq![(a@, x@), (b@, y@)],
{
    let mut r: Vec<Label> = Vec::new();
    r.push((a.to_owned(), x.to_owned()));
    r.push((b.to_owned(), y.to_owned()));
    assert(label_views(r@) =~= seq![(a@, x@), (b@, y@)]);
    r
}

fn count_call(call: &ChatCall<'_>, label: &str) -> (r: Vec<Counter>)
    requires
        label@ == call.label(),
    ensures
        counter_views(r@) == call.counts(),
{
    let mut r: Vec<Counter> = Vec::new();
    r.push(
        Counter {
            name: call.kind.calls_metric().to_owned(),
            value: 1,
            labels: two_labels("outcome", label, "model", call.model),
        },
    );
    if let Some(snap) = call.usage {
        r.push(
            Counter {
                name: call.kind.input_tokens_metric().to_owned(),
                value: snap.input_tokens,
                labels: one_label("model", call.model),
            },
        );
        r.push(
            Counter {
                name: call.kind.output_tokens_metric().to_owned(),
                value: snap.output_tokens,
                labels: one_label("model", call.model),
            },
        );
        if let Some(micros) = call.cost_usd_micros {
            r.push(
                Counter {
                    name: call.kind.cost_metric().to_owned(),
                    value: micros,
                    labels: one_label("model", call.model),
                },
            );
        }
    }
    assert(counter_views(r@) =~= call.counts());
    r
}

fn detail_call(call: &ChatCall<'_>, label: &str, alias: Json) -> (r: Json)
    requires
        label@ == call.label(),
        call.countable(),
    ensures
        r@ == call.details(alias@),
{
    let mut f = Fields::new();
    f.put_str("binding", call.backend_name);
    f.put_str("model", call.model);
    f.put_str("outcome", label);
    f.put_str("provider", call.kind.provider_slug());
    f.put("duration_ms", Json::Unsigned(millis_of(call.elapsed_nanos)));
    let ghost given = alias@;
    f.put("alias", alias);
    let ghost head = seq![
        ("binding"@, JsonView::Str(call.backend_name@)),
        ("model"@, JsonView::Str(call.model@)),
        ("outcome"@, JsonView::Str(call.label())),
        ("provider"@, JsonView::Str(call.kind.spec_provider_slug())),
        ("duration_ms"@, JsonView::Unsigned(millis(call.elapsed_nanos))),
        ("alias"@, given),
    ];
    assert(f@ =~= head);
    if let Some(snap) = call.usage {
        f.put("input_tokens", Json::Unsigned(snap.input_tokens));
        f.put("output_tokens", Json::Unsigned(snap.output_tokens));
        f.put("total_tokens", Json::Unsigned(snap.input_tokens + snap.output_tokens));
        let cached = if snap.cached_input_tokens > 0 {
            Some(Json::Unsigned(snap.cached_input_tokens))
        } else {
            None
        };
        f.put_opt("cached_input_tokens", &cached);
        let cost = match call.cost_usd_micros {
            Some(micros) => Some(Json::Unsigned(micros)),
            None => None,
        };
        f.put_opt("cost_usd_micros", &cost);
    }
    assert(f@ =~= head + call.usage_details());
    if let Err(_) = call.result {
        f.put_str("error_class", label);
        f.put_str("error_message", call.error_text);
    }
    assert(f@ =~= head + call.usage_details() + call.error_details());
    f.into_json()
}

/// What a chat call leaves behind; nothing if no host listens.  `host` is the
/// alias of the host, `identity` that of the caller, and `occurred_at` the time.
pub fn emit_chat_observability<I>(
    host: Option<Json>,
    call: &ChatCall<'_>,
    identity: Option<I>,
    occurred_at: String,
) -> (r: Option<ChatObservation<I>>)
    requires
        call.countable(),
    ensures
        match (r, host) {
            (Some(seen), Some(alias)) => {
                &&& seen.latency_metric@ == call.kind.spec_latency_metric()
                &&& label_views(seen.latency_labels@) == call.outcome_labels()
                &&& counter_views(seen.counters@) == call.counts()
                &&& audits(seen.audit, *call, identity, alias@, occurred_at@)
            },
            (None, None) => true,
            _ => false,
        },
{
    let alias = match host {
        Some(alias) => alias,
        None => {
            return None;
        },
    };
    let label = outcome_label(call.result);
    let slug = call.kind.provider_slug();
    let actor = match identity {
        Some(caller) => Actor::Caller(caller),
        None => Actor::System(synthetic_system_identity(call.kind)),
    };
    let nanos = to_decimal(call.elapsed_nanos);
    let head = concat4("llm-", slug, "-", call.request_id);
    let event_id = concat3(head.as_str(), "-", nanos.as_str());
    let outcome = match call.result {
        Ok(_) => AuditOutcome::Success,
        Err(_) => AuditOutcome::Failure,
    };
    let audit = AuditEvent {
        event_id,
        occurred_at,
        actor,
        action: audit_action_for_outcome(call.kind, label).to_owned(),
        resource: concat4("llm-binding://", slug, "/", call.backend_name),
        outcome,
        request_id: call.request_id.to_owned(),
        node_id: None,
        details: detail_call(call, label, alias),
        prev_event_hash: None,
    };
    Some(
        ChatObservation {
            latency_metric: call.kind.latency_metric(),
            latency_labels: two_labels("outcome", label, "model", call.model),
            counters: count_call(call, label),
            audit,
        },
    )
}

// ---------------------------------------------------------------------------
// Laws
// ---------------------------------------------------------------------------
/// There are eight labels for the outcome of a call.
pub proof fn law_outcome_labels_are_bounded(result: Result<(), BackendFailure>)
    ensures
        ({
            let label = label_of(result);
            ||| label == "ok"@
            ||| label == "rate_limited"@
            ||| label == "auth_failed"@
            ||| label == "model_not_found"@
            ||| label == "server_error"@
            ||| label == "client_error"@
            ||| label == "timeout"@
            ||| label == "transport"@
        }),
{
}

/// A call is labelled `ok` exactly if it succeeded, and exactly then it is
/// audited as a completion.
pub proof fn law_completion_means_success(kind: OpenAiKind, result: Result<(), BackendFailure>)
    ensures
        label_of(result) == "ok"@ <==> result is Ok,
        action_of(kind, label_of(result)) == kind.spec_completion_action() <==> result is Ok,
        action_of(kind, label_of(result)) == kind.spec_failure_action() <==> result is Err,
{
    reveal_strlit("ok");
    reveal_strlit("rate_limited");
    assert("rate_limited"@.len() != 2);
    reveal_strlit("auth_failed");
    assert("auth_failed"@.len() != 2);
    reveal_strlit("model_not_found");
    assert("model_not_found"@.len() != 2);
    reveal_strlit("server_error");
    assert("server_error"@.len() != 2);
    reveal_strlit("client_error");
    assert("client_error"@.len() != 2);
    reveal_strlit("timeout");
    assert("timeout"@.len() != 2);
    reveal_strlit("transport");
    assert("transport"@.len() != 2);
    reveal_strlit("dev.mcpg.llm.openai.completion");
    reveal_strlit("dev.mcpg.llm.openai.failure");
    assert("dev.mcpg.llm.openai.completion"@.len() != "dev.mcpg.llm.openai.failure"@.len());
    reveal_strlit("dev.mcpg.llm.azure_openai.completion");
    reveal_strlit("dev.mcpg.llm.azure_openai.failure");
    assert("dev.mcpg.llm.azure_openai.completion"@.len() != "dev.mcpg.llm.azure_openai.failure"@.len());
}

} // verus!
