//! The backends for chat completions.
use vstd::prelude::*;

use crate::adapter::OpenAiAdapter;
use crate::call::{
    call_count, call_labels, count_call, label_call, respond, response, result_view,
    BackendResponse,
};
use crate::config::{
    azure_refusal, base_url_or_public, refusal, AzureOpenaiChatSpec, OpenAiChatSpec,
};
use crate::entity::Entity;
use crate::error::{BackendError, BackendFailure};
use crate::host_handle_obs::{
    label_views, no_tokens, Counter, Label, OpenAiKind, UsageSnapshot,
};
use crate::json::{Json, JsonView};
use crate::profile::{
    accept_compiled, accept_key, bad_form, client_view, compiled, form_error, key_view,
    manifest_of, prepared, PluginManifest, ProfileError, ProfileFailure,
};
use crate::registry::{answer_view, begin, begun, found, registered, Registry};
use crate::upstream::UpstreamView;

verus! {

/// What a chat backend holds.
pub struct ChatBackend<H, E> {
    /// The engines by the name of their profile.
    pub profiles: Map<Seq<char>, E>,
    /// The handle of the host.
    pub host: Option<H>,
}

/// A chat backend that holds nothing.
pub open spec fn no_profiles<H, E>() -> ChatBackend<H, E> {
    ChatBackend { profiles: Map::empty(), host: None }
}

/// What comes of installing the handle of the host: the backend afterwards,
/// and whether it was installed.
pub open spec fn installed<H, E>(backend: ChatBackend<H, E>, host: H) -> (ChatBackend<H, E>, bool) {
    if backend.host is None {
        (ChatBackend { host: Some(host), ..backend }, true)
    } else {
        (backend, false)
    }
}

/// The first handle of the host stays: to install one again changes nothing.
pub proof fn law_first_host_handle_stays<H, E>(backend: ChatBackend<H, E>, a: H, b: H)
    ensures
        ({
            let once = installed(backend, a).0;
            &&& once.host is Some
            &&& installed(once, b) == (once, false)
            &&& once.profiles == backend.profiles
        }),
{
}

/// The backend for chat completions with the public API.
pub struct OpenAiChatPlugin<H, E> {
    profiles: Registry<E>,
    host: Option<H>,
}

impl<H, E> View for OpenAiChatPlugin<H, E> {
    type V = ChatBackend<H, E>;

    closed spec fn view(&self) -> ChatBackend<H, E> {
        ChatBackend { profiles: self.profiles@, host: self.host }
    }
}

impl<H, E> Default for OpenAiChatPlugin<H, E> {
    fn default() -> (r: Self)
        ensures
            r.wf(),
            r@ == no_profiles::<H, E>(),
    {
        Self::new()
    }
}

impl<H, E> OpenAiChatPlugin<H, E> {
    /// Whether every profile is held once.
    pub closed spec fn wf(&self) -> bool {
        self.profiles.wf()
    }

    /// The backend without profiles.
    pub fn new() -> (r: Self)
        ensures
            r.wf(),
            r@ == no_profiles::<H, E>(),
    {
        OpenAiChatPlugin { profiles: Registry::new(), host: None }
    }

    /// The name and the id of the backend.
    pub fn manifest(&self) -> (r: PluginManifest)
        ensures
            r.id@ == Entity::Chat.spec_id(),
            r.name@ == Entity::Chat.spec_title(),
    {
        manifest_of(Entity::Chat)
    }

    /// The kind under which the gateway registers the backend.
    pub fn kind(&self) -> (r: &'static str)
        ensures
            r@ == Entity::Chat.spec_kind(),
    {
        Entity::Chat.kind()
    }

    /// How many profiles are registered.
    pub fn registered_profile_count(&self) -> (r: usize)
        requires
            self.wf(),
        ensures
            self@.profiles.dom().finite(),
            r == self@.profiles.dom().len(),
    {
        self.profiles.count()
    }

    /// Installs the handle of the host, unless one is installed already, and
    /// says whether it did.
    pub fn set_host_handle(&mut self, host: H) -> (r: bool)
        requires
            old(self).wf(),
        ensures
            final(self).wf(),
            installed(old(self)@, host) == (final(self)@, r),
    {
        if self.host.is_some() {
            return false;
        }
        self.host = Some(host);
        true
    }

    /// The handle of the host, if one is installed.
    pub fn host_handle(&self) -> (r: Option<&H>)
        ensures
            match r {
                Some(h) => self@.host == Some(*h),
                None => self@.host is None,
            },
    {
        match &self.host {
            Some(h) => Some(h),
            None => None,
        }
    }

    /// Builds the adapter of a profile.  `parsed` is the configuration, or why
    /// it does not have the form of one; `key` the resolved key; `client`
    /// whether the HTTP client could be built; `templates` and `schema`
    /// whether the prompts and the schema of the replies compile.  Each counts only
    /// if those before it speak for the profile.
    pub fn prepare_profile(
        parsed: Result<OpenAiChatSpec, String>,
        key: Result<String, BackendError>,
        client: Result<(), String>,
        templates: Result<(), String>,
        schema: Result<(), String>,
    ) -> (r: Result<OpenAiAdapter, ProfileError>)
        ensures
            match parsed {
                Err(e) => r matches Err(error) && error@ == ProfileFailure::Backend(
                    bad_form(Entity::Chat, e@),
                ),
                Ok(spec) => compiled(
                    prepared(
                    Entity::Chat,
                    refusal(spec.chat.checked),
                    base_url_or_public(spec.base_url),
                    key_view(key),
                    client_view(client),
                ),
                    client_view(templates),
                    client_view(schema),
                ) == match r {
                    Ok(adapter) => Ok::<UpstreamView, ProfileFailure>(adapter@),
                    Err(e) => Err::<UpstreamView, ProfileFailure>(e@),
                },
            },
    {
        let spec = match parsed {
            Ok(spec) => spec,
            Err(e) => {
                return Err(ProfileError::Backend(form_error(Entity::Chat, e.as_str())));
            },
        };
        let key = match accept_key(Entity::Chat, spec.validate(), key, client) {
            Ok(key) => key,
            Err(e) => {
                return Err(e);
            },
        };
        let adapter = match OpenAiAdapter::new(
            Entity::Chat.variant(),
            Entity::Chat.label(),
            spec.resolved_base_url().to_owned(),
            key,
        ) {
            Ok(adapter) => adapter,
            Err(e) => {
                return Err(ProfileError::Adapter { entity: Entity::Chat, error: e });
            },
        };
        let ghost upstream = adapter@;
        match accept_compiled(templates, schema) {
            Ok(_) => Ok(adapter),
            Err(e) => {
                assert(compiled(Ok(upstream), client_view(templates), client_view(schema)) == Err::<
                    UpstreamView,
                    ProfileFailure,
                >(e@));
                Err(e)
            },
        }
    }

    /// Registers a profile, if its engine was prepared; one with this name is
    /// replaced.  `printed` is how the error is printed that stands in the place
    /// of the engine.
    pub fn register_profile(
        &mut self,
        backend_name: &str,
        prepared: Result<E, ProfileError>,
        printed: &str,
    ) -> (r: Result<(), BackendError>)
        requires
            old(self).wf(),
        ensures
            final(self).wf(),
            registered(old(self)@.profiles, backend_name@, prepared, printed@) == (
                final(self)@.profiles,
                answer_view(r),
            ),
            final(self)@.host == old(self)@.host,
    {
        self.profiles.register(backend_name, prepared, printed)
    }

    /// The engine of a profile.
    pub fn lookup_engine(&self, backend_name: &str) -> (r: Result<&E, BackendError>)
        requires
            self.wf(),
        ensures
            match r {
                Ok(engine) => found(self@.profiles, backend_name@) == Ok::<E, BackendFailure>(*engine),
                Err(e) => found(self@.profiles, backend_name@) == Err::<E, BackendFailure>(e@),
            },
    {
        self.profiles.lookup(backend_name)
    }

    /// Begins a call: the engine of the profile and the arguments.
    pub fn execute(&self, backend_name: &str, payload: &[u8]) -> (r: Result<
        (&E, Json),
        BackendError,
    >)
        requires
            self.wf(),
        ensures
            match r {
                Ok((engine, args)) => begun(self@.profiles, backend_name@, payload@) == Ok::<
                    (E, JsonView),
                    BackendFailure,
                >((*engine, args@)),
                Err(e) => begun(self@.profiles, backend_name@, payload@) == Err::<
                    (E, JsonView),
                    BackendFailure,
                >(e@),
            },
    {
        begin(&self.profiles, backend_name, payload)
    }
}

/// The backend for chat completions with an Azure deployment.
pub struct AzureOpenaiChatPlugin<H, E> {
    profiles: Registry<E>,
    host: Option<H>,
}

impl<H, E> View for AzureOpenaiChatPlugin<H, E> {
    type V = ChatBackend<H, E>;

    closed spec fn view(&self) -> ChatBackend<H, E> {
        ChatBackend { profiles: self.profiles@, host: self.host }
    }
}

impl<H, E> Default for AzureOpenaiChatPlugin<H, E> {
    fn default() -> (r: Self)
        ensures
            r.wf(),
            r@ == no_profiles::<H, E>(),
    {
        Self::new()
    }
}

impl<H, E> AzureOpenaiChatPlugin<H, E> {
    /// Whether every profile is held once.
    pub closed spec fn wf(&self) -> bool {
        self.profiles.wf()
    }

    /// The backend without profiles.
    pub fn new() -> (r: Self)
        ensures
            r.wf(),
            r@ == no_profiles::<H, E>(),
    {
        AzureOpenaiChatPlugin { profiles: Registry::new(), host: None }
    }

    /// The name and the id of the backend.
    pub fn manifest(&self) -> (r: PluginManifest)
        ensures
            r.id@ == Entity::AzureChat.spec_id(),
            r.name@ == Entity::AzureChat.spec_title(),
    {
        manifest_of(Entity::AzureChat)
    }

    /// The kind under which the gateway registers the backend.
    pub fn kind(&self) -> (r: &'static str)
        ensures
            r@ == Entity::AzureChat.spec_kind(),
    {
        Entity::AzureChat.kind()
    }

    /// How many profiles are registered.
    pub fn registered_profile_count(&self) -> (r: usize)
        requires
            self.wf(),
        ensures
            self@.profiles.dom().finite(),
            r == self@.profiles.dom().len(),
    {
        self.profiles.count()
    }

    /// Installs the handle of the host, unless one is installed already, and
    /// says whether it did.
    pub fn set_host_handle(&mut self, host: H) -> (r: bool)
        requires
            old(self).wf(),
        ensures
            final(self).wf(),
            installed(old(self)@, host) == (final(self)@, r),
    {
        if self.host.is_some() {
            return false;
        }
        self.host = Some(host);
        true
    }

    /// The handle of the host, if one is installed.
    pub fn host_handle(&self) -> (r: Option<&H>)
        ensures
            match r {
                Some(h) => self@.host == Some(*h),
                None => self@.host is None,
            },
    {
        match &self.host {
            Some(h) => Some(h),
            None => None,
        }
    }

    /// Builds the adapter of a profile.  `parsed` is the configuration, or why
    /// it does not have the form of one; `key` the resolved key; `client`
    /// whether the HTTP client could be built; `templates` and `schema`
    /// whether the prompts and the schema of the replies compile.  Each counts only
    /// if those before it speak for the profile.
    pub fn prepare_profile(
        parsed: Result<AzureOpenaiChatSpec, String>,
        key: Result<String, BackendError>,
        client: Result<(), String>,
        templates: Result<(), String>,
        schema: Result<(), String>,
    ) -> (r: Result<OpenAiAdapter, ProfileError>)
        ensures
            match parsed {
                Err(e) => r matches Err(error) && error@ == ProfileFailure::Backend(
                    bad_form(Entity::AzureChat, e@),
                ),
                Ok(spec) => compiled(
                    prepared(
                    Entity::AzureChat,
                    azure_refusal(
                        spec.base_url@,
                        "azure_openai_chat: base_url is required (operator must include the deployment + ?api-version=… in the URL)"@,
                        spec.chat.checked,
                    ),
                    spec.base_url@,
                    key_view(key),
                    client_view(client),
                ),
                    client_view(templates),
                    client_view(schema),
                ) == match r {
                    Ok(adapter) => Ok::<UpstreamView, ProfileFailure>(adapter@),
                    Err(e) => Err::<UpstreamView, ProfileFailure>(e@),
                },
            },
    {
        let spec = match parsed {
            Ok(spec) => spec,
            Err(e) => {
                return Err(ProfileError::Backend(form_error(Entity::AzureChat, e.as_str())));
            },
        };
        let key = match accept_key(Entity::AzureChat, spec.validate(), key, client) {
            Ok(key) => key,
            Err(e) => {
                return Err(e);
            },
        };
        let adapter = match OpenAiAdapter::new(
            Entity::AzureChat.variant(),
            Entity::AzureChat.label(),
            spec.base_url,
            key,
        ) {
            Ok(adapter) => adapter,
            Err(e) => {
                return Err(ProfileError::Adapter { entity: Entity::AzureChat, error: e });
            },
        };
        let ghost upstream = adapter@;
        match accept_compiled(templates, schema) {
            Ok(_) => Ok(adapter),
            Err(e) => {
                assert(compiled(Ok(upstream), client_view(templates), client_view(schema)) == Err::<
                    UpstreamView,
                    ProfileFailure,
                >(e@));
                Err(e)
            },
        }
    }

    /// Registers a profile, if its engine was prepared; one with this name is
    /// replaced.  `printed` is how the error is printed that stands in the place
    /// of the engine.
    pub fn register_profile(
        &mut self,
        backend_name: &str,
        prepared: Result<E, ProfileError>,
        printed: &str,
    ) -> (r: Result<(), BackendError>)
        requires
            old(self).wf(),
        ensures
            final(self).wf(),
            registered(old(self)@.profiles, backend_name@, prepared, printed@) == (
                final(self)@.profiles,
                answer_view(r),
            ),
            final(self)@.host == old(self)@.host,
    {
        self.profiles.register(backend_name, prepared, printed)
    }

    /// The engine of a profile.
    pub fn lookup_engine(&self, backend_name: &str) -> (r: Result<&E, BackendError>)
        requires
            self.wf(),
        ensures
            match r {
                Ok(engine) => found(self@.profiles, backend_name@) == Ok::<E, BackendFailure>(*engine),
                Err(e) => found(self@.profiles, backend_name@) == Err::<E, BackendFailure>(e@),
            },
    {
        self.profiles.lookup(backend_name)
    }

    /// Begins a call: the engine of the profile and the arguments.
    pub fn execute(&self, backend_name: &str, payload: &[u8]) -> (r: Result<
        (&E, Json),
        BackendError,
    >)
        requires
            self.wf(),
        ensures
            match r {
                Ok((engine, args)) => begun(self@.profiles, backend_name@, payload@) == Ok::<
                    (E, JsonView),
                    BackendFailure,
                >((*engine, args@)),
                Err(e) => begun(self@.profiles, backend_name@, payload@) == Err::<
                    (E, JsonView),
                    BackendFailure,
                >(e@),
            },
    {
        begin(&self.profiles, backend_name, payload)
    }
}

/// A sample of a histogram; the value is the latency of the call.
pub struct LatencySample {
    pub name: &'static str,
    pub labels: Vec<Label>,
}

/// What a call adds to the metrics of all providers: to the counter of calls,
/// and to the histogram of their latency.
pub fn emit_call_metrics(backend_name: &str, provider_label: &str, model: &str, ok: bool) -> (r: (
    Counter,
    LatencySample,
))
    ensures
        r.0@ == call_count("mcpg_llm_calls_total"@, backend_name@, provider_label@, model@, ok),
        r.1.name@ == "mcpg_llm_call_overall_seconds"@,
        label_views(r.1.labels@) == call_labels(backend_name@, provider_label@, model@),
{
    let calls = count_call("mcpg_llm_calls_total", backend_name, provider_label, model, ok);
    let overall = LatencySample {
        name: "mcpg_llm_call_overall_seconds",
        labels: label_call(backend_name, provider_label, model),
    };
    (calls, overall)
}

/// The response to a call whose engine ended with `result`.
pub fn encode_result(result: Result<Json, BackendError>) -> (r: Result<
    BackendResponse,
    BackendError,
>)
    ensures
        match r {
            Ok(resp) => !resp.truncated && response("response"@, result_view(result)) == Ok::<
                Seq<u8>,
                BackendFailure,
            >(resp.payload@),
            Err(e) => response("response"@, result_view(result)) == Err::<
                Seq<u8>,
                BackendFailure,
            >(e@),
        },
{
    respond("response", result)
}

// ---------------------------------------------------------------------------
// Streamed calls
// ---------------------------------------------------------------------------
/// The span of a streamed call: that of any other call.
pub fn kind_span_name(kind: OpenAiKind) -> (r: &'static str)
    ensures
        r@ == kind.spec_span_name(),
{
    kind.span_name()
}

/// What the engine of a streamed call hands on, where `F` is what an error is.
#[derive(Debug, PartialEq, Eq)]
pub enum StreamItem<F> {
    /// The tokens of one iteration.
    Usage { input_tokens: u32, output_tokens: u32, cached_input_tokens: u32 },
    /// The result: the last item of a call that succeeds.
    Done,
    /// Any other piece.
    Piece,
    /// The error that ends the call.
    Failed(F),
    /// There is nothing more.
    Ended,
}

/// What is to be reported of a streamed call.
#[derive(Debug, PartialEq, Eq)]
pub struct StreamReport<F> {
    /// That the call succeeded, or the error that ended it.
    pub result: Result<(), F>,
    pub usage: UsageSnapshot,
}

/// What was seen of a streamed call.
#[derive(Debug, Clone, Copy, PartialEq, Eq, Structural)]
pub struct StreamObserver {
    pub usage: UsageSnapshot,
    /// Whether the call has ended, with its result or with an error.
    pub terminated: bool,
}

/// The sum, or the largest 64-bit number if the sum is larger.
pub open spec fn saturating_sum(a: u64, b: u32) -> u64 {
    if a + b <= u64::MAX {
        (a + b) as u64
    } else {
        u64::MAX
    }
}

/// What was seen of a call of which nothing has come.
pub open spec fn nothing_seen() -> StreamObserver {
    StreamObserver { usage: no_tokens(), terminated: false }
}

/// What was seen once one more item came, and what is to be reported then: a
/// call is reported once, with the item that ends it.
pub open spec fn seen<F>(st: StreamObserver, item: StreamItem<F>) -> (
    StreamObserver,
    Option<StreamReport<F>>,
) {
    if st.terminated {
        (st, None)
    } else {
        match item {
            StreamItem::Usage { input_tokens, output_tokens, cached_input_tokens } => (
                StreamObserver {
                    usage: UsageSnapshot {
                        input_tokens: saturating_sum(st.usage.input_tokens, input_tokens),
                        output_tokens: saturating_sum(st.usage.output_tokens, output_tokens),
                        cached_input_tokens: saturating_sum(
                            st.usage.cached_input_tokens,
                            cached_input_tokens,
                        ),
                    },
                    terminated: false,
                },
                None,
            ),
            StreamItem::Done => (
                StreamObserver { terminated: true, ..st },
                Some(StreamReport { result: Ok(()), usage: st.usage }),
            ),
            StreamItem::Failed(e) => (
                StreamObserver { terminated: true, ..st },
                Some(StreamReport { result: Err(e), usage: st.usage }),
            ),
            StreamItem::Piece => (st, None),
            StreamItem::Ended => (st, None),
        }
    }
}

/// Whether an item is handed on to the caller, where `st` was seen before it:
/// nothing is once the call has ended.
pub open spec fn passes<F>(st: StreamObserver, item: StreamItem<F>) -> bool {
    !st.terminated && !(item is Ended)
}

fn sum_saturating(a: u64, b: u32) -> (r: u64)
    ensures
        r == saturating_sum(a, b),
{
    a.saturating_add(b as u64)
}

impl StreamObserver {
    /// Nothing has come yet.
    pub fn new() -> (r: StreamObserver)
        ensures
            r == nothing_seen(),
    {
        StreamObserver {
            usage: UsageSnapshot { input_tokens: 0, output_tokens: 0, cached_input_tokens: 0 },
            terminated: false,
        }
    }

    /// Takes note of an item, and returns what is to be reported.
    pub fn observe<F>(&mut self, item: StreamItem<F>) -> (r: Option<StreamReport<F>>)
        ensures
            seen(*old(self), item) == (*final(self), r),
    {
        if self.terminated {
            return None;
        }
        match item {
            StreamItem::Usage { input_tokens, output_tokens, cached_input_tokens } => {
                self.usage.input_tokens = sum_saturating(self.usage.input_tokens, input_tokens);
                self.usage.output_tokens = sum_saturating(self.usage.output_tokens, output_tokens);
                self.usage.cached_input_tokens = sum_saturating(
                    self.usage.cached_input_tokens,
                    cached_input_tokens,
                );
                None
            },
            StreamItem::Done => {
                self.terminated = true;
                Some(StreamReport { result: Ok(()), usage: self.usage })
            },
            StreamItem::Failed(e) => {
                self.terminated = true;
                Some(StreamReport { result: Err(e), usage: self.usage })
            },
            StreamItem::Piece => None,
            StreamItem::Ended => None,
        }
    }

    /// Takes note of an item, hands on what the engine sent for it, unchanged,
    /// unless the call was over before, and returns what is to be reported.
    pub fn relay<F, C>(&mut self, item: StreamItem<F>, chunk: C) -> (r: (Option<C>, Option<StreamReport<F>>))
        ensures
            seen(*old(self), item) == (*final(self), r.1),
            r.0 == if passes(*old(self), item) {
                Some(chunk)
            } else {
                None
            },
    {
        let over = self.terminated || matches!(&item, StreamItem::Ended);
        let report = self.observe(item);
        if over {
            (None, report)
        } else {
            (Some(chunk), report)
        }
    }
}

/// What was seen once the items came, and all that was reported.
pub open spec fn seen_all<F>(st: StreamObserver, items: Seq<StreamItem<F>>) -> (
    StreamObserver,
    Seq<StreamReport<F>>,
)
    decreases items.len(),
{
    if items.len() == 0 {
        (st, seq![])
    } else {
        let (before, reports) = seen_all(st, items.drop_last());
        let (after, report) = seen(before, items.last());
        (
            after,
            match report {
                Some(report) => reports.push(report),
                None => reports,
            },
        )
    }
}

/// What is handed on to the caller of the items that come.
pub open spec fn handed_on<F>(st: StreamObserver, items: Seq<StreamItem<F>>) -> Seq<StreamItem<F>>
    decreases items.len(),
{
    if items.len() == 0 {
        seq![]
    } else {
        let short = items.drop_last();
        let before = handed_on(st, short);
        if passes(seen_all(st, short).0, items.last()) {
            before.push(items.last())
        } else {
            before
        }
    }
}

/// Whether the item ends a call.
pub open spec fn ends_call<F>(item: StreamItem<F>) -> bool {
    item is Done || item is Failed
}

/// The sum of one of the counts of tokens over all items.
pub open spec fn token_sum<F>(items: Seq<StreamItem<F>>, count: spec_fn(StreamItem<F>) -> nat) -> nat
    decreases items.len(),
{
    if items.len() == 0 {
        0
    } else {
        token_sum(items.drop_last(), count) + count(items.last())
    }
}

/// The tokens that an item sends.
pub open spec fn input_count<F>(item: StreamItem<F>) -> nat {
    match item {
        StreamItem::Usage { input_tokens, .. } => input_tokens as nat,
        _ => 0,
    }
}

/// The tokens that an item brings back.
pub open spec fn output_count<F>(item: StreamItem<F>) -> nat {
    match item {
        StreamItem::Usage { output_tokens, .. } => output_tokens as nat,
        _ => 0,
    }
}

/// The tokens of an item that were in the cache.
pub open spec fn cached_count<F>(item: StreamItem<F>) -> nat {
    match item {
        StreamItem::Usage { cached_input_tokens, .. } => cached_input_tokens as nat,
        _ => 0,
    }
}

/// The smaller of `n` and the largest 64-bit number.
pub open spec fn capped(n: nat) -> u64 {
    if n <= u64::MAX {
        n as u64
    } else {
        u64::MAX
    }
}

/// A streamed call is reported once if an item ends it, and not at all if none
/// does.
pub proof fn law_a_call_is_reported_once<F>(items: Seq<StreamItem<F>>)
    ensures
        ({
            let (st, reports) = seen_all(nothing_seen(), items);
            let ended = exists|i: int| 0 <= i < items.len() && ends_call(#[trigger] items[i]);
            &&& st.terminated == ended
            &&& reports.len() == if ended {
                1nat
            } else {
                0nat
            }
        }),
    decreases items.len(),
{
    if items.len() > 0 {
        let short = items.drop_last();
        law_a_call_is_reported_once(short);
        if exists|i: int| 0 <= i < short.len() && ends_call(#[trigger] short[i]) {
            let i = choose|i: int| 0 <= i < short.len() && ends_call(#[trigger] short[i]);
            assert(items[i] == short[i]);
        }
        if ends_call(items.last()) {
            assert(ends_call(items[items.len() - 1]));
        }
        if exists|i: int| 0 <= i < items.len() && ends_call(#[trigger] items[i]) {
            let i = choose|i: int| 0 <= i < items.len() && ends_call(#[trigger] items[i]);
            if i < short.len() {
                assert(short[i] == items[i]);
            }
        }
    }
}

/// The report says that the call succeeded if its result ends it, and else
/// which error does; it has the sum of the tokens of all iterations, or the
/// largest number if the sum is larger.
pub proof fn law_tokens_are_summed_up<F>(items: Seq<StreamItem<F>>, last: StreamItem<F>)
    requires
        forall|i: int| 0 <= i < items.len() ==> !ends_call(#[trigger] items[i]),
        ends_call(last),
    ensures
        ({
            let (_, reports) = seen_all(nothing_seen(), items.push(last));
            &&& reports.len() == 1
            &&& reports[0].result == match last {
                StreamItem::Failed(e) => Err(e),
                _ => Ok::<(), F>(()),
            }
            &&& reports[0].usage.input_tokens == capped(
                token_sum(items, |i: StreamItem<F>| input_count(i)),
            )
            &&& reports[0].usage.output_tokens == capped(
                token_sum(items, |i: StreamItem<F>| output_count(i)),
            )
            &&& reports[0].usage.cached_input_tokens == capped(
                token_sum(items, |i: StreamItem<F>| cached_count(i)),
            )
        }),
{
    lemma_sums(items);
    assert(items.push(last).drop_last() =~= items);
}

proof fn lemma_nothing_after_the_end<F>(
    st: StreamObserver,
    items: Seq<StreamItem<F>>,
    rest: Seq<StreamItem<F>>,
)
    requires
        seen_all(st, items).0.terminated,
    ensures
        seen_all(st, items + rest).0.terminated,
        handed_on(st, items + rest) == handed_on(st, items),
    decreases rest.len(),
{
    if rest.len() == 0 {
        assert(items + rest =~= items);
    } else {
        assert((items + rest).drop_last() =~= items + rest.drop_last());
        lemma_nothing_after_the_end(st, items, rest.drop_last());
    }
}

proof fn lemma_all_before_the_end<F>(items: Seq<StreamItem<F>>)
    requires
        forall|i: int|
            0 <= i < items.len() ==> !ends_call(#[trigger] items[i]) && !(items[i] is Ended),
    ensures
        !seen_all(nothing_seen(), items).0.terminated,
        handed_on(nothing_seen(), items) == items,
    decreases items.len(),
{
    if items.len() > 0 {
        let short = items.drop_last();
        assert forall|i: int| 0 <= i < short.len() implies !ends_call(#[trigger] short[i]) && !(
        short[i] is Ended) by {
            assert(items[i] == short[i]);
        }
        lemma_all_before_the_end(short);
        assert(!ends_call(items[items.len() - 1]));
        assert(short.push(items.last()) =~= items);
    }
}

/// Every item is handed on, unchanged and in its order, up to and with the
/// first that ends the call; whatever comes after that one is not.
pub proof fn law_items_are_handed_on<F>(
    items: Seq<StreamItem<F>>,
    last: StreamItem<F>,
    rest: Seq<StreamItem<F>>,
)
    requires
        forall|i: int|
            0 <= i < items.len() ==> !ends_call(#[trigger] items[i]) && !(items[i] is Ended),
        ends_call(last),
    ensures
        handed_on(nothing_seen(), items) == items,
        handed_on(nothing_seen(), items.push(last) + rest) == items.push(last),
{
    lemma_all_before_the_end(items);
    assert(items.push(last).drop_last() =~= items);
    lemma_nothing_after_the_end(nothing_seen(), items.push(last), rest);
}

proof fn lemma_sums<F>(items: Seq<StreamItem<F>>)
    requires
        forall|i: int| 0 <= i < items.len() ==> !ends_call(#[trigger] items[i]),
    ensures
        ({
            let (st, reports) = seen_all(nothing_seen(), items);
            &&& !st.terminated
            &&& reports.len() == 0
            &&& st.usage.input_tokens == capped(token_sum(items, |i: StreamItem<F>| input_count(i)))
            &&& st.usage.output_tokens == capped(token_sum(items, |i: StreamItem<F>| output_count(i)))
            &&& st.usage.cached_input_tokens == capped(
                token_sum(items, |i: StreamItem<F>| cached_count(i)),
            )
        }),
    decreases items.len(),
{
    if items.len() > 0 {
        let short = items.drop_last();
        assert forall|i: int| 0 <= i < short.len() implies !ends_call(#[trigger] short[i]) by {
            assert(items[i] == short[i]);
        }
        lemma_sums(short);
        assert(!ends_call(items[items.len() - 1]));
    }
}

} // verus!
