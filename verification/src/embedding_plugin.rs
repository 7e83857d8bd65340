//! The backends for embeddings.
use vstd::prelude::*;

use crate::embedding_adapter::OpenAiEmbeddingAdapter;
use crate::call::{call_count, count_call, respond, response, result_view, BackendResponse};
use crate::config::{
    azure_refusal, base_url_or_public, refusal, AzureOpenaiEmbeddingSpec, OpenAiEmbeddingSpec,
};
use crate::entity::Entity;
use crate::error::{BackendError, BackendFailure};
use crate::host_handle_obs::Counter;
use crate::json::{Json, JsonView};
use crate::profile::{
    accept_key, bad_form, client_view, form_error, key_view, manifest_of, prepared, PluginManifest,
    ProfileError, ProfileFailure,
};
use crate::registry::{answer_view, begin, begun, found, registered, Registry};
use crate::upstream::UpstreamView;

verus! {

/// The backend for embeddings with the public API.
pub struct OpenAiEmbeddingPlugin<E> {
    profiles: Registry<E>,
}

impl<E> View for OpenAiEmbeddingPlugin<E> {
    type V = Map<Seq<char>, E>;

    closed spec fn view(&self) -> Map<Seq<char>, E> {
        self.profiles@
    }
}

impl<E> Default for OpenAiEmbeddingPlugin<E> {
    fn default() -> (r: Self)
        ensures
            r.wf(),
            r@ == Map::<Seq<char>, E>::empty(),
    {
        Self::new()
    }
}

impl<E> OpenAiEmbeddingPlugin<E> {
    /// Whether every profile is held once.
    pub closed spec fn wf(&self) -> bool {
        self.profiles.wf()
    }

    /// The backend without profiles.
    pub fn new() -> (r: Self)
        ensures
            r.wf(),
            r@ == Map::<Seq<char>, E>::empty(),
    {
        OpenAiEmbeddingPlugin { profiles: Registry::new() }
    }

    /// The name and the id of the backend.
    pub fn manifest(&self) -> (r: PluginManifest)
        ensures
            r.id@ == Entity::Embedding.spec_id(),
            r.name@ == Entity::Embedding.spec_title(),
    {
        manifest_of(Entity::Embedding)
    }

    /// The kind under which the gateway registers the backend.
    pub fn kind(&self) -> (r: &'static str)
        ensures
            r@ == Entity::Embedding.spec_kind(),
    {
        Entity::Embedding.kind()
    }

    /// How many profiles are registered.
    pub fn registered_profile_count(&self) -> (r: usize)
        requires
            self.wf(),
        ensures
            self@.dom().finite(),
            r == self@.dom().len(),
    {
        self.profiles.count()
    }

    /// Builds the adapter of a profile.  `parsed` is the configuration, or why
    /// it does not have the form of one; `key` the resolved key; `client`
    /// whether the HTTP client could be built.  Each counts only
    /// if those before it speak for the profile.
    pub fn prepare_profile(
        parsed: Result<OpenAiEmbeddingSpec, String>,
        key: Result<String, BackendError>,
        client: Result<(), String>,
    ) -> (r: Result<OpenAiEmbeddingAdapter, ProfileError>)
        ensures
            match parsed {
                Err(e) => r matches Err(error) && error@ == ProfileFailure::Backend(
                    bad_form(Entity::Embedding, e@),
                ),
                Ok(spec) => prepared(
                    Entity::Embedding,
                    refusal(spec.embedding.checked),
                    base_url_or_public(spec.base_url),
                    key_view(key),
                    client_view(client),
                ) == match r {
                    Ok(adapter) => Ok::<UpstreamView, ProfileFailure>(adapter@),
                    Err(e) => Err::<UpstreamView, ProfileFailure>(e@),
                },
            },
    {
        let spec = match parsed {
            Ok(spec) => spec,
            Err(e) => {
                return Err(ProfileError::Backend(form_error(Entity::Embedding, e.as_str())));
            },
        };
        let key = match accept_key(Entity::Embedding, spec.validate(), key, client) {
            Ok(key) => key,
            Err(e) => {
                return Err(e);
            },
        };
        match OpenAiEmbeddingAdapter::new(
            Entity::Embedding.variant(),
            Entity::Embedding.label(),
            spec.resolved_base_url().to_owned(),
            key,
        ) {
            Ok(adapter) => Ok(adapter),
            Err(e) => Err(ProfileError::Adapter { entity: Entity::Embedding, error: e }),
        }
    }

    /// Registers a profile, if its engine was prepared; one with this name is
    /// replaced.  `printed` is how the error is printed that stands in the place
    /// of the engine.
    pub fn register_profile(
        &mut self,
        backend_name: &str,
        prepared: Result<E, ProfileError>,
        printed: &str,
    ) -> (r: Result<(), BackendError>)
        requires
            old(self).wf(),
        ensures
            final(self).wf(),
            registered(old(self)@, backend_name@, prepared, printed@) == (
                final(self)@,
                answer_view(r),
            ),
    {
        self.profiles.register(backend_name, prepared, printed)
    }

    /// The engine of a profile.
    pub fn lookup_engine(&self, backend_name: &str) -> (r: Result<&E, BackendError>)
        requires
            self.wf(),
        ensures
            match r {
                Ok(engine) => found(self@, backend_name@) == Ok::<E, BackendFailure>(*engine),
                Err(e) => found(self@, backend_name@) == Err::<E, BackendFailure>(e@),
            },
    {
        self.profiles.lookup(backend_name)
    }

    /// Begins a call: the engine of the profile and the arguments.
    pub fn execute(&self, backend_name: &str, payload: &[u8]) -> (r: Result<
        (&E, Json),
        BackendError,
    >)
        requires
            self.wf(),
        ensures
            match r {
                Ok((engine, args)) => begun(self@, backend_name@, payload@) == Ok::<
                    (E, JsonView),
                    BackendFailure,
                >((*engine, args@)),
                Err(e) => begun(self@, backend_name@, payload@) == Err::<
                    (E, JsonView),
                    BackendFailure,
                >(e@),
            },
    {
        begin(&self.profiles, backend_name, payload)
    }
}

/// The backend for embeddings with an Azure deployment.
pub struct AzureOpenaiEmbeddingPlugin<E> {
    profiles: Registry<E>,
}

impl<E> View for AzureOpenaiEmbeddingPlugin<E> {
    type V = Map<Seq<char>, E>;

    closed spec fn view(&self) -> Map<Seq<char>, E> {
        self.profiles@
    }
}

impl<E> Default for AzureOpenaiEmbeddingPlugin<E> {
    fn default() -> (r: Self)
        ensures
            r.wf(),
            r@ == Map::<Seq<char>, E>::empty(),
    {
        Self::new()
    }
}

impl<E> AzureOpenaiEmbeddingPlugin<E> {
    /// Whether every profile is held once.
    pub closed spec fn wf(&self) -> bool {
        self.profiles.wf()
    }

    /// The backend without profiles.
    pub fn new() -> (r: Self)
        ensures
            r.wf(),
            r@ == Map::<Seq<char>, E>::empty(),
    {
        AzureOpenaiEmbeddingPlugin { profiles: Registry::new() }
    }

    /// The name and the id of the backend.
    pub fn manifest(&self) -> (r: PluginManifest)
        ensures
            r.id@ == Entity::AzureEmbedding.spec_id(),
            r.name@ == Entity::AzureEmbedding.spec_title(),
    {
        manifest_of(Entity::AzureEmbedding)
    }

    /// The kind under which the gateway registers the backend.
    pub fn kind(&self) -> (r: &'static str)
        ensures
            r@ == Entity::AzureEmbedding.spec_kind(),
    {
        Entity::AzureEmbedding.kind()
    }

    /// How many profiles are registered.
    pub fn registered_profile_count(&self) -> (r: usize)
        requires
            self.wf(),
        ensures
            self@.dom().finite(),
            r == self@.dom().len(),
    {
        self.profiles.count()
    }

    /// Builds the adapter of a profile.  `parsed` is the configuration, or why
    /// it does not have the form of one; `key` the resolved key; `client`
    /// whether the HTTP client could be built.  Each counts only
    /// if those before it speak for the profile.
    pub fn prepare_profile(
        parsed: Result<AzureOpenaiEmbeddingSpec, String>,
        key: Result<String, BackendError>,
        client: Result<(), String>,
    ) -> (r: Result<OpenAiEmbeddingAdapter, ProfileError>)
        ensures
            match parsed {
                Err(e) => r matches Err(error) && error@ == ProfileFailure::Backend(
                    bad_form(Entity::AzureEmbedding, e@),
                ),
                Ok(spec) => prepared(
                    Entity::AzureEmbedding,
                    azure_refusal(
                        spec.base_url@,
                        "azure_openai_embedding: base_url is required (operator must include the deployment + ?api-version=… in the URL)"@,
                        spec.embedding.checked,
                    ),
                    spec.base_url@,
                    key_view(key),
                    client_view(client),
                ) == match r {
                    Ok(adapter) => Ok::<UpstreamView, ProfileFailure>(adapter@),
                    Err(e) => Err::<UpstreamView, ProfileFailure>(e@),
                },
            },
    {
        let spec = match parsed {
            Ok(spec) => spec,
            Err(e) => {
                return Err(ProfileError::Backend(form_error(Entity::AzureEmbedding, e.as_str())));
            },
        };
        let key = match accept_key(Entity::AzureEmbedding, spec.validate(), key, client) {
            Ok(key) => key,
            Err(e) => {
                return Err(e);
            },
        };
        match OpenAiEmbeddingAdapter::new(
            Entity::AzureEmbedding.variant(),
            Entity::AzureEmbedding.label(),
            spec.base_url,
            key,
        ) {
            Ok(adapter) => Ok(adapter),
            Err(e) => Err(ProfileError::Adapter { entity: Entity::AzureEmbedding, error: e }),
        }
    }

    /// Registers a profile, if its engine was prepared; one with this name is
    /// replaced.  `printed` is how the error is printed that stands in the place
    /// of the engine.
    pub fn register_profile(
        &mut self,
        backend_name: &str,
        prepared: Result<E, ProfileError>,
        printed: &str,
    ) -> (r: Result<(), BackendError>)
        requires
            old(self).wf(),
        ensures
            final(self).wf(),
            registered(old(self)@, backend_name@, prepared, printed@) == (
                final(self)@,
                answer_view(r),
            ),
    {
        self.profiles.register(backend_name, prepared, printed)
    }

    /// The engine of a profile.
    pub fn lookup_engine(&self, backend_name: &str) -> (r: Result<&E, BackendError>)
        requires
            self.wf(),
        ensures
            match r {
                Ok(engine) => found(self@, backend_name@) == Ok::<E, BackendFailure>(*engine),
                Err(e) => found(self@, backend_name@) == Err::<E, BackendFailure>(e@),
            },
    {
        self.profiles.lookup(backend_name)
    }

    /// Begins a call: the engine of the profile and the arguments.
    pub fn execute(&self, backend_name: &str, payload: &[u8]) -> (r: Result<
        (&E, Json),
        BackendError,
    >)
        requires
            self.wf(),
        ensures
            match r {
                Ok((engine, args)) => begun(self@, backend_name@, payload@) == Ok::<
                    (E, JsonView),
                    BackendFailure,
                >((*engine, args@)),
                Err(e) => begun(self@, backend_name@, payload@) == Err::<
                    (E, JsonView),
                    BackendFailure,
                >(e@),
            },
    {
        begin(&self.profiles, backend_name, payload)
    }
}

/// What a call adds to the counter of calls.
pub fn emit_call_metrics(backend_name: &str, provider_label: &str, model: &str, ok: bool) -> (r:
    Counter)
    ensures
        r@ == call_count("mcpg_embedding_calls_total"@, backend_name@, provider_label@, model@, ok),
{
    count_call("mcpg_embedding_calls_total", backend_name, provider_label, model, ok)
}

/// The response to a call whose engine ended with `result`.
pub fn encode_result(result: Result<Json, BackendError>) -> (r: Result<
    BackendResponse,
    BackendError,
>)
    ensures
        match r {
            Ok(resp) => !resp.truncated && response("embedding response"@, result_view(result)) == Ok::<
                Seq<u8>,
                BackendFailure,
            >(resp.payload@),
            Err(e) => response("embedding response"@, result_view(result)) == Err::<
                Seq<u8>,
                BackendFailure,
            >(e@),
        },
{
    respond("embedding response", result)
}

} // verus!
