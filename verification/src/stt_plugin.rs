//! The backends for speech-to-text.
use vstd::prelude::*;

use crate::stt_adapter::OpenAiSttAdapter;
use crate::call::{call_count, count_call, respond, response, result_view, BackendResponse};
use crate::config::{
    azure_refusal, base_url_or_public, refusal, AzureOpenaiSttSpec, OpenAiSttSpec,
};
use crate::entity::Entity;
use crate::error::{BackendError, BackendFailure};
use crate::host_handle_obs::Counter;
use crate::json::{Json, JsonView};
use crate::profile::{
    accept_key, bad_form, client_view, form_error, key_view, manifest_of, prepared, PluginManifest,
    ProfileError, ProfileFailure,
};
use crate::registry::{answer_view, begin, begun, found, registered, Registry};
use crate::upstream::UpstreamView;

verus! {

/// The backend for speech-to-text with the public API.
pub struct OpenAiSttPlugin<E> {
    profiles: Registry<E>,
}

impl<E> View for OpenAiSttPlugin<E> {
    type V = Map<Seq<char>, E>;

    closed spec fn view(&self) -> Map<Seq<char>, E> {
        self.profiles@
    }
}

impl<E> Default for OpenAiSttPlugin<E> {
    fn default() -> (r: Self)
        ensures
            r.wf(),
            r@ == Map::<Seq<char>, E>::empty(),
    {
        Self::new()
    }
}

impl<E> OpenAiSttPlugin<E> {
    /// Whether every profile is held once.
    pub closed spec fn wf(&self) -> bool {
        self.profiles.wf()
    }

    /// The backend without profiles.
    pub fn new() -> (r: Self)
        ensures
            r.wf(),
            r@ == Map::<Seq<char>, E>::empty(),
    {
        OpenAiSttPlugin { profiles: Registry::new() }
    }

    /// The name and the id of the backend.
    pub fn manifest(&self) -> (r: PluginManifest)
        ensures
            r.id@ == Entity::Stt.spec_id(),
            r.name@ == Entity::Stt.spec_title(),
    {
        manifest_of(Entity::Stt)
    }

    /// The kind under which the gateway registers the backend.
    pub fn kind(&self) -> (r: &'static str)
        ensures
            r@ == Entity::Stt.spec_kind(),
    {
        Entity::Stt.kind()
    }

    /// How many profiles are registered.
    pub fn registered_profile_count(&self) -> (r: usize)
        requires
            self.wf(),
        ensures
            self@.dom().finite(),
            r == self@.dom().len(),
    {
        self.profiles.count()
    }

    /// Builds the adapter of a profile.  `parsed` is the configuration, or why
    /// it does not have the form of one; `key` the resolved key; `client`
    /// whether the HTTP client could be built.  Each counts only
    /// if those before it speak for the profile.
    pub fn prepare_profile(
        parsed: Result<OpenAiSttSpec, String>,
        key: Result<String, BackendError>,
        client: Result<(), String>,
    ) -> (r: Result<OpenAiSttAdapter, ProfileError>)
        ensures
            match parsed {
                Err(e) => r matches Err(error) && error@ == ProfileFailure::Backend(
                    bad_form(Entity::Stt, e@),
                ),
                Ok(spec) => prepared(
                    Entity::Stt,
                    refusal(spec.stt.checked),
                    base_url_or_public(spec.base_url),
                    key_view(key),
                    client_view(client),
                ) == match r {
                    Ok(adapter) => Ok::<UpstreamView, ProfileFailure>(adapter@),
                    Err(e) => Err::<UpstreamView, ProfileFailure>(e@),
                },
            },
    {
        let spec = match parsed {
            Ok(spec) => spec,
            Err(e) => {
                return Err(ProfileError::Backend(form_error(Entity::Stt, e.as_str())));
            },
        };
        let key = match accept_key(Entity::Stt, spec.validate(), key, client) {
            Ok(key) => key,
            Err(e) => {
                return Err(e);
            },
        };
        match OpenAiSttAdapter::new(
            Entity::Stt.variant(),
            Entity::Stt.label(),
            spec.resolved_base_url().to_owned(),
            key,
        ) {
            Ok(adapter) => Ok(adapter),
            Err(e) => Err(ProfileError::Adapter { entity: Entity::Stt, error: e }),
        }
    }

    /// Registers a profile, if its engine was prepared; one with this name is
    /// replaced.  `printed` is how the error is printed that stands in the place
    /// of the engine.
    pub fn register_profile(
        &mut self,
        backend_name: &str,
        prepared: Result<E, ProfileError>,
        printed: &str,
    ) -> (r: Result<(), BackendError>)
        requires
            old(self).wf(),
        ensures
            final(self).wf(),
            registered(old(self)@, backend_name@, prepared, printed@) == (
                final(self)@,
                answer_view(r),
            ),
    {
        self.profiles.register(backend_name, prepared, printed)
    }

    /// The engine of a profile.
    pub fn lookup_engine(&self, backend_name: &str) -> (r: Result<&E, BackendError>)
        requires
            self.wf(),
        ensures
            match r {
                Ok(engine) => found(self@, backend_name@) == Ok::<E, BackendFailure>(*engine),
                Err(e) => found(self@, backend_name@) == Err::<E, BackendFailure>(e@),
            },
    {
        self.profiles.lookup(backend_name)
    }

    /// Begins a call: the engine of the profile and the arguments.
    pub fn execute(&self, backend_name: &str, payload: &[u8]) -> (r: Result<
        (&E, Json),
        BackendError,
    >)
        requires
            self.wf(),
        ensures
            match r {
                Ok((engine, args)) => begun(self@, backend_name@, payload@) == Ok::<
                    (E, JsonView),
                    BackendFailure,
                >((*engine, args@)),
                Err(e) => begun(self@, backend_name@, payload@) == Err::<
                    (E, JsonView),
                    BackendFailure,
                >(e@),
            },
    {
        begin(&self.profiles, backend_name, payload)
    }
}

/// The backend for speech-to-text with an Azure deployment.
pub struct AzureOpenaiSttPlugin<E> {
    profiles: Registry<E>,
}

impl<E> View for AzureOpenaiSttPlugin<E> {
    type V = Map<Seq<char>, E>;

    closed spec fn view(&self) -> Map<Seq<char>, E> {
        self.profiles@
    }
}

impl<E> Default for AzureOpenaiSttPlugin<E> {
    fn default() -> (r: Self)
        ensures
            r.wf(),
            r@ == Map::<Seq<char>, E>::empty(),
    {
        Self::new()
    }
}

impl<E> AzureOpenaiSttPlugin<E> {
    /// Whether every profile is held once.
    pub closed spec fn wf(&self) -> bool {
        self.profiles.wf()
    }

    /// The backend without profiles.
    pub fn new() -> (r: Self)
        ensures
            r.wf(),
            r@ == Map::<Seq<char>, E>::empty(),
    {
        AzureOpenaiSttPlugin { profiles: Registry::new() }
    }

    /// The name and the id of the backend.
    pub fn manifest(&self) -> (r: PluginManifest)
        ensures
            r.id@ == Entity::AzureStt.spec_id(),
            r.name@ == Entity::AzureStt.spec_title(),
    {
        manifest_of(Entity::AzureStt)
    }

    /// The kind under which the gateway registers the backend.
    pub fn kind(&self) -> (r: &'static str)
        ensures
            r@ == Entity::AzureStt.spec_kind(),
    {
        Entity::AzureStt.kind()
    }

    /// How many profiles are registered.
    pub fn registered_profile_count(&self) -> (r: usize)
        requires
            self.wf(),
        ensures
            self@.dom().finite(),
            r == self@.dom().len(),
    {
        self.profiles.count()
    }

    /// Builds the adapter of a profile.  `parsed` is the configuration, or why
    /// it does not have the form of one; `key` the resolved key; `client`
    /// whether the HTTP client could be built.  Each counts only
    /// if those before it speak for the profile.
    pub fn prepare_profile(
        parsed: Result<AzureOpenaiSttSpec, String>,
        key: Result<String, BackendError>,
        client: Result<(), String>,
    ) -> (r: Result<OpenAiSttAdapter, ProfileError>)
        ensures
            match parsed {
                Err(e) => r matches Err(error) && error@ == ProfileFailure::Backend(
                    bad_form(Entity::AzureStt, e@),
                ),
                Ok(spec) => prepared(
                    Entity::AzureStt,
                    azure_refusal(
                        spec.base_url@,
                        "azure_openai_stt: base_url is required"@,
                        spec.stt.checked,
                    ),
                    spec.base_url@,
                    key_view(key),
                    client_view(client),
                ) == match r {
                    Ok(adapter) => Ok::<UpstreamView, ProfileFailure>(adapter@),
                    Err(e) => Err::<UpstreamView, ProfileFailure>(e@),
                },
            },
    {
        let spec = match parsed {
            Ok(spec) => spec,
            Err(e) => {
                return Err(ProfileError::Backend(form_error(Entity::AzureStt, e.as_str())));
            },
        };
        let key = match accept_key(Entity::AzureStt, spec.validate(), key, client) {
            Ok(key) => key,
            Err(e) => {
                return Err(e);
            },
        };
        match OpenAiSttAdapter::new(
            Entity::AzureStt.variant(),
            Entity::AzureStt.label(),
            spec.base_url,
            key,
        ) {
            Ok(adapter) => Ok(adapter),
            Err(e) => Err(ProfileError::Adapter { entity: Entity::AzureStt, error: e }),
        }
    }

    /// Registers a profile, if its engine was prepared; one with this name is
    /// replaced.  `printed` is how the error is printed that stands in the place
    /// of the engine.
    pub fn register_profile(
        &mut self,
        backend_name: &str,
        prepared: Result<E, ProfileError>,
        printed: &str,
    ) -> (r: Result<(), BackendError>)
        requires
            old(self).wf(),
        ensures
            final(self).wf(),
            registered(old(self)@, backend_name@, prepared, printed@) == (
                final(self)@,
                answer_view(r),
            ),
    {
        self.profiles.register(backend_name, prepared, printed)
    }

    /// The engine of a profile.
    pub fn lookup_engine(&self, backend_name: &str) -> (r: Result<&E, BackendError>)
        requires
            self.wf(),
        ensures
            match r {
                Ok(engine) => found(self@, backend_name@) == Ok::<E, BackendFailure>(*engine),
                Err(e) => found(self@, backend_name@) == Err::<E, BackendFailure>(e@),
            },
    {
        self.profiles.lookup(backend_name)
    }

    /// Begins a call: the engine of the profile and the arguments.
    pub fn execute(&self, backend_name: &str, payload: &[u8]) -> (r: Result<
        (&E, Json),
        BackendError,
    >)
        requires
            self.wf(),
        ensures
            match r {
                Ok((engine, args)) => begun(self@, backend_name@, payload@) == Ok::<
                    (E, JsonView),
                    BackendFailure,
                >((*engine, args@)),
                Err(e) => begun(self@, backend_name@, payload@) == Err::<
                    (E, JsonView),
                    BackendFailure,
                >(e@),
            },
    {
        begin(&self.profiles, backend_name, payload)
    }
}

/// What a call adds to the counter of calls.
pub fn emit_call_metrics(backend_name: &str, provider_label: &str, model: &str, ok: bool) -> (r:
    Counter)
    ensures
        r@ == call_count("mcpg_stt_calls_total"@, backend_name@, provider_label@, model@, ok),
{
    count_call("mcpg_stt_calls_total", backend_name, provider_label, model, ok)
}

/// The response to a call whose engine ended with `result`.
pub fn encode_result(result: Result<Json, BackendError>) -> (r: Result<
    BackendResponse,
    BackendError,
>)
    ensures
        match r {
            Ok(resp) => !resp.truncated && response("stt response"@, result_view(result)) == Ok::<
                Seq<u8>,
                BackendFailure,
            >(resp.payload@),
            Err(e) => response("stt response"@, result_view(result)) == Err::<
                Seq<u8>,
                BackendFailure,
            >(e@),
        },
{
    respond("stt response", result)
}

} // verus!
