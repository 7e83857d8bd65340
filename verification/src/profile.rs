//! Profiles: how the configuration of a binding becomes an adapter.
use vstd::prelude::*;

use crate::config::{refusal, ResponseFormatMode};
use crate::entity::Entity;
use crate::error::{
    failure, invalid_spec, BackendError, BackendFailure, ConfigError, ErrorClass, ProviderError,
    ProviderFailure,
};
use crate::json::{Json, JsonView};
use crate::text::{concat2, concat3, concat4};
use crate::upstream::{configured, UpstreamView};

verus! {

/// The name and the id of a backend.
#[derive(Debug, Clone, Copy)]
pub struct PluginManifest {
    pub id: &'static str,
    pub name: &'static str,
}

/// The name and the id of a backend.
pub fn manifest_of(entity: Entity) -> (r: PluginManifest)
    ensures
        r.id@ == entity.spec_id(),
        r.name@ == entity.spec_title(),
{
    PluginManifest { id: entity.id(), name: entity.title() }
}

/// A configuration that does not have the form of one.
pub open spec fn bad_form(entity: Entity, error: Seq<char>) -> BackendFailure {
    invalid_spec(entity.spec_binding_kind() + " spec: "@ + error)
}

/// A configuration that no adapter can be built from.
pub open spec fn bad_adapter(entity: Entity, error: Seq<char>) -> BackendFailure {
    invalid_spec("build "@ + entity.spec_adapter() + ": "@ + error)
}

/// Why a profile has no adapter.
#[derive(Debug)]
pub enum ProfileError {
    /// Validation refuses the configuration.
    Config(ConfigError),
    /// The adapter cannot be built.
    Adapter { entity: Entity, error: ProviderError },
    /// Anything else.
    Backend(BackendError),
}

/// What a [`ProfileError`] says.
pub enum ProfileFailure {
    Config(Seq<char>),
    Adapter { entity: Entity, error: ProviderFailure },
    Backend(BackendFailure),
}

impl View for ProfileError {
    type V = ProfileFailure;

    open spec fn view(&self) -> ProfileFailure {
        match self {
            ProfileError::Config(e) => ProfileFailure::Config(e@),
            ProfileError::Adapter { entity, error } => ProfileFailure::Adapter {
                entity: *entity,
                error: error@,
            },
            ProfileError::Backend(e) => ProfileFailure::Backend(e@),
        }
    }
}

/// What the gateway is told of a profile without an adapter, where `printed`
/// is how the error of the validation or of the adapter is printed.
pub open spec fn reported(error: ProfileFailure, printed: Seq<char>) -> BackendFailure {
    match error {
        ProfileFailure::Config(_) => invalid_spec(printed),
        ProfileFailure::Adapter { entity, .. } => bad_adapter(entity, printed),
        ProfileFailure::Backend(e) => e,
    }
}

/// The key, as a value.
pub open spec fn key_view(key: Result<String, BackendError>) -> Result<Seq<char>, BackendFailure> {
    match key {
        Ok(k) => Ok(k@),
        Err(e) => Err(e@),
    }
}

/// The HTTP client, as far as it counts here: whether it could be built.
pub open spec fn client_view(client: Result<(), String>) -> Result<(), Seq<char>> {
    match client {
        Ok(_) => Ok(()),
        Err(e) => Err(e@),
    }
}

/// What comes of a configuration that has the form of one: the upstream that
/// its adapter talks to.  The reasons to refuse it count in this order: what
/// validation says, the key, the HTTP client, the base URL.
pub open spec fn prepared(
    entity: Entity,
    refused: Option<Seq<char>>,
    base_url: Seq<char>,
    key: Result<Seq<char>, BackendFailure>,
    client: Result<(), Seq<char>>,
) -> Result<UpstreamView, ProfileFailure> {
    match refused {
        Some(message) => Err(ProfileFailure::Config(message)),
        None => match key {
            Err(e) => Err(ProfileFailure::Backend(e)),
            Ok(key) => if key.len() == 0 {
                Err(ProfileFailure::Backend(invalid_spec("api_key resolved to an empty value"@)))
            } else {
                match client {
                    Err(e) => Err(
                        ProfileFailure::Adapter {
                            entity,
                            error: failure(ErrorClass::Network, "build http client: "@ + e),
                        },
                    ),
                    Ok(_) => match configured(
                        entity.spec_variant(),
                        entity.spec_label(),
                        base_url,
                        key,
                    ) {
                        Ok(upstream) => Ok(upstream),
                        Err(error) => Err(ProfileFailure::Adapter { entity, error }),
                    },
                }
            },
        },
    }
}

/// What comes of a chat configuration for which an upstream was found: the
/// templates and the schema have to compile too.
pub open spec fn compiled(
    upstream: Result<UpstreamView, ProfileFailure>,
    templates: Result<(), Seq<char>>,
    schema: Result<(), Seq<char>>,
) -> Result<UpstreamView, ProfileFailure> {
    match upstream {
        Err(e) => Err(e),
        Ok(upstream) => match templates {
            Err(e) => Err(ProfileFailure::Backend(invalid_spec("template: "@ + e))),
            Ok(_) => match schema {
                Err(e) => Err(ProfileFailure::Backend(invalid_spec(e))),
                Ok(_) => Ok(upstream),
            },
        },
    }
}

/// The error for a configuration that does not have the form of one.
pub fn form_error(entity: Entity, error: &str) -> (r: BackendError)
    ensures
        r@ == bad_form(entity, error@),
{
    BackendError::InvalidSpec { message: concat3(entity.binding_kind(), " spec: ", error) }
}

/// The error for a configuration that no adapter can be built from.
pub fn adapter_error(entity: Entity, error: &str) -> (r: BackendError)
    ensures
        r@ == bad_adapter(entity, error@),
{
    BackendError::InvalidSpec { message: concat4("build ", entity.adapter(), ": ", error) }
}

/// What the gateway is told of a profile without an adapter, where `printed`
/// is how the error of the validation or of the adapter is printed.
pub fn report_profile_error(error: ProfileError, printed: &str) -> (r: BackendError)
    ensures
        r@ == reported(error@, printed@),
{
    match error {
        ProfileError::Config(_) => BackendError::InvalidSpec { message: printed.to_owned() },
        ProfileError::Adapter { entity, .. } => adapter_error(entity, printed),
        ProfileError::Backend(e) => e,
    }
}

/// Accepts the key, if all that counts before the base URL speaks for it.
pub fn accept_key(
    entity: Entity,
    verdict: Result<(), ConfigError>,
    key: Result<String, BackendError>,
    client: Result<(), String>,
) -> (r: Result<String, ProfileError>)
    ensures
        match r {
            Ok(k) => key matches Ok(given) && k@ == given@ && k@.len() > 0 && refusal(verdict)
                is None && client is Ok,
            Err(e) => forall|url: Seq<char>| #[trigger]
                prepared(entity, refusal(verdict), url, key_view(key), client_view(client)) == Err::<
                    UpstreamView,
                    ProfileFailure,
                >(e@),
        },
{
    if let Err(e) = verdict {
        return Err(ProfileError::Config(e));
    }
    let key = match key {
        Ok(key) => key,
        Err(e) => {
            return Err(ProfileError::Backend(e));
        },
    };
    if key.as_str().is_empty() {
        return Err(
            ProfileError::Backend(
                BackendError::InvalidSpec {
                    message: "api_key resolved to an empty value".to_owned(),
                },
            ),
        );
    }
    match client {
        Ok(_) => Ok(key),
        Err(e) => {
            let message = concat2("build http client: ", e.as_str());
            Err(ProfileError::Adapter { entity, error: ProviderError::Network { message } })
        },
    }
}

/// The schema that the replies of a chat binding have to satisfy.
pub open spec fn schema_of(mode: ResponseFormatMode, spec: JsonView) -> Option<JsonView> {
    if mode == ResponseFormatMode::JsonSchema {
        spec.field("output_schema"@)
    } else {
        None
    }
}

/// The schema that the replies of a chat binding have to satisfy: it stands in
/// the configuration itself, and counts only if replies are to be documents.
pub fn output_schema(mode: ResponseFormatMode, spec: &Json) -> (r: Option<Json>)
    ensures
        match r {
            Some(schema) => schema_of(mode, spec@) == Some(schema@),
            None => schema_of(mode, spec@) is None,
        },
{
    if mode == ResponseFormatMode::JsonSchema {
        match spec.get("output_schema") {
            Some(schema) => Some(schema.clone()),
            None => None,
        }
    } else {
        None
    }
}

/// Accepts a chat configuration for which an adapter was built, if its
/// templates and its schema compile.
pub fn accept_compiled(templates: Result<(), String>, schema: Result<(), String>) -> (r: Result<
    (),
    ProfileError,
>)
    ensures
        match r {
            Ok(_) => templates is Ok && schema is Ok,
            Err(e) => forall|u: UpstreamView| #[trigger]
                compiled(Ok(u), client_view(templates), client_view(schema)) == Err::<
                    UpstreamView,
                    ProfileFailure,
                >(e@),
        },
{
    if let Err(e) = templates {
        let message = concat2("template: ", e.as_str());
        return Err(ProfileError::Backend(BackendError::InvalidSpec { message }));
    }
    match schema {
        Ok(_) => Ok(()),
        Err(e) => Err(ProfileError::Backend(BackendError::InvalidSpec { message: e })),
    }
}

/// No adapter is built without a key and a base URL, and none from a
/// configuration that validation refuses.
pub proof fn law_only_usable_profiles(
    entity: Entity,
    refused: Option<Seq<char>>,
    base_url: Seq<char>,
    key: Result<Seq<char>, BackendFailure>,
    client: Result<(), Seq<char>>,
)
    requires
        prepared(entity, refused, base_url, key, client) is Ok,
    ensures
        refused is None,
        base_url.len() > 0,
        key matches Ok(k) && k.len() > 0,
        prepared(entity, refused, base_url, key, client)->Ok_0.api_key == key->Ok_0,
        prepared(entity, refused, base_url, key, client)->Ok_0.variant == entity.spec_variant(),
{
}

/// Whatever stands against a profile, but for the lookup of its key, the
/// gateway is told that the specification is invalid.
pub proof fn law_refusals_are_invalid_specs(
    entity: Entity,
    refused: Option<Seq<char>>,
    base_url: Seq<char>,
    key: Seq<char>,
    client: Result<(), Seq<char>>,
    templates: Result<(), Seq<char>>,
    schema: Result<(), Seq<char>>,
    printed: Seq<char>,
)
    ensures
        compiled(prepared(entity, refused, base_url, Ok(key), client), templates, schema) matches Err(
            e,
        ) ==> reported(e, printed) is InvalidSpec,
{
}

} // verus!
