//! What the backends do with configurations and calls.
use vstd::prelude::*;
use vstd::utf8::encode_utf8;

use crate::call::{arguments, response};
use crate::cdylib::{next_token, with_stream, OpenStreams};
use crate::config::{
    azure_refusal, base_url_or_public, refusal, ResponseFormatMode,
};
use crate::entity::Entity;
use crate::error::{BackendFailure, ConfigError, ErrorClass, ProviderFailure};
use crate::json::{json_bytes, json_of_bytes, JsonView};
use crate::laws::replies::lemma_ends_with;
use crate::profile::{bad_form, compiled, prepared, reported, schema_of, ProfileFailure};
use crate::plugin::{installed, ChatBackend};
use crate::registry::{begun, found, registered};
use crate::text::{contains, is_white_space, starts_with};
use crate::upstream::{configured, OpenAiVariant, UpstreamView};

verus! {

// ---------------------------------------------------------------------------
// Requests
// ---------------------------------------------------------------------------
/// Whether a text can be the value of a header: every byte of it is a tab, or
/// neither a control character nor DEL.
pub open spec fn sendable(value: Seq<char>) -> bool {
    forall|i: int|
        0 <= i < encode_utf8(value).len() ==> {
            let b = #[trigger] encode_utf8(value)[i];
            b == 9 || (32 <= b && b != 127)
        }
}

/// A request carries the very document that it is made for to the address of
/// its endpoint, announces it as JSON, and shows the key in the one header that
/// the server expects.  It is refused exactly if the key cannot stand there.
pub proof fn law_requests_are_posted(u: UpstreamView, path: Seq<char>, body: JsonView)
    ensures
        ({
            let azure = u.variant == OpenAiVariant::Azure;
            let shown = if azure {
                u.api_key
            } else {
                "Bearer "@ + u.api_key
            };
            match u.post(path, body) {
                Ok(p) => {
                    &&& p.body == body
                    &&& p.url == if azure {
                        u.base_url
                    } else {
                        u.base_url + path
                    }
                    &&& p.headers.len() > 0
                    &&& p.headers[0] == ("content-type"@, "application/json"@)
                    &&& if azure {
                        p.headers.len() == 2 && p.headers[1] == ("api-key"@, shown)
                    } else if u.api_key.len() > 0 {
                        p.headers.len() == 2 && p.headers[1] == ("authorization"@, shown)
                    } else {
                        p.headers.len() == 1
                    }
                    &&& azure || u.api_key.len() > 0 ==> sendable(shown)
                },
                Err(e) => e.class == ErrorClass::BadRequest && (azure || u.api_key.len() > 0)
                    && !sendable(shown),
            }
        }),
{
    if u.key_fits() {
        let auth = u.authorization();
        if auth.len() > 0 {
            assert(crate::upstream::header_text(auth[0].1));
            let bytes = encode_utf8(auth[0].1);
            assert forall|i: int| 0 <= i < bytes.len() implies {
                let b = #[trigger] bytes[i];
                b == 9 || (32 <= b && b != 127)
            } by {
                assert(crate::upstream::header_byte(bytes[i]));
            }
        }
    } else {
        let bytes = encode_utf8(u.authorization()[0].1);
        let i = choose|i: int|
            0 <= i < bytes.len() && !crate::upstream::header_byte(#[trigger] bytes[i]);
        assert(0 <= i < bytes.len() && !crate::upstream::header_byte(bytes[i]));
    }
}

/// A form carries the same header with the key as a document does, and no
/// content type of its own.
pub proof fn law_forms_show_the_key_too(u: UpstreamView, path: Seq<char>, body: JsonView)
    ensures
        match (u.headers(seq![]), u.post(path, body)) {
            (Ok(headers), Ok(p)) => headers == p.headers.skip(1),
            (Err(a), Err(b)) => a == b,
            _ => false,
        },
{
    if u.key_fits() {
        let auth = u.authorization();
        let none = Seq::<(Seq<char>, Seq<char>)>::empty();
        assert(none + auth =~= auth);
        assert((crate::upstream::json_content() + auth).skip(1) =~= auth);
    }
}

/// An upstream has the configuration that it was given: the server, the name
/// and the key as they are, and the base URL, which has to be there, as it is
/// for Azure and without the slashes at its end for any other server.
pub proof fn law_an_upstream_is_as_configured(
    variant: OpenAiVariant,
    label: Seq<char>,
    base_url: Seq<char>,
    api_key: Seq<char>,
)
    ensures
        match configured(variant, label, base_url, api_key) {
            Err(e) => base_url.len() == 0 && e.class == ErrorClass::BadRequest,
            Ok(u) => {
                &&& base_url.len() > 0
                &&& u.variant == variant
                &&& u.label == label
                &&& u.api_key == api_key
                &&& variant == OpenAiVariant::Azure ==> u.base_url == base_url
                &&& variant != OpenAiVariant::Azure ==> exists|k: int|
                    0 <= k <= base_url.len() && u.base_url == #[trigger] base_url.take(k) && (
                    forall|i: int| k <= i < base_url.len() ==> #[trigger] base_url[i] == '/') && (k
                        > 0 ==> base_url[k - 1] != '/')
            },
        },
{
    crate::laws::texts::law_only_the_run_is_cut_off(base_url, '/');
}

// ---------------------------------------------------------------------------
// Calls
// ---------------------------------------------------------------------------
/// The arguments of a call are the document that its payload is; an empty
/// payload stands for an object without members, and one that is no document is
/// refused with the reason.
pub proof fn law_arguments_are_the_payload(payload: Seq<u8>)
    ensures
        if payload.len() == 0 {
            arguments(payload) matches Ok(JsonView::Object(members)) && forall|n: Seq<char>|
                !#[trigger] members.contains_key(n)
        } else {
            match json_of_bytes(payload) {
                Ok(value) => arguments(payload) == Ok::<JsonView, BackendFailure>(value),
                Err(why) => arguments(payload) matches Err(BackendFailure::InvalidSpec { message })
                    && contains(message, why),
            }
        },
{
    if let Err(why) = json_of_bytes(payload) {
        lemma_ends_with("execute payload was not JSON: "@, why);
    }
}

/// The response to a call is its result, printed; an error is handed on as it
/// is.
pub proof fn law_responses_are_the_result(
    what: Seq<char>,
    result: Result<JsonView, BackendFailure>,
)
    ensures
        match result {
            Err(e) => response(what, result) == Err::<Seq<u8>, BackendFailure>(e),
            Ok(value) => match json_bytes(value) {
                Ok(bytes) => response(what, result) == Ok::<Seq<u8>, BackendFailure>(bytes),
                Err(why) => response(what, result) matches Err(
                    BackendFailure::Transport { message },
                ) && contains(message, why),
            },
        },
{
    if let Ok(value) = result {
        if let Err(why) = json_bytes(value) {
            lemma_ends_with("serialize "@ + what + ": "@, why);
        }
    }
}

/// A call begins with the engine of its profile and its arguments.  A profile
/// that is not registered is told first, by its name, and then arguments that
/// are none.
pub proof fn law_a_call_begins_with_its_profile<E>(
    engines: Map<Seq<char>, E>,
    name: Seq<char>,
    payload: Seq<u8>,
)
    ensures
        match begun(engines, name, payload) {
            Ok((engine, args)) => engines.contains_key(name) && engine == engines[name]
                && arguments(payload) == Ok::<JsonView, BackendFailure>(args),
            Err(e) => if engines.contains_key(name) {
                arguments(payload) == Err::<JsonView, BackendFailure>(e)
            } else {
                e == BackendFailure::ProfileNotFound { backend_name: name }
            },
        },
{
}

/// A profile that was prepared is registered: it is found with its engine, and
/// all others as before.
pub proof fn law_prepared_profiles_are_registered<E>(
    engines: Map<Seq<char>, E>,
    name: Seq<char>,
    engine: E,
    printed: Seq<char>,
    other: Seq<char>,
)
    ensures
        ({
            let (after, answer) = registered(engines, name, Ok(engine), printed);
            &&& answer == Ok::<(), BackendFailure>(())
            &&& found(after, name) == Ok::<E, BackendFailure>(engine)
            &&& after.contains_key(name) && after[name] == engine
            &&& other != name ==> found(after, other) == found(engines, other)
            &&& other != name ==> (after.contains_key(other) == engines.contains_key(other))
        }),
{
}

/// What is found under a name is the engine that is registered under it; a name
/// under which none is gives an error that says so.
pub proof fn law_only_registered_profiles_are_found<E>(engines: Map<Seq<char>, E>, name: Seq<char>)
    ensures
        match found(engines, name) {
            Ok(engine) => engines.contains_key(name) && engines[name] == engine,
            Err(e) => !engines.contains_key(name) && e == (BackendFailure::ProfileNotFound {
                backend_name: name,
            }),
        },
{
}

/// The handle of the host is installed exactly if none was, and then it is the
/// one that was given.
pub proof fn law_a_host_handle_is_installed<H, E>(backend: ChatBackend<H, E>, host: H)
    ensures
        installed(backend, host).1 <==> backend.host is None,
        backend.host is None ==> installed(backend, host).0.host == Some(host),
        backend.host is Some ==> installed(backend, host).0.host == backend.host,
        installed(backend, host).0.profiles == backend.profiles,
{
}

/// A stream that was opened is found by its token, and those that were open
/// before by theirs.
pub proof fn law_open_streams_are_found<T>(open: OpenStreams<T>, stream: T, other: usize)
    ensures
        ({
            let token = next_token(open.opened);
            let after = with_stream(open, stream);
            &&& after.opened == token
            &&& after.streams.contains_key(token) && after.streams[token] == stream
            &&& other != token ==> (after.streams.contains_key(other)
                == open.streams.contains_key(other))
            &&& other != token && open.streams.contains_key(other) ==> after.streams[other]
                == open.streams[other]
        }),
{
}

// ---------------------------------------------------------------------------
// Profiles
// ---------------------------------------------------------------------------
/// Whether a backend talks to an Azure deployment.
pub open spec fn is_azure(e: Entity) -> bool {
    e is AzureChat || e is AzureEmbedding || e is AzureImage || e is AzureTts || e is AzureStt
}

/// The backends for Azure talk to Azure and the others to the public API, and
/// calls are counted under the name of the server that they went to.
pub proof fn law_backends_talk_to_their_server(e: Entity)
    ensures
        is_azure(e) ==> e.spec_variant() == OpenAiVariant::Azure && e.spec_label()
            == "azure-openai"@,
        !is_azure(e) ==> e.spec_variant() == OpenAiVariant::OpenAi && e.spec_label() == "openai"@,
{
}

/// The backend of the same kind with the public API.
pub open spec fn public_twin(e: Entity) -> Entity {
    match e {
        Entity::AzureChat => Entity::Chat,
        Entity::AzureEmbedding => Entity::Embedding,
        Entity::AzureImage => Entity::Image,
        Entity::AzureTts => Entity::Tts,
        Entity::AzureStt => Entity::Stt,
        _ => e,
    }
}

/// The kind of a backend for Azure is that of its twin with the public API
/// behind a prefix, and messages name a backend by its kind with an underscore
/// in the place of the dot.
pub proof fn law_kinds_follow_one_pattern(e: Entity)
    ensures
        is_azure(e) ==> e.spec_kind() == "azure_"@ + public_twin(e).spec_kind(),
        e.spec_binding_kind() == e.spec_kind().map_values(
            |c: char|
                if c == '.' {
                    '_'
                } else {
                    c
                },
        ),
        is_azure(e) && e != Entity::AzureStt ==> e.spec_title() == "Azure "@ + public_twin(
            e,
        ).spec_title(),
{
    reveal_strlit("azure_");
    reveal_strlit("Azure ");
    reveal_strlit("openai.chat");
    reveal_strlit("azure_openai.chat");
    reveal_strlit("openai.embedding");
    reveal_strlit("azure_openai.embedding");
    reveal_strlit("openai.image");
    reveal_strlit("azure_openai.image");
    reveal_strlit("openai.tts");
    reveal_strlit("azure_openai.tts");
    reveal_strlit("openai.stt");
    reveal_strlit("azure_openai.stt");
    reveal_strlit("openai_chat");
    reveal_strlit("azure_openai_chat");
    reveal_strlit("openai_embedding");
    reveal_strlit("azure_openai_embedding");
    reveal_strlit("openai_image");
    reveal_strlit("azure_openai_image");
    reveal_strlit("openai_tts");
    reveal_strlit("azure_openai_tts");
    reveal_strlit("openai_stt");
    reveal_strlit("azure_openai_stt");
    reveal_strlit("OpenAI Chat Completions");
    reveal_strlit("Azure OpenAI Chat Completions");
    reveal_strlit("OpenAI Embeddings");
    reveal_strlit("Azure OpenAI Embeddings");
    reveal_strlit("OpenAI Image Generation");
    reveal_strlit("Azure OpenAI Image Generation");
    reveal_strlit("OpenAI Text-to-Speech");
    reveal_strlit("Azure OpenAI Text-to-Speech");
    let dashed = e.spec_kind().map_values(
        |c: char|
            if c == '.' {
                '_'
            } else {
                c
            },
    );
    assert(e.spec_binding_kind() =~= dashed);
    if is_azure(e) {
        assert(e.spec_kind() =~= "azure_"@ + public_twin(e).spec_kind());
        if e != Entity::AzureStt {
            assert(e.spec_title() =~= "Azure "@ + public_twin(e).spec_title());
        }
    }
}

/// A profile is prepared exactly if validation does not refuse it, its key is
/// found and not empty, the HTTP client can be built and there is a base URL;
/// the first of these that fails is what is told.  What is prepared talks to the
/// server of the backend, under its name, with that key and at that URL.
pub proof fn law_profiles_are_prepared_in_order(
    entity: Entity,
    refused: Option<Seq<char>>,
    base_url: Seq<char>,
    key: Result<Seq<char>, BackendFailure>,
    client: Result<(), Seq<char>>,
)
    ensures
        ({
            let r = prepared(entity, refused, base_url, key, client);
            if refused is Some {
                r == Err::<UpstreamView, ProfileFailure>(ProfileFailure::Config(refused->0))
            } else if key is Err {
                r == Err::<UpstreamView, ProfileFailure>(ProfileFailure::Backend(key->Err_0))
            } else if key->Ok_0.len() == 0 {
                r matches Err(ProfileFailure::Backend(BackendFailure::InvalidSpec { .. }))
            } else if client is Err {
                r matches Err(ProfileFailure::Adapter { entity: named, error }) && named == entity
                    && error.class == ErrorClass::Network && contains(
                    error.message,
                    client->Err_0,
                )
            } else if base_url.len() == 0 {
                r matches Err(ProfileFailure::Adapter { entity: named, error }) && named == entity
                    && error.class == ErrorClass::BadRequest
            } else {
                r matches Ok(u) && u.api_key == key->Ok_0 && u.variant == entity.spec_variant()
                    && u.label == entity.spec_label() && configured(
                    u.variant,
                    u.label,
                    base_url,
                    u.api_key,
                ) == Ok::<UpstreamView, ProviderFailure>(u)
            }
        }),
{
    if let Err(why) = client {
        lemma_ends_with("build http client: "@, why);
    }
}

/// A chat profile needs templates and a schema that compile besides; what does
/// not is told, the templates first.
pub proof fn law_chat_profiles_have_to_compile(
    upstream: Result<UpstreamView, ProfileFailure>,
    templates: Result<(), Seq<char>>,
    schema: Result<(), Seq<char>>,
)
    ensures
        ({
            let r = compiled(upstream, templates, schema);
            if upstream is Err {
                r == upstream
            } else if templates is Err {
                r matches Err(ProfileFailure::Backend(BackendFailure::InvalidSpec { message }))
                    && contains(message, templates->Err_0)
            } else if schema is Err {
                r matches Err(ProfileFailure::Backend(BackendFailure::InvalidSpec { message }))
                    && message == schema->Err_0
            } else {
                r == upstream
            }
        }),
{
    if let Err(why) = templates {
        lemma_ends_with("template: "@, why);
    }
}

/// What the gateway is told of a profile that is refused says how the error is
/// printed, and an error of the gateway's own kind is handed on as it is.
pub proof fn law_refusals_are_told(error: ProfileFailure, printed: Seq<char>)
    ensures
        match error {
            ProfileFailure::Config(_) => reported(error, printed)
                == (BackendFailure::InvalidSpec { message: printed }),
            ProfileFailure::Adapter { entity, .. } => reported(error, printed) matches
                BackendFailure::InvalidSpec { message } && contains(message, printed) && contains(
                message,
                entity.spec_adapter(),
            ),
            ProfileFailure::Backend(e) => reported(error, printed) == e,
        },
{
    if let ProfileFailure::Adapter { entity, .. } = error {
        let name = entity.spec_adapter();
        lemma_ends_with("build "@ + name + ": "@, printed);
        let message = "build "@ + name + ": "@ + printed;
        assert(message =~= "build "@ + name + (": "@ + printed));
        crate::laws::texts::law_a_text_holds_what_stands_in_it(message, name);
    }
}

/// A configuration that does not have the form of one is refused under the name
/// of its backend, with the reason.
pub proof fn law_bad_forms_are_told(entity: Entity, why: Seq<char>)
    ensures
        bad_form(entity, why) matches BackendFailure::InvalidSpec { message } && contains(
            message,
            why,
        ) && starts_with(message, entity.spec_binding_kind()),
{
    let kind = entity.spec_binding_kind();
    let message = kind + " spec: "@ + why;
    lemma_ends_with(kind + " spec: "@, why);
    assert(message =~= kind + (" spec: "@ + why));
    crate::laws::texts::law_a_text_holds_what_stands_in_it(message, kind);
}

/// A binding with an Azure deployment is refused if its base URL is missing or
/// holds nothing but white space, and else exactly if the host refuses it.
pub proof fn law_azure_needs_a_url(
    base_url: Seq<char>,
    message: Seq<char>,
    verdict: Result<(), ConfigError>,
)
    ensures
        (forall|i: int| 0 <= i < base_url.len() ==> is_white_space(#[trigger] base_url[i]))
            ==> azure_refusal(base_url, message, verdict) == Some(message),
        (exists|i: int| 0 <= i < base_url.len() && !is_white_space(#[trigger] base_url[i])) ==> (
        azure_refusal(base_url, message, verdict) is Some <==> verdict is Err),
{
}

/// The base URL is the one that is configured, and that of the public API if
/// none is.
pub proof fn law_the_public_url_is_the_default(base_url: Option<String>)
    ensures
        base_url matches Some(url) ==> base_url_or_public(base_url) == url@,
        base_url is None ==> base_url_or_public(base_url) == "https://api.openai.com/v1"@,
{
}

/// The schema of the replies is the one in the configuration, and counts only
/// if replies are to be documents.
pub proof fn law_schemas_are_for_documents(mode: ResponseFormatMode, spec: JsonView)
    ensures
        mode == ResponseFormatMode::Text ==> schema_of(mode, spec) is None,
        mode == ResponseFormatMode::JsonSchema ==> schema_of(mode, spec) == spec.field(
            "output_schema"@,
        ),
{
}

/// A verdict is repeated as it is.
pub proof fn law_verdicts_are_repeated(verdict: Result<(), ConfigError>)
    ensures
        verdict is Ok <==> refusal(verdict) is None,
        verdict matches Err(ConfigError::InvalidSpec(message)) ==> refusal(verdict) == Some(
            message@,
        ),
{
}

} // verus!
