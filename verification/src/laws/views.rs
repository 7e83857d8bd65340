//! Views show what is there: every element, and every field as it is.
use vstd::prelude::*;

use crate::embedding_adapter::NormalizedEmbeddingResponse;
use crate::error::{BackendError, BackendFailure, ErrorClass, ProviderError};
use crate::host_handle_obs::{counter_views, label_views, Counter, Label};
use crate::image_adapter::{
    body_views, image_views, GeneratedImage, ImageStep, StepView,
};
use crate::json::{field_views, item_views, Json, JsonView};
use crate::normalized::{call_views, NormalizedChatResponse, ToolCall};
use crate::stream::{text_views, PartialCall};
use crate::stt_adapter::{part_views, FormPart, NormalizedSttResponse, PartView};
use crate::upstream::{header_views, Header, JsonRequest};

verus! {

/// Lists are shown element by element.
pub proof fn law_lists_are_shown_whole(
    texts: Seq<String>,
    calls: Seq<ToolCall>,
    headers: Seq<Header>,
    labels: Seq<Label>,
    counters: Seq<Counter>,
    images: Seq<GeneratedImage>,
    bodies: Seq<Vec<u8>>,
    parts: Seq<FormPart>,
    items: Seq<Json>,
    fields: Seq<(String, Json)>,
)
    ensures
        text_views(texts).len() == texts.len(),
        forall|i: int| 0 <= i < texts.len() ==> #[trigger] text_views(texts)[i] == texts[i]@,
        call_views(calls).len() == calls.len(),
        forall|i: int| 0 <= i < calls.len() ==> #[trigger] call_views(calls)[i] == calls[i]@,
        header_views(headers).len() == headers.len(),
        forall|i: int|
            0 <= i < headers.len() ==> #[trigger] header_views(headers)[i] == (
                headers[i].0@,
                headers[i].1@,
            ),
        label_views(labels).len() == labels.len(),
        forall|i: int|
            0 <= i < labels.len() ==> #[trigger] label_views(labels)[i] == (
                labels[i].0@,
                labels[i].1@,
            ),
        counter_views(counters).len() == counters.len(),
        forall|i: int|
            0 <= i < counters.len() ==> #[trigger] counter_views(counters)[i] == counters[i]@,
        image_views(images).len() == images.len(),
        forall|i: int| 0 <= i < images.len() ==> #[trigger] image_views(images)[i] == images[i]@,
        body_views(bodies).len() == bodies.len(),
        forall|i: int| 0 <= i < bodies.len() ==> #[trigger] body_views(bodies)[i] == bodies[i]@,
        part_views(parts).len() == parts.len(),
        forall|i: int| 0 <= i < parts.len() ==> #[trigger] part_views(parts)[i] == parts[i]@,
        item_views(items).len() == items.len(),
        forall|i: int| 0 <= i < items.len() ==> #[trigger] item_views(items)[i] == items[i]@,
        field_views(fields).len() == fields.len(),
        forall|i: int|
            0 <= i < fields.len() ==> #[trigger] field_views(fields)[i] == (
                fields[i].0@,
                fields[i].1@,
            ),
{
}

/// Documents are shown as they are: each kind of value as that kind, with what
/// it holds, and the members of an object by their names, the later of two with
/// one name.
pub proof fn law_documents_are_shown_as_they_are(document: Json)
    ensures
        match document {
            Json::Null => document@ == JsonView::Null,
            Json::Bool(b) => document@ == JsonView::Bool(b),
            Json::Unsigned(n) => document@ == JsonView::Unsigned(n),
            Json::Number(n) => match crate::json::number_u64(n) {
                Some(u) => document@ == JsonView::Unsigned(u),
                None => document@ == JsonView::Number(n),
            },
            Json::Str(s) => document@ == JsonView::Str(s@),
            Json::Array(items) => document@ matches JsonView::Array(shown) && shown.len()
                == items@.len() && forall|i: int|
                0 <= i < shown.len() ==> #[trigger] shown[i] == items@[i]@,
            Json::Object(fields) => {
                &&& document@ is Object
                &&& forall|i: int|
                    0 <= i < fields@.len() && (forall|j: int|
                        i < j < fields@.len() ==> (#[trigger] fields@[j]).0@ != fields@[i].0@)
                        ==> document@.field((#[trigger] fields@[i]).0@) == Some(fields@[i].1@)
                &&& forall|n: Seq<char>| #[trigger]
                    document@.field(n) is Some ==> exists|i: int|
                        0 <= i < fields@.len() && (#[trigger] fields@[i]).0@ == n
            },
        },
{
    if let Json::Object(fields) = document {
        let views = field_views(fields@);
        assert forall|i: int|
            0 <= i < fields@.len() && (forall|j: int|
                i < j < fields@.len() ==> (#[trigger] fields@[j]).0@
                    != fields@[i].0@) implies document@.field((#[trigger] fields@[i]).0@) == Some(
            fields@[i].1@,
        ) by {
            assert forall|j: int| i < j < views.len() implies views[j].0 != fields@[i].0@ by {
                assert(fields@[j].0@ != fields@[i].0@);
            }
            crate::json::lemma_last_field_counts(views, fields@[i].0@, i);
        }
        assert forall|n: Seq<char>| #[trigger] document@.field(n) is Some implies exists|i: int|
            0 <= i < fields@.len() && (#[trigger] fields@[i]).0@ == n by {
            if forall|i: int| 0 <= i < fields@.len() ==> (#[trigger] fields@[i]).0@ != n {
                assert forall|j: int| 0 <= j < views.len() implies views[j].0 != n by {
                    assert(fields@[j].0@ != n);
                }
                crate::json::lemma_no_such_field(views, n);
            }
        }
    }
}

/// Results are shown field by field.
pub proof fn law_results_are_shown_as_they_are(
    call: ToolCall,
    partial: PartialCall,
    chat: NormalizedChatResponse,
    embeddings: NormalizedEmbeddingResponse,
    image: GeneratedImage,
    transcript: NormalizedSttResponse,
    counter: Counter,
    request: JsonRequest,
)
    ensures
        call@.id == call.id@,
        call@.name == call.name@,
        call@.arguments == call.arguments@,
        partial@.name == partial.name@,
        partial@.arguments == partial.arguments@,
        partial@.id == match partial.id {
            Some(id) => Some(id@),
            None => None,
        },
        chat@.content == chat.content@,
        chat@.tool_calls == call_views(chat.tool_calls@),
        chat@.finish_reason == chat.finish_reason,
        chat@.usage == chat.usage,
        embeddings@.embeddings.len() == embeddings.embeddings@.len(),
        forall|i: int|
            0 <= i < embeddings.embeddings@.len() ==> #[trigger] embeddings@.embeddings[i]
                == item_views(embeddings.embeddings@[i]@),
        embeddings@.dimensions == embeddings.dimensions,
        embeddings@.usage == embeddings.usage,
        image@.bytes == image.bytes@,
        image@.mime_type == image.mime_type@,
        image@.revised_prompt == match image.revised_prompt {
            Some(s) => Some(s@),
            None => None,
        },
        transcript@.text == transcript.text@,
        transcript@.language == match transcript.language {
            Some(s) => Some(s@),
            None => None,
        },
        transcript@.duration_seconds == match transcript.duration_seconds {
            Some(d) => Some(d@),
            None => None,
        },
        counter@.name == counter.name@,
        counter@.value == counter.value,
        counter@.labels == label_views(counter.labels@),
        request@.url == request.url@,
        request@.headers == header_views(request.headers@),
        request@.body == request.body@,
{
}

/// Choices and errors are shown as the variant that they are, with what it
/// holds.
pub proof fn law_variants_are_shown_as_they_are(
    step: ImageStep,
    part: FormPart,
    provider: ProviderError,
    backend: BackendError,
)
    ensures
        match step {
            ImageStep::Complete(r) => step@ == StepView::Complete(image_views(r.images@)),
            ImageStep::Fetch(url) => step@ == StepView::Fetch(url@),
        },
        match part {
            FormPart::Text { name, value } => part@ == (PartView::Text {
                name: name@,
                value: value@,
            }),
            FormPart::Audio { name, filename, mime_type, bytes } => part@ == (PartView::Audio {
                name: name@,
                filename: filename@,
                mime_type: mime_type@,
                bytes: bytes@,
            }),
        },
        match provider {
            ProviderError::RateLimited { message } => provider@.class == ErrorClass::RateLimited
                && provider@.message == message@,
            ProviderError::AuthFailed { message } => provider@.class == ErrorClass::AuthFailed
                && provider@.message == message@,
            ProviderError::ContextLimit { message } => provider@.class == ErrorClass::ContextLimit
                && provider@.message == message@,
            ProviderError::BadRequest { message } => provider@.class == ErrorClass::BadRequest
                && provider@.message == message@,
            ProviderError::Server { message } => provider@.class == ErrorClass::Server
                && provider@.message == message@,
            ProviderError::Network { message } => provider@.class == ErrorClass::Network
                && provider@.message == message@,
            ProviderError::Malformed { message } => provider@.class == ErrorClass::Malformed
                && provider@.message == message@,
        },
        match backend {
            BackendError::ProfileNotFound { backend_name } => backend@
                == (BackendFailure::ProfileNotFound { backend_name: backend_name@ }),
            BackendError::InvalidSpec { message } => backend@ == (BackendFailure::InvalidSpec {
                message: message@,
            }),
            BackendError::Timeout { timeout_ms } => backend@ == (BackendFailure::Timeout {
                timeout_ms,
            }),
            BackendError::Transport { message } => backend@ == (BackendFailure::Transport {
                message: message@,
            }),
        },
{
}

/// The same request may succeed later exactly after a rate limit, a fault of the
/// server or one of the network.
pub proof fn law_some_errors_pass(class: ErrorClass)
    ensures
        class.retryable() <==> class == ErrorClass::RateLimited || class == ErrorClass::Server
            || class == ErrorClass::Network,
{
}

} // verus!
