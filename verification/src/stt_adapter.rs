//! OpenAI speech-to-text.
//!
//! The request is a form: the audio as a file, and texts beside it.  The reply
//! is asked for in the verbose form, which names the language and the duration
//! too.
use vstd::prelude::*;

use crate::error::{failure, ErrorClass, ProviderError, ProviderFailure};
use crate::json::{Json, JsonView};
use crate::text::{concat4, readable, str_eq};
use crate::upstream::{
    configured, header_views, json_reply, map_plain_status, status_failure, status_text, take_json,
    Exchange, Header, OpenAiVariant, Upstream, UpstreamView,
};

verus! {

// ---------------------------------------------------------------------------
// Requests
// ---------------------------------------------------------------------------
/// A request for a transcript.
#[derive(Debug)]
pub struct NormalizedSttRequest {
    pub model: String,
    pub bytes: Vec<u8>,
    pub mime_type: String,
    /// The language that is spoken, if it is known.
    pub language: Option<String>,
    /// A text that the transcript is likely to resemble.
    pub prompt: Option<String>,
}

/// The file name that goes with a type of audio; the server picks its decoder
/// by the extension.
pub open spec fn filename(mime: Seq<char>) -> Seq<char> {
    if mime == "audio/mpeg"@ || mime == "audio/mp3"@ {
        "audio.mp3"@
    } else if mime == "audio/wav"@ || mime == "audio/x-wav"@ {
        "audio.wav"@
    } else if mime == "audio/flac"@ {
        "audio.flac"@
    } else if mime == "audio/ogg"@ || mime == "audio/opus"@ {
        "audio.ogg"@
    } else if mime == "audio/mp4"@ || mime == "audio/x-m4a"@ {
        "audio.m4a"@
    } else if mime == "audio/webm"@ {
        "audio.webm"@
    } else {
        "audio.bin"@
    }
}

/// The file name that goes with a type of audio.
pub fn filename_for_mime(mime: &str) -> (r: &'static str)
    ensures
        r@ == filename(mime@),
{
    if str_eq(mime, "audio/mpeg") || str_eq(mime, "audio/mp3") {
        "audio.mp3"
    } else if str_eq(mime, "audio/wav") || str_eq(mime, "audio/x-wav") {
        "audio.wav"
    } else if str_eq(mime, "audio/flac") {
        "audio.flac"
    } else if str_eq(mime, "audio/ogg") || str_eq(mime, "audio/opus") {
        "audio.ogg"
    } else if str_eq(mime, "audio/mp4") || str_eq(mime, "audio/x-m4a") {
        "audio.m4a"
    } else if str_eq(mime, "audio/webm") {
        "audio.webm"
    } else {
        "audio.bin"
    }
}

/// One part of a form.
#[derive(Debug)]
pub enum FormPart {
    Text { name: String, value: String },
    /// The audio of the request.
    Audio { name: String, filename: String, mime_type: String, bytes: Vec<u8> },
}

/// One part of a form, as a value.
pub enum PartView {
    Text { name: Seq<char>, value: Seq<char> },
    Audio { name: Seq<char>, filename: Seq<char>, mime_type: Seq<char>, bytes: Seq<u8> },
}

impl View for FormPart {
    type V = PartView;

    open spec fn view(&self) -> PartView {
        match self {
            FormPart::Text { name, value } => PartView::Text { name: name@, value: value@ },
            FormPart::Audio { name, filename, mime_type, bytes } => PartView::Audio {
                name: name@,
                filename: filename@,
                mime_type: mime_type@,
                bytes: bytes@,
            },
        }
    }
}

/// The parts of a form, as values.
pub open spec fn part_views(parts: Seq<FormPart>) -> Seq<PartView> {
    parts.map_values(|p: FormPart| p@)
}

/// A text that is there only if it has a value.
pub open spec fn optional_text(name: Seq<char>, value: Option<String>) -> Seq<PartView> {
    match value {
        Some(s) => seq![PartView::Text { name, value: s@ }],
        None => seq![],
    }
}

/// The form of a request.
pub open spec fn form(request: NormalizedSttRequest) -> Seq<PartView> {
    seq![
        PartView::Text { name: "model"@, value: request.model@ },
        PartView::Text { name: "response_format"@, value: "verbose_json"@ },
        PartView::Audio {
            name: "file"@,
            filename: filename(request.mime_type@),
            mime_type: request.mime_type@,
            bytes: request.bytes@,
        },
    ] + optional_text("language"@, request.language) + optional_text("prompt"@, request.prompt)
}

fn text_part(name: &str, value: &str) -> (r: FormPart)
    ensures
        r@ == (PartView::Text { name: name@, value: value@ }),
{
    FormPart::Text { name: name.to_owned(), value: value.to_owned() }
}

fn push_optional(parts: &mut Vec<FormPart>, name: &str, value: &Option<String>)
    ensures
        part_views(final(parts)@) == part_views(old(parts)@) + optional_text(name@, *value),
{
    match value {
        Some(s) => parts.push(text_part(name, s.as_str())),
        None => {},
    }
    assert(part_views(parts@) =~= part_views(old(parts)@) + optional_text(name@, *value));
}

/// Composes the form of a request.
pub fn encode_form(request: &NormalizedSttRequest) -> (r: Vec<FormPart>)
    ensures
        part_views(r@) == form(*request),
{
    let mut parts: Vec<FormPart> = Vec::new();
    parts.push(text_part("model", request.model.as_str()));
    parts.push(text_part("response_format", "verbose_json"));
    parts.push(
        FormPart::Audio {
            name: "file".to_owned(),
            filename: filename_for_mime(request.mime_type.as_str()).to_owned(),
            mime_type: request.mime_type.clone(),
            bytes: request.bytes.clone(),
        },
    );
    assert(part_views(parts@) =~= seq![
        PartView::Text { name: "model"@, value: request.model@ },
        PartView::Text { name: "response_format"@, value: "verbose_json"@ },
        PartView::Audio {
            name: "file"@,
            filename: filename(request.mime_type@),
            mime_type: request.mime_type@,
            bytes: request.bytes@,
        },
    ]);
    push_optional(&mut parts, "language", &request.language);
    push_optional(&mut parts, "prompt", &request.prompt);
    parts
}

/// The error with which `mime_str` of `reqwest::multipart::Part` refuses a
/// type, or nothing if it accepts the type.
pub uninterp spec fn mime_refusal(mime: Seq<char>) -> Option<Seq<char>>;

/// `mime_str` of `reqwest::multipart::Part`, under the name [`mime_refusal`].
#[verifier::external_body]
pub(crate) fn check_mime(mime: &str) -> (r: Result<(), String>)
    ensures
        mime_refusal(mime@) == match r {
            Ok(_) => None::<Seq<char>>,
            Err(e) => Some(e@),
        },
{
    match reqwest::multipart::Part::text("").mime_str(mime) {
        Ok(_) => Ok(()),
        Err(e) => Err(e.to_string()),
    }
}

/// The failure of a request whose type of audio is refused with `error`.
pub open spec fn bad_mime(mime: Seq<char>, error: Seq<char>) -> ProviderFailure {
    failure(ErrorClass::BadRequest, "invalid mime_type "@ + mime + ": "@ + error)
}

/// The form of a request, with what was said of its type of audio.
pub fn checked_form(request: &NormalizedSttRequest, checked: Result<(), String>) -> (r: Result<
    Vec<FormPart>,
    ProviderError,
>)
    ensures
        match r {
            Ok(parts) => checked is Ok && part_views(parts@) == form(*request),
            Err(e) => checked matches Err(error) && e@ == bad_mime(request.mime_type@, error@),
        },
{
    match checked {
        Ok(_) => Ok(encode_form(request)),
        Err(error) => Err(
            ProviderError::BadRequest {
                message: concat4(
                    "invalid mime_type ",
                    request.mime_type.as_str(),
                    ": ",
                    error.as_str(),
                ),
            },
        ),
    }
}

/// A request that posts a form.
pub struct FormRequest {
    pub url: String,
    pub headers: Vec<Header>,
    pub parts: Vec<FormPart>,
}

// ---------------------------------------------------------------------------
// Replies
// ---------------------------------------------------------------------------
/// A transcript.
#[derive(Debug)]
pub struct NormalizedSttResponse {
    pub text: String,
    pub language: Option<String>,
    /// The duration of the audio, as the JSON number of the reply.
    pub duration_seconds: Option<Json>,
}

/// What a [`NormalizedSttResponse`] says.
pub struct Transcript {
    pub text: Seq<char>,
    pub language: Option<Seq<char>>,
    pub duration_seconds: Option<JsonView>,
}

impl View for NormalizedSttResponse {
    type V = Transcript;

    open spec fn view(&self) -> Transcript {
        Transcript {
            text: self.text@,
            language: match self.language {
                Some(s) => Some(s@),
                None => None,
            },
            duration_seconds: match self.duration_seconds {
                Some(d) => Some(d@),
                None => None,
            },
        }
    }
}

/// What a reply says.
pub open spec fn decoded(value: JsonView) -> Result<Transcript, ProviderFailure> {
    match value.str_field("text"@) {
        None => Err(
            failure(ErrorClass::Malformed, "transcription response missing `text`"@),
        ),
        Some(text) => Ok(
            Transcript {
                text,
                language: value.str_field("language"@),
                duration_seconds: match value.field("duration"@) {
                    Some(d) => if d.is_number() {
                        Some(d)
                    } else {
                        None
                    },
                    None => None,
                },
            },
        ),
    }
}

/// Decodes a reply.
pub fn decode_response(value: &Json) -> (r: Result<NormalizedSttResponse, ProviderError>)
    ensures
        match r {
            Ok(reply) => decoded(value@) == Ok::<Transcript, ProviderFailure>(reply@),
            Err(e) => decoded(value@) == Err::<Transcript, ProviderFailure>(e@),
        },
{
    let text = match value.get_str("text") {
        Some(text) => text.to_owned(),
        None => {
            return Err(ProviderError::malformed("transcription response missing `text`"));
        },
    };
    let language = match value.get_str("language") {
        Some(s) => Some(s.to_owned()),
        None => None,
    };
    let duration_seconds = match value.get("duration") {
        Some(d) => if d.is_number() {
            Some(d.clone())
        } else {
            None
        },
        None => None,
    };
    Ok(NormalizedSttResponse { text, language, duration_seconds })
}

/// The error for a reply whose status does not report success.
pub fn map_status_error(status: u16, body: &[u8]) -> (r: ProviderError)
    ensures
        r@ == status_failure(status, status_text(status), readable(body@)),
{
    map_plain_status(status, body)
}

/// What comes of the exchange over a request for a transcript.
pub open spec fn outcome(exchange: Exchange) -> Result<Transcript, ProviderFailure> {
    match json_reply(exchange) {
        Ok(value) => decoded(value),
        Err(e) => Err(e),
    }
}

/// Concludes the exchange over a request for a transcript.
pub fn conclude_transcribe(exchange: Exchange) -> (r: Result<NormalizedSttResponse, ProviderError>)
    ensures
        match r {
            Ok(reply) => outcome(exchange) == Ok::<Transcript, ProviderFailure>(reply@),
            Err(e) => outcome(exchange) == Err::<Transcript, ProviderFailure>(e@),
        },
{
    match take_json(exchange) {
        Ok(value) => decode_response(&value),
        Err(e) => Err(e),
    }
}

// ---------------------------------------------------------------------------
// The adapter
// ---------------------------------------------------------------------------
/// The transcription endpoint of an upstream.
pub struct OpenAiSttAdapter {
    upstream: Upstream,
}

impl View for OpenAiSttAdapter {
    type V = UpstreamView;

    closed spec fn view(&self) -> UpstreamView {
        self.upstream@
    }
}

impl OpenAiSttAdapter {
    /// The transcription endpoint of the upstream with the given configuration.
    pub fn new(
        variant: OpenAiVariant,
        label: &'static str,
        base_url: String,
        api_key: String,
    ) -> (r: Result<OpenAiSttAdapter, ProviderError>)
        ensures
            match r {
                Ok(a) => configured(variant, label@, base_url@, api_key@) == Ok::<
                    UpstreamView,
                    ProviderFailure,
                >(a@),
                Err(e) => configured(variant, label@, base_url@, api_key@) == Err::<
                    UpstreamView,
                    ProviderFailure,
                >(e@),
            },
    {
        match Upstream::new(variant, label, base_url, api_key) {
            Ok(upstream) => Ok(OpenAiSttAdapter { upstream }),
            Err(e) => Err(e),
        }
    }

    /// The upstream.
    pub fn upstream(&self) -> (r: &Upstream)
        ensures
            r@ == self@,
    {
        &self.upstream
    }

    /// The name under which calls are counted.
    pub fn label(&self) -> (r: &'static str)
        ensures
            r@ == self@.label,
    {
        self.upstream.label()
    }

    /// The address that requests are sent to.
    pub fn endpoint_url(&self) -> (r: String)
        ensures
            r@ == self@.endpoint("/audio/transcriptions"@),
    {
        self.upstream.endpoint_url("/audio/transcriptions")
    }

    /// The headers of a request; the form brings its own content type.
    pub fn build_headers(&self) -> (r: Result<Vec<Header>, ProviderError>)
        ensures
            match r {
                Ok(h) => self@.headers(seq![]) == Ok::<
                    Seq<(Seq<char>, Seq<char>)>,
                    ProviderFailure,
                >(header_views(h@)),
                Err(e) => self@.headers(seq![]) == Err::<
                    Seq<(Seq<char>, Seq<char>)>,
                    ProviderFailure,
                >(e@),
            },
    {
        self.upstream.form_headers()
    }

    /// The request for a transcript; [`conclude_transcribe`] takes what comes
    /// of it.
    pub fn transcribe(&self, request: &NormalizedSttRequest) -> (r: Result<
        FormRequest,
        ProviderError,
    >)
        ensures
            match r {
                Ok(p) => {
                    &&& mime_refusal(request.mime_type@) is None
                    &&& p.url@ == self@.endpoint("/audio/transcriptions"@)
                    &&& self@.headers(seq![]) == Ok::<Seq<(Seq<char>, Seq<char>)>, ProviderFailure>(
                        header_views(p.headers@),
                    )
                    &&& part_views(p.parts@) == form(*request)
                },
                Err(e) => match self@.headers(seq![]) {
                    Err(bad) => e@ == bad,
                    Ok(_) => mime_refusal(request.mime_type@) matches Some(error) && e@ == bad_mime(
                        request.mime_type@,
                        error,
                    ),
                },
            },
    {
        let url = self.endpoint_url();
        let headers = match self.build_headers() {
            Ok(headers) => headers,
            Err(e) => {
                return Err(e);
            },
        };
        match checked_form(request, check_mime(request.mime_type.as_str())) {
            Ok(parts) => Ok(FormRequest { url, headers, parts }),
            Err(e) => Err(e),
        }
    }
}

} // verus!
