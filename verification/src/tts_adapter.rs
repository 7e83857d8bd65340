//! OpenAI text-to-speech.
use vstd::prelude::*;

use crate::error::{ProviderError, ProviderFailure};
use crate::json::{object, optional, optional_json, Fields, Json, JsonView};
use crate::normalized::AudioFormat;
use crate::text::{readable, starts_with, str_starts_with};
use crate::upstream::{
    configured, header_views, is_success, json_content, map_plain_status, network_error, no_reply,
    status_failure, status_text, success, Exchange, Header, JsonPost, JsonRequest, OpenAiVariant,
    Upstream, UpstreamView,
};

verus! {

/// A request for speech.
#[derive(Debug)]
pub struct NormalizedTtsRequest {
    pub model: String,
    pub text: String,
    pub voice: String,
    pub format: AudioFormat,
    /// The speed multiplier as the JSON value that is sent.
    pub speed: Option<Json>,
}

/// Speech.
#[derive(Debug)]
pub struct NormalizedTtsResponse {
    pub bytes: Vec<u8>,
    pub mime_type: String,
}

/// How the speech endpoint writes an audio format.
pub open spec fn speech_format(f: AudioFormat) -> Seq<char> {
    match f {
        AudioFormat::Mp3 => "mp3"@,
        AudioFormat::Wav => "wav"@,
        AudioFormat::Flac => "flac"@,
        AudioFormat::Ogg => "opus"@,
        AudioFormat::Aac => "aac"@,
        AudioFormat::Pcm => "pcm"@,
    }
}

fn speech_format_label(f: AudioFormat) -> (r: &'static str)
    ensures
        r@ == speech_format(f),
{
    match f {
        AudioFormat::Mp3 => "mp3",
        AudioFormat::Wav => "wav",
        AudioFormat::Flac => "flac",
        AudioFormat::Ogg => "opus",
        AudioFormat::Aac => "aac",
        AudioFormat::Pcm => "pcm",
    }
}

/// What a request is sent as.
pub open spec fn request_json(request: NormalizedTtsRequest) -> JsonView {
    object(
        seq![
            ("model"@, JsonView::Str(request.model@)),
            ("input"@, JsonView::Str(request.text@)),
            ("voice"@, JsonView::Str(request.voice@)),
            ("response_format"@, JsonView::Str(speech_format(request.format))),
        ] + optional("speed"@, optional_json(request.speed)),
    )
}

/// Encodes a request.
pub fn encode_request(request: &NormalizedTtsRequest) -> (r: Json)
    ensures
        r@ == request_json(*request),
{
    let mut f = Fields::new();
    f.put_str("model", request.model.as_str());
    f.put_str("input", request.text.as_str());
    f.put_str("voice", request.voice.as_str());
    f.put_str("response_format", speech_format_label(request.format));
    assert(f@ =~= seq![
        ("model"@, JsonView::Str(request.model@)),
        ("input"@, JsonView::Str(request.text@)),
        ("voice"@, JsonView::Str(request.voice@)),
        ("response_format"@, JsonView::Str(speech_format(request.format))),
    ]);
    f.put_opt("speed", &request.speed);
    f.into_json()
}

/// The error for a reply whose status does not report success.
pub fn map_status_error(status: u16, body: &[u8]) -> (r: ProviderError)
    ensures
        r@ == status_failure(status, status_text(status), readable(body@)),
{
    map_plain_status(status, body)
}

/// The type of the audio: what the reply says, if it names an audio type, and
/// else the type of the format that was asked for.
pub open spec fn audio_type(content_type: Option<Seq<char>>, fallback: Seq<char>) -> Seq<char> {
    match content_type {
        Some(t) => if starts_with(t, "audio/"@) {
            t
        } else {
            fallback
        },
        None => fallback,
    }
}

/// What comes of the exchange over a request for speech: the bytes and the
/// type of the audio, or the failure.
pub open spec fn outcome(
    exchange: Exchange,
    content_type: Option<Seq<char>>,
    fallback: Seq<char>,
) -> Result<(Seq<u8>, Seq<char>), ProviderFailure> {
    match exchange {
        Exchange::SendFailed(fault) => Err(no_reply("send: "@, fault.detail@)),
        Exchange::ReadFailed(detail) => Err(no_reply("read body: "@, detail@)),
        Exchange::Replied { status, body } => if success(status) {
            Ok((body@, audio_type(content_type, fallback)))
        } else {
            Err(status_failure(status, status_text(status), readable(body@)))
        },
    }
}

/// Concludes the exchange over a request for speech.  `content_type` is the
/// header of that name in the reply, and `fallback` the type of the format
/// that was asked for.
pub fn conclude_synthesize(
    exchange: Exchange,
    content_type: Option<String>,
    fallback: String,
) -> (r: Result<NormalizedTtsResponse, ProviderError>)
    ensures
        ({
            let given = match content_type {
                Some(s) => Some(s@),
                None => None,
            };
            match r {
                Ok(speech) => outcome(exchange, given, fallback@) == Ok::<
                    (Seq<u8>, Seq<char>),
                    ProviderFailure,
                >((speech.bytes@, speech.mime_type@)),
                Err(e) => outcome(exchange, given, fallback@) == Err::<
                    (Seq<u8>, Seq<char>),
                    ProviderFailure,
                >(e@),
            }
        }),
{
    match exchange {
        Exchange::SendFailed(fault) => Err(network_error("send: ", fault.detail.as_str())),
        Exchange::ReadFailed(detail) => Err(network_error("read body: ", detail.as_str())),
        Exchange::Replied { status, body } => {
            if !is_success(status) {
                return Err(map_status_error(status, body.as_slice()));
            }
            let mime_type = match content_type {
                Some(t) => if str_starts_with(t.as_str(), "audio/") {
                    t
                } else {
                    fallback
                },
                None => fallback,
            };
            Ok(NormalizedTtsResponse { bytes: body, mime_type })
        },
    }
}

/// The speech endpoint of an upstream.
pub struct OpenAiTtsAdapter {
    upstream: Upstream,
}

impl View for OpenAiTtsAdapter {
    type V = UpstreamView;

    closed spec fn view(&self) -> UpstreamView {
        self.upstream@
    }
}

impl OpenAiTtsAdapter {
    /// The speech endpoint of the upstream with the given configuration.
    pub fn new(
        variant: OpenAiVariant,
        label: &'static str,
        base_url: String,
        api_key: String,
    ) -> (r: Result<OpenAiTtsAdapter, ProviderError>)
        ensures
            match r {
                Ok(a) => configured(variant, label@, base_url@, api_key@) == Ok::<
                    UpstreamView,
                    ProviderFailure,
                >(a@),
                Err(e) => configured(variant, label@, base_url@, api_key@) == Err::<
                    UpstreamView,
                    ProviderFailure,
                >(e@),
            },
    {
        match Upstream::new(variant, label, base_url, api_key) {
            Ok(upstream) => Ok(OpenAiTtsAdapter { upstream }),
            Err(e) => Err(e),
        }
    }

    /// The upstream.
    pub fn upstream(&self) -> (r: &Upstream)
        ensures
            r@ == self@,
    {
        &self.upstream
    }

    /// The name under which calls are counted.
    pub fn label(&self) -> (r: &'static str)
        ensures
            r@ == self@.label,
    {
        self.upstream.label()
    }

    /// The address that requests are sent to.
    pub fn endpoint_url(&self) -> (r: String)
        ensures
            r@ == self@.endpoint("/audio/speech"@),
    {
        self.upstream.endpoint_url("/audio/speech")
    }

    /// The headers of a request.
    pub fn build_headers(&self) -> (r: Result<Vec<Header>, ProviderError>)
        ensures
            match r {
                Ok(h) => self@.headers(json_content()) == Ok::<
                    Seq<(Seq<char>, Seq<char>)>,
                    ProviderFailure,
                >(header_views(h@)),
                Err(e) => self@.headers(json_content()) == Err::<
                    Seq<(Seq<char>, Seq<char>)>,
                    ProviderFailure,
                >(e@),
            },
    {
        self.upstream.json_headers()
    }

    /// The request for speech; [`conclude_synthesize`] takes what comes of it.
    pub fn synthesize(&self, request: &NormalizedTtsRequest) -> (r: Result<
        JsonRequest,
        ProviderError,
    >)
        ensures
            match r {
                Ok(p) => self@.post("/audio/speech"@, request_json(*request)) == Ok::<
                    JsonPost,
                    ProviderFailure,
                >(p@),
                Err(e) => self@.post("/audio/speech"@, request_json(*request)) == Err::<
                    JsonPost,
                    ProviderFailure,
                >(e@),
            },
    {
        self.upstream.post("/audio/speech", encode_request(request))
    }
}

} // verus!
