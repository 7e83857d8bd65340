//! OpenAI image generation.
use vstd::prelude::*;

use crate::adapter::text_or;
use crate::error::{failure, ErrorClass, ProviderError, ProviderFailure};
use crate::json::{
    group_fields, item_views, lemma_no_such_field, object, optional, optional_str, Fields, Json, JsonView,
};
use crate::text::{concat2, readable};
use crate::upstream::{
    configured, header_views, is_success, json_content, json_reply, map_plain_status,
    network_error, no_reply, print_status, status_failure, status_text, success, take_json,
    Exchange, Header, JsonPost, JsonRequest, OpenAiVariant, Upstream, UpstreamView,
};

verus! {

// ---------------------------------------------------------------------------
// Requests
// ---------------------------------------------------------------------------
/// A request for images.
#[derive(Debug)]
pub struct NormalizedImageRequest {
    pub model: String,
    pub prompt: String,
    /// How many images.
    pub n: u32,
    pub size: Option<String>,
    pub quality: Option<String>,
    pub style: Option<String>,
    /// For other providers; it is not sent.
    pub seed: Option<u64>,
    /// For other providers; it is not sent.
    pub negative_prompt: Option<String>,
    pub output_format: Option<String>,
}

/// What a request is sent as.  The images are always asked for as base64, so
/// that the reply carries their bytes.
pub open spec fn request_json(request: NormalizedImageRequest) -> JsonView {
    object(
        seq![
            ("model"@, JsonView::Str(request.model@)),
            ("prompt"@, JsonView::Str(request.prompt@)),
            ("n"@, JsonView::Unsigned(request.n as u64)),
            ("response_format"@, JsonView::Str("b64_json"@)),
        ] + optional("size"@, optional_str(request.size)) + optional(
            "quality"@,
            optional_str(request.quality),
        ) + optional("style"@, optional_str(request.style)) + optional(
            "output_format"@,
            optional_str(request.output_format),
        ),
    )
}

/// Encodes a request.
pub fn encode_request(request: &NormalizedImageRequest) -> (r: Json)
    ensures
        r@ == request_json(*request),
{
    let mut f = Fields::new();
    f.put_str("model", request.model.as_str());
    f.put_str("prompt", request.prompt.as_str());
    f.put("n", Json::Unsigned(request.n as u64));
    f.put_str("response_format", "b64_json");
    assert(f@ =~= seq![
        ("model"@, JsonView::Str(request.model@)),
        ("prompt"@, JsonView::Str(request.prompt@)),
        ("n"@, JsonView::Unsigned(request.n as u64)),
        ("response_format"@, JsonView::Str("b64_json"@)),
    ]);
    f.put_opt_str("size", &request.size);
    f.put_opt_str("quality", &request.quality);
    f.put_opt_str("style", &request.style);
    f.put_opt_str("output_format", &request.output_format);
    f.into_json()
}

// ---------------------------------------------------------------------------
// Replies
// ---------------------------------------------------------------------------
/// What the standard base64 alphabet with padding makes of text: bytes, or the
/// text of an error.
pub uninterp spec fn base64_bytes(text: Seq<char>) -> Result<Seq<u8>, Seq<char>>;

/// `decode` of the engine `base64::engine::general_purpose::STANDARD`, under
/// the name [`base64_bytes`].
#[verifier::external_body]
pub(crate) fn decode_base64(text: &str) -> (r: Result<Vec<u8>, String>)
    ensures
        match r {
            Ok(bytes) => base64_bytes(text@) == Ok::<Seq<u8>, Seq<char>>(bytes@),
            Err(e) => base64_bytes(text@) == Err::<Seq<u8>, Seq<char>>(e@),
        },
{
    match base64::Engine::decode(&base64::engine::general_purpose::STANDARD, text) {
        Ok(bytes) => Ok(bytes),
        Err(e) => Err(e.to_string()),
    }
}

/// An image.
#[derive(Debug)]
pub struct GeneratedImage {
    pub bytes: Vec<u8>,
    pub mime_type: String,
    /// The prompt that the model drew the image from.
    pub revised_prompt: Option<String>,
}

/// What a [`GeneratedImage`] is.
pub struct ImageView {
    pub bytes: Seq<u8>,
    pub mime_type: Seq<char>,
    pub revised_prompt: Option<Seq<char>>,
}

impl View for GeneratedImage {
    type V = ImageView;

    open spec fn view(&self) -> ImageView {
        ImageView {
            bytes: self.bytes@,
            mime_type: self.mime_type@,
            revised_prompt: match self.revised_prompt {
                Some(s) => Some(s@),
                None => None,
            },
        }
    }
}

/// The images, as values.
pub open spec fn image_views(images: Seq<GeneratedImage>) -> Seq<ImageView> {
    images.map_values(|i: GeneratedImage| i@)
}

/// Images.
#[derive(Debug)]
pub struct NormalizedImageResponse {
    pub images: Vec<GeneratedImage>,
}

/// How far a reply can be decoded.
#[derive(Debug)]
pub enum ImageStep {
    /// It is decoded.
    Complete(NormalizedImageResponse),
    /// The image behind the URL has to be fetched first.
    Fetch(String),
}

/// How far a reply can be decoded, as a value.
pub enum StepView {
    Complete(Seq<ImageView>),
    Fetch(Seq<char>),
}

impl View for ImageStep {
    type V = StepView;

    open spec fn view(&self) -> StepView {
        match self {
            ImageStep::Complete(r) => StepView::Complete(image_views(r.images@)),
            ImageStep::Fetch(url) => StepView::Fetch(url@),
        }
    }
}

/// The failure of a reply that is not what the API promises.
pub open spec fn malformed(message: Seq<char>) -> ProviderFailure {
    failure(ErrorClass::Malformed, message)
}

/// The image that the entry `item` describes, with the given bytes.
pub open spec fn image_of(item: JsonView, bytes: Seq<u8>) -> ImageView {
    ImageView {
        bytes,
        mime_type: text_or(item.str_field("mime_type"@), "image/png"@),
        revised_prompt: item.str_field("revised_prompt"@),
    }
}

/// The image that the entry `item` describes, with what came of its base64.
pub open spec fn inline_image(item: JsonView, bytes: Result<Seq<u8>, Seq<char>>) -> Result<
    ImageView,
    ProviderFailure,
> {
    match bytes {
        Ok(bytes) => Ok(image_of(item, bytes)),
        Err(e) => Err(malformed("decode b64_json: "@ + e)),
    }
}

/// Where the decoding of a reply stands.
pub enum Walk {
    /// These images, and so many of the fetched bodies are used up.
    Images(Seq<ImageView>, int),
    Fetch(Seq<char>),
    Failed(ProviderFailure),
}

/// Where the decoding stands after one more entry.
pub open spec fn step(walk: Walk, item: JsonView, bodies: Seq<Seq<u8>>) -> Walk {
    match walk {
        Walk::Images(images, used) => match item.str_field("b64_json"@) {
            Some(text) => match inline_image(item, base64_bytes(text)) {
                Ok(image) => Walk::Images(images.push(image), used),
                Err(e) => Walk::Failed(e),
            },
            None => match item.str_field("url"@) {
                Some(url) => if used < bodies.len() {
                    Walk::Images(images.push(image_of(item, bodies[used])), used + 1)
                } else {
                    Walk::Fetch(url)
                },
                None => Walk::Failed(
                    malformed("image entry has neither `b64_json` nor `url`"@),
                ),
            },
        },
        _ => walk,
    }
}

/// Where the decoding stands after the entries `items`.
pub open spec fn walked(items: Seq<JsonView>, bodies: Seq<Seq<u8>>) -> Walk
    decreases items.len(),
{
    if items.len() == 0 {
        Walk::Images(seq![], 0)
    } else {
        step(walked(items.drop_last(), bodies), items.last(), bodies)
    }
}

/// How far a reply can be decoded with the bodies that were fetched for it.
pub open spec fn decoded(value: JsonView, bodies: Seq<Seq<u8>>) -> Result<
    StepView,
    ProviderFailure,
> {
    match value.array_field("data"@) {
        None => Err(malformed("image response missing `data`"@)),
        Some(items) => match walked(items, bodies) {
            Walk::Images(images, _) => Ok(StepView::Complete(images)),
            Walk::Fetch(url) => Ok(StepView::Fetch(url)),
            Walk::Failed(e) => Err(e),
        },
    }
}

/// The bodies, as values.
pub open spec fn body_views(bodies: Seq<Vec<u8>>) -> Seq<Seq<u8>> {
    bodies.map_values(|b: Vec<u8>| b@)
}

/// The image that the entry `item` describes, with the given bytes.
fn describe_image(item: &Json, bytes: Vec<u8>) -> (r: GeneratedImage)
    ensures
        r@ == image_of(item@, bytes@),
{
    let mime_type = match item.get_str("mime_type") {
        Some(s) => s,
        None => "image/png",
    };
    let revised_prompt = match item.get_str("revised_prompt") {
        Some(s) => Some(s.to_owned()),
        None => None,
    };
    GeneratedImage { bytes, mime_type: mime_type.to_owned(), revised_prompt }
}

/// The image that the entry `item` describes, with what came of its base64.
pub fn image_from_base64(item: &Json, bytes: Result<Vec<u8>, String>) -> (r: Result<
    GeneratedImage,
    ProviderError,
>)
    ensures
        ({
            let given = match bytes {
                Ok(b) => Ok(b@),
                Err(e) => Err(e@),
            };
            match r {
                Ok(image) => inline_image(item@, given) == Ok::<ImageView, ProviderFailure>(image@),
                Err(e) => inline_image(item@, given) == Err::<ImageView, ProviderFailure>(e@),
            }
        }),
{
    match bytes {
        Ok(bytes) => Ok(describe_image(item, bytes)),
        Err(e) => Err(
            ProviderError::Malformed { message: concat2("decode b64_json: ", e.as_str()) },
        ),
    }
}

proof fn lemma_stopped(items: Seq<JsonView>, bodies: Seq<Seq<u8>>, i: int)
    requires
        0 <= i <= items.len(),
        !(walked(items.take(i), bodies) is Images),
    ensures
        walked(items, bodies) == walked(items.take(i), bodies),
    decreases items.len() - i,
{
    if i < items.len() {
        assert(items.take(i + 1).drop_last() =~= items.take(i));
        lemma_stopped(items, bodies, i + 1);
    } else {
        assert(items.take(i) =~= items);
    }
}

/// Decodes a reply as far as possible.  `bodies` are the images behind URLs
/// that were fetched so far, in the order in which they were asked for.
pub fn decode_response(value: &Json, bodies: &[Vec<u8>]) -> (r: Result<ImageStep, ProviderError>)
    ensures
        match r {
            Ok(step) => decoded(value@, body_views(bodies@)) == Ok::<StepView, ProviderFailure>(
                step@,
            ),
            Err(e) => decoded(value@, body_views(bodies@)) == Err::<StepView, ProviderFailure>(e@),
        },
{
    let items = match value.get_array("data") {
        Some(items) => items,
        None => {
            return Err(ProviderError::malformed("image response missing `data`"));
        },
    };
    let mut images: Vec<GeneratedImage> = Vec::new();
    let mut used: usize = 0;
    let mut i: usize = 0;
    let ghost views = item_views(items@);
    let ghost given = body_views(bodies@);
    assert(views.take(0) =~= seq![]);
    assert(image_views(images@) =~= seq![]);
    while i < items.len()
        invariant
            i <= items@.len(),
            used <= bodies@.len(),
            views == item_views(items@),
            value@.array_field("data"@) == Some(views),
            given == body_views(bodies@),
            walked(views.take(i as int), given) == Walk::Images(image_views(images@), used as int),
        decreases items@.len() - i,
    {
        broadcast use crate::json::lemma_item_view;

        let ghost before = images@;
        let item = &items[i];
        i += 1;
        assert(views.take(i as int).drop_last() =~= views.take(i - 1));
        assert(views.take(i as int).last() == item@);
        if let Some(text) = item.get_str("b64_json") {
            match image_from_base64(item, decode_base64(text)) {
                Ok(image) => {
                    images.push(image);
                    assert(image_views(images@) =~= image_views(before).push(image@));
                },
                Err(e) => {
                    proof {
                        lemma_stopped(views, given, i as int);
                    }
                    return Err(e);
                },
            }
        } else if let Some(url) = item.get_str("url") {
            if used < bodies.len() {
                let bytes = vstd::slice::slice_to_vec(bodies[used].as_slice());
                let image = describe_image(item, bytes);
                images.push(image);
                assert(image_views(images@) =~= image_views(before).push(image@));
                used += 1;
            } else {
                proof {
                    lemma_stopped(views, given, i as int);
                }
                return Ok(ImageStep::Fetch(url.to_owned()));
            }
        } else {
            proof {
                lemma_stopped(views, given, i as int);
            }
            return Err(
                ProviderError::malformed("image entry has neither `b64_json` nor `url`"),
            );
        }
    }
    assert(views.take(i as int) =~= views);
    Ok(ImageStep::Complete(NormalizedImageResponse { images }))
}

/// What comes of fetching an image, where `text` is how the status of the
/// reply is printed.
pub open spec fn fetch_outcome(exchange: Exchange, text: Seq<char>) -> Result<
    Seq<u8>,
    ProviderFailure,
> {
    match exchange {
        Exchange::SendFailed(fault) => Err(no_reply("fetch image url: "@, fault.detail@)),
        Exchange::ReadFailed(detail) => Err(no_reply("read image url body: "@, detail@)),
        Exchange::Replied { status, body } => if success(status) {
            Ok(body@)
        } else {
            Err(failure(ErrorClass::Server, "upstream image fetch returned "@ + text))
        },
    }
}

/// The status that a reply has, printed; there may be no reply.
pub open spec fn status_of(exchange: Exchange) -> Seq<char> {
    match exchange {
        Exchange::Replied { status, .. } => status_text(status),
        _ => seq![],
    }
}

/// Takes the image out of the exchange that fetched it, where `text` is how the
/// status of the reply is printed.
pub fn accept_fetched(exchange: Exchange, text: &str) -> (r: Result<Vec<u8>, ProviderError>)
    ensures
        match r {
            Ok(bytes) => fetch_outcome(exchange, text@) == Ok::<Seq<u8>, ProviderFailure>(bytes@),
            Err(e) => fetch_outcome(exchange, text@) == Err::<Seq<u8>, ProviderFailure>(e@),
        },
{
    match exchange {
        Exchange::SendFailed(fault) => Err(
            network_error("fetch image url: ", fault.detail.as_str()),
        ),
        Exchange::ReadFailed(detail) => Err(
            network_error("read image url body: ", detail.as_str()),
        ),
        Exchange::Replied { status, body } => if is_success(status) {
            Ok(body)
        } else {
            Err(
                ProviderError::Server { message: concat2("upstream image fetch returned ", text) },
            )
        },
    }
}

/// Takes the image out of the exchange that fetched it.
pub fn conclude_fetch(exchange: Exchange) -> (r: Result<Vec<u8>, ProviderError>)
    ensures
        match r {
            Ok(bytes) => fetch_outcome(exchange, status_of(exchange)) == Ok::<
                Seq<u8>,
                ProviderFailure,
            >(bytes@),
            Err(e) => fetch_outcome(exchange, status_of(exchange)) == Err::<
                Seq<u8>,
                ProviderFailure,
            >(e@),
        },
{
    let text = match &exchange {
        Exchange::Replied { status, .. } => print_status(*status),
        _ => String::new(),
    };
    accept_fetched(exchange, text.as_str())
}

/// The error for a reply whose status does not report success.
pub fn map_status_error(status: u16, body: &[u8]) -> (r: ProviderError)
    ensures
        r@ == status_failure(status, status_text(status), readable(body@)),
{
    map_plain_status(status, body)
}

/// Takes the reply out of the exchange over a request for images;
/// [`decode_response`] decodes it.
pub fn conclude_generate(exchange: Exchange) -> (r: Result<Json, ProviderError>)
    ensures
        match r {
            Ok(value) => json_reply(exchange) == Ok::<JsonView, ProviderFailure>(value@),
            Err(e) => json_reply(exchange) == Err::<JsonView, ProviderFailure>(e@),
        },
{
    take_json(exchange)
}

// ---------------------------------------------------------------------------
// The adapter
// ---------------------------------------------------------------------------
/// The image endpoint of an upstream.
pub struct OpenAiImageAdapter {
    upstream: Upstream,
}

impl View for OpenAiImageAdapter {
    type V = UpstreamView;

    closed spec fn view(&self) -> UpstreamView {
        self.upstream@
    }
}

impl OpenAiImageAdapter {
    /// The image endpoint of the upstream with the given configuration.
    pub fn new(
        variant: OpenAiVariant,
        label: &'static str,
        base_url: String,
        api_key: String,
    ) -> (r: Result<OpenAiImageAdapter, ProviderError>)
        ensures
            match r {
                Ok(a) => configured(variant, label@, base_url@, api_key@) == Ok::<
                    UpstreamView,
                    ProviderFailure,
                >(a@),
                Err(e) => configured(variant, label@, base_url@, api_key@) == Err::<
                    UpstreamView,
                    ProviderFailure,
                >(e@),
            },
    {
        match Upstream::new(variant, label, base_url, api_key) {
            Ok(upstream) => Ok(OpenAiImageAdapter { upstream }),
            Err(e) => Err(e),
        }
    }

    /// The upstream.
    pub fn upstream(&self) -> (r: &Upstream)
        ensures
            r@ == self@,
    {
        &self.upstream
    }

    /// The name under which calls are counted.
    pub fn label(&self) -> (r: &'static str)
        ensures
            r@ == self@.label,
    {
        self.upstream.label()
    }

    /// The address that requests are sent to.
    pub fn endpoint_url(&self) -> (r: String)
        ensures
            r@ == self@.endpoint("/images/generations"@),
    {
        self.upstream.endpoint_url("/images/generations")
    }

    /// The headers of a request.
    pub fn build_headers(&self) -> (r: Result<Vec<Header>, ProviderError>)
        ensures
            match r {
                Ok(h) => self@.headers(json_content()) == Ok::<
                    Seq<(Seq<char>, Seq<char>)>,
                    ProviderFailure,
                >(header_views(h@)),
                Err(e) => self@.headers(json_content()) == Err::<
                    Seq<(Seq<char>, Seq<char>)>,
                    ProviderFailure,
                >(e@),
            },
    {
        self.upstream.json_headers()
    }

    /// The request for images; [`conclude_generate`] takes what comes of it.
    pub fn generate(&self, request: &NormalizedImageRequest) -> (r: Result<
        JsonRequest,
        ProviderError,
    >)
        ensures
            match r {
                Ok(p) => self@.post("/images/generations"@, request_json(*request)) == Ok::<
                    JsonPost,
                    ProviderFailure,
                >(p@),
                Err(e) => self@.post("/images/generations"@, request_json(*request)) == Err::<
                    JsonPost,
                    ProviderFailure,
                >(e@),
            },
    {
        self.upstream.post("/images/generations", encode_request(request))
    }
}

// ---------------------------------------------------------------------------
// Laws
// ---------------------------------------------------------------------------
/// Every request asks for the bytes of the images.
pub proof fn law_bytes_are_asked_for(request: NormalizedImageRequest)
    ensures
        request_json(request).str_field("response_format"@) == Some("b64_json"@),
{
    broadcast use group_fields;

    reveal_strlit("response_format");
    reveal_strlit("size");
    reveal_strlit("quality");
    reveal_strlit("style");
    reveal_strlit("output_format");
    assert("output_format"@.len() != "response_format"@.len());
}

/// No request carries a seed or a negative prompt.
pub proof fn law_no_seed_is_sent(request: NormalizedImageRequest)
    ensures
        request_json(request).field("seed"@) is None,
        request_json(request).field("negative_prompt"@) is None,
{
    broadcast use group_fields;

    let head = seq![
        ("model"@, JsonView::Str(request.model@)),
        ("prompt"@, JsonView::Str(request.prompt@)),
        ("n"@, JsonView::Unsigned(request.n as u64)),
        ("response_format"@, JsonView::Str("b64_json"@)),
    ];
    reveal_strlit("seed");
    reveal_strlit("negative_prompt");
    reveal_strlit("model");
    reveal_strlit("prompt");
    reveal_strlit("n");
    reveal_strlit("response_format");
    reveal_strlit("size");
    reveal_strlit("quality");
    reveal_strlit("style");
    reveal_strlit("output_format");
    assert("seed"@.len() != "model"@.len());
    assert("seed"@.len() != "prompt"@.len());
    assert("seed"@.len() != "n"@.len());
    assert("seed"@.len() != "response_format"@.len());
    assert("seed"@[1] != "size"@[1]);
    assert("seed"@.len() != "quality"@.len());
    assert("seed"@.len() != "style"@.len());
    assert("seed"@.len() != "output_format"@.len());
    assert("negative_prompt"@.len() != "model"@.len());
    assert("negative_prompt"@.len() != "prompt"@.len());
    assert("negative_prompt"@.len() != "n"@.len());
    assert("negative_prompt"@[0] != "response_format"@[0]);
    assert("negative_prompt"@.len() != "size"@.len());
    assert("negative_prompt"@.len() != "quality"@.len());
    assert("negative_prompt"@.len() != "style"@.len());
    assert("negative_prompt"@.len() != "output_format"@.len());
    lemma_no_such_field(head, "seed"@);
    lemma_no_such_field(head, "negative_prompt"@);
}

/// A reply that carries the bytes of all its images needs no fetch.
pub proof fn law_bytes_need_no_fetch(items: Seq<JsonView>, bodies: Seq<Seq<u8>>)
    requires
        forall|i: int| 0 <= i < items.len() ==> (#[trigger] items[i]).str_field("b64_json"@) is Some,
    ensures
        !(walked(items, bodies) is Fetch),
    decreases items.len(),
{
    if items.len() > 0 {
        let short = items.drop_last();
        assert forall|i: int| 0 <= i < short.len() implies (#[trigger] short[i]).str_field(
            "b64_json"@,
        ) is Some by {
            assert(items[i] == short[i]);
        }
        law_bytes_need_no_fetch(short, bodies);
        assert(items[items.len() - 1] == items.last());
    }
}

proof fn lemma_used(items: Seq<JsonView>, bodies: Seq<Seq<u8>>)
    ensures
        walked(items, bodies) matches Walk::Images(images, used) ==> 0 <= used <= items.len()
            && images.len() == items.len(),
    decreases items.len(),
{
    if items.len() > 0 {
        lemma_used(items.drop_last(), bodies);
    }
}

/// At most one fetch is needed for each entry of a reply, and a reply that is
/// decoded has one image for each entry.
pub proof fn law_fetches_are_bounded(items: Seq<JsonView>, bodies: Seq<Seq<u8>>)
    ensures
        bodies.len() >= items.len() ==> !(walked(items, bodies) is Fetch),
        walked(items, bodies) matches Walk::Images(images, _) ==> images.len() == items.len(),
    decreases items.len(),
{
    lemma_used(items, bodies);
    if items.len() > 0 {
        lemma_used(items.drop_last(), bodies);
        law_fetches_are_bounded(items.drop_last(), bodies);
    }
}

} // verus!
