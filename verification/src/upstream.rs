//! The upstream API: where requests go, what they are authorised with, and
//! what the status of a reply means.
use vstd::prelude::*;
use vstd::utf8::encode_utf8;

use crate::error::{failure, ErrorClass, ProviderError, ProviderFailure};
use crate::json::{json_of_bytes, parse_bytes, Json, JsonView};
use crate::text::{
    concat2, concat4, lossy_text, readable, trim_end_char, trim_end_matches,
};

verus! {

/// The servers that speak the protocol.
#[derive(Debug, Clone, Copy, PartialEq, Eq, Structural)]
pub enum OpenAiVariant {
    /// The public API: a bearer token, and paths below the base URL.
    OpenAi,
    /// An Azure deployment: an `api-key` header, and a base URL that is the
    /// whole address.
    Azure,
    /// Any other server with this protocol: as the public API, but the key may
    /// be empty, and no authorisation is sent then.
    Compatible,
}

/// One upstream API.
pub struct Upstream {
    variant: OpenAiVariant,
    label: &'static str,
    base_url: String,
    api_key: String,
}

/// What an [`Upstream`] is.
pub struct UpstreamView {
    pub variant: OpenAiVariant,
    /// The name under which calls are counted.
    pub label: Seq<char>,
    /// The address that requests are sent to, or below.
    pub base_url: Seq<char>,
    pub api_key: Seq<char>,
}

/// A header, as its name and its value.
pub type Header = (String, String);

/// The headers, each as its name and its value.
pub open spec fn header_views(headers: Seq<Header>) -> Seq<(Seq<char>, Seq<char>)> {
    headers.map_values(|h: Header| (h.0@, h.1@))
}

impl View for Upstream {
    type V = UpstreamView;

    closed spec fn view(&self) -> UpstreamView {
        UpstreamView {
            variant: self.variant,
            label: self.label@,
            base_url: self.base_url@,
            api_key: self.api_key@,
        }
    }
}

/// The part of a configured base URL that is kept: an Azure URL verbatim, any
/// other without the slashes that it ends with.
pub open spec fn kept_url(variant: OpenAiVariant, base_url: Seq<char>) -> Seq<char> {
    if variant == OpenAiVariant::Azure {
        base_url
    } else {
        trim_end_char(base_url, '/')
    }
}

/// The upstream with the given configuration; it needs a base URL.
pub open spec fn configured(
    variant: OpenAiVariant,
    label: Seq<char>,
    base_url: Seq<char>,
    api_key: Seq<char>,
) -> Result<UpstreamView, ProviderFailure> {
    if base_url.len() == 0 {
        Err(failure(ErrorClass::BadRequest, "base_url is empty"@))
    } else {
        Ok(UpstreamView { variant, label, base_url: kept_url(variant, base_url), api_key })
    }
}

/// Whether `b` may stand in the value of a header.
pub open spec fn header_byte(b: u8) -> bool {
    b == 9 || (b >= 32 && b != 127)
}

/// Whether `s` may be the value of a header.
pub open spec fn header_text(s: Seq<char>) -> bool {
    let bytes = encode_utf8(s);
    forall|i: int| 0 <= i < bytes.len() ==> header_byte(#[trigger] bytes[i])
}

/// `reqwest::header::HeaderValue::from_str` accepts a text exactly if every
/// byte of it is a tab or neither a control character nor DEL.
#[verifier::external_body]
pub(crate) fn header_accepts(s: &str) -> (r: bool)
    ensures
        r == header_text(s@),
{
    reqwest::header::HeaderValue::from_str(s).is_ok()
}

impl UpstreamView {
    /// The address of the endpoint with the given path.
    pub open spec fn endpoint(self, path: Seq<char>) -> Seq<char> {
        if self.variant == OpenAiVariant::Azure {
            self.base_url
        } else {
            self.base_url + path
        }
    }

    /// The header that carries the key, if there is one.
    pub open spec fn authorization(self) -> Seq<(Seq<char>, Seq<char>)> {
        if self.variant == OpenAiVariant::Azure {
            seq![("api-key"@, self.api_key)]
        } else if self.api_key.len() > 0 {
            seq![("authorization"@, "Bearer "@ + self.api_key)]
        } else {
            seq![]
        }
    }

    /// Whether the key can be sent.
    pub open spec fn key_fits(self) -> bool {
        self.authorization().len() > 0 ==> header_text(self.authorization()[0].1)
    }

    /// The headers of a request: `content` and the key, unless the key cannot
    /// stand in a header.
    pub open spec fn headers(self, content: Seq<(Seq<char>, Seq<char>)>) -> Result<
        Seq<(Seq<char>, Seq<char>)>,
        ProviderFailure,
    > {
        if self.key_fits() {
            Ok(content + self.authorization())
        } else {
            Err(
                failure(
                    ErrorClass::BadRequest,
                    "api_key contains characters not allowed in HTTP headers"@,
                ),
            )
        }
    }
}

/// The header that announces a JSON body.
pub open spec fn json_content() -> Seq<(Seq<char>, Seq<char>)> {
    seq![("content-type"@, "application/json"@)]
}

impl Upstream {
    /// The upstream with the given configuration.
    pub fn new(
        variant: OpenAiVariant,
        label: &'static str,
        base_url: String,
        api_key: String,
    ) -> (r: Result<Upstream, ProviderError>)
        ensures
            match r {
                Ok(u) => configured(variant, label@, base_url@, api_key@) == Ok::<
                    UpstreamView,
                    ProviderFailure,
                >(u@),
                Err(e) => configured(variant, label@, base_url@, api_key@) == Err::<
                    UpstreamView,
                    ProviderFailure,
                >(e@),
            },
    {
        if base_url.as_str().is_empty() {
            return Err(ProviderError::BadRequest { message: "base_url is empty".to_owned() });
        }
        let base_url = if variant == OpenAiVariant::Azure {
            base_url
        } else {
            trim_end_matches(base_url.as_str(), '/')
        };
        Ok(Upstream { variant, label, base_url, api_key })
    }

    /// Which server it is.
    pub fn variant(&self) -> (r: OpenAiVariant)
        ensures
            r == self@.variant,
    {
        self.variant
    }

    /// The name under which calls are counted.
    pub fn label(&self) -> (r: &'static str)
        ensures
            r@ == self@.label,
    {
        self.label
    }

    /// The address that requests are sent to, or below.
    pub fn base_url(&self) -> (r: &str)
        ensures
            r@ == self@.base_url,
    {
        self.base_url.as_str()
    }

    /// The address of the endpoint with the given path.
    pub fn endpoint_url(&self, path: &str) -> (r: String)
        ensures
            r@ == self@.endpoint(path@),
    {
        if self.variant == OpenAiVariant::Azure {
            self.base_url.clone()
        } else {
            concat2(self.base_url.as_str(), path)
        }
    }

    /// The headers of a request whose body is a form.
    pub fn form_headers(&self) -> (r: Result<Vec<Header>, ProviderError>)
        ensures
            match r {
                Ok(h) => self@.headers(seq![]) == Ok::<
                    Seq<(Seq<char>, Seq<char>)>,
                    ProviderFailure,
                >(header_views(h@)),
                Err(e) => self@.headers(seq![]) == Err::<
                    Seq<(Seq<char>, Seq<char>)>,
                    ProviderFailure,
                >(e@),
            },
    {
        let mut h: Vec<Header> = Vec::new();
        if !self.authorize(&mut h) {
            return Err(bad_key());
        }
        assert(header_views(h@) =~= self@.authorization());
        assert(seq![] + self@.authorization() =~= self@.authorization());
        Ok(h)
    }

    /// The headers of a request whose body is a JSON document.
    pub fn json_headers(&self) -> (r: Result<Vec<Header>, ProviderError>)
        ensures
            match r {
                Ok(h) => self@.headers(json_content()) == Ok::<
                    Seq<(Seq<char>, Seq<char>)>,
                    ProviderFailure,
                >(header_views(h@)),
                Err(e) => self@.headers(json_content()) == Err::<
                    Seq<(Seq<char>, Seq<char>)>,
                    ProviderFailure,
                >(e@),
            },
    {
        let mut h: Vec<Header> = Vec::new();
        h.push(("content-type".to_owned(), "application/json".to_owned()));
        assert(header_views(h@) =~= json_content());
        if !self.authorize(&mut h) {
            return Err(bad_key());
        }
        assert(header_views(h@) =~= json_content() + self@.authorization());
        Ok(h)
    }

    /// Adds the header that carries the key, unless the key cannot stand in a
    /// header.
    fn authorize(&self, h: &mut Vec<Header>) -> (r: bool)
        ensures
            r == self@.key_fits(),
            r ==> header_views(final(h)@) == header_views(old(h)@) + self@.authorization(),
    {
        let (name, value) = if self.variant == OpenAiVariant::Azure {
            ("api-key", self.api_key.clone())
        } else if self.api_key.as_str().is_empty() {
            assert(header_views(h@) =~= header_views(old(h)@) + self@.authorization());
            return true;
        } else {
            ("authorization", concat2("Bearer ", self.api_key.as_str()))
        };
        assert(self@.authorization() =~= seq![(name@, value@)]);
        if !header_accepts(value.as_str()) {
            return false;
        }
        h.push((name.to_owned(), value));
        assert(header_views(h@) =~= header_views(old(h)@) + self@.authorization());
        true
    }
}

fn bad_key() -> (r: ProviderError)
    ensures
        r@ == failure(
            ErrorClass::BadRequest,
            "api_key contains characters not allowed in HTTP headers"@,
        ),
{
    ProviderError::BadRequest {
        message: "api_key contains characters not allowed in HTTP headers".to_owned(),
    }
}

// ---------------------------------------------------------------------------
// Exchanges
// ---------------------------------------------------------------------------
/// A request that posts a JSON document.
pub struct JsonRequest {
    pub url: String,
    pub headers: Vec<Header>,
    pub body: Json,
}

/// What a [`JsonRequest`] posts.
pub struct JsonPost {
    pub url: Seq<char>,
    pub headers: Seq<(Seq<char>, Seq<char>)>,
    pub body: JsonView,
}

impl View for JsonRequest {
    type V = JsonPost;

    open spec fn view(&self) -> JsonPost {
        JsonPost { url: self.url@, headers: header_views(self.headers@), body: self.body@ }
    }
}

impl UpstreamView {
    /// The request that posts `body` to the endpoint with the given path.
    pub open spec fn post(self, path: Seq<char>, body: JsonView) -> Result<
        JsonPost,
        ProviderFailure,
    > {
        match self.headers(json_content()) {
            Ok(headers) => Ok(JsonPost { url: self.endpoint(path), headers, body }),
            Err(e) => Err(e),
        }
    }
}

impl Upstream {
    /// The request that posts `body` to the endpoint with the given path.
    pub fn post(&self, path: &str, body: Json) -> (r: Result<JsonRequest, ProviderError>)
        ensures
            match r {
                Ok(p) => self@.post(path@, body@) == Ok::<JsonPost, ProviderFailure>(p@),
                Err(e) => self@.post(path@, body@) == Err::<JsonPost, ProviderFailure>(e@),
            },
    {
        match self.json_headers() {
            Ok(headers) => Ok(JsonRequest { url: self.endpoint_url(path), headers, body }),
            Err(e) => Err(e),
        }
    }
}

/// Why a request could not be sent.
pub struct TransportFault {
    pub timeout: bool,
    pub connect: bool,
    pub request: bool,
    pub body: bool,
    pub decode: bool,
    /// What the HTTP client says of it.
    pub detail: String,
}

/// How an exchange with the upstream went.
pub enum Exchange {
    SendFailed(TransportFault),
    /// The reply broke off; the text is what the HTTP client says of it.
    ReadFailed(String),
    Replied { status: u16, body: Vec<u8> },
}

/// What is known of a reply that could not be received.
pub open spec fn no_reply(prefix: Seq<char>, detail: Seq<char>) -> ProviderFailure {
    failure(ErrorClass::Network, prefix + detail)
}

/// The error for a reply that could not be received.
pub fn network_error(prefix: &str, detail: &str) -> (r: ProviderError)
    ensures
        r@ == no_reply(prefix@, detail@),
{
    ProviderError::Network { message: concat2(prefix, detail) }
}

/// The document of a body, once that went through the parser.
pub open spec fn parsed_body(parsed: Result<JsonView, Seq<char>>) -> Result<
    JsonView,
    ProviderFailure,
> {
    match parsed {
        Ok(value) => Ok(value),
        Err(e) => Err(failure(ErrorClass::Malformed, "parse response json: "@ + e)),
    }
}

/// The document of a body, with what the parser made of that.
pub fn accept_body(parsed: Result<Json, String>) -> (r: Result<Json, ProviderError>)
    ensures
        ({
            let given = match parsed {
                Ok(j) => Ok(j@),
                Err(e) => Err(e@),
            };
            match r {
                Ok(value) => parsed_body(given) == Ok::<JsonView, ProviderFailure>(value@),
                Err(e) => parsed_body(given) == Err::<JsonView, ProviderFailure>(e@),
            }
        }),
{
    match parsed {
        Ok(value) => Ok(value),
        Err(e) => Err(
            ProviderError::Malformed { message: concat2("parse response json: ", e.as_str()) },
        ),
    }
}

/// What comes of an exchange at an endpoint that takes one input and answers
/// with a JSON document: the document, or the failure.
pub open spec fn json_reply(exchange: Exchange) -> Result<JsonView, ProviderFailure> {
    match exchange {
        Exchange::SendFailed(fault) => Err(no_reply("send: "@, fault.detail@)),
        Exchange::ReadFailed(detail) => Err(no_reply("read body: "@, detail@)),
        Exchange::Replied { status, body } => if !success(status) {
            Err(status_failure(status, status_text(status), readable(body@)))
        } else {
            parsed_body(json_of_bytes(body@))
        },
    }
}

/// Takes the JSON document out of an exchange.
pub fn take_json(exchange: Exchange) -> (r: Result<Json, ProviderError>)
    ensures
        match r {
            Ok(value) => json_reply(exchange) == Ok::<JsonView, ProviderFailure>(value@),
            Err(e) => json_reply(exchange) == Err::<JsonView, ProviderFailure>(e@),
        },
{
    match exchange {
        Exchange::SendFailed(fault) => Err(network_error("send: ", fault.detail.as_str())),
        Exchange::ReadFailed(detail) => Err(network_error("read body: ", detail.as_str())),
        Exchange::Replied { status, body } => {
            if !is_success(status) {
                return Err(map_plain_status(status, body.as_slice()));
            }
            accept_body(parse_bytes(body.as_slice()))
        },
    }
}

// ---------------------------------------------------------------------------
// Status codes
// ---------------------------------------------------------------------------
/// Whether a status reports success.
pub open spec fn success(status: u16) -> bool {
    200 <= status < 300
}

/// Whether a status reports success.
pub fn is_success(status: u16) -> (r: bool)
    ensures
        r == success(status),
{
    200 <= status && status < 300
}

/// How `reqwest::StatusCode` prints a status, or the error with which it
/// refuses a number that is no status.
pub uninterp spec fn status_text(status: u16) -> Seq<char>;

/// `Display` of the status that `reqwest::StatusCode::from_u16` makes of a
/// number, or of its error, under the name [`status_text`].
#[verifier::external_body]
pub(crate) fn print_status(status: u16) -> (r: String)
    ensures
        r@ == status_text(status),
{
    match reqwest::StatusCode::from_u16(status) {
        Ok(code) => code.to_string(),
        Err(e) => e.to_string(),
    }
}

/// What a status that does not report success means to the endpoints that
/// take one input, where `text` is how the status is printed and `body` what
/// the reply says.
pub open spec fn status_failure(status: u16, text: Seq<char>, body: Seq<char>) -> ProviderFailure {
    if status == 401 || status == 403 {
        failure(ErrorClass::AuthFailed, body)
    } else if status == 429 {
        failure(ErrorClass::RateLimited, body)
    } else if 400 <= status < 500 {
        failure(ErrorClass::BadRequest, body)
    } else if 500 <= status < 600 {
        failure(ErrorClass::Server, body)
    } else {
        failure(ErrorClass::Network, "unexpected status "@ + text + ": "@ + body)
    }
}

/// The error for a status that does not report success, where `text` is how
/// the status is printed and `body` what the reply says.
pub fn classify_status(status: u16, text: &str, body: String) -> (r: ProviderError)
    ensures
        r@ == status_failure(status, text@, body@),
{
    if status == 401 || status == 403 {
        ProviderError::AuthFailed { message: body }
    } else if status == 429 {
        ProviderError::RateLimited { message: body }
    } else if 400 <= status && status < 500 {
        ProviderError::BadRequest { message: body }
    } else if 500 <= status && status < 600 {
        ProviderError::Server { message: body }
    } else {
        ProviderError::Network { message: concat4("unexpected status ", text, ": ", body.as_str()) }
    }
}

/// The error for a reply whose status does not report success.
pub fn map_plain_status(status: u16, body: &[u8]) -> (r: ProviderError)
    ensures
        r@ == status_failure(status, status_text(status), readable(body@)),
{
    let text = print_status(status);
    let body = lossy_text(body);
    classify_status(status, text.as_str(), body)
}

// ---------------------------------------------------------------------------
// Laws
// ---------------------------------------------------------------------------
proof fn lemma_no_trailing_char(s: Seq<char>, c: char)
    ensures
        trim_end_char(s, c).len() > 0 ==> trim_end_char(s, c).last() != c,
    decreases s.len(),
{
    if s.len() > 0 && s.last() == c {
        lemma_no_trailing_char(s.drop_last(), c);
    }
}

/// Requests for an Azure deployment go to the configured URL verbatim,
/// whatever the path of the endpoint is.
pub proof fn law_azure_url_is_verbatim(
    label: Seq<char>,
    base_url: Seq<char>,
    api_key: Seq<char>,
    path: Seq<char>,
)
    requires
        base_url.len() > 0,
    ensures
        configured(OpenAiVariant::Azure, label, base_url, api_key) matches Ok(u) && u.endpoint(path)
            == base_url,
{
}

/// Requests for the other servers go to the path below the configured URL;
/// it does not matter whether that ends with slashes.
pub proof fn law_paths_go_below_the_url(
    variant: OpenAiVariant,
    label: Seq<char>,
    base_url: Seq<char>,
    api_key: Seq<char>,
    path: Seq<char>,
)
    requires
        base_url.len() > 0,
        variant != OpenAiVariant::Azure,
    ensures
        configured(variant, label, base_url, api_key) matches Ok(u) && u.endpoint(path)
            == trim_end_char(base_url, '/') + path,
        configured(variant, label, base_url + seq!['/'], api_key) == configured(
            variant,
            label,
            base_url,
            api_key,
        ),
        trim_end_char(base_url, '/').len() > 0 ==> trim_end_char(base_url, '/').last() != '/',
{
    lemma_no_trailing_char(base_url, '/');
    let longer = base_url + seq!['/'];
    assert(longer.drop_last() =~= base_url);
    assert(trim_end_char(longer, '/') == trim_end_char(base_url, '/'));
}

/// Azure takes the key in a header of its own and the other servers as a
/// bearer token; an empty key is sent to Azure only.
pub proof fn law_the_key_has_one_header(u: UpstreamView)
    ensures
        u.variant == OpenAiVariant::Azure ==> u.authorization() == seq![("api-key"@, u.api_key)],
        u.variant != OpenAiVariant::Azure && u.api_key.len() > 0 ==> u.authorization() == seq![
            ("authorization"@, "Bearer "@ + u.api_key),
        ],
        u.variant != OpenAiVariant::Azure && u.api_key.len() == 0 ==> u.authorization().len() == 0,
        u.key_fits() ==> u.headers(json_content()) is Ok && u.headers(seq![]) is Ok,
{
}

/// A request is worth repeating after a rate limit, a fault of the upstream
/// or a status that is neither an answer nor a refusal, and never after any
/// other refusal.
pub proof fn law_status_retries(status: u16, text: Seq<char>, body: Seq<char>)
    ensures
        status_failure(status, text, body).class.retryable() <==> (status == 429 || !(400 <= status
            < 500)),
{
}

} // verus!
