//! The configuration of a binding.
//!
//! Each kind of binding has a few knobs of its own, the key and the base URL;
//! the rest is common to all providers.  Of that rest only what the backends
//! read is held here, together with the verdict of the host, which validates
//! it.
use vstd::prelude::*;

use crate::error::ConfigError;
use crate::text::{blank, is_blank};

verus! {

/// A key of the upstream API.  It cannot be printed.
pub struct ApiKeyRef {
    key: String,
}

impl View for ApiKeyRef {
    type V = Seq<char>;

    closed spec fn view(&self) -> Seq<char> {
        self.key@
    }
}

impl ApiKeyRef {
    /// The given key.
    pub fn new(key: &str) -> (r: ApiKeyRef)
        ensures
            r@ == key@,
    {
        ApiKeyRef { key: key.to_owned() }
    }

    /// The key itself.
    pub fn expose(&self) -> (r: &str)
        ensures
            r@ == self@,
    {
        self.key.as_str()
    }
}

/// What a chat reply has to be.
#[derive(Debug, Clone, Copy, PartialEq, Eq, Structural)]
pub enum ResponseFormatMode {
    /// A document that satisfies a JSON Schema.
    JsonSchema,
    /// Any text.
    Text,
}

/// The common configuration of a binding.
pub struct ExecutionSpec {
    pub model: String,
    pub connect_timeout_ms: u64,
    /// What the host's validation says of the common configuration.
    pub checked: Result<(), ConfigError>,
}

/// The common configuration of a chat binding.
pub struct ChatExecutionSpec {
    pub model: String,
    pub connect_timeout_ms: u64,
    pub response_format: ResponseFormatMode,
    /// What the host's validation says of the common configuration.
    pub checked: Result<(), ConfigError>,
}

/// Why a configuration is refused, or nothing if it is not.
pub open spec fn refusal(verdict: Result<(), ConfigError>) -> Option<Seq<char>> {
    match verdict {
        Ok(_) => None,
        Err(e) => Some(e@),
    }
}

/// The same verdict once more.
fn repeat_verdict(verdict: &Result<(), ConfigError>) -> (r: Result<(), ConfigError>)
    ensures
        refusal(r) == refusal(*verdict),
{
    match verdict {
        Ok(_) => Ok(()),
        Err(e) => Err(e.clone()),
    }
}

impl ExecutionSpec {
    /// The verdict of the host.
    pub fn validate(&self) -> (r: Result<(), ConfigError>)
        ensures
            refusal(r) == refusal(self.checked),
    {
        repeat_verdict(&self.checked)
    }
}

impl ChatExecutionSpec {
    /// The verdict of the host.
    pub fn validate(&self) -> (r: Result<(), ConfigError>)
        ensures
            refusal(r) == refusal(self.checked),
    {
        repeat_verdict(&self.checked)
    }
}

/// The base URL of the public API.
pub const PUBLIC_BASE_URL: &'static str = "https://api.openai.com/v1";

/// The base URL that is configured, or that of the public API.
pub open spec fn base_url_or_public(base_url: Option<String>) -> Seq<char> {
    match base_url {
        Some(url) => url@,
        None => PUBLIC_BASE_URL@,
    }
}

/// Why a configuration with the given base URL is refused: the URL has to be
/// there, and then the verdict of the host counts.
pub open spec fn azure_refusal(
    base_url: Seq<char>,
    message: Seq<char>,
    verdict: Result<(), ConfigError>,
) -> Option<Seq<char>> {
    if blank(base_url) {
        Some(message)
    } else {
        refusal(verdict)
    }
}

/// The configuration of a binding for chat completions with the public API.
pub struct OpenAiChatSpec {
    /// Another base URL than that of the public API.
    pub base_url: Option<String>,
    pub api_key: ApiKeyRef,
    pub chat: ChatExecutionSpec,
}

impl OpenAiChatSpec {
    /// The base URL of the public API.
    pub const DEFAULT_BASE_URL: &'static str = "https://api.openai.com/v1";

    /// Whether the configuration can be used.
    pub fn validate(&self) -> (r: Result<(), ConfigError>)
        ensures
            refusal(r) == refusal(self.chat.checked),
    {
        self.chat.validate()
    }

    /// The base URL that requests go to.
    pub fn resolved_base_url(&self) -> (r: &str)
        ensures
            r@ == base_url_or_public(self.base_url),
    {
        match &self.base_url {
            Some(url) => url.as_str(),
            None => Self::DEFAULT_BASE_URL,
        }
    }
}

/// The configuration of a binding for chat completions with an Azure deployment.
pub struct AzureOpenaiChatSpec {
    /// The whole URL of the deployment, with the API version.
    pub base_url: String,
    pub api_key: ApiKeyRef,
    pub chat: ChatExecutionSpec,
}

impl AzureOpenaiChatSpec {
    /// Whether the configuration can be used.
    pub fn validate(&self) -> (r: Result<(), ConfigError>)
        ensures
            refusal(r) == azure_refusal(
                self.base_url@,
                "azure_openai_chat: base_url is required (operator must include the deployment + ?api-version=… in the URL)"@,
                self.chat.checked,
            ),
    {
        if is_blank(self.base_url.as_str()) {
            return Err(
                ConfigError::InvalidSpec(
                    "azure_openai_chat: base_url is required (operator must include the deployment + ?api-version=… in the URL)".to_owned(),
                ),
            );
        }
        self.chat.validate()
    }
}

/// The configuration of a binding for embeddings with the public API.
pub struct OpenAiEmbeddingSpec {
    /// Another base URL than that of the public API.
    pub base_url: Option<String>,
    pub api_key: ApiKeyRef,
    pub embedding: ExecutionSpec,
}

impl OpenAiEmbeddingSpec {
    /// The base URL of the public API.
    pub const DEFAULT_BASE_URL: &'static str = "https://api.openai.com/v1";

    /// Whether the configuration can be used.
    pub fn validate(&self) -> (r: Result<(), ConfigError>)
        ensures
            refusal(r) == refusal(self.embedding.checked),
    {
        self.embedding.validate()
    }

    /// The base URL that requests go to.
    pub fn resolved_base_url(&self) -> (r: &str)
        ensures
            r@ == base_url_or_public(self.base_url),
    {
        match &self.base_url {
            Some(url) => url.as_str(),
            None => Self::DEFAULT_BASE_URL,
        }
    }
}

/// The configuration of a binding for embeddings with an Azure deployment.
pub struct AzureOpenaiEmbeddingSpec {
    /// The whole URL of the deployment, with the API version.
    pub base_url: String,
    pub api_key: ApiKeyRef,
    pub embedding: ExecutionSpec,
}

impl AzureOpenaiEmbeddingSpec {
    /// Whether the configuration can be used.
    pub fn validate(&self) -> (r: Result<(), ConfigError>)
        ensures
            refusal(r) == azure_refusal(
                self.base_url@,
                "azure_openai_embedding: base_url is required (operator must include the deployment + ?api-version=… in the URL)"@,
                self.embedding.checked,
            ),
    {
        if is_blank(self.base_url.as_str()) {
            return Err(
                ConfigError::InvalidSpec(
                    "azure_openai_embedding: base_url is required (operator must include the deployment + ?api-version=… in the URL)".to_owned(),
                ),
            );
        }
        self.embedding.validate()
    }
}

/// The configuration of a binding for image generation with the public API.
pub struct OpenAiImageSpec {
    /// Another base URL than that of the public API.
    pub base_url: Option<String>,
    pub api_key: ApiKeyRef,
    pub image: ExecutionSpec,
}

impl OpenAiImageSpec {
    /// The base URL of the public API.
    pub const DEFAULT_BASE_URL: &'static str = "https://api.openai.com/v1";

    /// Whether the configuration can be used.
    pub fn validate(&self) -> (r: Result<(), ConfigError>)
        ensures
            refusal(r) == refusal(self.image.checked),
    {
        self.image.validate()
    }

    /// The base URL that requests go to.
    pub fn resolved_base_url(&self) -> (r: &str)
        ensures
            r@ == base_url_or_public(self.base_url),
    {
        match &self.base_url {
            Some(url) => url.as_str(),
            None => Self::DEFAULT_BASE_URL,
        }
    }
}

/// The configuration of a binding for image generation with an Azure deployment.
pub struct AzureOpenaiImageSpec {
    /// The whole URL of the deployment, with the API version.
    pub base_url: String,
    pub api_key: ApiKeyRef,
    pub image: ExecutionSpec,
}

impl AzureOpenaiImageSpec {
    /// Whether the configuration can be used.
    pub fn validate(&self) -> (r: Result<(), ConfigError>)
        ensures
            refusal(r) == azure_refusal(
                self.base_url@,
                "azure_openai_image: base_url is required (operator must include the deployment + ?api-version=… in the URL)"@,
                self.image.checked,
            ),
    {
        if is_blank(self.base_url.as_str()) {
            return Err(
                ConfigError::InvalidSpec(
                    "azure_openai_image: base_url is required (operator must include the deployment + ?api-version=… in the URL)".to_owned(),
                ),
            );
        }
        self.image.validate()
    }
}

/// The configuration of a binding for text-to-speech with the public API.
pub struct OpenAiTtsSpec {
    /// Another base URL than that of the public API.
    pub base_url: Option<String>,
    pub api_key: ApiKeyRef,
    pub tts: ExecutionSpec,
}

impl OpenAiTtsSpec {
    /// The base URL of the public API.
    pub const DEFAULT_BASE_URL: &'static str = "https://api.openai.com/v1";

    /// Whether the configuration can be used.
    pub fn validate(&self) -> (r: Result<(), ConfigError>)
        ensures
            refusal(r) == refusal(self.tts.checked),
    {
        self.tts.validate()
    }

    /// The base URL that requests go to.
    pub fn resolved_base_url(&self) -> (r: &str)
        ensures
            r@ == base_url_or_public(self.base_url),
    {
        match &self.base_url {
            Some(url) => url.as_str(),
            None => Self::DEFAULT_BASE_URL,
        }
    }
}

/// The configuration of a binding for text-to-speech with an Azure deployment.
pub struct AzureOpenaiTtsSpec {
    /// The whole URL of the deployment, with the API version.
    pub base_url: String,
    pub api_key: ApiKeyRef,
    pub tts: ExecutionSpec,
}

impl AzureOpenaiTtsSpec {
    /// Whether the configuration can be used.
    pub fn validate(&self) -> (r: Result<(), ConfigError>)
        ensures
            refusal(r) == azure_refusal(
                self.base_url@,
                "azure_openai_tts: base_url is required"@,
                self.tts.checked,
            ),
    {
        if is_blank(self.base_url.as_str()) {
            return Err(
                ConfigError::InvalidSpec(
                    "azure_openai_tts: base_url is required".to_owned(),
                ),
            );
        }
        self.tts.validate()
    }
}

/// The configuration of a binding for speech-to-text with the public API.
pub struct OpenAiSttSpec {
    /// Another base URL than that of the public API.
    pub base_url: Option<String>,
    pub api_key: ApiKeyRef,
    pub stt: ExecutionSpec,
}

impl OpenAiSttSpec {
    /// The base URL of the public API.
    pub const DEFAULT_BASE_URL: &'static str = "https://api.openai.com/v1";

    /// Whether the configuration can be used.
    pub fn validate(&self) -> (r: Result<(), ConfigError>)
        ensures
            refusal(r) == refusal(self.stt.checked),
    {
        self.stt.validate()
    }

    /// The base URL that requests go to.
    pub fn resolved_base_url(&self) -> (r: &str)
        ensures
            r@ == base_url_or_public(self.base_url),
    {
        match &self.base_url {
            Some(url) => url.as_str(),
            None => Self::DEFAULT_BASE_URL,
        }
    }
}

/// The configuration of a binding for speech-to-text with an Azure deployment.
pub struct AzureOpenaiSttSpec {
    /// The whole URL of the deployment, with the API version.
    pub base_url: String,
    pub api_key: ApiKeyRef,
    pub stt: ExecutionSpec,
}

impl AzureOpenaiSttSpec {
    /// Whether the configuration can be used.
    pub fn validate(&self) -> (r: Result<(), ConfigError>)
        ensures
            refusal(r) == azure_refusal(
                self.base_url@,
                "azure_openai_stt: base_url is required"@,
                self.stt.checked,
            ),
    {
        if is_blank(self.base_url.as_str()) {
            return Err(
                ConfigError::InvalidSpec(
                    "azure_openai_stt: base_url is required".to_owned(),
                ),
            );
        }
        self.stt.validate()
    }
}

} // verus!
