//! OpenAI and Azure OpenAI backends for the MCPG gateway.
//!
//! Ten backends share one protocol: chat completions, embeddings, image
//! generation, text-to-speech and speech-to-text, each with the public API and
//! with an Azure deployment.  This library holds what they decide and compute:
//! what a request carries, what a reply means, how a streamed reply is put
//! together, which errors there are, and what is reported of a call.  It sends
//! nothing itself; the host sends the requests and hands the replies back.
//!
//! * [`json`] and [`text`] hold documents and strings, [`error`] the errors.
//! * [`upstream`] holds what the endpoints have in common: addresses, headers,
//!   and the meaning of a status.
//! * [`adapter`], [`embedding_adapter`], [`image_adapter`], [`tts_adapter`] and
//!   [`stt_adapter`] hold the endpoints; [`sse`] and [`stream`] hold streamed
//!   chat replies.
//! * [`config`] and [`profile`] hold the way from a configuration to an
//!   adapter.
//! * [`plugin`] and its siblings hold the backends, [`entity`] their names,
//!   [`registry`] their profiles, and [`call`] what calls have in common.
//! * [`host_handle_obs`] holds what is reported of a chat call, and [`cdylib`]
//!   the streams that are open across the boundary of the plugin.
//! * [`laws`] states what the operations are for.
pub mod adapter;
pub mod call;
pub mod cdylib;
pub mod config;
pub mod embedding_adapter;
pub mod embedding_plugin;
pub mod entity;
pub mod error;
pub mod host_handle_obs;
pub mod image_adapter;
pub mod image_plugin;
pub mod json;
pub mod laws;
pub mod normalized;
pub mod plugin;
pub mod profile;
pub mod registry;
pub mod sse;
pub mod stream;
pub mod stt_adapter;
pub mod stt_plugin;
pub mod text;
pub mod tts_adapter;
pub mod tts_plugin;
pub mod upstream;

pub use adapter::OpenAiAdapter;
pub use config::{
    AzureOpenaiChatSpec, AzureOpenaiEmbeddingSpec, AzureOpenaiImageSpec, AzureOpenaiSttSpec,
    AzureOpenaiTtsSpec, OpenAiChatSpec, OpenAiEmbeddingSpec, OpenAiImageSpec, OpenAiSttSpec,
    OpenAiTtsSpec,
};
pub use embedding_adapter::{OpenAiEmbeddingAdapter, OPENAI_MAX_INPUTS};
pub use embedding_plugin::{AzureOpenaiEmbeddingPlugin, OpenAiEmbeddingPlugin};
pub use image_adapter::OpenAiImageAdapter;
pub use image_plugin::{AzureOpenaiImagePlugin, OpenAiImagePlugin};
pub use plugin::{AzureOpenaiChatPlugin, OpenAiChatPlugin};
pub use stt_adapter::OpenAiSttAdapter;
pub use stt_plugin::{AzureOpenaiSttPlugin, OpenAiSttPlugin};
pub use tts_adapter::OpenAiTtsAdapter;
pub use tts_plugin::{AzureOpenaiTtsPlugin, OpenAiTtsPlugin};
pub use upstream::OpenAiVariant;
