//! Chat requests and replies in the form that is common to all providers.
use vstd::prelude::*;

use crate::json::{Json, JsonView};

verus! {

/// Who speaks a message.
#[derive(Debug, Clone, Copy, PartialEq, Eq, Structural)]
pub enum Role {
    System,
    User,
    Assistant,
    Tool,
}

/// How closely the model looks at an image.
#[derive(Debug, Clone, Copy, PartialEq, Eq, Structural)]
pub enum ImageDetail {
    Auto,
    High,
    Low,
}

/// The encoding of audio bytes.
#[derive(Debug, Clone, Copy, PartialEq, Eq, Structural)]
pub enum AudioFormat {
    Mp3,
    Wav,
    Flac,
    Ogg,
    Aac,
    Pcm,
}

/// Where an image comes from.
#[derive(Debug)]
pub enum ImageSource {
    Url(String),
    Base64 { mime_type: String, data: String },
    /// A `mcpg-resource://` URI that was not resolved.
    McpResource(String),
}

/// An image in a message.
#[derive(Debug)]
pub struct ImageContent {
    pub source: ImageSource,
    pub detail: Option<ImageDetail>,
}

/// Where audio comes from.
#[derive(Debug)]
pub enum AudioSource {
    Url(String),
    Base64 { data: String },
    /// A `mcpg-resource://` URI that was not resolved.
    McpResource(String),
}

/// Audio in a message.
#[derive(Debug)]
pub struct AudioContent {
    pub source: AudioSource,
    pub format: AudioFormat,
}

/// Where a document comes from.
#[derive(Debug)]
pub enum FileSource {
    Url(String),
    Base64 { data: String },
    /// A `mcpg-resource://` URI that was not resolved.
    McpResource(String),
}

/// A document in a message.
#[derive(Debug)]
pub struct FileContent {
    pub source: FileSource,
    pub mime_type: String,
    pub filename: Option<String>,
}

/// One part of a message.
#[derive(Debug)]
pub enum ContentPart {
    Text(String),
    Image(ImageContent),
    Audio(AudioContent),
    File(FileContent),
}

/// What a message says.
#[derive(Debug)]
pub enum MessageContent {
    Text(String),
    /// Several parts, and the text that they flatten to where only text can
    /// stand.
    Parts { parts: Vec<ContentPart>, text: String },
}

impl MessageContent {
    /// The content as plain text.
    pub open spec fn text(self) -> Seq<char> {
        match self {
            MessageContent::Text(s) => s@,
            MessageContent::Parts { text, .. } => text@,
        }
    }

    /// The content as plain text.
    pub fn as_text(&self) -> (r: &str)
        ensures
            r@ == self.text(),
    {
        match self {
            MessageContent::Text(s) => s.as_str(),
            MessageContent::Parts { text, .. } => text.as_str(),
        }
    }
}

/// A call of a tool that the model asks for.
#[derive(Debug)]
pub struct ToolCall {
    pub id: String,
    pub name: String,
    pub arguments: Json,
}

/// What a [`ToolCall`] asks for.
pub struct ToolCallView {
    pub id: Seq<char>,
    pub name: Seq<char>,
    pub arguments: JsonView,
}

impl View for ToolCall {
    type V = ToolCallView;

    open spec fn view(&self) -> ToolCallView {
        ToolCallView { id: self.id@, name: self.name@, arguments: self.arguments@ }
    }
}

/// The calls of tools, each as what it asks for.
pub open spec fn call_views(calls: Seq<ToolCall>) -> Seq<ToolCallView> {
    calls.map_values(|c: ToolCall| c@)
}

/// A message of a conversation.
#[derive(Debug)]
pub struct Message {
    pub role: Role,
    pub content: MessageContent,
    /// The tools that an assistant message calls.
    pub tool_calls: Vec<ToolCall>,
    /// The call that a tool message answers.
    pub tool_call_id: Option<String>,
}

/// A tool that the model may call.
#[derive(Debug)]
pub struct ToolDef {
    pub name: String,
    pub description: String,
    /// The JSON Schema of the arguments.
    pub parameters: Json,
}

/// Whether the model may, must or must not call tools.
#[derive(Debug, Clone, Copy, PartialEq, Eq, Structural)]
pub enum ToolChoiceWire {
    Auto,
    Required,
    Never,
}

/// A chat request.
#[derive(Debug)]
pub struct NormalizedChatRequest {
    pub model: String,
    pub messages: Vec<Message>,
    /// The JSON Schema that the reply has to satisfy.
    pub response_schema: Option<Json>,
    pub strict_response: bool,
    pub tools: Vec<ToolDef>,
    pub tool_choice: ToolChoiceWire,
    /// The sampling temperature as the JSON value that is sent.
    pub temperature: Option<Json>,
    /// The nucleus-sampling mass as the JSON value that is sent.
    pub top_p: Option<Json>,
    pub max_completion_tokens: Option<u64>,
    /// The seed as the JSON value that is sent.
    pub seed: Option<Json>,
}

/// Why the model stopped.
#[derive(Debug, Clone, Copy, PartialEq, Eq, Structural)]
pub enum FinishReason {
    Stop,
    ToolCalls,
    Length,
    ContentFilter,
    Other,
}

/// How many tokens a call took.
#[derive(Debug, Clone, Copy, PartialEq, Eq, Structural)]
pub struct TokenUsage {
    pub input_tokens: u32,
    pub output_tokens: u32,
    pub cached_input_tokens: u32,
}

/// No tokens at all.
pub open spec fn no_usage() -> TokenUsage {
    TokenUsage { input_tokens: 0, output_tokens: 0, cached_input_tokens: 0 }
}

impl Default for TokenUsage {
    fn default() -> (r: TokenUsage)
        ensures
            r == no_usage(),
    {
        TokenUsage { input_tokens: 0, output_tokens: 0, cached_input_tokens: 0 }
    }
}

/// A chat reply.
#[derive(Debug)]
pub struct NormalizedChatResponse {
    pub content: String,
    pub tool_calls: Vec<ToolCall>,
    pub finish_reason: FinishReason,
    pub usage: TokenUsage,
}

/// What a [`NormalizedChatResponse`] says.
pub struct ChatReply {
    pub content: Seq<char>,
    pub tool_calls: Seq<ToolCallView>,
    pub finish_reason: FinishReason,
    pub usage: TokenUsage,
}

impl View for NormalizedChatResponse {
    type V = ChatReply;

    open spec fn view(&self) -> ChatReply {
        ChatReply {
            content: self.content@,
            tool_calls: call_views(self.tool_calls@),
            finish_reason: self.finish_reason,
            usage: self.usage,
        }
    }
}

} // verus!
