//! OpenAI chat completions.
//!
//! Azure OpenAI and OpenAI-compatible servers speak the same protocol: only
//! the URL and the header that carries the key differ, see [`OpenAiVariant`].
use vstd::prelude::*;
use vstd::utf8::{encode_scalar, encode_utf8, is_ascii_chars, is_ascii_chars_encode_utf8};

use crate::error::{failure, ErrorClass, ProviderError, ProviderFailure};
use crate::json::{
    group_fields, item_views, json_of_bytes, json_of_text, json_text, lemma_item_views_push,
    lemma_last_field_counts, lemma_no_such_field, object, optional, optional_json, optional_str,
    parse_bytes, parse_text, plain, print, reads_back, Fields, Json, JsonView, PARSER_DEPTH,
};
use crate::normalized::{
    call_views, no_usage, AudioFormat, AudioSource, ChatReply, ContentPart, FileSource,
    FinishReason, ImageDetail, ImageSource, Message, MessageContent, NormalizedChatRequest,
    NormalizedChatResponse, Role, TokenUsage, ToolCall, ToolCallView, ToolChoiceWire, ToolDef,
};
use crate::text::{
    concat2, concat3, concat4, contains, head_within, lemma_encode_add, lossy_text, occurs_at,
    readable, str_contains, str_eq, take_within,
};
use crate::upstream::{
    configured, header_views, is_success, json_content, network_error, no_reply, success, Exchange,
    Header, JsonPost, JsonRequest, OpenAiVariant, TransportFault, Upstream, UpstreamView,
};

verus! {

// ---------------------------------------------------------------------------
// Request encoding
// ---------------------------------------------------------------------------
/// How a detail level is written.
pub open spec fn detail_label(d: ImageDetail) -> Seq<char> {
    match d {
        ImageDetail::Auto => "auto"@,
        ImageDetail::High => "high"@,
        ImageDetail::Low => "low"@,
    }
}

/// How a detail level is written.
pub fn image_detail_label(d: ImageDetail) -> (r: &'static str)
    ensures
        r@ == detail_label(d),
{
    match d {
        ImageDetail::Auto => "auto",
        ImageDetail::High => "high",
        ImageDetail::Low => "low",
    }
}

/// How an audio format is written.
pub open spec fn format_label(f: AudioFormat) -> Seq<char> {
    match f {
        AudioFormat::Mp3 => "mp3"@,
        AudioFormat::Wav => "wav"@,
        AudioFormat::Flac => "flac"@,
        AudioFormat::Ogg => "ogg"@,
        AudioFormat::Aac => "aac"@,
        AudioFormat::Pcm => "pcm"@,
    }
}

/// How an audio format is written.
pub fn audio_format_label(f: AudioFormat) -> (r: &'static str)
    ensures
        r@ == format_label(f),
{
    match f {
        AudioFormat::Mp3 => "mp3",
        AudioFormat::Wav => "wav",
        AudioFormat::Flac => "flac",
        AudioFormat::Ogg => "ogg",
        AudioFormat::Aac => "aac",
        AudioFormat::Pcm => "pcm",
    }
}

/// The object of the given type with one more member.
pub open spec fn typed(kind: Seq<char>, name: Seq<char>, value: JsonView) -> JsonView {
    object(seq![("type"@, JsonView::Str(kind)), (name, value)])
}

/// A text part.
pub open spec fn text_part(text: Seq<char>) -> JsonView {
    typed("text"@, "text"@, JsonView::Str(text))
}

/// An image part.
pub open spec fn image_part(url: Seq<char>, detail: Option<ImageDetail>) -> JsonView {
    let label = match detail {
        Some(d) => Some(JsonView::Str(detail_label(d))),
        None => None,
    };
    typed(
        "image_url"@,
        "image_url"@,
        object(seq![("url"@, JsonView::Str(url))] + optional("detail"@, label)),
    )
}

/// The `data:` URL of base64 data.
pub open spec fn data_url(mime_type: Seq<char>, data: Seq<char>) -> Seq<char> {
    "data:"@ + mime_type + ";base64,"@ + data
}

/// What a part of a user message is sent as.
pub open spec fn part_json(part: ContentPart) -> JsonView {
    match part {
        ContentPart::Text(s) => text_part(s@),
        ContentPart::Image(image) => match image.source {
            ImageSource::Url(url) => image_part(url@, image.detail),
            ImageSource::Base64 { mime_type, data } => image_part(
                data_url(mime_type@, data@),
                image.detail,
            ),
            ImageSource::McpResource(uri) => text_part(
                "[unresolved image resource: "@ + uri@ + "]"@,
            ),
        },
        ContentPart::Audio(audio) => match audio.source {
            AudioSource::Url(url) => text_part("[audio url: "@ + url@ + "]"@),
            AudioSource::Base64 { data } => typed(
                "input_audio"@,
                "input_audio"@,
                object(
                    seq![
                        ("data"@, JsonView::Str(data@)),
                        ("format"@, JsonView::Str(format_label(audio.format))),
                    ],
                ),
            ),
            AudioSource::McpResource(uri) => text_part(
                "[unresolved audio resource: "@ + uri@ + "]"@,
            ),
        },
        ContentPart::File(file) => match file.source {
            FileSource::Url(url) => file_part(url@, file.filename),
            FileSource::Base64 { data } => file_part(
                data_url(file.mime_type@, data@),
                file.filename,
            ),
            FileSource::McpResource(uri) => text_part(
                "[unresolved file resource: "@ + uri@ + "]"@,
            ),
        },
    }
}

/// A document part.
pub open spec fn file_part(url: Seq<char>, filename: Option<String>) -> JsonView {
    typed(
        "file"@,
        "file"@,
        object(
            seq![("file_data"@, JsonView::Str(url))] + optional(
                "filename"@,
                optional_str(filename),
            ),
        ),
    )
}

fn encode_typed(kind: &str, name: &str, value: Json) -> (r: Json)
    ensures
        r@ == typed(kind@, name@, value@),
{
    let mut f = Fields::new();
    f.put_str("type", kind);
    f.put(name, value);
    assert(f@ =~= seq![("type"@, JsonView::Str(kind@)), (name@, value@)]);
    f.into_json()
}

fn encode_text_part(text: &str) -> (r: Json)
    ensures
        r@ == text_part(text@),
{
    encode_typed("text", "text", Json::string(text))
}

fn encode_image_part(url: &str, detail: Option<ImageDetail>) -> (r: Json)
    ensures
        r@ == image_part(url@, detail),
{
    let label = match detail {
        Some(d) => Some(Json::string(image_detail_label(d))),
        None => None,
    };
    let mut f = Fields::new();
    f.put_str("url", url);
    f.put_opt("detail", &label);
    encode_typed("image_url", "image_url", f.into_json())
}

fn encode_file_part(url: &str, filename: &Option<String>) -> (r: Json)
    ensures
        r@ == file_part(url@, *filename),
{
    let mut f = Fields::new();
    f.put_str("file_data", url);
    f.put_opt_str("filename", filename);
    encode_typed("file", "file", f.into_json())
}

/// Encodes one part of a user message.
pub fn encode_part(part: &ContentPart) -> (r: Json)
    ensures
        r@ == part_json(*part),
{
    match part {
        ContentPart::Text(s) => encode_text_part(s.as_str()),
        ContentPart::Image(image) => match &image.source {
            ImageSource::Url(url) => encode_image_part(url.as_str(), image.detail),
            ImageSource::Base64 { mime_type, data } => {
                let url = concat4("data:", mime_type.as_str(), ";base64,", data.as_str());
                encode_image_part(url.as_str(), image.detail)
            },
            ImageSource::McpResource(uri) => {
                let text = concat3("[unresolved image resource: ", uri.as_str(), "]");
                encode_text_part(text.as_str())
            },
        },
        ContentPart::Audio(audio) => match &audio.source {
            AudioSource::Url(url) => {
                let text = concat3("[audio url: ", url.as_str(), "]");
                encode_text_part(text.as_str())
            },
            AudioSource::Base64 { data } => {
                let mut f = Fields::new();
                f.put_str("data", data.as_str());
                f.put_str("format", audio_format_label(audio.format));
                assert(f@ =~= seq![
                    ("data"@, JsonView::Str(data@)),
                    ("format"@, JsonView::Str(format_label(audio.format))),
                ]);
                encode_typed("input_audio", "input_audio", f.into_json())
            },
            AudioSource::McpResource(uri) => {
                let text = concat3("[unresolved audio resource: ", uri.as_str(), "]");
                encode_text_part(text.as_str())
            },
        },
        ContentPart::File(file) => match &file.source {
            FileSource::Url(url) => encode_file_part(url.as_str(), &file.filename),
            FileSource::Base64 { data } => {
                let url = concat4("data:", file.mime_type.as_str(), ";base64,", data.as_str());
                encode_file_part(url.as_str(), &file.filename)
            },
            FileSource::McpResource(uri) => {
                let text = concat3("[unresolved file resource: ", uri.as_str(), "]");
                encode_text_part(text.as_str())
            },
        },
    }
}

/// What the parts of a user message are sent as.
pub open spec fn parts_json(parts: Seq<ContentPart>) -> JsonView {
    JsonView::Array(parts.map_values(|p: ContentPart| part_json(p)))
}

/// Encodes the parts of a user message.
///
/// Every part becomes one item: a source that the host did not resolve is
/// named in a text item, so that the model sees what is missing.
pub fn encode_user_parts(parts: &[ContentPart]) -> (r: Json)
    ensures
        r@ == parts_json(parts@),
{
    let mut items: Vec<Json> = Vec::new();
    let mut i: usize = 0;
    while i < parts.len()
        invariant
            i <= parts@.len(),
            item_views(items@) =~= parts@.map_values(|p: ContentPart| part_json(p)).take(i as int),
        decreases parts@.len() - i,
    {
        broadcast use lemma_item_views_push;

        items.push(encode_part(&parts[i]));
        i += 1;
    }
    assert(item_views(items@) =~= parts@.map_values(|p: ContentPart| part_json(p)));
    Json::Array(items)
}

/// What a call of a tool is sent as.  The arguments travel as the text of a
/// JSON document.
pub open spec fn call_json(call: ToolCall) -> JsonView {
    object(
        seq![
            ("id"@, JsonView::Str(call.id@)),
            ("type"@, JsonView::Str("function"@)),
            (
                "function"@,
                object(
                    seq![
                        ("name"@, JsonView::Str(call.name@)),
                        ("arguments"@, JsonView::Str(json_text(call.arguments@))),
                    ],
                ),
            ),
        ],
    )
}

/// What the calls of tools are sent as.
pub open spec fn calls_json(calls: Seq<ToolCall>) -> JsonView {
    JsonView::Array(calls.map_values(|c: ToolCall| call_json(c)))
}

/// What the content of a user message is sent as.
pub open spec fn user_content_json(content: MessageContent) -> JsonView {
    match content {
        MessageContent::Text(s) => JsonView::Str(s@),
        MessageContent::Parts { parts, .. } => parts_json(parts@),
    }
}

/// The text that is there, or the empty text.
pub open spec fn or_empty(text: Option<String>) -> Seq<char> {
    match text {
        Some(s) => s@,
        None => seq![],
    }
}

/// What a message is sent as.
pub open spec fn message_json(message: Message) -> JsonView {
    let text = message.content.text();
    match message.role {
        Role::System => object(
            seq![("role"@, JsonView::Str("system"@)), ("content"@, JsonView::Str(text))],
        ),
        Role::User => object(
            seq![
                ("role"@, JsonView::Str("user"@)),
                ("content"@, user_content_json(message.content)),
            ],
        ),
        Role::Assistant => object(
            seq![
                ("role"@, JsonView::Str("assistant"@)),
                (
                    "content"@,
                    if text.len() == 0 {
                        JsonView::Null
                    } else {
                        JsonView::Str(text)
                    },
                ),
            ] + optional(
                "tool_calls"@,
                if message.tool_calls@.len() == 0 {
                    None
                } else {
                    Some(calls_json(message.tool_calls@))
                },
            ),
        ),
        Role::Tool => object(
            seq![
                ("role"@, JsonView::Str("tool"@)),
                ("tool_call_id"@, JsonView::Str(or_empty(message.tool_call_id))),
                ("content"@, JsonView::Str(text)),
            ],
        ),
    }
}

/// What the messages of a conversation are sent as.
pub open spec fn messages_json(messages: Seq<Message>) -> JsonView {
    JsonView::Array(messages.map_values(|m: Message| message_json(m)))
}

/// Whether the arguments of the calls are plain documents.
pub open spec fn plain_calls(calls: Seq<ToolCall>) -> bool {
    forall|i: int|
        0 <= i < calls.len() ==> plain((#[trigger] calls[i]).arguments@, PARSER_DEPTH as nat)
}

/// Whether the arguments of the calls come back if they are printed and parsed.
pub open spec fn readable_calls(calls: Seq<ToolCall>) -> bool {
    forall|i: int| 0 <= i < calls.len() ==> reads_back((#[trigger] calls[i]).arguments@)
}

fn encode_call(call: &ToolCall) -> (r: Json)
    ensures
        r@ == call_json(*call),
        plain(call.arguments@, PARSER_DEPTH as nat) ==> reads_back(call.arguments@),
{
    let arguments = print(&call.arguments);
    let mut function = Fields::new();
    function.put_str("name", call.name.as_str());
    function.put_str("arguments", arguments.as_str());
    assert(function@ =~= seq![
        ("name"@, JsonView::Str(call.name@)),
        ("arguments"@, JsonView::Str(json_text(call.arguments@))),
    ]);
    let mut f = Fields::new();
    f.put_str("id", call.id.as_str());
    f.put_str("type", "function");
    f.put("function", function.into_json());
    assert(f@ =~= seq![
        ("id"@, JsonView::Str(call.id@)),
        ("type"@, JsonView::Str("function"@)),
        ("function"@, object(function@)),
    ]);
    f.into_json()
}

fn encode_calls(calls: &[ToolCall]) -> (r: Json)
    ensures
        r@ == calls_json(calls@),
        plain_calls(calls@) ==> readable_calls(calls@),
{
    let mut items: Vec<Json> = Vec::new();
    let mut i: usize = 0;
    while i < calls.len()
        invariant
            i <= calls@.len(),
            item_views(items@) =~= calls@.map_values(|c: ToolCall| call_json(c)).take(i as int),
            forall|j: int|
                0 <= j < i && plain((#[trigger] calls@[j]).arguments@, PARSER_DEPTH as nat)
                    ==> reads_back(calls@[j].arguments@),
        decreases calls@.len() - i,
    {
        broadcast use lemma_item_views_push;

        items.push(encode_call(&calls[i]));
        i += 1;
    }
    assert(item_views(items@) =~= calls@.map_values(|c: ToolCall| call_json(c)));
    Json::Array(items)
}

/// The reply whose only choice is the given message.
pub open spec fn reply_with(message: JsonView) -> JsonView {
    object(seq![("choices"@, JsonView::Array(seq![object(seq![("message"@, message)])]))])
}

/// Whether a reply that brings what was sent for `message` is read as that
/// message: its text, and its calls.
pub open spec fn comes_back(message: Message, sent: JsonView) -> bool {
    decoded_reply(reply_with(sent)) matches Ok(reply) && reply.content == message.content.text()
        && reply.tool_calls == call_views(message.tool_calls@)
}

/// Encodes one message.  A message of the assistant comes back if the
/// arguments of its calls are plain.
pub fn encode_message(message: &Message) -> (r: Json)
    ensures
        r@ == message_json(*message),
        message.role == Role::Assistant && plain_calls(message.tool_calls@) ==> comes_back(
            *message,
            r@,
        ),
{
    let mut f = Fields::new();
    match message.role {
        Role::System => {
            f.put_str("role", "system");
            f.put_str("content", message.content.as_text());
            assert(f@ =~= seq![
                ("role"@, JsonView::Str("system"@)),
                ("content"@, JsonView::Str(message.content.text())),
            ]);
        },
        Role::User => {
            f.put_str("role", "user");
            let content = match &message.content {
                MessageContent::Text(s) => Json::string(s.as_str()),
                MessageContent::Parts { parts, .. } => encode_user_parts(parts.as_slice()),
            };
            assert(content@ == user_content_json(message.content));
            f.put("content", content);
            assert(f@ =~= seq![("role"@, JsonView::Str("user"@)), ("content"@, content@)]);
        },
        Role::Assistant => {
            f.put_str("role", "assistant");
            let text = message.content.as_text();
            if text.is_empty() {
                f.put("content", Json::Null);
            } else {
                f.put_str("content", text);
            }
            let calls = if message.tool_calls.len() == 0 {
                None
            } else {
                Some(encode_calls(message.tool_calls.as_slice()))
            };
            let ghost head = f@;
            assert(head =~= seq![
                ("role"@, JsonView::Str("assistant"@)),
                (
                    "content"@,
                    if text@.len() == 0 {
                        JsonView::Null
                    } else {
                        JsonView::Str(text@)
                    },
                ),
            ]);
            f.put_opt("tool_calls", &calls);
            proof {
                if plain_calls(message.tool_calls@) {
                    law_assistant_messages_survive(*message);
                }
            }
        },
        Role::Tool => {
            let id = match &message.tool_call_id {
                Some(id) => id.as_str(),
                None => "",
            };
            proof {
                reveal_strlit("");
                assert(""@ =~= seq![]);
            }
            assert(id@ == or_empty(message.tool_call_id));
            f.put_str("role", "tool");
            f.put_str("tool_call_id", id);
            f.put_str("content", message.content.as_text());
            assert(f@ =~= seq![
                ("role"@, JsonView::Str("tool"@)),
                ("tool_call_id"@, JsonView::Str(id@)),
                ("content"@, JsonView::Str(message.content.text())),
            ]);
        },
    }
    f.into_json()
}

/// Encodes the messages of a conversation.  A message of the assistant comes
/// back if the arguments of its calls are plain.
pub fn encode_messages(messages: &[Message]) -> (r: Json)
    ensures
        r@ == messages_json(messages@),
        r@.items() matches Some(sent) && sent.len() == messages@.len() && forall|i: int|
            0 <= i < messages@.len() && (#[trigger] messages@[i]).role == Role::Assistant
                && plain_calls(messages@[i].tool_calls@) ==> comes_back(messages@[i], sent[i]),
{
    let mut items: Vec<Json> = Vec::new();
    let mut i: usize = 0;
    while i < messages.len()
        invariant
            i <= messages@.len(),
            item_views(items@) =~= messages@.map_values(|m: Message| message_json(m)).take(
                i as int,
            ),
            forall|j: int|
                0 <= j < i && (#[trigger] messages@[j]).role == Role::Assistant && plain_calls(
                    messages@[j].tool_calls@,
                ) ==> comes_back(messages@[j], message_json(messages@[j])),
        decreases messages@.len() - i,
    {
        broadcast use lemma_item_views_push;

        items.push(encode_message(&messages[i]));
        i += 1;
    }
    assert(item_views(items@) =~= messages@.map_values(|m: Message| message_json(m)));
    Json::Array(items)
}

/// How a tool choice is written.
pub open spec fn choice_label(c: ToolChoiceWire) -> Seq<char> {
    match c {
        ToolChoiceWire::Auto => "auto"@,
        ToolChoiceWire::Required => "required"@,
        ToolChoiceWire::Never => "none"@,
    }
}

fn tool_choice_label(c: ToolChoiceWire) -> (r: &'static str)
    ensures
        r@ == choice_label(c),
{
    match c {
        ToolChoiceWire::Auto => "auto",
        ToolChoiceWire::Required => "required",
        ToolChoiceWire::Never => "none",
    }
}

/// What the offer of a tool is sent as.
pub open spec fn tool_json(tool: ToolDef) -> JsonView {
    typed(
        "function"@,
        "function"@,
        object(
            seq![
                ("name"@, JsonView::Str(tool.name@)),
                ("description"@, JsonView::Str(tool.description@)),
                ("parameters"@, tool.parameters@),
            ],
        ),
    )
}

/// What the offer of tools is sent as.
pub open spec fn tools_json(tools: Seq<ToolDef>) -> JsonView {
    JsonView::Array(tools.map_values(|t: ToolDef| tool_json(t)))
}

/// What a wish for structured output is sent as.
pub open spec fn schema_json(schema: JsonView, strict: bool) -> JsonView {
    typed(
        "json_schema"@,
        "json_schema"@,
        object(
            seq![
                ("name"@, JsonView::Str("structured_output"@)),
                ("strict"@, JsonView::Bool(strict)),
                ("schema"@, schema),
            ],
        ),
    )
}

/// The members of a chat request.
pub open spec fn request_fields(req: NormalizedChatRequest) -> Seq<(Seq<char>, JsonView)> {
    let some_tools = req.tools@.len() > 0;
    seq![("model"@, JsonView::Str(req.model@)), ("messages"@, messages_json(req.messages@))]
        + optional(
        "response_format"@,
        match req.response_schema {
            Some(schema) => Some(schema_json(schema@, req.strict_response)),
            None => None,
        },
    ) + optional(
        "tools"@,
        if some_tools {
            Some(tools_json(req.tools@))
        } else {
            None
        },
    ) + optional(
        "tool_choice"@,
        if some_tools {
            Some(JsonView::Str(choice_label(req.tool_choice)))
        } else {
            None
        },
    ) + optional("temperature"@, optional_json(req.temperature)) + optional(
        "top_p"@,
        optional_json(req.top_p),
    ) + optional(
        "max_completion_tokens"@,
        match req.max_completion_tokens {
            Some(n) => Some(JsonView::Unsigned(n)),
            None => None,
        },
    ) + optional("seed"@, optional_json(req.seed))
}

/// What a chat request is sent as.
pub open spec fn request_json(req: NormalizedChatRequest) -> JsonView {
    object(request_fields(req))
}

fn encode_tool(tool: &ToolDef) -> (r: Json)
    ensures
        r@ == tool_json(*tool),
{
    let mut f = Fields::new();
    f.put_str("name", tool.name.as_str());
    f.put_str("description", tool.description.as_str());
    f.put("parameters", tool.parameters.clone());
    assert(f@ =~= seq![
        ("name"@, JsonView::Str(tool.name@)),
        ("description"@, JsonView::Str(tool.description@)),
        ("parameters"@, tool.parameters@),
    ]);
    encode_typed("function", "function", f.into_json())
}

fn encode_tools(tools: &[ToolDef]) -> (r: Json)
    ensures
        r@ == tools_json(tools@),
{
    let mut items: Vec<Json> = Vec::new();
    let mut i: usize = 0;
    while i < tools.len()
        invariant
            i <= tools@.len(),
            item_views(items@) =~= tools@.map_values(|t: ToolDef| tool_json(t)).take(i as int),
        decreases tools@.len() - i,
    {
        broadcast use lemma_item_views_push;

        items.push(encode_tool(&tools[i]));
        i += 1;
    }
    assert(item_views(items@) =~= tools@.map_values(|t: ToolDef| tool_json(t)));
    Json::Array(items)
}

fn encode_schema(schema: &Json, strict: bool) -> (r: Json)
    ensures
        r@ == schema_json(schema@, strict),
{
    let mut f = Fields::new();
    f.put_str("name", "structured_output");
    f.put("strict", Json::Bool(strict));
    f.put("schema", schema.clone());
    assert(f@ =~= seq![
        ("name"@, JsonView::Str("structured_output"@)),
        ("strict"@, JsonView::Bool(strict)),
        ("schema"@, schema@),
    ]);
    encode_typed("json_schema", "json_schema", f.into_json())
}

/// The members of a chat request, ready for more.
fn encode_fields(req: &NormalizedChatRequest) -> (f: Fields)
    ensures
        f@ == request_fields(*req),
{
    let mut f = Fields::new();
    f.put_str("model", req.model.as_str());
    f.put("messages", encode_messages(req.messages.as_slice()));
    assert(f@ =~= seq![
        ("model"@, JsonView::Str(req.model@)),
        ("messages"@, messages_json(req.messages@)),
    ]);
    let response_format = match &req.response_schema {
        Some(schema) => Some(encode_schema(schema, req.strict_response)),
        None => None,
    };
    f.put_opt("response_format", &response_format);
    let (tools, tool_choice) = if req.tools.len() > 0 {
        (
            Some(encode_tools(req.tools.as_slice())),
            Some(Json::string(tool_choice_label(req.tool_choice))),
        )
    } else {
        (None, None)
    };
    f.put_opt("tools", &tools);
    f.put_opt("tool_choice", &tool_choice);
    f.put_opt("temperature", &req.temperature);
    f.put_opt("top_p", &req.top_p);
    let max_tokens = match req.max_completion_tokens {
        Some(n) => Some(Json::Unsigned(n)),
        None => None,
    };
    f.put_opt("max_completion_tokens", &max_tokens);
    f.put_opt("seed", &req.seed);
    f
}

/// Encodes a chat request.
pub fn encode_request(req: &NormalizedChatRequest) -> (r: Json)
    ensures
        r@ == request_json(*req),
{
    encode_fields(req).into_json()
}

/// What a chat request is sent as when the reply is to be streamed: the reply
/// then ends with the number of tokens that the call took.
pub open spec fn streaming_request_json(req: NormalizedChatRequest) -> JsonView {
    object(
        request_fields(req) + seq![
            ("stream"@, JsonView::Bool(true)),
            ("stream_options"@, object(seq![("include_usage"@, JsonView::Bool(true))])),
        ],
    )
}

/// Encodes a chat request whose reply is to be streamed.
pub fn encode_streaming_request(req: &NormalizedChatRequest) -> (r: Json)
    ensures
        r@ == streaming_request_json(*req),
{
    let mut options = Fields::new();
    options.put("include_usage", Json::Bool(true));
    assert(options@ =~= seq![("include_usage"@, JsonView::Bool(true))]);
    let mut f = encode_fields(req);
    f.put("stream", Json::Bool(true));
    f.put("stream_options", options.into_json());
    assert(f@ =~= request_fields(*req) + seq![
        ("stream"@, JsonView::Bool(true)),
        ("stream_options"@, object(options@)),
    ]);
    f.into_json()
}

// ---------------------------------------------------------------------------
// Reply decoding
// ---------------------------------------------------------------------------
/// The low 32 bits of `n`.
pub open spec fn low32(n: u64) -> u32 {
    (n % 0x1_0000_0000) as u32
}

/// The low 32 bits of `n`.
pub fn truncate_count(n: u64) -> (r: u32)
    ensures
        r == low32(n),
{
    assert(n as u32 == (n % 0x1_0000_0000) as u32) by (bit_vector);
    n as u32
}

/// A count of tokens: zero where it is missing, kept to 32 bits where it is
/// there.
pub open spec fn count(n: Option<u64>) -> u32 {
    match n {
        Some(n) => low32(n),
        None => 0,
    }
}

/// The usage that the object `u` gives.
pub open spec fn usage_of(u: JsonView) -> TokenUsage {
    TokenUsage {
        input_tokens: count(u.u64_field("prompt_tokens"@)),
        output_tokens: count(u.u64_field("completion_tokens"@)),
        cached_input_tokens: count(
            match u.field("prompt_tokens_details"@) {
                Some(details) => details.u64_field("cached_tokens"@),
                None => None,
            },
        ),
    }
}

/// The usage that is reported, or none at all.
pub open spec fn usage_or_none(u: Option<JsonView>) -> TokenUsage {
    match u {
        Some(u) => usage_of(u),
        None => no_usage(),
    }
}

fn count_of(n: Option<u64>) -> (r: u32)
    ensures
        r == count(n),
{
    match n {
        Some(n) => truncate_count(n),
        None => 0,
    }
}

/// Decodes the usage of a reply.
pub fn decode_usage(value: Option<&Json>) -> (r: TokenUsage)
    ensures
        r == usage_or_none(
            match value {
                Some(u) => Some(u@),
                None => None,
            },
        ),
{
    match value {
        None => TokenUsage { input_tokens: 0, output_tokens: 0, cached_input_tokens: 0 },
        Some(u) => {
            let cached = match u.get("prompt_tokens_details") {
                Some(details) => details.get_u64("cached_tokens"),
                None => None,
            };
            TokenUsage {
                input_tokens: count_of(u.get_u64("prompt_tokens")),
                output_tokens: count_of(u.get_u64("completion_tokens")),
                cached_input_tokens: count_of(cached),
            }
        },
    }
}

/// The reason that a reply gives for its end.
pub open spec fn reason_of(text: Seq<char>) -> FinishReason {
    if text == "stop"@ {
        FinishReason::Stop
    } else if text == "tool_calls"@ {
        FinishReason::ToolCalls
    } else if text == "length"@ {
        FinishReason::Length
    } else if text == "content_filter"@ {
        FinishReason::ContentFilter
    } else {
        FinishReason::Other
    }
}

/// Decodes the reason that a reply gives for its end.
pub fn finish_reason(text: &str) -> (r: FinishReason)
    ensures
        r == reason_of(text@),
{
    if str_eq(text, "stop") {
        FinishReason::Stop
    } else if str_eq(text, "tool_calls") {
        FinishReason::ToolCalls
    } else if str_eq(text, "length") {
        FinishReason::Length
    } else if str_eq(text, "content_filter") {
        FinishReason::ContentFilter
    } else {
        FinishReason::Other
    }
}

/// The first choice of a reply.
pub open spec fn first_choice(value: JsonView) -> Option<JsonView> {
    match value.array_field("choices"@) {
        Some(items) => if items.len() > 0 {
            Some(items[0])
        } else {
            None
        },
        None => None,
    }
}

/// The first choice of a reply.
pub fn get_first_choice(value: &Json) -> (r: Option<&Json>)
    ensures
        match r {
            Some(choice) => first_choice(value@) == Some(choice@),
            None => first_choice(value@) is None,
        },
{
    broadcast use crate::json::lemma_item_view;

    match value.get_array("choices") {
        Some(items) => if items.len() > 0 {
            Some(&items[0])
        } else {
            None
        },
        None => None,
    }
}

/// The text that is there, or `default`.
pub open spec fn text_or(text: Option<Seq<char>>, default: Seq<char>) -> Seq<char> {
    match text {
        Some(s) => s,
        None => default,
    }
}

/// A call of a tool as a reply states it, with the arguments still in the text
/// of a JSON document.
pub struct RawCall {
    pub id: String,
    pub name: String,
    pub arguments: String,
}

/// The call that the item `item` of `tool_calls` states.
pub open spec fn states_call(item: JsonView, id: Seq<char>, name: Seq<char>, text: Seq<char>) -> bool {
    &&& id == text_or(item.str_field("id"@), ""@)
    &&& item.field("function"@) matches Some(function)
    &&& name == text_or(function.str_field("name"@), ""@)
    &&& text == text_or(function.str_field("arguments"@), "{}"@)
}

/// Reads one item of `tool_calls`: it fails exactly if the item has no
/// function.
pub fn raw_call(item: &Json) -> (r: Result<RawCall, ProviderError>)
    ensures
        match r {
            Ok(call) => states_call(item@, call.id@, call.name@, call.arguments@),
            Err(e) => item@.field("function"@) is None && e@ == failure(
                ErrorClass::Malformed,
                "tool_call without function"@,
            ),
        },
{
    let id = match item.get_str("id") {
        Some(s) => s,
        None => "",
    };
    match item.get("function") {
        None => Err(ProviderError::malformed("tool_call without function")),
        Some(function) => {
            let name = match function.get_str("name") {
                Some(s) => s,
                None => "",
            };
            let arguments = match function.get_str("arguments") {
                Some(s) => s,
                None => "{}",
            };
            Ok(
                RawCall {
                    id: id.to_owned(),
                    name: name.to_owned(),
                    arguments: arguments.to_owned(),
                },
            )
        },
    }
}

/// The failure of a call whose arguments do not parse.
pub open spec fn bad_arguments(name: Seq<char>, error: Seq<char>) -> ProviderFailure {
    failure(
        ErrorClass::Malformed,
        "tool_call '"@ + name + "' has malformed arguments: "@ + error,
    )
}

/// What comes of a call with the given id and name once its arguments went
/// through the parser.
pub open spec fn parsed_call(
    id: Seq<char>,
    name: Seq<char>,
    parsed: Result<JsonView, Seq<char>>,
) -> Result<ToolCallView, ProviderFailure> {
    match parsed {
        Ok(arguments) => Ok(ToolCallView { id, name, arguments }),
        Err(e) => Err(bad_arguments(name, e)),
    }
}

/// The document or the text of the error, as values.
pub open spec fn parsed_view(parsed: Result<Json, String>) -> Result<JsonView, Seq<char>> {
    match parsed {
        Ok(j) => Ok(j@),
        Err(e) => Err(e@),
    }
}

/// Completes a call with what the parser made of its arguments.
pub fn finish_call(call: RawCall, parsed: Result<Json, String>) -> (r: Result<
    ToolCall,
    ProviderError,
>)
    ensures
        match r {
            Ok(c) => parsed_call(call.id@, call.name@, parsed_view(parsed)) == Ok::<
                ToolCallView,
                ProviderFailure,
            >(c@),
            Err(e) => parsed_call(call.id@, call.name@, parsed_view(parsed)) == Err::<
                ToolCallView,
                ProviderFailure,
            >(e@),
        },
{
    match parsed {
        Ok(arguments) => Ok(ToolCall { id: call.id, name: call.name, arguments }),
        Err(e) => {
            let message = concat4(
                "tool_call '",
                call.name.as_str(),
                "' has malformed arguments: ",
                e.as_str(),
            );
            Err(ProviderError::Malformed { message })
        },
    }
}

/// What comes of one item of `tool_calls`.
pub open spec fn decoded_call(item: JsonView) -> Result<ToolCallView, ProviderFailure> {
    match item.field("function"@) {
        None => Err(failure(ErrorClass::Malformed, "tool_call without function"@)),
        Some(function) => parsed_call(
            text_or(item.str_field("id"@), ""@),
            text_or(function.str_field("name"@), ""@),
            json_of_text(text_or(function.str_field("arguments"@), "{}"@)),
        ),
    }
}

/// What comes of the items of `tool_calls`: the calls in order, or the failure
/// of the first item that has one.
pub open spec fn decoded_calls(items: Seq<JsonView>) -> Result<Seq<ToolCallView>, ProviderFailure>
    decreases items.len(),
{
    if items.len() == 0 {
        Ok(seq![])
    } else {
        match decoded_calls(items.drop_last()) {
            Err(e) => Err(e),
            Ok(calls) => match decoded_call(items.last()) {
                Err(e) => Err(e),
                Ok(call) => Ok(calls.push(call)),
            },
        }
    }
}

/// Decodes one item of `tool_calls`.
pub fn decode_call(item: &Json) -> (r: Result<ToolCall, ProviderError>)
    ensures
        match r {
            Ok(c) => decoded_call(item@) == Ok::<ToolCallView, ProviderFailure>(c@),
            Err(e) => decoded_call(item@) == Err::<ToolCallView, ProviderFailure>(e@),
        },
{
    match raw_call(item) {
        Err(e) => Err(e),
        Ok(call) => {
            let parsed = parse_text(call.arguments.as_str());
            finish_call(call, parsed)
        },
    }
}

proof fn lemma_first_failure_counts(items: Seq<JsonView>, i: int)
    requires
        0 <= i <= items.len(),
        decoded_calls(items.take(i)) is Err,
    ensures
        decoded_calls(items) == decoded_calls(items.take(i)),
    decreases items.len() - i,
{
    if i < items.len() {
        assert(items.take(i + 1).drop_last() =~= items.take(i));
        lemma_first_failure_counts(items, i + 1);
    } else {
        assert(items.take(i) =~= items);
    }
}

fn decode_calls(items: &[Json]) -> (r: Result<Vec<ToolCall>, ProviderError>)
    ensures
        match r {
            Ok(calls) => decoded_calls(item_views(items@)) == Ok::<
                Seq<ToolCallView>,
                ProviderFailure,
            >(call_views(calls@)),
            Err(e) => decoded_calls(item_views(items@)) == Err::<
                Seq<ToolCallView>,
                ProviderFailure,
            >(e@),
        },
{
    broadcast use crate::json::lemma_item_view;

    let mut calls: Vec<ToolCall> = Vec::new();
    let mut i: usize = 0;
    let ghost views = item_views(items@);
    assert(views.take(0) =~= seq![]);
    assert(call_views(calls@) =~= seq![]);
    while i < items.len()
        invariant
            views == item_views(items@),
            i <= items@.len(),
            decoded_calls(views.take(i as int)) == Ok::<Seq<ToolCallView>, ProviderFailure>(
                call_views(calls@),
            ),
        decreases items@.len() - i,
    {
        let ghost before = calls@;
        let next = decode_call(&items[i]);
        i += 1;
        assert(views.take(i as int).drop_last() =~= views.take(i - 1));
        assert(views.take(i as int).last() == items@[i - 1]@);
        match next {
            Err(e) => {
                proof {
                    lemma_first_failure_counts(views, i as int);
                }
                return Err(e);
            },
            Ok(call) => {
                calls.push(call);
                assert(call_views(calls@) =~= call_views(before).push(call@));
            },
        }
    }
    assert(views.take(i as int) =~= views);
    Ok(calls)
}

/// What a reply says.
pub open spec fn decoded_reply(value: JsonView) -> Result<ChatReply, ProviderFailure> {
    match first_choice(value) {
        None => Err(failure(ErrorClass::Malformed, "response has no choices[0]"@)),
        Some(choice) => match choice.field("message"@) {
            None => Err(failure(ErrorClass::Malformed, "choices[0].message missing"@)),
            Some(message) => {
                let items = match message.array_field("tool_calls"@) {
                    Some(items) => items,
                    None => seq![],
                };
                match decoded_calls(items) {
                    Err(e) => Err(e),
                    Ok(tool_calls) => Ok(
                        ChatReply {
                            content: text_or(message.str_field("content"@), ""@),
                            tool_calls,
                            finish_reason: match choice.str_field("finish_reason"@) {
                                Some(reason) => reason_of(reason),
                                None => FinishReason::Other,
                            },
                            usage: usage_or_none(value.field("usage"@)),
                        },
                    ),
                }
            },
        },
    }
}

/// Decodes a reply.
pub fn decode_response(value: &Json) -> (r: Result<NormalizedChatResponse, ProviderError>)
    ensures
        match r {
            Ok(reply) => decoded_reply(value@) == Ok::<ChatReply, ProviderFailure>(reply@),
            Err(e) => decoded_reply(value@) == Err::<ChatReply, ProviderFailure>(e@),
        },
{
    let choice = match get_first_choice(value) {
        Some(choice) => choice,
        None => {
            return Err(ProviderError::malformed("response has no choices[0]"));
        },
    };
    let message = match choice.get("message") {
        Some(message) => message,
        None => {
            return Err(ProviderError::malformed("choices[0].message missing"));
        },
    };
    let content = match message.get_str("content") {
        Some(s) => s,
        None => "",
    };
    let tool_calls = match message.get_array("tool_calls") {
        Some(items) => match decode_calls(items.as_slice()) {
            Ok(calls) => calls,
            Err(e) => {
                return Err(e);
            },
        },
        None => {
            let calls: Vec<ToolCall> = Vec::new();
            assert(call_views(calls@) =~= seq![]);
            calls
        },
    };
    let reason = match choice.get_str("finish_reason") {
        Some(reason) => finish_reason(reason),
        None => FinishReason::Other,
    };
    let usage = decode_usage(value.get("usage"));
    Ok(
        NormalizedChatResponse {
            content: content.to_owned(),
            tool_calls,
            finish_reason: reason,
            usage,
        },
    )
}

// ---------------------------------------------------------------------------
// Errors
// ---------------------------------------------------------------------------
/// How many bytes of a body an error message shows.
pub const EXCERPT_BYTES: usize = 512;

/// What an error message shows of the text of a body: all of it, or as many of
/// its first characters as the limit has room for, and a mark that something is
/// missing.
pub open spec fn excerpt(text: Seq<char>) -> Seq<char> {
    if encode_utf8(text).len() <= EXCERPT_BYTES {
        text
    } else {
        head_within(text, EXCERPT_BYTES as nat) + "…[truncated]"@
    }
}

/// What an error message shows of the text of a body.
pub fn text_excerpt(text: String) -> (r: String)
    ensures
        r@ == excerpt(text@),
{
    if text.as_str().as_bytes().len() <= EXCERPT_BYTES {
        return text;
    }
    let head = take_within(text.as_str(), EXCERPT_BYTES);
    concat2(head.as_str(), "…[truncated]")
}

/// The beginning of a body, for an error message.  A body may repeat what the
/// user sent, so it is never shown whole if it is long.
pub fn body_excerpt(body: &[u8]) -> (r: String)
    ensures
        r@ == excerpt(readable(body@)),
{
    text_excerpt(lossy_text(body))
}

/// Whether the message of a refused request says that the request is too long
/// for the model.
pub open spec fn speaks_of_context(message: Seq<char>) -> bool {
    contains(message, "context_length"@) || contains(message, "maximum context"@) || contains(
        message,
        "token limit"@,
    )
}

/// What a status that does not report success means for a chat request.
pub open spec fn chat_status_class(status: u16, message: Seq<char>) -> ErrorClass {
    if status == 429 {
        ErrorClass::RateLimited
    } else if status == 401 || status == 403 {
        ErrorClass::AuthFailed
    } else if status == 413 {
        ErrorClass::ContextLimit
    } else if status == 400 {
        if speaks_of_context(message) {
            ErrorClass::ContextLimit
        } else {
            ErrorClass::BadRequest
        }
    } else {
        ErrorClass::Server
    }
}

/// The failure of a chat request that was answered with the given status and
/// message.
pub open spec fn chat_status_failure(status: u16, message: Seq<char>) -> ProviderFailure {
    failure(chat_status_class(status, message), message)
}

/// What a status that does not report success means for a chat request.
pub fn class_of_status(status: u16, message: &str) -> (r: ErrorClass)
    ensures
        r == chat_status_class(status, message@),
{
    if status == 429 {
        return ErrorClass::RateLimited;
    }
    if status == 401 || status == 403 {
        return ErrorClass::AuthFailed;
    }
    if status == 413 {
        return ErrorClass::ContextLimit;
    }
    if status == 400 {
        if str_contains(message, "context_length") || str_contains(message, "maximum context")
            || str_contains(message, "token limit") {
            return ErrorClass::ContextLimit;
        }
        return ErrorClass::BadRequest;
    }
    ErrorClass::Server
}

/// The error for a chat request that was answered with the given status and
/// message.
pub fn classify_chat_status(status: u16, message: String) -> (r: ProviderError)
    ensures
        r@ == chat_status_failure(status, message@),
{
    let class = class_of_status(status, message.as_str());
    ProviderError::of_class(class, message)
}

/// The error for a chat request whose reply does not report success.
pub fn map_status_error(status: u16, body: &[u8]) -> (r: ProviderError)
    ensures
        r@ == chat_status_failure(status, excerpt(readable(body@))),
{
    classify_chat_status(status, body_excerpt(body))
}

/// What is reported of a request that could not be sent.
pub open spec fn transport_failure(fault: TransportFault) -> ProviderFailure {
    failure(
        ErrorClass::Network,
        if fault.timeout {
            "timeout: "@ + fault.detail@
        } else if fault.connect {
            "connect failed: "@ + fault.detail@
        } else if fault.request || fault.body || fault.decode {
            "transport: "@ + fault.detail@
        } else {
            fault.detail@
        },
    )
}

/// The error for a request that could not be sent.
pub fn map_reqwest_error(fault: TransportFault) -> (r: ProviderError)
    ensures
        r@ == transport_failure(fault),
{
    let detail = fault.detail.as_str();
    let message = if fault.timeout {
        concat2("timeout: ", detail)
    } else if fault.connect {
        concat2("connect failed: ", detail)
    } else if fault.request || fault.body || fault.decode {
        concat2("transport: ", detail)
    } else {
        detail.to_owned()
    };
    ProviderError::Network { message }
}

/// What comes of a body that was received with success, once it went through
/// the parser.
pub open spec fn parsed_reply(parsed: Result<JsonView, Seq<char>>) -> Result<
    ChatReply,
    ProviderFailure,
> {
    match parsed {
        Ok(value) => decoded_reply(value),
        Err(e) => Err(failure(ErrorClass::Malformed, "response is not JSON: "@ + e)),
    }
}

/// Decodes what the parser made of a body.
pub fn decode_parsed(parsed: Result<Json, String>) -> (r: Result<
    NormalizedChatResponse,
    ProviderError,
>)
    ensures
        match r {
            Ok(reply) => parsed_reply(parsed_view(parsed)) == Ok::<ChatReply, ProviderFailure>(
                reply@,
            ),
            Err(e) => parsed_reply(parsed_view(parsed)) == Err::<ChatReply, ProviderFailure>(e@),
        },
{
    match parsed {
        Ok(value) => decode_response(&value),
        Err(e) => Err(
            ProviderError::Malformed { message: concat2("response is not JSON: ", e.as_str()) },
        ),
    }
}

/// What comes of the exchange over a chat request.
pub open spec fn chat_outcome(exchange: Exchange) -> Result<ChatReply, ProviderFailure> {
    match exchange {
        Exchange::SendFailed(fault) => Err(transport_failure(fault)),
        Exchange::ReadFailed(detail) => Err(no_reply("read response body: "@, detail@)),
        Exchange::Replied { status, body } => if !success(status) {
            Err(chat_status_failure(status, excerpt(readable(body@))))
        } else {
            parsed_reply(json_of_bytes(body@))
        },
    }
}

/// Concludes the exchange over a chat request.
pub fn conclude_chat(exchange: Exchange) -> (r: Result<NormalizedChatResponse, ProviderError>)
    ensures
        match r {
            Ok(reply) => chat_outcome(exchange) == Ok::<ChatReply, ProviderFailure>(reply@),
            Err(e) => chat_outcome(exchange) == Err::<ChatReply, ProviderFailure>(e@),
        },
{
    match exchange {
        Exchange::SendFailed(fault) => Err(map_reqwest_error(fault)),
        Exchange::ReadFailed(detail) => Err(network_error("read response body: ", detail.as_str())),
        Exchange::Replied { status, body } => {
            if !is_success(status) {
                Err(map_status_error(status, body.as_slice()))
            } else {
                decode_parsed(parse_bytes(body.as_slice()))
            }
        },
    }
}

// ---------------------------------------------------------------------------
// The adapter
// ---------------------------------------------------------------------------
/// The chat endpoint of an upstream.
pub struct OpenAiAdapter {
    upstream: Upstream,
}

impl View for OpenAiAdapter {
    type V = UpstreamView;

    closed spec fn view(&self) -> UpstreamView {
        self.upstream@
    }
}

impl OpenAiAdapter {
    /// The chat endpoint of the upstream with the given configuration.
    pub fn new(
        variant: OpenAiVariant,
        label: &'static str,
        base_url: String,
        api_key: String,
    ) -> (r: Result<OpenAiAdapter, ProviderError>)
        ensures
            match r {
                Ok(a) => configured(variant, label@, base_url@, api_key@) == Ok::<
                    UpstreamView,
                    ProviderFailure,
                >(a@),
                Err(e) => configured(variant, label@, base_url@, api_key@) == Err::<
                    UpstreamView,
                    ProviderFailure,
                >(e@),
            },
    {
        match Upstream::new(variant, label, base_url, api_key) {
            Ok(upstream) => Ok(OpenAiAdapter { upstream }),
            Err(e) => Err(e),
        }
    }

    /// The upstream.
    pub fn upstream(&self) -> (r: &Upstream)
        ensures
            r@ == self@,
    {
        &self.upstream
    }

    /// The name under which calls are counted.
    pub fn label(&self) -> (r: &'static str)
        ensures
            r@ == self@.label,
    {
        self.upstream.label()
    }

    /// The address that chat requests are sent to.
    pub fn endpoint_url(&self) -> (r: String)
        ensures
            r@ == self@.endpoint("/chat/completions"@),
    {
        self.upstream.endpoint_url("/chat/completions")
    }

    /// The headers of a chat request.
    pub fn build_headers(&self) -> (r: Result<Vec<Header>, ProviderError>)
        ensures
            match r {
                Ok(h) => self@.headers(json_content()) == Ok::<
                    Seq<(Seq<char>, Seq<char>)>,
                    ProviderFailure,
                >(header_views(h@)),
                Err(e) => self@.headers(json_content()) == Err::<
                    Seq<(Seq<char>, Seq<char>)>,
                    ProviderFailure,
                >(e@),
            },
    {
        self.upstream.json_headers()
    }

    /// The request for a whole reply; [`conclude_chat`] takes what comes of it.
    pub fn chat_completion(&self, req: &NormalizedChatRequest) -> (r: Result<
        JsonRequest,
        ProviderError,
    >)
        ensures
            match r {
                Ok(p) => self@.post("/chat/completions"@, request_json(*req)) == Ok::<
                    JsonPost,
                    ProviderFailure,
                >(p@),
                Err(e) => self@.post("/chat/completions"@, request_json(*req)) == Err::<
                    JsonPost,
                    ProviderFailure,
                >(e@),
            },
    {
        self.upstream.post("/chat/completions", encode_request(req))
    }

    /// The request for a reply that is streamed.
    pub fn stream_chat_completion(&self, req: &NormalizedChatRequest) -> (r: Result<
        JsonRequest,
        ProviderError,
    >)
        ensures
            match r {
                Ok(p) => self@.post("/chat/completions"@, streaming_request_json(*req)) == Ok::<
                    JsonPost,
                    ProviderFailure,
                >(p@),
                Err(e) => self@.post("/chat/completions"@, streaming_request_json(*req)) == Err::<
                    JsonPost,
                    ProviderFailure,
                >(e@),
            },
    {
        self.upstream.post("/chat/completions", encode_streaming_request(req))
    }
}

// ---------------------------------------------------------------------------
// Laws
// ---------------------------------------------------------------------------
/// The names of the members of a chat request are distinct.
proof fn lemma_names_differ()
    ensures
        "model"@ != "messages"@,
        "model"@ != "response_format"@,
        "model"@ != "tools"@,
        "model"@ != "tool_choice"@,
        "model"@ != "temperature"@,
        "model"@ != "top_p"@,
        "model"@ != "max_completion_tokens"@,
        "model"@ != "seed"@,
        "messages"@ != "response_format"@,
        "messages"@ != "tools"@,
        "messages"@ != "tool_choice"@,
        "messages"@ != "temperature"@,
        "messages"@ != "top_p"@,
        "messages"@ != "max_completion_tokens"@,
        "messages"@ != "seed"@,
        "response_format"@ != "tools"@,
        "response_format"@ != "tool_choice"@,
        "response_format"@ != "temperature"@,
        "response_format"@ != "top_p"@,
        "response_format"@ != "max_completion_tokens"@,
        "response_format"@ != "seed"@,
        "tools"@ != "tool_choice"@,
        "tools"@ != "temperature"@,
        "tools"@ != "top_p"@,
        "tools"@ != "max_completion_tokens"@,
        "tools"@ != "seed"@,
        "tool_choice"@ != "temperature"@,
        "tool_choice"@ != "top_p"@,
        "tool_choice"@ != "max_completion_tokens"@,
        "tool_choice"@ != "seed"@,
        "temperature"@ != "top_p"@,
        "temperature"@ != "max_completion_tokens"@,
        "temperature"@ != "seed"@,
        "top_p"@ != "max_completion_tokens"@,
        "top_p"@ != "seed"@,
        "max_completion_tokens"@ != "seed"@,
{
    reveal_strlit("model");
    reveal_strlit("messages");
    reveal_strlit("response_format");
    reveal_strlit("tools");
    reveal_strlit("tool_choice");
    reveal_strlit("temperature");
    reveal_strlit("top_p");
    reveal_strlit("max_completion_tokens");
    reveal_strlit("seed");
    assert("model"@.len() != "messages"@.len());
    assert("model"@.len() != "response_format"@.len());
    assert("model"@[0] != "tools"@[0]);
    assert("model"@.len() != "tool_choice"@.len());
    assert("model"@.len() != "temperature"@.len());
    assert("model"@[0] != "top_p"@[0]);
    assert("model"@.len() != "max_completion_tokens"@.len());
    assert("model"@.len() != "seed"@.len());
    assert("messages"@.len() != "response_format"@.len());
    assert("messages"@.len() != "tools"@.len());
    assert("messages"@.len() != "tool_choice"@.len());
    assert("messages"@.len() != "temperature"@.len());
    assert("messages"@.len() != "top_p"@.len());
    assert("messages"@.len() != "max_completion_tokens"@.len());
    assert("messages"@.len() != "seed"@.len());
    assert("response_format"@.len() != "tools"@.len());
    assert("response_format"@.len() != "tool_choice"@.len());
    assert("response_format"@.len() != "temperature"@.len());
    assert("response_format"@.len() != "top_p"@.len());
    assert("response_format"@.len() != "max_completion_tokens"@.len());
    assert("response_format"@.len() != "seed"@.len());
    assert("tools"@.len() != "tool_choice"@.len());
    assert("tools"@.len() != "temperature"@.len());
    assert("tools"@[2] != "top_p"@[2]);
    assert("tools"@.len() != "max_completion_tokens"@.len());
    assert("tools"@.len() != "seed"@.len());
    assert("tool_choice"@[1] != "temperature"@[1]);
    assert("tool_choice"@.len() != "top_p"@.len());
    assert("tool_choice"@.len() != "max_completion_tokens"@.len());
    assert("tool_choice"@.len() != "seed"@.len());
    assert("temperature"@.len() != "top_p"@.len());
    assert("temperature"@.len() != "max_completion_tokens"@.len());
    assert("temperature"@.len() != "seed"@.len());
    assert("top_p"@.len() != "max_completion_tokens"@.len());
    assert("top_p"@.len() != "seed"@.len());
    assert("max_completion_tokens"@.len() != "seed"@.len());
}

/// A member of a chat request is there exactly if its setting is, and then it
/// has the value of the setting; tools and the choice of them are there
/// exactly if a tool is offered.
pub proof fn law_members_follow_the_settings(req: NormalizedChatRequest)
    ensures
        request_json(req).str_field("model"@) == Some(req.model@),
        request_json(req).field("messages"@) == Some(messages_json(req.messages@)),
        request_json(req).field("temperature"@) == optional_json(req.temperature),
        request_json(req).field("top_p"@) == optional_json(req.top_p),
        request_json(req).field("seed"@) == optional_json(req.seed),
        request_json(req).u64_field("max_completion_tokens"@) == req.max_completion_tokens,
        request_json(req).field("max_completion_tokens"@) is Some
            <==> req.max_completion_tokens is Some,
        request_json(req).field("response_format"@) is Some <==> req.response_schema is Some,
        request_json(req).field("tools"@) is Some <==> req.tools@.len() > 0,
        request_json(req).field("tool_choice"@) is Some <==> req.tools@.len() > 0,
{
    broadcast use group_fields;

    lemma_names_differ();
    let head = seq![
        ("model"@, JsonView::Str(req.model@)),
        ("messages"@, messages_json(req.messages@)),
    ];
    lemma_last_field_counts(head, "model"@, 0);
    lemma_last_field_counts(head, "messages"@, 1);
    lemma_no_such_field(head, "response_format"@);
    lemma_no_such_field(head, "tools"@);
    lemma_no_such_field(head, "tool_choice"@);
    lemma_no_such_field(head, "temperature"@);
    lemma_no_such_field(head, "top_p"@);
    lemma_no_such_field(head, "max_completion_tokens"@);
    lemma_no_such_field(head, "seed"@);
}

/// A request for a streamed reply is the request for a whole one, but for the
/// two members that ask for the stream and for the usage at its end.
pub proof fn law_streaming_adds_two_members(req: NormalizedChatRequest, name: Seq<char>)
    ensures
        streaming_request_json(req).field("stream"@) == Some(JsonView::Bool(true)),
        streaming_request_json(req).field("stream_options"@) matches Some(options)
            && options.field("include_usage"@) == Some(JsonView::Bool(true)),
        name != "stream"@ && name != "stream_options"@ ==> streaming_request_json(req).field(name)
            == request_json(req).field(name),
{
    broadcast use group_fields;

    reveal_strlit("stream");
    reveal_strlit("stream_options");
    assert("stream"@.len() != "stream_options"@.len());
    let tail = seq![
        ("stream"@, JsonView::Bool(true)),
        ("stream_options"@, object(seq![("include_usage"@, JsonView::Bool(true))])),
    ];
    lemma_last_field_counts(tail, "stream"@, 0);
    lemma_last_field_counts(tail, "stream_options"@, 1);
    if name != "stream"@ && name != "stream_options"@ {
        lemma_no_such_field(tail, name);
    }
}

/// The content of a system message is always plain text.
pub proof fn law_system_content_is_text(message: Message)
    requires
        message.role == Role::System,
    ensures
        message_json(message).str_field("content"@) == Some(message.content.text()),
{
    let fields = seq![
        ("role"@, JsonView::Str("system"@)),
        ("content"@, JsonView::Str(message.content.text())),
    ];
    lemma_last_field_counts(fields, "content"@, 1);
}

/// The content of an assistant message without text is null, never an empty
/// string.
pub proof fn law_no_empty_assistant_content(message: Message)
    requires
        message.role == Role::Assistant,
        message.content.text().len() == 0,
    ensures
        message_json(message).field("content"@) == Some(JsonView::Null),
{
    broadcast use group_fields;

    reveal_strlit("content");
    reveal_strlit("tool_calls");
    assert("content"@.len() != "tool_calls"@.len());
    let fields = seq![
        ("role"@, JsonView::Str("assistant"@)),
        (
            "content"@,
            if message.content.text().len() == 0 {
                JsonView::Null
            } else {
                JsonView::Str(message.content.text())
            },
        ),
    ];
    lemma_last_field_counts(fields, "content"@, 1);
}

/// Every part of a user message becomes one item, in the order of the parts.
pub proof fn law_every_part_is_sent(parts: Seq<ContentPart>, i: int)
    requires
        0 <= i < parts.len(),
    ensures
        parts_json(parts).items() matches Some(items) && items.len() == parts.len() && items[i]
            == part_json(parts[i]),
{
}

/// The resource that a part names without holding what is in it.
pub open spec fn unresolved(part: ContentPart) -> Option<Seq<char>> {
    match part {
        ContentPart::Text(_) => None,
        ContentPart::Image(image) => match image.source {
            ImageSource::McpResource(uri) => Some(uri@),
            _ => None,
        },
        ContentPart::Audio(audio) => match audio.source {
            AudioSource::McpResource(uri) => Some(uri@),
            _ => None,
        },
        ContentPart::File(file) => match file.source {
            FileSource::McpResource(uri) => Some(uri@),
            _ => None,
        },
    }
}

proof fn lemma_named_in_text(before: Seq<char>, uri: Seq<char>, after: Seq<char>)
    ensures
        text_part(before + uri + after).str_field("type"@) == Some("text"@),
        text_part(before + uri + after).str_field("text"@) matches Some(text) && contains(
            text,
            uri,
        ),
{
    reveal_strlit("type");
    reveal_strlit("text");
    assert("type"@[1] != "text"@[1]);
    let text = before + uri + after;
    let fields = seq![("type"@, JsonView::Str("text"@)), ("text"@, JsonView::Str(text))];
    lemma_last_field_counts(fields, "type"@, 0);
    lemma_last_field_counts(fields, "text"@, 1);
    let i = before.len() as int;
    assert(text.subrange(i, i + uri.len()) =~= uri);
    assert(occurs_at(text, uri, i));
}

/// A resource that was not resolved is never dropped: the part becomes a text
/// item that names it.
pub proof fn law_unresolved_resources_are_named(part: ContentPart)
    requires
        unresolved(part) is Some,
    ensures
        part_json(part).str_field("type"@) == Some("text"@),
        part_json(part).str_field("text"@) matches Some(text) && contains(
            text,
            unresolved(part)->0,
        ),
{
    let uri = unresolved(part)->0;
    lemma_named_in_text("[unresolved image resource: "@, uri, "]"@);
    lemma_named_in_text("[unresolved audio resource: "@, uri, "]"@);
    lemma_named_in_text("[unresolved file resource: "@, uri, "]"@);
}

/// A call of a tool survives being sent and read back, if its arguments
/// survive being printed and parsed.
pub proof fn law_calls_survive(call: ToolCall)
    requires
        reads_back(call.arguments@),
    ensures
        decoded_call(call_json(call)) == Ok::<ToolCallView, ProviderFailure>(call@),
{
    reveal_strlit("id");
    reveal_strlit("type");
    reveal_strlit("function");
    reveal_strlit("name");
    reveal_strlit("arguments");
    assert("id"@.len() != "type"@.len());
    assert("id"@.len() != "function"@.len());
    assert("name"@.len() != "arguments"@.len());
    let inner = seq![
        ("name"@, JsonView::Str(call.name@)),
        ("arguments"@, JsonView::Str(json_text(call.arguments@))),
    ];
    let outer = seq![
        ("id"@, JsonView::Str(call.id@)),
        ("type"@, JsonView::Str("function"@)),
        ("function"@, object(inner)),
    ];
    lemma_last_field_counts(inner, "name"@, 0);
    lemma_last_field_counts(inner, "arguments"@, 1);
    lemma_last_field_counts(outer, "id"@, 0);
    lemma_last_field_counts(outer, "function"@, 2);
    assert(call_json(call) == object(outer));
}

proof fn lemma_all_calls_survive(calls: Seq<ToolCall>)
    requires
        readable_calls(calls),
    ensures
        calls_json(calls).items() matches Some(items) && decoded_calls(items) == Ok::<
            Seq<ToolCallView>,
            ProviderFailure,
        >(call_views(calls)),
    decreases calls.len(),
{
    let items = calls_json(calls).items()->0;
    if calls.len() == 0 {
        assert(call_views(calls) =~= seq![]);
    } else {
        let short = calls.drop_last();
        assert forall|i: int| 0 <= i < short.len() implies reads_back(
            (#[trigger] short[i]).arguments@,
        ) by {
            assert(short[i] == calls[i]);
        }
        lemma_all_calls_survive(short);
        assert(items.drop_last() =~= calls_json(short).items()->0);
        assert(calls[calls.len() - 1] == calls.last());
        law_calls_survive(calls.last());
        assert(call_views(calls) =~= call_views(short).push(calls.last()@));
    }
}

/// A message of the assistant survives being sent and read back, with its text
/// and with all its calls, if the arguments of the calls survive being printed
/// and parsed.  No text comes back as the empty text, and no calls as none.
pub proof fn law_assistant_messages_survive(message: Message)
    requires
        message.role == Role::Assistant,
        readable_calls(message.tool_calls@),
    ensures
        comes_back(message, message_json(message)),
{
    broadcast use group_fields;

    reveal_strlit("");
    reveal_strlit("content");
    reveal_strlit("tool_calls");
    assert("content"@.len() != "tool_calls"@.len());
    let text = message.content.text();
    let head = seq![
        ("role"@, JsonView::Str("assistant"@)),
        (
            "content"@,
            if text.len() == 0 {
                JsonView::Null
            } else {
                JsonView::Str(text)
            },
        ),
    ];
    lemma_last_field_counts(head, "content"@, 1);
    reveal_strlit("role");
    assert("role"@.len() != "tool_calls"@.len());
    lemma_no_such_field(head, "tool_calls"@);
    let choice = seq![("message"@, message_json(message))];
    lemma_last_field_counts(choice, "message"@, 0);
    let choices = seq![("choices"@, JsonView::Array(seq![object(choice)]))];
    lemma_last_field_counts(choices, "choices"@, 0);
    assert(text.len() == 0 ==> text =~= ""@);
    lemma_all_calls_survive(message.tool_calls@);
    if message.tool_calls@.len() == 0 {
        assert(call_views(message.tool_calls@) =~= seq![]);
    }
}

proof fn lemma_head_bounds(text: Seq<char>, limit: nat) -> (n: int)
    requires
        encode_utf8(text).len() > limit,
    ensures
        0 <= n < text.len(),
        head_within(text, limit) == text.take(n),
        encode_utf8(text.take(n)).len() <= limit,
        encode_utf8(text.take(n + 1)).len() > limit,
    decreases text.len(),
{
    let short = text.drop_last();
    assert(text.take(text.len() as int) =~= text);
    assert(text.take(text.len() - 1) =~= short);
    assert(head_within(text, limit) == head_within(short, limit));
    if encode_utf8(short).len() <= limit {
        text.len() - 1
    } else {
        let n = lemma_head_bounds(short, limit);
        assert(short.take(n) =~= text.take(n));
        assert(short.take(n + 1) =~= text.take(n + 1));
        n
    }
}

proof fn lemma_mark_bytes()
    ensures
        encode_utf8("…[truncated]"@).len() == 14,
{
    reveal_strlit("…[truncated]");
    let mark = "…[truncated]"@;
    let rest = mark.drop_first();
    assert(is_ascii_chars(rest));
    is_ascii_chars_encode_utf8(rest);
    assert(encode_scalar('…' as u32).len() == 3);
}

/// An error message shows a body whole if it fits the limit.  Of a longer one
/// it shows as many of the first characters as fit the limit, and a mark that
/// something is missing.  So no message is longer than the limit and the mark
/// together.
pub proof fn law_excerpt_is_bounded(text: Seq<char>)
    ensures
        encode_utf8(text).len() <= EXCERPT_BYTES ==> excerpt(text) == text,
        encode_utf8(text).len() > EXCERPT_BYTES ==> exists|n: int|
            0 <= n < text.len() && excerpt(text) == #[trigger] text.take(n) + "…[truncated]"@
                && encode_utf8(text.take(n)).len() <= EXCERPT_BYTES && encode_utf8(
                text.take(n + 1),
            ).len() > EXCERPT_BYTES,
        encode_utf8(excerpt(text)).len() <= EXCERPT_BYTES + 14,
{
    if encode_utf8(text).len() > EXCERPT_BYTES {
        let n = lemma_head_bounds(text, EXCERPT_BYTES as nat);
        assert(excerpt(text) == text.take(n) + "…[truncated]"@);
        lemma_encode_add(text.take(n), "…[truncated]"@);
        lemma_mark_bytes();
    }
}

/// A chat request is worth repeating, after a rate limit and a fault of the
/// upstream among others, unless the key, the request or its length was
/// refused.
pub proof fn law_chat_retries(status: u16, message: Seq<char>)
    ensures
        chat_status_class(status, message).retryable() <==> !(status == 400 || status == 401
            || status == 403 || status == 413),
        status == 429 || 500 <= status < 600 ==> chat_status_class(status, message).retryable(),
        chat_status_class(status, message) == ErrorClass::AuthFailed <==> (status == 401 || status
            == 403),
        chat_status_class(status, message) == ErrorClass::RateLimited <==> status == 429,
{
}

} // verus!
