//! What requests carry.
use vstd::prelude::*;

use crate::adapter::{
    call_json, calls_json, message_json, messages_json, part_json, parts_json, request_json,
    schema_json, streaming_request_json, tool_json, tools_json, typed,
};
use crate::embedding_adapter;
use crate::image_adapter;
use crate::json::{
    group_fields, json_text, lemma_last_field_counts, lemma_no_such_field, object, JsonView,
};
use crate::normalized::{
    AudioFormat, AudioSource, ContentPart, FileSource, ImageDetail, ImageSource, Message,
    MessageContent, NormalizedChatRequest, Role, ToolCall, ToolChoiceWire, ToolDef,
};
use crate::laws::names::{lemma_request_names, mark};
use crate::stt_adapter::{self, PartView};
use crate::tts_adapter;

verus! {

// ---------------------------------------------------------------------------
// Objects
// ---------------------------------------------------------------------------
pub(crate) proof fn lemma_one(fields: Seq<(Seq<char>, JsonView)>)
    requires
        fields.len() == 1,
    ensures
        object(fields).field(fields[0].0) == Some(fields[0].1),
        forall|n: Seq<char>| #[trigger] object(fields).field(n) is Some ==> n == fields[0].0,
{
    lemma_last_field_counts(fields, fields[0].0, 0);
    assert forall|n: Seq<char>| #[trigger] object(fields).field(n) is Some implies n
        == fields[0].0 by {
        if n != fields[0].0 {
            lemma_no_such_field(fields, n);
        }
    }
}

pub(crate) proof fn lemma_two(fields: Seq<(Seq<char>, JsonView)>)
    requires
        fields.len() == 2,
        fields[0].0 != fields[1].0,
    ensures
        object(fields).field(fields[0].0) == Some(fields[0].1),
        object(fields).field(fields[1].0) == Some(fields[1].1),
        forall|n: Seq<char>| #[trigger]
            object(fields).field(n) is Some ==> n == fields[0].0 || n == fields[1].0,
{
    lemma_last_field_counts(fields, fields[0].0, 0);
    lemma_last_field_counts(fields, fields[1].0, 1);
    assert forall|n: Seq<char>| #[trigger] object(fields).field(n) is Some implies n == fields[0].0
        || n == fields[1].0 by {
        if n != fields[0].0 && n != fields[1].0 {
            lemma_no_such_field(fields, n);
        }
    }
}

pub(crate) proof fn lemma_three(fields: Seq<(Seq<char>, JsonView)>)
    requires
        fields.len() == 3,
        fields[0].0 != fields[1].0,
        fields[0].0 != fields[2].0,
        fields[1].0 != fields[2].0,
    ensures
        object(fields).field(fields[0].0) == Some(fields[0].1),
        object(fields).field(fields[1].0) == Some(fields[1].1),
        object(fields).field(fields[2].0) == Some(fields[2].1),
        forall|n: Seq<char>| #[trigger]
            object(fields).field(n) is Some ==> n == fields[0].0 || n == fields[1].0 || n
                == fields[2].0,
{
    lemma_last_field_counts(fields, fields[0].0, 0);
    lemma_last_field_counts(fields, fields[1].0, 1);
    lemma_last_field_counts(fields, fields[2].0, 2);
    assert forall|n: Seq<char>| #[trigger] object(fields).field(n) is Some implies n == fields[0].0
        || n == fields[1].0 || n == fields[2].0 by {
        if n != fields[0].0 && n != fields[1].0 && n != fields[2].0 {
            lemma_no_such_field(fields, n);
        }
    }
}

// ---------------------------------------------------------------------------
// Chat
// ---------------------------------------------------------------------------
/// Whether a document has no members but those with one of two names.
pub open spec fn only_two(document: JsonView, a: Seq<char>, b: Seq<char>) -> bool {
    forall|n: Seq<char>| #[trigger] document.field(n) is Some ==> n == a || n == b
}

/// Whether a document has no members but those with one of three names.
pub open spec fn only_three(document: JsonView, a: Seq<char>, b: Seq<char>, c: Seq<char>) -> bool {
    forall|n: Seq<char>| #[trigger] document.field(n) is Some ==> n == a || n == b || n == c
}

/// Whether `sent` is a text item with the given text, and nothing else.
pub open spec fn says_text(sent: JsonView, text: Seq<char>) -> bool {
    &&& sent.field("type"@) == Some(JsonView::Str("text"@))
    &&& sent.field("text"@) == Some(JsonView::Str(text))
    &&& only_two(sent, "type"@, "text"@)
}

/// Whether `sent` is an image item with the given address and level of detail.
pub open spec fn says_image(sent: JsonView, url: Seq<char>, detail: Option<ImageDetail>) -> bool {
    &&& sent.field("type"@) == Some(JsonView::Str("image_url"@))
    &&& only_two(sent, "type"@, "image_url"@)
    &&& sent.field("image_url"@) matches Some(image)
    &&& only_two(image, "url"@, "detail"@)
    &&& image.field("url"@) == Some(JsonView::Str(url))
    &&& image.field("detail"@) == match detail {
        None => None,
        Some(ImageDetail::Auto) => Some(JsonView::Str("auto"@)),
        Some(ImageDetail::High) => Some(JsonView::Str("high"@)),
        Some(ImageDetail::Low) => Some(JsonView::Str("low"@)),
    }
}

/// Whether `sent` is a document item with the given address and file name.
pub open spec fn says_file(sent: JsonView, url: Seq<char>, filename: Option<String>) -> bool {
    &&& sent.field("type"@) == Some(JsonView::Str("file"@))
    &&& only_two(sent, "type"@, "file"@)
    &&& sent.field("file"@) matches Some(file)
    &&& only_two(file, "file_data"@, "filename"@)
    &&& file.field("file_data"@) == Some(JsonView::Str(url))
    &&& file.field("filename"@) == match filename {
        None => None,
        Some(name) => Some(JsonView::Str(name@)),
    }
}

/// Whether `sent` is an audio item with the given data and format.
pub open spec fn says_audio(sent: JsonView, data: Seq<char>, format: AudioFormat) -> bool {
    &&& sent.field("type"@) == Some(JsonView::Str("input_audio"@))
    &&& only_two(sent, "type"@, "input_audio"@)
    &&& sent.field("input_audio"@) matches Some(audio)
    &&& only_two(audio, "data"@, "format"@)
    &&& audio.field("data"@) == Some(JsonView::Str(data))
    &&& audio.field("format"@) == Some(
        JsonView::Str(
            match format {
                AudioFormat::Mp3 => "mp3"@,
                AudioFormat::Wav => "wav"@,
                AudioFormat::Flac => "flac"@,
                AudioFormat::Ogg => "ogg"@,
                AudioFormat::Aac => "aac"@,
                AudioFormat::Pcm => "pcm"@,
            },
        ),
    )
}

/// Whether `sent` carries what the part of a message holds.
pub open spec fn says_part(sent: JsonView, part: ContentPart) -> bool {
    match part {
        ContentPart::Text(s) => says_text(sent, s@),
        ContentPart::Image(image) => match image.source {
            ImageSource::Url(url) => says_image(sent, url@, image.detail),
            ImageSource::Base64 { mime_type, data } => says_image(
                sent,
                "data:"@ + mime_type@ + ";base64,"@ + data@,
                image.detail,
            ),
            ImageSource::McpResource(uri) => says_text(
                sent,
                "[unresolved image resource: "@ + uri@ + "]"@,
            ),
        },
        ContentPart::Audio(audio) => match audio.source {
            AudioSource::Url(url) => says_text(sent, "[audio url: "@ + url@ + "]"@),
            AudioSource::Base64 { data } => says_audio(sent, data@, audio.format),
            AudioSource::McpResource(uri) => says_text(
                sent,
                "[unresolved audio resource: "@ + uri@ + "]"@,
            ),
        },
        ContentPart::File(file) => match file.source {
            FileSource::Url(url) => says_file(sent, url@, file.filename),
            FileSource::Base64 { data } => says_file(
                sent,
                "data:"@ + file.mime_type@ + ";base64,"@ + data@,
                file.filename,
            ),
            FileSource::McpResource(uri) => says_text(
                sent,
                "[unresolved file resource: "@ + uri@ + "]"@,
            ),
        },
    }
}

/// Whether `sent` carries the call of a tool, its arguments as text.
pub open spec fn says_call(sent: JsonView, call: ToolCall) -> bool {
    &&& sent.field("id"@) == Some(JsonView::Str(call.id@))
    &&& sent.field("type"@) == Some(JsonView::Str("function"@))
    &&& only_three(sent, "id"@, "type"@, "function"@)
    &&& sent.field("function"@) matches Some(function)
    &&& only_two(function, "name"@, "arguments"@)
    &&& function.field("name"@) == Some(JsonView::Str(call.name@))
    &&& function.field("arguments"@) == Some(JsonView::Str(json_text(call.arguments@)))
}

/// Whether `sent` offers the tool: its name, its description, and the schema of
/// its arguments.
pub open spec fn says_tool(sent: JsonView, tool: ToolDef) -> bool {
    &&& sent.field("type"@) == Some(JsonView::Str("function"@))
    &&& only_two(sent, "type"@, "function"@)
    &&& sent.field("function"@) matches Some(function)
    &&& only_three(function, "name"@, "description"@, "parameters"@)
    &&& function.field("name"@) == Some(JsonView::Str(tool.name@))
    &&& function.field("description"@) == Some(JsonView::Str(tool.description@))
    &&& function.field("parameters"@) == Some(tool.parameters@)
}

/// The plain text of a content.
pub open spec fn plain_text(content: MessageContent) -> Seq<char> {
    match content {
        MessageContent::Text(s) => s@,
        MessageContent::Parts { text, .. } => text@,
    }
}

/// Whether `sent` carries the parts, one item for each and in their order.
pub open spec fn says_parts(sent: JsonView, parts: Seq<ContentPart>) -> bool {
    sent matches JsonView::Array(items) && items.len() == parts.len() && forall|i: int|
        0 <= i < parts.len() ==> says_part(#[trigger] items[i], parts[i])
}

/// Whether `sent` carries the calls, one item for each and in their order.
pub open spec fn says_calls(sent: JsonView, calls: Seq<ToolCall>) -> bool {
    sent matches JsonView::Array(items) && items.len() == calls.len() && forall|i: int|
        0 <= i < calls.len() ==> says_call(#[trigger] items[i], calls[i])
}

/// Whether `sent` offers the tools, one item for each and in their order.
pub open spec fn says_tools(sent: JsonView, tools: Seq<ToolDef>) -> bool {
    sent matches JsonView::Array(items) && items.len() == tools.len() && forall|i: int|
        0 <= i < tools.len() ==> says_tool(#[trigger] items[i], tools[i])
}

/// Whether `sent` carries the message: who speaks, what they say, the tools
/// that they call and the call that they answer.
pub open spec fn says_message(sent: JsonView, message: Message) -> bool {
    let text = plain_text(message.content);
    match message.role {
        Role::System => {
            &&& only_two(sent, "role"@, "content"@)
            &&& sent.field("role"@) == Some(JsonView::Str("system"@))
            &&& sent.field("content"@) == Some(JsonView::Str(text))
        },
        Role::User => {
            &&& only_two(sent, "role"@, "content"@)
            &&& sent.field("role"@) == Some(JsonView::Str("user"@))
            &&& sent.field("content"@) matches Some(content)
            &&& match message.content {
                MessageContent::Text(s) => content == JsonView::Str(s@),
                MessageContent::Parts { parts, .. } => says_parts(content, parts@),
            }
        },
        Role::Assistant => {
            &&& only_three(sent, "role"@, "content"@, "tool_calls"@)
            &&& sent.field("role"@) == Some(JsonView::Str("assistant"@))
            &&& sent.field("content"@) == Some(
                if text.len() > 0 {
                    JsonView::Str(text)
                } else {
                    JsonView::Null
                },
            )
            &&& if message.tool_calls@.len() == 0 {
                sent.field("tool_calls"@) is None
            } else {
                sent.field("tool_calls"@) matches Some(calls) && says_calls(
                    calls,
                    message.tool_calls@,
                )
            }
        },
        Role::Tool => {
            &&& only_three(sent, "role"@, "content"@, "tool_call_id"@)
            &&& sent.field("role"@) == Some(JsonView::Str("tool"@))
            &&& sent.field("content"@) == Some(JsonView::Str(text))
            &&& sent.field("tool_call_id"@) matches Some(JsonView::Str(id))
            &&& match message.tool_call_id {
                Some(given) => id == given@,
                None => id.len() == 0,
            }
        },
    }
}

/// Whether `sent` carries the messages, one item for each and in their order.
pub open spec fn says_messages(sent: JsonView, messages: Seq<Message>) -> bool {
    sent matches JsonView::Array(items) && items.len() == messages.len() && forall|i: int|
        0 <= i < messages.len() ==> says_message(#[trigger] items[i], messages[i])
}

/// Whether `sent` asks for replies that satisfy the schema.
pub open spec fn says_schema(sent: JsonView, schema: JsonView, strict: bool) -> bool {
    &&& sent.field("type"@) == Some(JsonView::Str("json_schema"@))
    &&& only_two(sent, "type"@, "json_schema"@)
    &&& sent.field("json_schema"@) matches Some(inner)
    &&& only_three(inner, "name"@, "strict"@, "schema"@)
    &&& inner.field("name"@) == Some(JsonView::Str("structured_output"@))
    &&& inner.field("strict"@) == Some(JsonView::Bool(strict))
    &&& inner.field("schema"@) == Some(schema)
}

proof fn lemma_typed(kind: Seq<char>, name: Seq<char>, value: JsonView)
    requires
        name != "type"@,
    ensures
        typed(kind, name, value).field("type"@) == Some(JsonView::Str(kind)),
        typed(kind, name, value).field(name) == Some(value),
        forall|n: Seq<char>| #[trigger]
            typed(kind, name, value).field(n) is Some ==> n == "type"@ || n == name,
{
    lemma_two(seq![("type"@, JsonView::Str(kind)), (name, value)]);
}

proof fn lemma_says_text(text: Seq<char>)
    ensures
        says_text(crate::adapter::text_part(text), text),
{
    lemma_request_names();
    lemma_typed("text"@, "text"@, JsonView::Str(text));
}

proof fn lemma_says_image(url: Seq<char>, detail: Option<ImageDetail>)
    ensures
        says_image(crate::adapter::image_part(url, detail), url, detail),
{
    broadcast use group_fields;

    lemma_request_names();
    let label = match detail {
        Some(ImageDetail::Auto) => Some(JsonView::Str("auto"@)),
        Some(ImageDetail::High) => Some(JsonView::Str("high"@)),
        Some(ImageDetail::Low) => Some(JsonView::Str("low"@)),
        None => None,
    };
    let head = seq![("url"@, JsonView::Str(url))];
    lemma_one(head);
    lemma_typed(
        "image_url"@,
        "image_url"@,
        object(head + crate::json::optional("detail"@, label)),
    );
}

proof fn lemma_says_file(url: Seq<char>, filename: Option<String>)
    ensures
        says_file(crate::adapter::file_part(url, filename), url, filename),
{
    broadcast use group_fields;

    lemma_request_names();
    let head = seq![("file_data"@, JsonView::Str(url))];
    lemma_one(head);
    lemma_typed(
        "file"@,
        "file"@,
        object(
            head + crate::json::optional("filename"@, crate::json::optional_str(filename)),
        ),
    );
}

/// A part of a user message is sent with all that it holds: text as it is, an
/// image or a document by its address or with its data, audio with its data and
/// its format, and what was not resolved by its name.
pub proof fn law_a_part_is_sent_as_it_is(part: ContentPart)
    ensures
        says_part(part_json(part), part),
{
    match part {
        ContentPart::Text(s) => {
            lemma_says_text(s@);
        },
        ContentPart::Image(image) => match image.source {
            ImageSource::Url(url) => {
                lemma_says_image(url@, image.detail);
            },
            ImageSource::Base64 { mime_type, data } => {
                lemma_says_image("data:"@ + mime_type@ + ";base64,"@ + data@, image.detail);
            },
            ImageSource::McpResource(uri) => {
                lemma_says_text("[unresolved image resource: "@ + uri@ + "]"@);
            },
        },
        ContentPart::Audio(audio) => match audio.source {
            AudioSource::Url(url) => {
                lemma_says_text("[audio url: "@ + url@ + "]"@);
            },
            AudioSource::Base64 { data } => {
                lemma_request_names();
                let format = JsonView::Str(crate::adapter::format_label(audio.format));
                lemma_two(seq![("data"@, JsonView::Str(data@)), ("format"@, format)]);
                lemma_typed(
                    "input_audio"@,
                    "input_audio"@,
                    object(seq![("data"@, JsonView::Str(data@)), ("format"@, format)]),
                );
            },
            AudioSource::McpResource(uri) => {
                lemma_says_text("[unresolved audio resource: "@ + uri@ + "]"@);
            },
        },
        ContentPart::File(file) => match file.source {
            FileSource::Url(url) => {
                lemma_says_file(url@, file.filename);
            },
            FileSource::Base64 { data } => {
                lemma_says_file("data:"@ + file.mime_type@ + ";base64,"@ + data@, file.filename);
            },
            FileSource::McpResource(uri) => {
                lemma_says_text("[unresolved file resource: "@ + uri@ + "]"@);
            },
        },
    }
}

/// The parts of a user message are all sent, in their order, each with all that
/// it holds.
pub proof fn law_parts_are_sent_as_they_are(parts: Seq<ContentPart>)
    ensures
        says_parts(parts_json(parts), parts),
{
    assert forall|i: int| 0 <= i < parts.len() implies says_part(
        #[trigger] parts_json(parts)->Array_0[i],
        parts[i],
    ) by {
        law_a_part_is_sent_as_it_is(parts[i]);
    }
}

proof fn lemma_says_call(call: ToolCall)
    ensures
        says_call(call_json(call), call),
{
    lemma_request_names();
    let name = JsonView::Str(call.name@);
    let arguments = JsonView::Str(json_text(call.arguments@));
    lemma_two(seq![("name"@, name), ("arguments"@, arguments)]);
    lemma_three(
        seq![
            ("id"@, JsonView::Str(call.id@)),
            ("type"@, JsonView::Str("function"@)),
            ("function"@, object(seq![("name"@, name), ("arguments"@, arguments)])),
        ],
    );
}

proof fn lemma_says_calls(calls: Seq<ToolCall>)
    ensures
        says_calls(calls_json(calls), calls),
{
    assert forall|i: int| 0 <= i < calls.len() implies says_call(
        #[trigger] calls_json(calls)->Array_0[i],
        calls[i],
    ) by {
        lemma_says_call(calls[i]);
    }
}

/// A message is sent with all that it holds: who speaks, what they say, the
/// tools that they call and the call that they answer.
pub proof fn law_a_message_is_sent_as_it_is(message: Message)
    ensures
        says_message(message_json(message), message),
{
    broadcast use group_fields;

    lemma_request_names();
    let text = message.content.text();
    match message.role {
        Role::System => {
            lemma_two(seq![("role"@, JsonView::Str("system"@)), ("content"@, JsonView::Str(text))]);
        },
        Role::User => {
            let content = crate::adapter::user_content_json(message.content);
            lemma_two(seq![("role"@, JsonView::Str("user"@)), ("content"@, content)]);
            if let MessageContent::Parts { parts, .. } = message.content {
                law_parts_are_sent_as_they_are(parts@);
            }
        },
        Role::Assistant => {
            let content = if text.len() == 0 {
                JsonView::Null
            } else {
                JsonView::Str(text)
            };
            lemma_two(seq![("role"@, JsonView::Str("assistant"@)), ("content"@, content)]);
            lemma_says_calls(message.tool_calls@);
        },
        Role::Tool => {
            lemma_three(
                seq![
                    ("role"@, JsonView::Str("tool"@)),
                    ("tool_call_id"@, JsonView::Str(crate::adapter::or_empty(message.tool_call_id))),
                    ("content"@, JsonView::Str(text)),
                ],
            );
        },
    }
}

/// The messages of a conversation are all sent, in their order, each with all
/// that it holds.
pub proof fn law_messages_are_sent_as_they_are(messages: Seq<Message>)
    ensures
        says_messages(messages_json(messages), messages),
{
    assert forall|i: int| 0 <= i < messages.len() implies says_message(
        #[trigger] messages_json(messages)->Array_0[i],
        messages[i],
    ) by {
        law_a_message_is_sent_as_it_is(messages[i]);
    }
}

proof fn lemma_says_tool(tool: ToolDef)
    ensures
        says_tool(tool_json(tool), tool),
{
    lemma_request_names();
    let name = JsonView::Str(tool.name@);
    let description = JsonView::Str(tool.description@);
    lemma_three(
        seq![("name"@, name), ("description"@, description), ("parameters"@, tool.parameters@)],
    );
    lemma_typed(
        "function"@,
        "function"@,
        object(
            seq![
                ("name"@, name),
                ("description"@, description),
                ("parameters"@, tool.parameters@),
            ],
        ),
    );
}

/// The tools of a request are all offered, in their order, each with its name,
/// its description and the schema of its arguments.
pub proof fn law_tools_are_offered_as_they_are(tools: Seq<ToolDef>)
    ensures
        says_tools(tools_json(tools), tools),
{
    assert forall|i: int| 0 <= i < tools.len() implies says_tool(
        #[trigger] tools_json(tools)->Array_0[i],
        tools[i],
    ) by {
        lemma_says_tool(tools[i]);
    }
}

proof fn lemma_says_schema(schema: JsonView, strict: bool)
    ensures
        says_schema(schema_json(schema, strict), schema, strict),
{
    lemma_request_names();
    let name = JsonView::Str("structured_output"@);
    lemma_three(seq![("name"@, name), ("strict"@, JsonView::Bool(strict)), ("schema"@, schema)]);
    lemma_typed(
        "json_schema"@,
        "json_schema"@,
        object(seq![("name"@, name), ("strict"@, JsonView::Bool(strict)), ("schema"@, schema)]),
    );
}

/// Whether `sent` carries the chat request: the model and all messages, the
/// tools that are offered and whether one has to be called, the schema of the
/// reply, and each setting that is there with its value.
pub open spec fn says_chat(sent: JsonView, req: NormalizedChatRequest) -> bool {
    &&& sent.field("model"@) == Some(JsonView::Str(req.model@))
    &&& sent.field("messages"@) matches Some(messages)
    &&& says_messages(messages, req.messages@)
    &&& if req.tools@.len() == 0 {
        sent.field("tools"@) is None && sent.field("tool_choice"@) is None
    } else {
        &&& sent.field("tools"@) matches Some(tools)
        &&& says_tools(tools, req.tools@)
        &&& sent.field("tool_choice"@) == Some(
            JsonView::Str(
                match req.tool_choice {
                    ToolChoiceWire::Auto => "auto"@,
                    ToolChoiceWire::Required => "required"@,
                    ToolChoiceWire::Never => "none"@,
                },
            ),
        )
    }
    &&& match req.response_schema {
        None => sent.field("response_format"@) is None,
        Some(schema) => sent.field("response_format"@) matches Some(format) && says_schema(
            format,
            schema@,
            req.strict_response,
        ),
    }
    &&& sent.field("temperature"@) == match req.temperature {
        Some(t) => Some(t@),
        None => None,
    }
    &&& sent.field("top_p"@) == match req.top_p {
        Some(p) => Some(p@),
        None => None,
    }
    &&& sent.field("max_completion_tokens"@) == match req.max_completion_tokens {
        Some(n) => Some(JsonView::Unsigned(n)),
        None => None,
    }
    &&& sent.field("seed"@) == match req.seed {
        Some(s) => Some(s@),
        None => None,
    }
}

/// A chat request is sent with all that it asks for, and a streamed one with
/// the same and the wish for a stream that ends with the usage.  Nothing else
/// is sent.
pub proof fn law_a_chat_request_says_what_is_asked(req: NormalizedChatRequest)
    ensures
        says_chat(request_json(req), req),
        says_chat(streaming_request_json(req), req),
        request_json(req).field("stream"@) is None,
        request_json(req).field("stream_options"@) is None,
        streaming_request_json(req).field("stream"@) == Some(JsonView::Bool(true)),
        streaming_request_json(req).field("stream_options"@) matches Some(options)
            && options.field("include_usage"@) == Some(JsonView::Bool(true)),
        forall|n: Seq<char>| #[trigger]
            streaming_request_json(req).field(n) is Some ==> n == "model"@ || n == "messages"@ || n
                == "tools"@ || n == "tool_choice"@ || n == "response_format"@ || n == "temperature"@
                || n == "top_p"@ || n == "max_completion_tokens"@ || n == "seed"@ || n == "stream"@
                || n == "stream_options"@,
{
    broadcast use group_fields;

    lemma_request_names();
    law_messages_are_sent_as_they_are(req.messages@);
    law_tools_are_offered_as_they_are(req.tools@);
    if let Some(schema) = req.response_schema {
        lemma_says_schema(schema@, req.strict_response);
    }
    lemma_two(
        seq![("model"@, JsonView::Str(req.model@)), ("messages"@, messages_json(req.messages@))],
    );
    let options = object(seq![("include_usage"@, JsonView::Bool(true))]);
    lemma_last_field_counts(seq![("include_usage"@, JsonView::Bool(true))], "include_usage"@, 0);
    lemma_two(seq![("stream"@, JsonView::Bool(true)), ("stream_options"@, options)]);
}

// ---------------------------------------------------------------------------
// Embeddings, images, speech
// ---------------------------------------------------------------------------
/// A request for embeddings carries every input as it is, in the order of the
/// inputs, the model, and the number of components if one is asked for.
/// Nothing else is sent.
pub proof fn law_every_input_is_sent(
    request: embedding_adapter::NormalizedEmbeddingRequest,
)
    ensures
        ({
            let sent = embedding_adapter::request_json(request);
            &&& sent.field("model"@) == Some(JsonView::Str(request.model@))
            &&& sent.field("input"@) matches Some(JsonView::Array(items))
            &&& items.len() == request.inputs@.len()
            &&& forall|i: int|
                0 <= i < items.len() ==> #[trigger] items[i] == JsonView::Str(request.inputs@[i]@)
            &&& sent.field("dimensions"@) == match request.dimensions {
                Some(d) => Some(JsonView::Unsigned(d as u64)),
                None => None,
            }
            &&& forall|n: Seq<char>| #[trigger]
                sent.field(n) is Some ==> n == "model"@ || n == "input"@ || n == "dimensions"@
        }),
{
    broadcast use group_fields;

    lemma_request_names();
    lemma_two(
        seq![
            ("model"@, JsonView::Str(request.model@)),
            ("input"@, embedding_adapter::inputs_json(request.inputs@)),
        ],
    );
}

/// A request for images carries the model, the prompt, the number of images
/// that is asked for, the wish for their bytes, and each option that is set with
/// its value.  Nothing else is sent.
pub proof fn law_an_image_request_says_what_is_asked(
    request: image_adapter::NormalizedImageRequest,
)
    ensures
        ({
            let sent = image_adapter::request_json(request);
            &&& sent.field("model"@) == Some(JsonView::Str(request.model@))
            &&& sent.field("prompt"@) == Some(JsonView::Str(request.prompt@))
            &&& sent.field("n"@) == Some(JsonView::Unsigned(request.n as u64))
            &&& sent.field("response_format"@) == Some(JsonView::Str("b64_json"@))
            &&& sent.field("size"@) == match request.size {
                Some(s) => Some(JsonView::Str(s@)),
                None => None,
            }
            &&& sent.field("quality"@) == match request.quality {
                Some(s) => Some(JsonView::Str(s@)),
                None => None,
            }
            &&& sent.field("style"@) == match request.style {
                Some(s) => Some(JsonView::Str(s@)),
                None => None,
            }
            &&& sent.field("output_format"@) == match request.output_format {
                Some(s) => Some(JsonView::Str(s@)),
                None => None,
            }
            &&& forall|n: Seq<char>| #[trigger]
                sent.field(n) is Some ==> n == "model"@ || n == "prompt"@ || n == "n"@ || n
                    == "response_format"@ || n == "size"@ || n == "quality"@ || n == "style"@ || n
                    == "output_format"@
        }),
{
    broadcast use group_fields;

    lemma_request_names();
    let head = seq![
        ("model"@, JsonView::Str(request.model@)),
        ("prompt"@, JsonView::Str(request.prompt@)),
        ("n"@, JsonView::Unsigned(request.n as u64)),
        ("response_format"@, JsonView::Str("b64_json"@)),
    ];
    lemma_last_field_counts(head, "model"@, 0);
    lemma_last_field_counts(head, "prompt"@, 1);
    lemma_last_field_counts(head, "n"@, 2);
    lemma_last_field_counts(head, "response_format"@, 3);
    assert forall|n: Seq<char>|
        n != "model"@ && n != "prompt"@ && n != "n"@ && n
            != "response_format"@ implies #[trigger] object(head).field(n) is None by {
        lemma_no_such_field(head, n);
    }
}

/// A request for speech carries the model, the text, the voice that is asked
/// for, the format under the name that the endpoint has for it, and the speed if
/// one is set.  Nothing else is sent.
pub proof fn law_a_speech_request_says_what_is_asked(request: tts_adapter::NormalizedTtsRequest)
    ensures
        ({
            let sent = tts_adapter::request_json(request);
            &&& sent.field("model"@) == Some(JsonView::Str(request.model@))
            &&& sent.field("input"@) == Some(JsonView::Str(request.text@))
            &&& sent.field("voice"@) == Some(JsonView::Str(request.voice@))
            &&& sent.field("response_format"@) == Some(
                JsonView::Str(
                    match request.format {
                        AudioFormat::Mp3 => "mp3"@,
                        AudioFormat::Wav => "wav"@,
                        AudioFormat::Flac => "flac"@,
                        AudioFormat::Ogg => "opus"@,
                        AudioFormat::Aac => "aac"@,
                        AudioFormat::Pcm => "pcm"@,
                    },
                ),
            )
            &&& sent.field("speed"@) == match request.speed {
                Some(s) => Some(s@),
                None => None,
            }
            &&& forall|n: Seq<char>| #[trigger]
                sent.field(n) is Some ==> n == "model"@ || n == "input"@ || n == "voice"@ || n
                    == "response_format"@ || n == "speed"@
        }),
{
    broadcast use group_fields;

    lemma_request_names();
    let head = seq![
        ("model"@, JsonView::Str(request.model@)),
        ("input"@, JsonView::Str(request.text@)),
        ("voice"@, JsonView::Str(request.voice@)),
        ("response_format"@, JsonView::Str(tts_adapter::speech_format(request.format))),
    ];
    lemma_last_field_counts(head, "model"@, 0);
    lemma_last_field_counts(head, "input"@, 1);
    lemma_last_field_counts(head, "voice"@, 2);
    lemma_last_field_counts(head, "response_format"@, 3);
    assert forall|n: Seq<char>|
        n != "model"@ && n != "input"@ && n != "voice"@ && n
            != "response_format"@ implies #[trigger] object(head).field(n) is None by {
        lemma_no_such_field(head, n);
    }
}

/// The name of the file that goes with a type of audio, by which the endpoint
/// picks the decoder.
pub open spec fn file_for(mime: Seq<char>, filename: Seq<char>) -> bool {
    &&& (mime == "audio/mpeg"@ || mime == "audio/mp3"@) ==> filename == "audio.mp3"@
    &&& (mime == "audio/wav"@ || mime == "audio/x-wav"@) ==> filename == "audio.wav"@
    &&& mime == "audio/flac"@ ==> filename == "audio.flac"@
    &&& (mime == "audio/ogg"@ || mime == "audio/opus"@) ==> filename == "audio.ogg"@
    &&& (mime == "audio/mp4"@ || mime == "audio/x-m4a"@) ==> filename == "audio.m4a"@
    &&& mime == "audio/webm"@ ==> filename == "audio.webm"@
    &&& !(mime == "audio/mpeg"@ || mime == "audio/mp3"@ || mime == "audio/wav"@ || mime
        == "audio/x-wav"@ || mime == "audio/flac"@ || mime == "audio/ogg"@ || mime == "audio/opus"@
        || mime == "audio/mp4"@ || mime == "audio/x-m4a"@ || mime == "audio/webm"@) ==> filename
        == "audio.bin"@
}

proof fn lemma_types_differ()
    ensures
        mark("audio/mpeg"@) == (10nat, 'a', 'u', 'd', 'g'),
        mark("audio/mp3"@) == (9nat, 'a', 'u', 'd', '3'),
        mark("audio/wav"@) == (9nat, 'a', 'u', 'd', 'v'),
        mark("audio/x-wav"@) == (11nat, 'a', 'u', 'd', 'v'),
        mark("audio/flac"@) == (10nat, 'a', 'u', 'd', 'c'),
        mark("audio/ogg"@) == (9nat, 'a', 'u', 'd', 'g'),
        mark("audio/opus"@) == (10nat, 'a', 'u', 'd', 's'),
        mark("audio/mp4"@) == (9nat, 'a', 'u', 'd', '4'),
        mark("audio/x-m4a"@) == (11nat, 'a', 'u', 'd', 'a'),
        mark("audio/webm"@) == (10nat, 'a', 'u', 'd', 'm'),
{
    reveal_strlit("audio/mpeg");
    reveal_strlit("audio/mp3");
    reveal_strlit("audio/wav");
    reveal_strlit("audio/x-wav");
    reveal_strlit("audio/flac");
    reveal_strlit("audio/ogg");
    reveal_strlit("audio/opus");
    reveal_strlit("audio/mp4");
    reveal_strlit("audio/x-m4a");
    reveal_strlit("audio/webm");
}

/// A request for a transcript carries the model, the wish for the verbose form,
/// the very bytes of the audio with their type and a name that fits it, and the
/// language and the prompt exactly if they are given.  Each is there once, and
/// nothing else is sent.
pub proof fn law_a_recording_is_sent_as_it_is(request: stt_adapter::NormalizedSttRequest)
    ensures
        ({
            let parts = stt_adapter::form(request);
            &&& parts.len() == 3 + (if request.language is Some {
                1int
            } else {
                0
            }) + (if request.prompt is Some {
                1int
            } else {
                0
            })
            &&& parts.contains(PartView::Text { name: "model"@, value: request.model@ })
            &&& parts.contains(PartView::Text { name: "response_format"@, value: "verbose_json"@ })
            &&& exists|filename: Seq<char>| #[trigger]
                parts.contains(
                    PartView::Audio {
                        name: "file"@,
                        filename,
                        mime_type: request.mime_type@,
                        bytes: request.bytes@,
                    },
                ) && file_for(request.mime_type@, filename)
            &&& request.language matches Some(language) ==> parts.contains(
                PartView::Text { name: "language"@, value: language@ },
            )
            &&& request.prompt matches Some(prompt) ==> parts.contains(
                PartView::Text { name: "prompt"@, value: prompt@ },
            )
        }),
{
    lemma_types_differ();
    let parts = stt_adapter::form(request);
    let filename = stt_adapter::filename(request.mime_type@);
    assert(parts[0] == PartView::Text { name: "model"@, value: request.model@ });
    assert(parts[1] == PartView::Text { name: "response_format"@, value: "verbose_json"@ });
    assert(parts[2] == PartView::Audio {
        name: "file"@,
        filename,
        mime_type: request.mime_type@,
        bytes: request.bytes@,
    });
    assert(parts.contains(parts[2]));
    if let Some(language) = request.language {
        assert(parts[3] == PartView::Text { name: "language"@, value: language@ });
    }
    if let Some(prompt) = request.prompt {
        assert(parts[parts.len() - 1] == PartView::Text { name: "prompt"@, value: prompt@ });
    }
}

} // verus!
