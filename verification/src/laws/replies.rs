//! What replies are read as.
use vstd::prelude::*;

use crate::adapter::{
    chat_outcome, decoded_call, decoded_calls, decoded_reply, excerpt, transport_failure,
};
use crate::embedding_adapter;
use crate::error::{ErrorClass, ProviderFailure};
use crate::image_adapter::{self, base64_bytes, ImageView, StepView, Walk};
use crate::json::{json_of_bytes, json_of_text, JsonView};
use crate::laws::texts::law_a_text_holds_what_stands_in_it;
use crate::normalized::{FinishReason, TokenUsage, ToolCallView};
use crate::stt_adapter;
use crate::text::{contains, occurs_at, readable};
use crate::tts_adapter;
use crate::upstream::{json_reply, status_failure, status_text, Exchange, TransportFault};

verus! {

/// The string that a document has under a name, if it has one there.
pub open spec fn string_at(document: JsonView, name: Seq<char>) -> Option<Seq<char>> {
    match document.field(name) {
        Some(JsonView::Str(s)) => Some(s),
        _ => None,
    }
}

/// The items that a document has under a name; none if there is no array.
pub open spec fn items_at(document: JsonView, name: Seq<char>) -> Seq<JsonView> {
    match document.field(name) {
        Some(JsonView::Array(items)) => items,
        _ => seq![],
    }
}

/// The count that a document has under a name, kept to 32 bits; zero if there is
/// none.
pub open spec fn count_at(document: JsonView, name: Seq<char>) -> int {
    match document.field(name) {
        Some(JsonView::Unsigned(n)) => n as int % 0x1_0000_0000,
        _ => 0,
    }
}

// ---------------------------------------------------------------------------
// Chat
// ---------------------------------------------------------------------------
/// Whether an item states a call of a tool whose arguments are a document.
pub open spec fn states_a_call(item: JsonView) -> bool {
    item.field("function"@) matches Some(function) && json_of_text(
        match string_at(function, "arguments"@) {
            Some(text) => text,
            None => "{}"@,
        },
    ) is Ok
}

/// Whether the call is the one that the item states.
pub open spec fn reads_call(call: ToolCallView, item: JsonView) -> bool {
    &&& item.field("function"@) matches Some(function)
    &&& match string_at(item, "id"@) {
        Some(id) => call.id == id,
        None => call.id.len() == 0,
    }
    &&& match string_at(function, "name"@) {
        Some(name) => call.name == name,
        None => call.name.len() == 0,
    }
    &&& match string_at(function, "arguments"@) {
        Some(text) => json_of_text(text) == Ok::<JsonView, Seq<char>>(call.arguments),
        None => json_of_text("{}"@) == Ok::<JsonView, Seq<char>>(call.arguments),
    }
}

/// Whether the reason is the one that the text stands for.
pub open spec fn reads_reason(reason: FinishReason, text: Option<Seq<char>>) -> bool {
    &&& reason == FinishReason::Stop <==> text == Some("stop"@)
    &&& reason == FinishReason::ToolCalls <==> text == Some("tool_calls"@)
    &&& reason == FinishReason::Length <==> text == Some("length"@)
    &&& reason == FinishReason::ContentFilter <==> text == Some("content_filter"@)
}

/// Whether the usage has the counts of the document.
pub open spec fn reads_usage(usage: TokenUsage, document: Option<JsonView>) -> bool {
    match document {
        None => usage.input_tokens == 0 && usage.output_tokens == 0 && usage.cached_input_tokens
            == 0,
        Some(u) => {
            &&& usage.input_tokens == count_at(u, "prompt_tokens"@)
            &&& usage.output_tokens == count_at(u, "completion_tokens"@)
            &&& match u.field("prompt_tokens_details"@) {
                Some(details) => usage.cached_input_tokens == count_at(details, "cached_tokens"@),
                None => usage.cached_input_tokens == 0,
            }
        },
    }
}

pub(crate) proof fn lemma_reads_reason(text: Option<Seq<char>>)
    ensures
        reads_reason(
            match text {
                Some(t) => crate::adapter::reason_of(t),
                None => FinishReason::Other,
            },
            text,
        ),
{
    reveal_strlit("stop");
    reveal_strlit("tool_calls");
    reveal_strlit("length");
    reveal_strlit("content_filter");
    assert("stop"@.len() != "tool_calls"@.len());
    assert("stop"@.len() != "length"@.len());
    assert("stop"@.len() != "content_filter"@.len());
    assert("tool_calls"@.len() != "length"@.len());
    assert("tool_calls"@.len() != "content_filter"@.len());
    assert("length"@.len() != "content_filter"@.len());
}

proof fn lemma_reads_calls(items: Seq<JsonView>)
    ensures
        match decoded_calls(items) {
            Ok(calls) => {
                &&& calls.len() == items.len()
                &&& forall|i: int| 0 <= i < items.len() ==> states_a_call(#[trigger] items[i])
                &&& forall|i: int|
                    0 <= i < items.len() ==> reads_call(#[trigger] calls[i], items[i])
            },
            Err(e) => e.class == ErrorClass::Malformed && exists|i: int|
                0 <= i < items.len() && !states_a_call(#[trigger] items[i]),
        },
    decreases items.len(),
{
    reveal_strlit("");
    if items.len() > 0 {
        let short = items.drop_last();
        lemma_reads_calls(short);
        match decoded_calls(short) {
            Err(_) => {
                let i = choose|i: int| 0 <= i < short.len() && !states_a_call(#[trigger] short[i]);
                assert(items[i] == short[i]);
            },
            Ok(calls) => {
                let last = items[items.len() - 1];
                match decoded_call(last) {
                    Err(_) => {
                        assert(!states_a_call(last));
                    },
                    Ok(call) => {
                        assert(reads_call(call, last));
                        let all = calls.push(call);
                        assert forall|i: int| 0 <= i < items.len() implies states_a_call(
                            #[trigger] items[i],
                        ) by {
                            if i < short.len() {
                                assert(short[i] == items[i]);
                            }
                        }
                        assert forall|i: int| 0 <= i < items.len() implies reads_call(
                            #[trigger] all[i],
                            items[i],
                        ) by {
                            if i < short.len() {
                                assert(calls[i] == all[i]);
                                assert(short[i] == items[i]);
                            }
                        }
                    },
                }
            },
        }
    }
}

/// A chat reply is read as it is: the text of the first choice, its calls of
/// tools in their order, the reason for the end and the counts of tokens.  It is
/// refused exactly if it has no first choice, that no message, or a call no
/// function or arguments that are no document.
pub proof fn law_a_chat_reply_is_read_as_it_is(value: JsonView)
    ensures
        ({
            let choices = items_at(value, "choices"@);
            let message = choices[0].field("message"@);
            let items = items_at(message->0, "tool_calls"@);
            match decoded_reply(value) {
                Ok(reply) => {
                    &&& choices.len() > 0
                    &&& message is Some
                    &&& match string_at(message->0, "content"@) {
                        Some(text) => reply.content == text,
                        None => reply.content.len() == 0,
                    }
                    &&& reply.tool_calls.len() == items.len()
                    &&& forall|i: int|
                        0 <= i < items.len() ==> reads_call(#[trigger] reply.tool_calls[i], items[i])
                    &&& reads_reason(
                        reply.finish_reason,
                        string_at(choices[0], "finish_reason"@),
                    )
                    &&& reads_usage(reply.usage, value.field("usage"@))
                },
                Err(e) => {
                    &&& e.class == ErrorClass::Malformed
                    &&& choices.len() == 0 || message is None || exists|i: int|
                        0 <= i < items.len() && !states_a_call(#[trigger] items[i])
                },
            }
        }),
        decoded_reply(value) is Ok <==> items_at(value, "choices"@).len() > 0 && items_at(
            value,
            "choices"@,
        )[0].field("message"@) is Some && forall|i: int|
            0 <= i < items_at(
                items_at(value, "choices"@)[0].field("message"@)->0,
                "tool_calls"@,
            ).len() ==> states_a_call(
                #[trigger] items_at(
                    items_at(value, "choices"@)[0].field("message"@)->0,
                    "tool_calls"@,
                )[i],
            ),
{
    reveal_strlit("");
    let choices = items_at(value, "choices"@);
    if choices.len() > 0 {
        let message = choices[0].field("message"@);
        if message is Some {
            let items = items_at(message->0, "tool_calls"@);
            lemma_reads_calls(items);
            lemma_reads_reason(string_at(choices[0], "finish_reason"@));
        }
    }
}

/// A call whose arguments are no document is refused with its name and the
/// reason that the parser gives.
pub proof fn law_bad_arguments_are_named(item: JsonView)
    requires
        item.field("function"@) is Some,
    ensures
        ({
            let function = item.field("function"@)->0;
            let text = match string_at(function, "arguments"@) {
                Some(text) => text,
                None => "{}"@,
            };
            match json_of_text(text) {
                Err(why) => {
                    &&& decoded_call(item) matches Err(e)
                    &&& e.class == ErrorClass::Malformed
                    &&& contains(e.message, why)
                    &&& string_at(function, "name"@) matches Some(name) ==> contains(
                        e.message,
                        name,
                    )
                },
                Ok(_) => decoded_call(item) matches Ok(call) && reads_call(call, item),
            }
        }),
{
    reveal_strlit("");
    let function = item.field("function"@)->0;
    let text = match string_at(function, "arguments"@) {
        Some(text) => text,
        None => "{}"@,
    };
    if let Err(why) = json_of_text(text) {
        let name = match string_at(function, "name"@) {
            Some(name) => name,
            None => ""@,
        };
        let middle = "' has malformed arguments: "@;
        let message = "tool_call '"@ + name + middle + why;
        lemma_ends_with("tool_call '"@ + name + middle, why);
        assert(message =~= "tool_call '"@ + name + (middle + why));
        law_a_text_holds_what_stands_in_it(message, name);
    }
}

/// Whether a text holds one of the phrases by which the endpoint says that a
/// request is too long.
pub open spec fn says_too_long(text: Seq<char>) -> bool {
    contains(text, "context_length"@) || contains(text, "maximum context"@) || contains(
        text,
        "token limit"@,
    )
}

/// What comes of a chat request: a reply with a status from 200 to 299 is read,
/// any other becomes an error whose class the status gives and whose message is
/// what may be shown of the body, and a request that could not be sent, or a
/// reply that broke off, is a fault of the network that says why.
pub proof fn law_a_chat_exchange_is_told(exchange: Exchange)
    ensures
        match exchange {
            Exchange::SendFailed(fault) => chat_outcome(exchange) matches Err(e) && e.class
                == ErrorClass::Network && contains(e.message, fault.detail@),
            Exchange::ReadFailed(detail) => chat_outcome(exchange) matches Err(e) && e.class
                == ErrorClass::Network && contains(e.message, detail@),
            Exchange::Replied { status, body } => if 200 <= status <= 299 {
                match json_of_bytes(body@) {
                    Ok(value) => chat_outcome(exchange) == decoded_reply(value),
                    Err(why) => chat_outcome(exchange) matches Err(e) && e.class
                        == ErrorClass::Malformed && contains(e.message, why),
                }
            } else {
                let shown = excerpt(readable(body@));
                &&& chat_outcome(exchange) matches Err(e)
                &&& e.message == shown
                &&& e.class == ErrorClass::RateLimited <==> status == 429
                &&& e.class == ErrorClass::AuthFailed <==> status == 401 || status == 403
                &&& e.class == ErrorClass::ContextLimit <==> status == 413 || (status == 400
                    && says_too_long(shown))
                &&& e.class == ErrorClass::BadRequest <==> status == 400 && !says_too_long(shown)
                &&& e.class == ErrorClass::Server <==> !(status == 429 || status == 401 || status
                    == 403 || status == 413 || status == 400)
            },
        },
{
    match exchange {
        Exchange::SendFailed(fault) => {
            lemma_ends_with("timeout: "@, fault.detail@);
            lemma_ends_with("connect failed: "@, fault.detail@);
            lemma_ends_with("transport: "@, fault.detail@);
            lemma_ends_with(seq![], fault.detail@);
            assert(Seq::<char>::empty() + fault.detail@ =~= fault.detail@);
        },
        Exchange::ReadFailed(detail) => {
            lemma_ends_with("read response body: "@, detail@);
        },
        Exchange::Replied { status, body } => {
            if let Err(why) = json_of_bytes(body@) {
                lemma_ends_with("response is not JSON: "@, why);
            }
        },
    }
}

/// The message for a request that could not be sent begins with what went
/// wrong: that it took too long, that there was no connection, or that the
/// transport failed; the first of these that holds counts.
pub proof fn law_transport_faults_are_told_apart(fault: TransportFault)
    ensures
        transport_failure(fault).class == ErrorClass::Network,
        fault.timeout ==> transport_failure(fault).message == "timeout: "@ + fault.detail@,
        !fault.timeout && fault.connect ==> transport_failure(fault).message == "connect failed: "@
            + fault.detail@,
        !fault.timeout && !fault.connect && (fault.request || fault.body || fault.decode)
            ==> transport_failure(fault).message == "transport: "@ + fault.detail@,
        !fault.timeout && !fault.connect && !fault.request && !fault.body && !fault.decode
            ==> transport_failure(fault).message == fault.detail@,
{
}

pub(crate) proof fn lemma_ends_with(a: Seq<char>, b: Seq<char>)
    ensures
        contains(a + b, b),
{
    let i = a.len() as int;
    assert((a + b).subrange(i, i + b.len()) =~= b);
    assert(occurs_at(a + b, b, i));
}

// ---------------------------------------------------------------------------
// The endpoints with one input
// ---------------------------------------------------------------------------
/// Whether the failure is what the status and the body of a refused request
/// mean: the class by the status, and the body in the message.
pub open spec fn tells_refusal(e: ProviderFailure, status: u16, body: Seq<char>) -> bool {
    &&& e.class == ErrorClass::AuthFailed <==> status == 401 || status == 403
    &&& e.class == ErrorClass::RateLimited <==> status == 429
    &&& e.class == ErrorClass::BadRequest <==> 400 <= status <= 499 && status != 401 && status
        != 403 && status != 429
    &&& e.class == ErrorClass::Server <==> 500 <= status <= 599
    &&& e.class == ErrorClass::Network <==> !(400 <= status <= 599)
    &&& 400 <= status <= 599 ==> e.message == body
    &&& contains(e.message, body)
}

pub(crate) proof fn lemma_tells_refusal(status: u16, text: Seq<char>, body: Seq<char>)
    ensures
        tells_refusal(status_failure(status, text, body), status, body),
{
    lemma_ends_with("unexpected status "@ + text + ": "@, body);
    lemma_ends_with(seq![], body);
    assert(Seq::<char>::empty() + body =~= body);
}

/// What comes of a request for images or a transcript: the document of a reply
/// with a status from 200 to 299, and else an error that says why there is none.
pub proof fn law_a_json_exchange_is_told(exchange: Exchange)
    ensures
        match exchange {
            Exchange::SendFailed(fault) => json_reply(exchange) matches Err(e) && e.class
                == ErrorClass::Network && contains(e.message, fault.detail@),
            Exchange::ReadFailed(detail) => json_reply(exchange) matches Err(e) && e.class
                == ErrorClass::Network && contains(e.message, detail@),
            Exchange::Replied { status, body } => if 200 <= status <= 299 {
                match json_of_bytes(body@) {
                    Ok(value) => json_reply(exchange) == Ok::<JsonView, ProviderFailure>(value),
                    Err(why) => json_reply(exchange) matches Err(e) && e.class
                        == ErrorClass::Malformed && contains(e.message, why),
                }
            } else {
                json_reply(exchange) matches Err(e) && tells_refusal(e, status, readable(body@))
            },
        },
{
    match exchange {
        Exchange::SendFailed(fault) => {
            lemma_ends_with("send: "@, fault.detail@);
        },
        Exchange::ReadFailed(detail) => {
            lemma_ends_with("read body: "@, detail@);
        },
        Exchange::Replied { status, body } => {
            lemma_tells_refusal(status, status_text(status), readable(body@));
            if let Err(why) = json_of_bytes(body@) {
                lemma_ends_with("parse response json: "@, why);
            }
        },
    }
}

/// Speech is the body of the reply, byte for byte.  Its type is the one that
/// the reply names, if that is an audio type, and else that of the format that
/// was asked for.
pub proof fn law_speech_is_the_body(
    exchange: Exchange,
    content_type: Option<Seq<char>>,
    fallback: Seq<char>,
)
    ensures
        match exchange {
            Exchange::SendFailed(fault) => tts_adapter::outcome(exchange, content_type, fallback)
                matches Err(e) && e.class == ErrorClass::Network && contains(
                e.message,
                fault.detail@,
            ),
            Exchange::ReadFailed(detail) => tts_adapter::outcome(exchange, content_type, fallback)
                matches Err(e) && e.class == ErrorClass::Network && contains(e.message, detail@),
            Exchange::Replied { status, body } => if 200 <= status <= 299 {
                &&& tts_adapter::outcome(exchange, content_type, fallback) matches Ok((bytes, kind))
                &&& bytes == body@
                &&& match content_type {
                    Some(named) => if named.len() >= 6 && named.take(6) == "audio/"@ {
                        kind == named
                    } else {
                        kind == fallback
                    },
                    None => kind == fallback,
                }
            } else {
                tts_adapter::outcome(exchange, content_type, fallback) matches Err(e)
                    && tells_refusal(e, status, readable(body@))
            },
        },
{
    reveal_strlit("audio/");
    assert("audio/"@.len() == 6);
    if let Some(named) = content_type {
        if named.len() >= 6 {
            assert(named.subrange(0, 6) =~= named.take(6));
        }
    }
    match exchange {
        Exchange::SendFailed(fault) => {
            lemma_ends_with("send: "@, fault.detail@);
        },
        Exchange::ReadFailed(detail) => {
            lemma_ends_with("read body: "@, detail@);
        },
        Exchange::Replied { status, body } => {
            lemma_tells_refusal(status, status_text(status), readable(body@));
        },
    }
}

/// A transcript is read as it is: the text, which has to be there, the
/// language, and the duration if it is a number.
pub proof fn law_a_transcript_is_read_as_it_is(value: JsonView)
    ensures
        match string_at(value, "text"@) {
            None => stt_adapter::decoded(value) matches Err(e) && e.class == ErrorClass::Malformed,
            Some(text) => {
                &&& stt_adapter::decoded(value) matches Ok(transcript)
                &&& transcript.text == text
                &&& transcript.language == string_at(value, "language"@)
                &&& transcript.duration_seconds == match value.field("duration"@) {
                    Some(JsonView::Unsigned(n)) => Some(JsonView::Unsigned(n)),
                    Some(JsonView::Number(n)) => Some(JsonView::Number(n)),
                    _ => None,
                }
            },
        },
{
}

/// What comes of a request for embeddings: a reply with a status from 200 to 299
/// is read; any other is refused with the whole body, under the class that the
/// chat endpoint gives to the same reply.
pub proof fn law_an_embedding_exchange_is_told(exchange: Exchange)
    ensures
        match exchange {
            Exchange::SendFailed(fault) => embedding_adapter::outcome(exchange) matches Err(e)
                && e.class == ErrorClass::Network && contains(e.message, fault.detail@),
            Exchange::ReadFailed(detail) => embedding_adapter::outcome(exchange) matches Err(e)
                && e.class == ErrorClass::Network && contains(e.message, detail@),
            Exchange::Replied { status, body } => if 200 <= status <= 299 {
                match json_of_bytes(body@) {
                    Ok(value) => embedding_adapter::outcome(exchange)
                        == embedding_adapter::decoded(value),
                    Err(why) => embedding_adapter::outcome(exchange) matches Err(e) && e.class
                        == ErrorClass::Malformed && contains(e.message, why),
                }
            } else {
                &&& embedding_adapter::outcome(exchange) matches Err(e)
                &&& e.message == readable(body@)
                &&& chat_outcome(exchange) matches Err(chat)
                &&& e.class == chat.class
            },
        },
{
    law_a_json_exchange_is_told(exchange);
}

/// A type of audio that is refused is told, with the reason.
pub proof fn law_bad_types_are_told(mime: Seq<char>, why: Seq<char>)
    ensures
        stt_adapter::bad_mime(mime, why).class == ErrorClass::BadRequest,
        contains(stt_adapter::bad_mime(mime, why).message, mime),
        contains(stt_adapter::bad_mime(mime, why).message, why),
{
    let message = stt_adapter::bad_mime(mime, why).message;
    lemma_ends_with("invalid mime_type "@ + mime + ": "@, why);
    assert(message =~= "invalid mime_type "@ + mime + (": "@ + why));
    law_a_text_holds_what_stands_in_it(message, mime);
}

// ---------------------------------------------------------------------------
// Images
// ---------------------------------------------------------------------------
/// How many of the entries do not carry the bytes of their image.
pub open spec fn without_bytes(items: Seq<JsonView>) -> nat
    decreases items.len(),
{
    if items.len() == 0 {
        0
    } else {
        without_bytes(items.drop_last()) + if string_at(items.last(), "b64_json"@) is None {
            1nat
        } else {
            0nat
        }
    }
}

/// Whether the image is the one that the entry describes, where `fetched` is
/// what was fetched for it.
pub open spec fn reads_image(image: ImageView, item: JsonView, fetched: Seq<u8>) -> bool {
    &&& match string_at(item, "b64_json"@) {
        Some(text) => base64_bytes(text) == Ok::<Seq<u8>, Seq<char>>(image.bytes),
        None => string_at(item, "url"@) is Some && image.bytes == fetched,
    }
    &&& image.mime_type == match string_at(item, "mime_type"@) {
        Some(kind) => kind,
        None => "image/png"@,
    }
    &&& image.revised_prompt == string_at(item, "revised_prompt"@)
}

proof fn lemma_reads_images(items: Seq<JsonView>, bodies: Seq<Seq<u8>>)
    ensures
        match image_adapter::walked(items, bodies) {
            Walk::Images(images, used) => {
                &&& images.len() == items.len()
                &&& used == without_bytes(items)
                &&& used <= bodies.len()
                &&& forall|i: int|
                    0 <= i < items.len() ==> reads_image(
                        #[trigger] images[i],
                        items[i],
                        bodies[without_bytes(items.take(i)) as int],
                    )
            },
            Walk::Fetch(url) => exists|i: int|
                0 <= i < items.len() && without_bytes(#[trigger] items.take(i)) == bodies.len()
                    && string_at(items[i], "b64_json"@) is None && string_at(items[i], "url"@)
                    == Some(url),
            Walk::Failed(e) => e.class == ErrorClass::Malformed && exists|i: int|
                0 <= i < items.len() && match string_at(#[trigger] items[i], "b64_json"@) {
                    Some(text) => base64_bytes(text) is Err,
                    None => string_at(items[i], "url"@) is None,
                },
        },
    decreases items.len(),
{
    if items.len() > 0 {
        let short = items.drop_last();
        let n = short.len() as int;
        lemma_reads_images(short, bodies);
        assert(items.take(n) =~= short);
        assert(items[n] == items.last());
        match image_adapter::walked(short, bodies) {
            Walk::Images(images, used) => {
                if let Walk::Images(all, _) = image_adapter::walked(items, bodies) {
                    assert forall|i: int| 0 <= i < items.len() implies reads_image(
                        #[trigger] all[i],
                        items[i],
                        bodies[without_bytes(items.take(i)) as int],
                    ) by {
                        if i < n {
                            assert(all[i] == images[i]);
                            assert(items.take(i) =~= short.take(i));
                            assert(items[i] == short[i]);
                        }
                    }
                }
            },
            Walk::Fetch(url) => {
                let i = choose|i: int|
                    0 <= i < short.len() && without_bytes(#[trigger] short.take(i)) == bodies.len()
                        && string_at(short[i], "b64_json"@) is None && string_at(short[i], "url"@)
                        == Some(url);
                assert(items.take(i) =~= short.take(i));
                assert(items[i] == short[i]);
            },
            Walk::Failed(e) => {
                let i = choose|i: int|
                    0 <= i < short.len() && match string_at(#[trigger] short[i], "b64_json"@) {
                        Some(text) => base64_bytes(text) is Err,
                        None => string_at(short[i], "url"@) is None,
                    };
                assert(items[i] == short[i]);
            },
        }
    }
}

/// Images are read as they are: one for each entry, in their order, each with
/// the bytes that the entry carries or that were fetched for it, its type and
/// the prompt that it was drawn from.  What is fetched next is what the first
/// entry without bytes names for which nothing was fetched yet.
pub proof fn law_images_are_read_as_they_are(value: JsonView, bodies: Seq<Seq<u8>>)
    ensures
        match value.field("data"@) {
            Some(JsonView::Array(items)) => match image_adapter::decoded(value, bodies) {
                Ok(StepView::Complete(images)) => {
                    &&& images.len() == items.len()
                    &&& without_bytes(items) <= bodies.len()
                    &&& forall|i: int|
                        0 <= i < items.len() ==> reads_image(
                            #[trigger] images[i],
                            items[i],
                            bodies[without_bytes(items.take(i)) as int],
                        )
                },
                Ok(StepView::Fetch(url)) => exists|i: int|
                    0 <= i < items.len() && without_bytes(#[trigger] items.take(i)) == bodies.len()
                        && string_at(items[i], "b64_json"@) is None && string_at(items[i], "url"@)
                        == Some(url),
                Err(e) => e.class == ErrorClass::Malformed && exists|i: int|
                    0 <= i < items.len() && match string_at(#[trigger] items[i], "b64_json"@) {
                        Some(text) => base64_bytes(text) is Err,
                        None => string_at(items[i], "url"@) is None,
                    },
            },
            _ => image_adapter::decoded(value, bodies) matches Err(e) && e.class
                == ErrorClass::Malformed,
        },
{
    if let Some(JsonView::Array(items)) = value.field("data"@) {
        lemma_reads_images(items, bodies);
    }
}

/// The bytes of an image that are no base64 are refused with the reason.
pub proof fn law_bad_base64_is_told(item: JsonView, bytes: Result<Seq<u8>, Seq<char>>)
    ensures
        match bytes {
            Ok(given) => image_adapter::inline_image(item, bytes) matches Ok(image) && image.bytes
                == given,
            Err(why) => image_adapter::inline_image(item, bytes) matches Err(e) && e.class
                == ErrorClass::Malformed && contains(e.message, why),
        },
{
    if let Err(why) = bytes {
        lemma_ends_with("decode b64_json: "@, why);
    }
}

/// What was fetched for an image is the body of the reply, byte for byte; a
/// fetch that did not succeed is a fault of the server or of the network.
pub proof fn law_a_fetched_image_is_the_body(exchange: Exchange, text: Seq<char>)
    ensures
        match exchange {
            Exchange::Replied { status, body } => if 200 <= status <= 299 {
                image_adapter::fetch_outcome(exchange, text) == Ok::<Seq<u8>, ProviderFailure>(body@)
            } else {
                image_adapter::fetch_outcome(exchange, text) matches Err(e) && e.class
                    == ErrorClass::Server && contains(e.message, text)
            },
            Exchange::SendFailed(fault) => image_adapter::fetch_outcome(exchange, text) matches Err(
                e,
            ) && e.class == ErrorClass::Network && contains(e.message, fault.detail@),
            Exchange::ReadFailed(detail) => image_adapter::fetch_outcome(exchange, text)
                matches Err(e) && e.class == ErrorClass::Network && contains(e.message, detail@),
        },
{
    lemma_ends_with("upstream image fetch returned "@, text);
    match exchange {
        Exchange::SendFailed(fault) => {
            lemma_ends_with("fetch image url: "@, fault.detail@);
        },
        Exchange::ReadFailed(detail) => {
            lemma_ends_with("read image url body: "@, detail@);
        },
        _ => {},
    }
}

} // verus!
