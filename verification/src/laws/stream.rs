//! What a streamed reply is read as.
use vstd::prelude::*;
use vstd::utf8::{
    char_u32_cast, encode_scalar, encode_utf8, encode_utf8_decode_utf8, encode_utf8_valid_utf8,
    has_width_1_encoding,
};

use crate::error::ErrorClass;
use crate::json::{json_of_text, JsonView};
use crate::laws::replies::{items_at, lemma_reads_reason, reads_reason, reads_usage, string_at};
use crate::normalized::FinishReason;
use crate::sse::{
    after_event, boundary, crlf_at, data_values, joined, lemma_after_event,
    lemma_boundary_is_unique, lf_at, line_data, line_end, lines, payload, trim_spaces,
};
use crate::stream::{
    after_bytes, after_payload, applied, completed, drained, ending, fed, fresh, indexes,
    lemma_one_list, lists, merged_all, parts_at, ready_calls, text_of_event, CallParts,
    StreamState,
};
use crate::text::{contains, starts_with, trim, trim_end, trim_start};

verus! {

// ---------------------------------------------------------------------------
// Events
// ---------------------------------------------------------------------------
/// What an event adds to the reply: the delta of its first choice.
pub open spec fn delta_at(event: JsonView) -> JsonView {
    let choices = items_at(event, "choices"@);
    if choices.len() > 0 {
        match choices[0].field("delta"@) {
            Some(delta) => delta,
            None => JsonView::Null,
        }
    } else {
        JsonView::Null
    }
}

/// The text that an event adds to the reply; empty if it adds none.
pub open spec fn content_at(event: JsonView) -> Seq<char> {
    match string_at(delta_at(event), "content"@) {
        Some(text) => text,
        None => seq![],
    }
}

/// The fragments of calls of tools that an event brings.
pub open spec fn fragments_at(event: JsonView) -> Seq<JsonView> {
    items_at(delta_at(event), "tool_calls"@)
}

/// The reason for the end that an event gives, if it gives one.
pub open spec fn reason_at(event: JsonView) -> Option<Seq<char>> {
    let choices = items_at(event, "choices"@);
    if choices.len() > 0 {
        string_at(choices[0], "finish_reason"@)
    } else {
        None
    }
}

/// An event hands out the very text that it brings, character for character,
/// and nothing if that is empty.
pub proof fn law_an_event_hands_out_its_text(event: JsonView)
    ensures
        content_at(event).len() > 0 ==> text_of_event(event) == seq![content_at(event)],
        content_at(event).len() == 0 ==> text_of_event(event).len() == 0,
{
}

/// An event that gives a reason for the end or the usage sets it; one that does
/// not leaves it as it was.  The rest of what is known is left alone but for
/// the calls that the event brings fragments of.
pub proof fn law_an_event_sets_what_it_says(st: StreamState, event: JsonView)
    ensures
        ({
            let after = applied(st, event);
            &&& after.buffer == st.buffer
            &&& after.done == st.done
            &&& match reason_at(event) {
                Some(text) => after.finish matches Some(reason) && reads_reason(reason, Some(text)),
                None => after.finish == st.finish,
            }
            &&& match event.field("usage"@) {
                Some(u) => reads_usage(after.usage, Some(u)),
                None => after.usage == st.usage,
            }
            &&& fragments_at(event).len() == 0 ==> after.calls == st.calls
        }),
{
    lemma_reads_reason(reason_at(event));
}

// ---------------------------------------------------------------------------
// Calls of tools
// ---------------------------------------------------------------------------
/// Whether a fragment belongs to the call with the given index.
pub open spec fn belongs(item: JsonView, index: u64) -> bool {
    item.field("index"@) == Some(JsonView::Unsigned(index))
}

/// The string that the function of a fragment has under a name.
pub open spec fn function_string(item: JsonView, name: Seq<char>) -> Option<Seq<char>> {
    match item.field("function"@) {
        Some(function) => string_at(function, name),
        None => None,
    }
}

/// The arguments that the fragments bring for the call with the given index,
/// one after the other.
pub open spec fn arguments_for(items: Seq<JsonView>, index: u64) -> Seq<Seq<char>> {
    items.map_values(
        |item: JsonView|
            if belongs(item, index) {
                match function_string(item, "arguments"@) {
                    Some(text) => text,
                    None => Seq::<char>::empty(),
                }
            } else {
                Seq::<char>::empty()
            },
    )
}

/// Whether `text` is the last of the values that the fragments give for the
/// call with the given index, where `value` says what a fragment gives.
pub open spec fn last_given(
    items: Seq<JsonView>,
    index: u64,
    value: spec_fn(JsonView) -> Option<Seq<char>>,
    text: Seq<char>,
) -> bool {
    exists|i: int|
        0 <= i < items.len() && belongs(#[trigger] items[i], index) && value(items[i]) == Some(text)
            && forall|j: int|
            i < j < items.len() && belongs(#[trigger] items[j], index) ==> value(items[j]) is None
}

/// Whether no fragment gives a value for the call with the given index.
pub open spec fn none_given(
    items: Seq<JsonView>,
    index: u64,
    value: spec_fn(JsonView) -> Option<Seq<char>>,
) -> bool {
    forall|i: int|
        0 <= i < items.len() && belongs(#[trigger] items[i], index) ==> value(items[i]) is None
}

proof fn lemma_last_given_step(
    items: Seq<JsonView>,
    index: u64,
    value: spec_fn(JsonView) -> Option<Seq<char>>,
    before: Option<Seq<char>>,
    after: Option<Seq<char>>,
)
    requires
        items.len() > 0,
        match before {
            Some(text) => last_given(items.drop_last(), index, value, text),
            None => none_given(items.drop_last(), index, value),
        },
        after == if belongs(items.last(), index) && value(items.last()) is Some {
            value(items.last())
        } else {
            before
        },
    ensures
        match after {
            Some(text) => last_given(items, index, value, text),
            None => none_given(items, index, value),
        },
{
    let n = items.len() - 1;
    let short = items.drop_last();
    assert(items[n] == items.last());
    if belongs(items[n], index) && value(items[n]) is Some {
        assert(last_given(items, index, value, value(items[n])->0));
    } else {
        match before {
            Some(text) => {
                let i = choose|i: int|
                    0 <= i < short.len() && belongs(#[trigger] short[i], index) && value(short[i])
                        == Some(text) && forall|j: int|
                        i < j < short.len() && belongs(#[trigger] short[j], index) ==> value(
                            short[j],
                        ) is None;
                assert(items[i] == short[i]);
                assert forall|j: int|
                    i < j < items.len() && belongs(#[trigger] items[j], index) implies value(
                    items[j],
                ) is None by {
                    if j < n {
                        assert(short[j] == items[j]);
                    }
                }
                assert(last_given(items, index, value, text));
            },
            None => {
                assert forall|j: int|
                    0 <= j < items.len() && belongs(#[trigger] items[j], index) implies value(
                    items[j],
                ) is None by {
                    if j < n {
                        assert(short[j] == items[j]);
                    }
                }
            },
        }
    }
}

proof fn lemma_arguments_step(items: Seq<JsonView>, index: u64)
    requires
        items.len() > 0,
    ensures
        arguments_for(items, index).flatten_alt() == arguments_for(
            items.drop_last(),
            index,
        ).flatten_alt() + arguments_for(items, index).last(),
{
    assert(arguments_for(items, index).drop_last() =~= arguments_for(items.drop_last(), index));
}

/// A call of a tool is put together from its fragments: there is one for each
/// index that a fragment has, its arguments are those of all its fragments one
/// after the other, and its name and its id are the last that were given.
/// Fragments of other calls do not count.
pub proof fn law_calls_are_put_together(items: Seq<JsonView>, index: u64)
    ensures
        ({
            let calls = merged_all(Map::empty(), items);
            let name = |item: JsonView| function_string(item, "name"@);
            let id = |item: JsonView| string_at(item, "id"@);
            &&& calls.contains_key(index) <==> exists|i: int|
                0 <= i < items.len() && belongs(#[trigger] items[i], index)
            &&& calls.contains_key(index) ==> {
                let call = calls[index];
                &&& call.arguments == arguments_for(items, index).flatten_alt()
                &&& last_given(items, index, name, call.name) || (none_given(items, index, name)
                    && call.name.len() == 0)
                &&& match call.id {
                    Some(text) => last_given(items, index, id, text),
                    None => none_given(items, index, id),
                }
            }
        }),
{
    lemma_put_together(items, index);
}

proof fn lemma_put_together(items: Seq<JsonView>, index: u64)
    ensures
        ({
            let calls = merged_all(Map::empty(), items);
            let name = |item: JsonView| function_string(item, "name"@);
            let id = |item: JsonView| string_at(item, "id"@);
            let call = parts_at(calls, index);
            &&& calls.contains_key(index) <==> exists|i: int|
                0 <= i < items.len() && belongs(#[trigger] items[i], index)
            &&& call.arguments == arguments_for(items, index).flatten_alt()
            &&& last_given(items, index, name, call.name) || (none_given(items, index, name)
                && call.name.len() == 0)
            &&& match call.id {
                Some(text) => last_given(items, index, id, text),
                None => none_given(items, index, id),
            }
        }),
    decreases items.len(),
{
    let calls = merged_all(Map::empty(), items);
    let name = |item: JsonView| function_string(item, "name"@);
    let id = |item: JsonView| string_at(item, "id"@);
    if items.len() == 0 {
        assert(arguments_for(items, index) =~= seq![]);
    } else {
        let n = items.len() - 1;
        let short = items.drop_last();
        let last = items.last();
        assert(items[n] == last);
        lemma_put_together(short, index);
        lemma_arguments_step(items, index);
        let earlier = merged_all(Map::empty(), short);
        let before = parts_at(earlier, index);
        let after = parts_at(calls, index);
        if exists|i: int| 0 <= i < short.len() && belongs(#[trigger] short[i], index) {
            let i = choose|i: int| 0 <= i < short.len() && belongs(#[trigger] short[i], index);
            assert(items[i] == short[i]);
        }
        if exists|i: int| 0 <= i < items.len() && belongs(#[trigger] items[i], index) {
            let i = choose|i: int| 0 <= i < items.len() && belongs(#[trigger] items[i], index);
            if i < n {
                assert(short[i] == items[i]);
            }
        }
        assert(before.arguments + Seq::<char>::empty() =~= before.arguments);
        let named = if none_given(short, index, name) && before.name.len() == 0 {
            None
        } else {
            Some(before.name)
        };
        let now = if belongs(last, index) && name(last) is Some {
            name(last)
        } else {
            named
        };
        lemma_last_given_step(items, index, name, named, now);
        lemma_last_given_step(items, index, id, before.id, after.id);
    }
}

/// The calls come out in the ascending order of their indexes: each that has a
/// name, with its id or an empty one, its name, and its arguments as the
/// document that their text is, or null if it is none.
pub proof fn law_calls_come_out_as_they_are(calls: Map<u64, CallParts>, keys: Seq<u64>)
    requires
        lists(keys, calls),
    ensures
        ({
            let out = ready_calls(indexes(calls), calls);
            let named = keys.filter(|k: u64| calls[k].name.len() > 0);
            &&& out.len() == named.len()
            &&& forall|i: int|
                0 <= i < out.len() ==> {
                    let call = calls[named[i]];
                    &&& (#[trigger] out[i]).name == call.name
                    &&& match call.id {
                        Some(id) => out[i].id == id,
                        None => out[i].id.len() == 0,
                    }
                    &&& match json_of_text(call.arguments) {
                        Ok(arguments) => out[i].arguments == arguments,
                        Err(_) => out[i].arguments == JsonView::Null,
                    }
                }
        }),
{
    lemma_one_list(indexes(calls), keys, calls);
    lemma_come_out(calls, keys);
}

proof fn lemma_come_out(calls: Map<u64, CallParts>, keys: Seq<u64>)
    ensures
        ({
            let out = ready_calls(keys, calls);
            let named = keys.filter(|k: u64| calls[k].name.len() > 0);
            &&& out.len() == named.len()
            &&& forall|i: int|
                0 <= i < out.len() ==> #[trigger] out[i] == completed(
                    calls[named[i]],
                    json_of_text(calls[named[i]].arguments),
                )
        }),
    decreases keys.len(),
{
    reveal(Seq::filter);
    if keys.len() > 0 {
        lemma_come_out(calls, keys.drop_last());
    }
}

/// How a stream ends: one that broke off with a fault of the network that says
/// why, any other with the reason that was given last, if one was, and the usage.
pub proof fn law_a_stream_ends_as_it_says(st: StreamState, read_error: Option<Seq<char>>)
    ensures
        match read_error {
            Some(why) => ending(st, read_error) matches Err(e) && e.class == ErrorClass::Network
                && contains(e.message, why),
            None => {
                &&& ending(st, read_error) matches Ok(end)
                &&& end.usage == st.usage
                &&& match st.finish {
                    Some(reason) => end.reason == reason,
                    None => end.reason == FinishReason::Other,
                }
            },
        },
{
    if let Some(why) = read_error {
        crate::laws::replies::lemma_ends_with("read sse chunk: "@, why);
    }
}

// ---------------------------------------------------------------------------
// Bytes
// ---------------------------------------------------------------------------
/// Whether a text stands on one line.
pub open spec fn one_line(text: Seq<char>) -> bool {
    forall|i: int| 0 <= i < text.len() ==> #[trigger] text[i] != '\n' && text[i] != '\r'
}

/// The bytes that end an event: an empty line.
pub open spec fn empty_line(crlf: bool) -> Seq<u8> {
    if crlf {
        seq![13u8, 10u8, 13u8, 10u8]
    } else {
        seq![10u8, 10u8]
    }
}

/// The bytes of events with the given payloads, with CRLF line ends or with LF
/// line ends.
pub open spec fn wire(payloads: Seq<Seq<char>>, crlf: bool) -> Seq<u8>
    decreases payloads.len(),
{
    if payloads.len() == 0 {
        seq![]
    } else {
        encode_utf8("data: "@ + payloads[0]) + empty_line(crlf) + wire(payloads.drop_first(), crlf)
    }
}

proof fn lemma_scalar_bytes(c: u32, b: u8)
    requires
        c != b,
        b < 0x80,
        has_width_1_encoding(c) ==> c < 0x80,
    ensures
        forall|i: int| 0 <= i < encode_scalar(c).len() ==> #[trigger] encode_scalar(c)[i] != b,
{
    assert(c < 0x80 ==> (c & 0x7F) as u8 == c) by (bit_vector);
    assert((0xC0 | ((c >> 6) & 0x1F) as u8) >= 0x80) by (bit_vector);
    assert((0xE0 | ((c >> 12) & 0x0F) as u8) >= 0x80) by (bit_vector);
    assert((0xF0 | ((c >> 18) & 0x7) as u8) >= 0x80) by (bit_vector);
    assert((0x80 | (c & 0x3F) as u8) >= 0x80) by (bit_vector);
    assert((0x80 | ((c >> 6) & 0x3F) as u8) >= 0x80) by (bit_vector);
    assert((0x80 | ((c >> 12) & 0x3F) as u8) >= 0x80) by (bit_vector);
}

proof fn lemma_no_such_byte(text: Seq<char>, b: u8)
    requires
        b < 0x80,
        forall|i: int| 0 <= i < text.len() ==> #[trigger] text[i] as u32 != b,
    ensures
        forall|i: int| 0 <= i < encode_utf8(text).len() ==> #[trigger] encode_utf8(text)[i] != b,
    decreases text.len(),
{
    if text.len() > 0 {
        let rest = text.drop_first();
        assert forall|i: int| 0 <= i < rest.len() implies #[trigger] rest[i] as u32 != b by {
            assert(text[i + 1] as u32 != b);
        }
        lemma_no_such_byte(rest, b);
        assert(text[0] as u32 != b);
        lemma_scalar_bytes(text[0] as u32, b);
        let head = encode_scalar(text[0] as u32);
        assert forall|i: int| 0 <= i < encode_utf8(text).len() implies #[trigger] encode_utf8(
            text,
        )[i] != b by {
            if i < head.len() {
                assert(encode_utf8(text)[i] == head[i]);
            } else {
                assert(encode_utf8(text)[i] == encode_utf8(rest)[i - head.len()]);
            }
        }
    }
}

proof fn lemma_no_line_bytes(text: Seq<char>)
    requires
        one_line(text),
    ensures
        forall|i: int|
            0 <= i < encode_utf8(text).len() ==> #[trigger] encode_utf8(text)[i] != 10
                && encode_utf8(text)[i] != 13,
{
    assert forall|i: int| 0 <= i < text.len() implies #[trigger] text[i] as u32 != 10u8 by {
        assert(text[i] != '\n');
        if text[i] as u32 == 10u32 {
            char_u32_cast(text[i], 10u32);
        }
    }
    lemma_no_such_byte(text, 10);
    assert forall|i: int| 0 <= i < text.len() implies #[trigger] text[i] as u32 != 13u8 by {
        assert(text[i] != '\r');
        if text[i] as u32 == 13u32 {
            char_u32_cast(text[i], 13u32);
        }
    }
    lemma_no_such_byte(text, 13);
}

proof fn lemma_data_is_one_line(text: Seq<char>)
    requires
        one_line(text),
    ensures
        one_line("data: "@ + text),
{
    reveal_strlit("data: ");
    let line = "data: "@ + text;
    assert forall|i: int| 0 <= i < line.len() implies #[trigger] line[i] != '\n' && line[i]
        != '\r' by {
        if i >= 6 {
            assert(line[i] == text[i - 6]);
        }
    }
}

proof fn lemma_no_cr(payloads: Seq<Seq<char>>)
    requires
        forall|i: int| 0 <= i < payloads.len() ==> one_line(#[trigger] payloads[i]),
    ensures
        forall|i: int|
            0 <= i < wire(payloads, false).len() ==> #[trigger] wire(payloads, false)[i] != 13,
    decreases payloads.len(),
{
    if payloads.len() > 0 {
        let rest = payloads.drop_first();
        assert forall|i: int| 0 <= i < rest.len() implies one_line(#[trigger] rest[i]) by {
            assert(rest[i] == payloads[i + 1]);
        }
        lemma_no_cr(rest);
        lemma_data_is_one_line(payloads[0]);
        lemma_no_line_bytes("data: "@ + payloads[0]);
        let head = encode_utf8("data: "@ + payloads[0]);
        let all = wire(payloads, false);
        assert forall|i: int| 0 <= i < all.len() implies #[trigger] all[i] != 13 by {
            if i < head.len() {
                assert(all[i] == head[i]);
            } else if i >= head.len() + 2 {
                assert(all[i] == wire(rest, false)[i - head.len() - 2]);
            }
        }
    }
}

proof fn lemma_first_event(payloads: Seq<Seq<char>>, crlf: bool)
    requires
        payloads.len() > 0,
        forall|i: int| 0 <= i < payloads.len() ==> one_line(#[trigger] payloads[i]),
    ensures
        ({
            let all = wire(payloads, crlf);
            let head = encode_utf8("data: "@ + payloads[0]);
            &&& boundary(all) == Some(head.len() as int)
            &&& all.take(head.len() as int) == head
            &&& after_event(all, head.len() as int) == wire(payloads.drop_first(), crlf)
        }),
{
    let all = wire(payloads, crlf);
    let head = encode_utf8("data: "@ + payloads[0]);
    let rest = wire(payloads.drop_first(), crlf);
    let p = head.len() as int;
    lemma_data_is_one_line(payloads[0]);
    lemma_no_line_bytes("data: "@ + payloads[0]);
    assert(all.take(p) =~= head);
    if crlf {
        assert(crlf_at(all, p));
        assert forall|i: int| 0 <= i < p implies !#[trigger] crlf_at(all, i) by {
            assert(all[i] == head[i]);
        }
        lemma_after_event(all, p);
        assert(all.skip(p + 4) =~= rest);
    } else {
        lemma_no_cr(payloads);
        assert forall|i: int| !#[trigger] crlf_at(all, i) by {
            if 0 <= i && i + 4 <= all.len() {
                assert(all[i] != 13);
            }
        }
        assert(lf_at(all, p));
        assert forall|i: int| 0 <= i < p implies !#[trigger] lf_at(all, i) by {
            assert(all[i] == head[i]);
        }
        lemma_after_event(all, p);
        assert(all.skip(p + 2) =~= rest);
    }
    lemma_boundary_is_unique(all, p);
}

proof fn lemma_whole_line(s: Seq<char>)
    requires
        forall|i: int| 0 <= i < s.len() ==> #[trigger] s[i] != '\n',
    ensures
        line_end(s) == s.len(),
    decreases s.len(),
{
    if s.len() > 0 {
        let rest = s.skip(1);
        assert forall|i: int| 0 <= i < rest.len() implies #[trigger] rest[i] != '\n' by {
            assert(rest[i] == s[i + 1]);
        }
        lemma_whole_line(rest);
    }
}

/// What a `data:` line carries is the payload of its event, without the space
/// that may stand before it.
pub proof fn law_a_data_line_carries_its_payload(text: Seq<char>)
    requires
        one_line(text),
        text.len() > 0 ==> text[0] != ' ',
    ensures
        payload(encode_utf8("data: "@ + text)) == Some(text),
        payload(encode_utf8("data:"@ + text)) == Some(text),
{
    reveal_strlit("data: ");
    reveal_strlit("data:");
    lemma_carries("data: "@ + text, text);
    lemma_carries("data:"@ + text, text);
}

proof fn lemma_carries(line: Seq<char>, text: Seq<char>)
    requires
        one_line(text),
        text.len() > 0 ==> text[0] != ' ',
        line == "data: "@ + text || line == "data:"@ + text,
    ensures
        payload(encode_utf8(line)) == Some(text),
{
    reveal_strlit("data: ");
    reveal_strlit("data:");
    encode_utf8_valid_utf8(line);
    encode_utf8_decode_utf8(line);
    assert forall|i: int| 0 <= i < line.len() implies #[trigger] line[i] != '\n' by {
        if line.len() == text.len() + 6 {
            if i >= 6 {
                assert(line[i] == text[i - 6]);
            }
        } else if i >= 5 {
            assert(line[i] == text[i - 5]);
        }
    }
    lemma_whole_line(line);
    assert(lines(line) =~= seq![line]);
    assert(line.subrange(0, 5) =~= "data:"@);
    assert(starts_with(line, "data:"@));
    let after = line.skip(5);
    if line.len() == text.len() + 6 {
        assert(after[0] == ' ');
        assert(after.skip(1) =~= text);
        assert(trim_spaces(text) == text);
        assert(trim_spaces(after) == trim_spaces(after.skip(1)));
    } else {
        assert(after =~= text);
    }
    assert(line_data(line) == seq![text]);
    assert(lines(line).skip(1) =~= seq![]);
    assert(data_values(lines(line)) =~= seq![text]) by {
        assert(data_values(lines(line).skip(1)) =~= seq![]);
    }
}

/// An event without a `data:` line carries nothing.
pub proof fn law_other_lines_carry_nothing(line: Seq<char>)
    requires
        one_line(line),
        line.len() < 5 || line.take(5) != "data:"@,
    ensures
        payload(encode_utf8(line)) is None,
{
    reveal_strlit("data:");
    encode_utf8_valid_utf8(line);
    encode_utf8_decode_utf8(line);
    assert forall|i: int| 0 <= i < line.len() implies #[trigger] line[i] != '\n' by {}
    lemma_whole_line(line);
    if line.len() >= 5 {
        assert(line.subrange(0, 5) =~= line.take(5));
    }
    assert(!starts_with(line, "data:"@));
    if line.len() > 0 {
        assert(lines(line) =~= seq![line]);
        assert(lines(line).skip(1) =~= seq![]);
        assert(data_values(lines(line).skip(1)) =~= seq![]);
        assert(line_data(line) =~= seq![]);
    }
}

proof fn lemma_line_end_at(line: Seq<char>, rest: Seq<char>)
    requires
        forall|i: int| 0 <= i < line.len() ==> #[trigger] line[i] != '\n',
    ensures
        line_end(line + seq!['\n'] + rest) == line.len(),
    decreases line.len(),
{
    let s = line + seq!['\n'] + rest;
    if line.len() == 0 {
        assert(s[0] == '\n');
    } else {
        let short = line.skip(1);
        assert forall|i: int| 0 <= i < short.len() implies #[trigger] short[i] != '\n' by {
            assert(short[i] == line[i + 1]);
        }
        lemma_line_end_at(short, rest);
        assert(s.skip(1) =~= short + seq!['\n'] + rest);
        assert(s[0] == line[0]);
    }
}

proof fn lemma_lines_step(line: Seq<char>, rest: Seq<char>, crlf: bool)
    requires
        one_line(line),
    ensures
        lines(
            line + (if crlf {
                seq!['\r', '\n']
            } else {
                seq!['\n']
            }) + rest,
        ) == seq![line] + lines(rest),
{
    let held = if crlf {
        line.push('\r')
    } else {
        line
    };
    assert forall|i: int| 0 <= i < held.len() implies #[trigger] held[i] != '\n' by {
        if i < line.len() {
            assert(held[i] == line[i]);
        }
    }
    let s = line + (if crlf {
        seq!['\r', '\n']
    } else {
        seq!['\n']
    }) + rest;
    assert(s =~= held + seq!['\n'] + rest);
    lemma_line_end_at(held, rest);
    let e = held.len() as int;
    assert(s.take(e) =~= held);
    assert(s.skip(e + 1) =~= rest);
    if crlf {
        assert(held.drop_last() =~= line);
    } else if line.len() > 0 {
        assert(line[line.len() - 1] != '\r');
    }
    assert(crate::sse::chomp(held) == line);
}

proof fn lemma_joined_front(first: Seq<char>, others: Seq<Seq<char>>)
    requires
        others.len() > 0,
    ensures
        joined(seq![first] + others) == first + seq!['\n'] + joined(others),
    decreases others.len(),
{
    let all = seq![first] + others;
    assert(all.drop_last() =~= seq![first] + others.drop_last());
    assert(all.last() == others.last());
    if others.len() == 1 {
        assert(all.drop_last() =~= seq![first]);
        assert(joined(all.drop_last()) == first);
        assert(joined(others) == others[0]);
    } else {
        lemma_joined_front(first, others.drop_last());
        assert(first + seq!['\n'] + joined(others.drop_last()) + seq!['\n'] + others.last()
            =~= first + seq!['\n'] + (joined(others.drop_last()) + seq!['\n'] + others.last()));
    }
}

/// The lines of an event count one by one, whichever line ends they have: a
/// `data:` line puts what it carries before what the others carry, with a line
/// feed between them, and any other line adds nothing.
pub proof fn law_lines_count_one_by_one(text: Seq<char>, rest: Seq<char>, crlf: bool)
    requires
        one_line(text),
    ensures
        ({
            let end = if crlf {
                seq!['\r', '\n']
            } else {
                seq!['\n']
            };
            &&& text.len() == 0 || text[0] != ' ' ==> payload(
                encode_utf8("data: "@ + text + end + rest),
            ) == Some(
                match payload(encode_utf8(rest)) {
                    Some(others) => text + seq!['\n'] + others,
                    None => text,
                },
            )
            &&& text.len() < 5 || text.take(5) != "data:"@ ==> payload(
                encode_utf8(text + end + rest),
            ) == payload(encode_utf8(rest))
        }),
{
    reveal_strlit("data: ");
    reveal_strlit("data:");
    let end = if crlf {
        seq!['\r', '\n']
    } else {
        seq!['\n']
    };
    encode_utf8_valid_utf8(rest);
    encode_utf8_decode_utf8(rest);
    let others = data_values(lines(rest));
    if text.len() == 0 || text[0] != ' ' {
        let line = "data: "@ + text;
        lemma_data_is_one_line(text);
        encode_utf8_valid_utf8(line + end + rest);
        encode_utf8_decode_utf8(line + end + rest);
        lemma_lines_step(line, rest, crlf);
        let all = seq![line] + lines(rest);
        assert(all.skip(1) =~= lines(rest));
        assert(line.subrange(0, 5) =~= "data:"@);
        assert(starts_with(line, "data:"@));
        assert(line.skip(5)[0] == ' ');
        assert(line.skip(5).skip(1) =~= text);
        assert(trim_spaces(text) == text);
        assert(line_data(line) == seq![text]);
        assert(data_values(all) == seq![text] + others);
        if others.len() > 0 {
            lemma_joined_front(text, others);
        } else {
            assert(seq![text] + others =~= seq![text]);
        }
    }
    if text.len() < 5 || text.take(5) != "data:"@ {
        encode_utf8_valid_utf8(text + end + rest);
        encode_utf8_decode_utf8(text + end + rest);
        lemma_lines_step(text, rest, crlf);
        let all = seq![text] + lines(rest);
        assert(all.skip(1) =~= lines(rest));
        if text.len() >= 5 {
            assert(text.subrange(0, 5) =~= text.take(5));
        }
        assert(!starts_with(text, "data:"@));
        assert(line_data(text) =~= seq![]);
        assert(data_values(all) =~= others);
    }
}

/// What is known once the payloads came one after the other, and the text that
/// they add; after the end that a reply announces nothing counts.
pub open spec fn taken_in(st: StreamState, payloads: Seq<Seq<char>>) -> (StreamState, Seq<Seq<char>>)
    decreases payloads.len(),
{
    if payloads.len() == 0 || st.done {
        (st, seq![])
    } else {
        let (next, text) = after_payload(st, payloads[0]);
        let (end, more) = taken_in(next, payloads.drop_first());
        (end, text + more)
    }
}

proof fn lemma_payloads_are_taken_in(st: StreamState, payloads: Seq<Seq<char>>, crlf: bool)
    requires
        !st.done,
        st.buffer == wire(payloads, crlf),
        forall|i: int|
            0 <= i < payloads.len() ==> one_line(#[trigger] payloads[i]) && (payloads[i].len() > 0
                ==> payloads[i][0] != ' '),
    ensures
        ({
            let empty = StreamState { buffer: seq![], ..st };
            let (end, text) = taken_in(empty, payloads);
            drained(st) == (end, text)
        }),
    decreases payloads.len(),
{
    let empty = StreamState { buffer: seq![], ..st };
    if payloads.len() == 0 {
        assert(boundary(st.buffer) is None) by {
            let s = st.buffer;
            assert forall|p: int| !#[trigger] crate::sse::ends_event(s, p) by {
                assert(!crlf_at(s, p) && !lf_at(s, p));
            }
        }
        assert(st == empty);
    } else {
        let p = encode_utf8("data: "@ + payloads[0]).len() as int;
        let tail = payloads.drop_first();
        assert forall|i: int| 0 <= i < tail.len() implies one_line(#[trigger] tail[i]) && (
        tail[i].len() > 0 ==> tail[i][0] != ' ') by {
            assert(tail[i] == payloads[i + 1]);
        }
        lemma_first_event(payloads, crlf);
        law_a_data_line_carries_its_payload(payloads[0]);
        let rest = StreamState { buffer: after_event(st.buffer, p), ..st };
        let (next, text) = after_bytes(rest, st.buffer.take(p));
        let (next_empty, text_empty) = after_payload(empty, payloads[0]);
        assert(text == text_empty);
        if next.done {
            assert(next == next_empty);
            assert(drained(next) == (next, Seq::<Seq<char>>::empty()));
        } else {
            assert(next_empty =~= (StreamState { buffer: seq![], ..next }));
            lemma_payloads_are_taken_in(next, tail, crlf);
        }
    }
}

/// The bytes of a reply are taken apart into the payloads of its events, one
/// after the other, whichever line ends the reply uses: what is known and what
/// is handed out is what the payloads say.
pub proof fn law_a_reply_is_what_its_payloads_say(payloads: Seq<Seq<char>>, crlf: bool)
    requires
        forall|i: int|
            0 <= i < payloads.len() ==> one_line(#[trigger] payloads[i]) && (payloads[i].len() > 0
                ==> payloads[i][0] != ' '),
    ensures
        fed(fresh(), wire(payloads, crlf)) == taken_in(fresh(), payloads),
        fed(fresh(), wire(payloads, true)) == fed(fresh(), wire(payloads, false)),
{
    let empty = Seq::<u8>::empty();
    assert(empty + wire(payloads, true) =~= wire(payloads, true));
    assert(empty + wire(payloads, false) =~= wire(payloads, false));
    lemma_payloads_are_taken_in(
        StreamState { buffer: wire(payloads, true), ..fresh() },
        payloads,
        true,
    );
    lemma_payloads_are_taken_in(
        StreamState { buffer: wire(payloads, false), ..fresh() },
        payloads,
        false,
    );
}

// ---------------------------------------------------------------------------
// Whole replies
// ---------------------------------------------------------------------------
proof fn lemma_keeps_its_beginning(s: Seq<char>)
    requires
        s.len() > 0,
        s[0] == '{',
    ensures
        trim_end(s).len() > 0,
        trim_end(s)[0] == '{',
    decreases s.len(),
{
    if s.len() > 1 {
        lemma_keeps_its_beginning(s.drop_last());
    }
}

proof fn lemma_no_end(text: Seq<char>)
    requires
        text.len() > 0,
        text[0] == '{',
    ensures
        trim(text) != "[DONE]"@,
{
    reveal_strlit("[DONE]");
    assert(trim_start(text) == text);
    lemma_keeps_its_beginning(text);
    assert("[DONE]"@[0] == '[');
}

/// The fragments of calls that the events bring, one after the other.
pub open spec fn all_fragments(events: Seq<JsonView>) -> Seq<JsonView> {
    events.map_values(|e: JsonView| fragments_at(e)).flatten()
}

/// The texts that the events bring.
pub open spec fn contents(events: Seq<JsonView>) -> Seq<Seq<char>> {
    events.map_values(|e: JsonView| content_at(e))
}

/// Whether `text` is the reason that the last event that gives one gives.
pub open spec fn last_reason(events: Seq<JsonView>, text: Seq<char>) -> bool {
    exists|i: int|
        0 <= i < events.len() && reason_at(#[trigger] events[i]) == Some(text) && forall|j: int|
            i < j < events.len() ==> reason_at(#[trigger] events[j]) is None
}

/// Whether `u` is the usage that the last event that gives one gives.
pub open spec fn last_usage(events: Seq<JsonView>, u: JsonView) -> bool {
    exists|i: int|
        0 <= i < events.len() && (#[trigger] events[i]).field("usage"@) == Some(u) && forall|j: int|
            i < j < events.len() ==> (#[trigger] events[j]).field("usage"@) is None
}

/// Whether `end` is what is known once the events came, where `st` was known
/// before them, and `texts` the pieces of text that they add.
pub open spec fn sums_up(
    st: StreamState,
    events: Seq<JsonView>,
    end: StreamState,
    texts: Seq<Seq<char>>,
) -> bool {
    &&& texts.flatten() == contents(events).flatten()
    &&& forall|i: int| 0 <= i < texts.len() ==> (#[trigger] texts[i]).len() > 0
    &&& end.calls == merged_all(st.calls, all_fragments(events))
    &&& if forall|i: int| 0 <= i < events.len() ==> reason_at(#[trigger] events[i]) is None {
        end.finish == st.finish
    } else {
        exists|text: Seq<char>| #[trigger]
            last_reason(events, text) && (end.finish matches Some(reason) && reads_reason(
                reason,
                Some(text),
            ))
    }
    &&& if forall|i: int| 0 <= i < events.len() ==> (#[trigger] events[i]).field("usage"@) is None {
        end.usage == st.usage
    } else {
        exists|u: JsonView| #[trigger] last_usage(events, u) && reads_usage(end.usage, Some(u))
    }
}

proof fn lemma_merged_all_concat(
    calls: Map<u64, CallParts>,
    a: Seq<JsonView>,
    b: Seq<JsonView>,
)
    ensures
        merged_all(calls, a + b) == merged_all(merged_all(calls, a), b),
    decreases b.len(),
{
    if b.len() == 0 {
        assert(a + b =~= a);
    } else {
        assert((a + b).drop_last() =~= a + b.drop_last());
        lemma_merged_all_concat(calls, a, b.drop_last());
    }
}

proof fn lemma_sums_up(st: StreamState, payloads: Seq<Seq<char>>, events: Seq<JsonView>)
    requires
        !st.done,
        payloads.len() == events.len(),
        forall|i: int|
            0 <= i < payloads.len() ==> (#[trigger] payloads[i]).len() > 0 && payloads[i][0] == '{'
                && json_of_text(payloads[i]) == Ok::<JsonView, Seq<char>>(events[i]),
    ensures
        ({
            let (end, texts) = taken_in(st, payloads);
            &&& sums_up(st, events, end, texts)
            &&& !end.done
            &&& end.buffer == st.buffer
        }),
    decreases payloads.len(),
{
    let (end, texts) = taken_in(st, payloads);
    if payloads.len() == 0 {
        assert(contents(events) =~= seq![]);
        assert(events.map_values(|e: JsonView| fragments_at(e)) =~= seq![]);
    } else {
        let first = events[0];
        let tail = events.drop_first();
        let rest = payloads.drop_first();
        lemma_no_end(payloads[0]);
        let next = applied(st, first);
        assert(after_payload(st, payloads[0]) == (next, text_of_event(first)));
        assert forall|i: int| 0 <= i < rest.len() implies (#[trigger] rest[i]).len() > 0
            && rest[i][0] == '{' && json_of_text(rest[i]) == Ok::<JsonView, Seq<char>>(
            tail[i],
        ) by {
            assert(rest[i] == payloads[i + 1]);
        }
        lemma_sums_up(next, rest, tail);
        let more = taken_in(next, rest).1;
        law_an_event_hands_out_its_text(first);
        law_an_event_sets_what_it_says(st, first);
        lemma_texts(events, text_of_event(first), more);
        lemma_fragments(st, events);
        assert forall|i: int| 0 <= i < texts.len() implies (#[trigger] texts[i]).len() > 0 by {
            let k = text_of_event(first).len();
            if i >= k {
                assert(texts[i] == more[i - k]);
            }
        }
        lemma_reasons(st, events, next, end);
        lemma_usages(st, events, next, end);
    }
}

proof fn lemma_texts(events: Seq<JsonView>, text: Seq<Seq<char>>, more: Seq<Seq<char>>)
    requires
        events.len() > 0,
        content_at(events[0]).len() > 0 ==> text == seq![content_at(events[0])],
        content_at(events[0]).len() == 0 ==> text.len() == 0,
        more.flatten() == contents(events.drop_first()).flatten(),
    ensures
        (text + more).flatten() == contents(events).flatten(),
{
    let all = contents(events);
    assert(all.drop_first() =~= contents(events.drop_first()));
    if text.len() == 0 {
        assert(text + more =~= more);
        assert(content_at(events[0]) + more.flatten() =~= more.flatten());
    } else {
        assert((text + more).drop_first() =~= more);
    }
}

proof fn lemma_fragments(st: StreamState, events: Seq<JsonView>)
    requires
        events.len() > 0,
    ensures
        merged_all(applied(st, events[0]).calls, all_fragments(events.drop_first())) == merged_all(
            st.calls,
            all_fragments(events),
        ),
{
    let each = events.map_values(|e: JsonView| fragments_at(e));
    assert(each.drop_first() =~= events.drop_first().map_values(|e: JsonView| fragments_at(e)));
    assert(all_fragments(events) == fragments_at(events[0]) + all_fragments(events.drop_first()));
    lemma_merged_all_concat(
        st.calls,
        fragments_at(events[0]),
        all_fragments(events.drop_first()),
    );
    assert(applied(st, events[0]).calls == merged_all(st.calls, fragments_at(events[0])));
}

proof fn lemma_reasons(st: StreamState, events: Seq<JsonView>, next: StreamState, end: StreamState)
    requires
        events.len() > 0,
        next == applied(st, events[0]),
        ({
            let tail = events.drop_first();
            if forall|i: int| 0 <= i < tail.len() ==> reason_at(#[trigger] tail[i]) is None {
                end.finish == next.finish
            } else {
                exists|text: Seq<char>| #[trigger]
                    last_reason(tail, text) && (end.finish matches Some(reason) && reads_reason(
                        reason,
                        Some(text),
                    ))
            }
        }),
    ensures
        if forall|i: int| 0 <= i < events.len() ==> reason_at(#[trigger] events[i]) is None {
            end.finish == st.finish
        } else {
            exists|text: Seq<char>| #[trigger]
                last_reason(events, text) && (end.finish matches Some(reason) && reads_reason(
                    reason,
                    Some(text),
                ))
        },
{
    let tail = events.drop_first();
    law_an_event_sets_what_it_says(st, events[0]);
    if forall|i: int| 0 <= i < tail.len() ==> reason_at(#[trigger] tail[i]) is None {
        assert forall|j: int| 0 < j < events.len() implies reason_at(
            #[trigger] events[j],
        ) is None by {
            assert(tail[j - 1] == events[j]);
        }
        if let Some(text) = reason_at(events[0]) {
            assert(last_reason(events, text));
        } else {
            assert forall|j: int| 0 <= j < events.len() implies reason_at(
                #[trigger] events[j],
            ) is None by {}
        }
    } else {
        let text = choose|text: Seq<char>| #[trigger]
            last_reason(tail, text) && (end.finish matches Some(reason) && reads_reason(
                reason,
                Some(text),
            ));
        let i = choose|i: int|
            0 <= i < tail.len() && reason_at(#[trigger] tail[i]) == Some(text) && forall|j: int|
                i < j < tail.len() ==> reason_at(#[trigger] tail[j]) is None;
        assert(events[i + 1] == tail[i]);
        assert forall|j: int| i + 1 < j < events.len() implies reason_at(
            #[trigger] events[j],
        ) is None by {
            assert(tail[j - 1] == events[j]);
        }
        assert(last_reason(events, text));
    }
}

proof fn lemma_usages(st: StreamState, events: Seq<JsonView>, next: StreamState, end: StreamState)
    requires
        events.len() > 0,
        next == applied(st, events[0]),
        ({
            let tail = events.drop_first();
            if forall|i: int|
                0 <= i < tail.len() ==> (#[trigger] tail[i]).field("usage"@) is None {
                end.usage == next.usage
            } else {
                exists|u: JsonView| #[trigger]
                    last_usage(tail, u) && reads_usage(end.usage, Some(u))
            }
        }),
    ensures
        if forall|i: int|
            0 <= i < events.len() ==> (#[trigger] events[i]).field("usage"@) is None {
            end.usage == st.usage
        } else {
            exists|u: JsonView| #[trigger] last_usage(events, u) && reads_usage(end.usage, Some(u))
        },
{
    let tail = events.drop_first();
    law_an_event_sets_what_it_says(st, events[0]);
    if forall|i: int| 0 <= i < tail.len() ==> (#[trigger] tail[i]).field("usage"@) is None {
        assert forall|j: int| 0 < j < events.len() implies (#[trigger] events[j]).field(
            "usage"@,
        ) is None by {
            assert(tail[j - 1] == events[j]);
        }
        if let Some(u) = events[0].field("usage"@) {
            assert(last_usage(events, u));
        } else {
            assert forall|j: int| 0 <= j < events.len() implies (#[trigger] events[j]).field(
                "usage"@,
            ) is None by {}
        }
    } else {
        let u = choose|u: JsonView| #[trigger]
            last_usage(tail, u) && reads_usage(end.usage, Some(u));
        let i = choose|i: int|
            0 <= i < tail.len() && (#[trigger] tail[i]).field("usage"@) == Some(u) && forall|j: int|
                i < j < tail.len() ==> (#[trigger] tail[j]).field("usage"@) is None;
        assert(events[i + 1] == tail[i]);
        assert forall|j: int| i + 1 < j < events.len() implies (#[trigger] events[j]).field(
            "usage"@,
        ) is None by {
            assert(tail[j - 1] == events[j]);
        }
        assert(last_usage(events, u));
    }
}

/// A streamed reply is the sum of its events.  Where the payloads of the events
/// are the texts of JSON objects, each on one line, the pieces of text that are
/// handed out make up the contents of all events, character for character and
/// in their order, none of them empty; the calls of tools are put together from
/// all fragments; and the reason for the end and the usage are the last that
/// were given.
pub proof fn law_a_reply_is_the_sum_of_its_events(
    payloads: Seq<Seq<char>>,
    events: Seq<JsonView>,
    crlf: bool,
)
    requires
        payloads.len() == events.len(),
        forall|i: int|
            0 <= i < payloads.len() ==> one_line(#[trigger] payloads[i]) && payloads[i].len() > 0
                && payloads[i][0] == '{' && json_of_text(payloads[i]) == Ok::<JsonView, Seq<char>>(
                events[i],
            ),
    ensures
        ({
            let (end, texts) = fed(fresh(), wire(payloads, crlf));
            &&& texts.flatten() == contents(events).flatten()
            &&& forall|i: int| 0 <= i < texts.len() ==> (#[trigger] texts[i]).len() > 0
            &&& end.calls == merged_all(Map::empty(), all_fragments(events))
            &&& if forall|i: int| 0 <= i < events.len() ==> reason_at(#[trigger] events[i]) is None {
                end.finish is None
            } else {
                exists|text: Seq<char>| #[trigger]
                    last_reason(events, text) && (end.finish matches Some(reason) && reads_reason(
                        reason,
                        Some(text),
                    ))
            }
            &&& if forall|i: int|
                0 <= i < events.len() ==> (#[trigger] events[i]).field("usage"@) is None {
                reads_usage(end.usage, None)
            } else {
                exists|u: JsonView| #[trigger]
                    last_usage(events, u) && reads_usage(end.usage, Some(u))
            }
            &&& !end.done
            &&& end.buffer.len() == 0
        }),
{
    law_a_reply_is_what_its_payloads_say(payloads, crlf);
    lemma_sums_up(fresh(), payloads, events);
}

/// The end that a reply announces is taken in: what came before it counts, and
/// nothing that comes after.
pub proof fn law_the_announced_end_counts(st: StreamState, chunk: Seq<u8>)
    ensures
        ({
            let (end, texts) = after_payload(st, "[DONE]"@);
            &&& end.done
            &&& texts.len() == 0
            &&& end.calls == st.calls
            &&& end.finish == st.finish
            &&& end.usage == st.usage
            &&& fed(end, chunk) == (end, Seq::<Seq<char>>::empty())
        }),
{
    reveal_strlit("[DONE]");
    let text = "[DONE]"@;
    assert(trim_start(text) == text);
    assert(trim_end(text) == text);
}

/// A payload that is no document changes nothing and hands nothing out.
pub proof fn law_what_is_no_document_is_skipped(st: StreamState, text: Seq<char>)
    requires
        json_of_text(text) is Err,
        text.len() > 0,
        text[0] == '{',
    ensures
        after_payload(st, text) == (st, Seq::<Seq<char>>::empty()),
{
    lemma_no_end(text);
}

} // verus!
