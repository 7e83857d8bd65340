//! A streamed chat reply.
//!
//! [`ChatStream`] takes the bytes of the reply as they arrive, hands out the
//! text that they add, and gathers the rest: the calls of tools, which come in
//! fragments, the reason for the end, and the usage.
use vstd::prelude::*;

use crate::adapter::{
    chat_status_failure, decode_usage, excerpt, finish_reason, first_choice, get_first_choice,
    map_status_error, reason_of, usage_of,
};
use crate::error::{failure, ErrorClass, ProviderError, ProviderFailure};
use crate::json::{item_views, json_of_text, parse_text, Json, JsonView};
use crate::normalized::{
    call_views, no_usage, FinishReason, TokenUsage, ToolCall, ToolCallView,
};
use crate::sse::{
    after_event, boundary, crlf_at, event_payload, has_crlf, lemma_after_event,
    lemma_boundary_ends_event, lemma_boundary_is_unique, lf_at, payload, take_event,
};
use crate::text::{chars_of, concat2, readable, str_eq, text_of, trim, trim_chars};
use crate::upstream::{is_success, success};

verus! {

// ---------------------------------------------------------------------------
// The model
// ---------------------------------------------------------------------------
/// What is known of a call of a tool.
pub struct CallParts {
    pub id: Option<Seq<char>>,
    pub name: Seq<char>,
    /// The text of the arguments so far.
    pub arguments: Seq<char>,
}

/// What is known of a reply.
pub struct StreamState {
    /// Bytes that do not make up a whole event yet.
    pub buffer: Seq<u8>,
    /// The calls of tools by their index.
    pub calls: Map<u64, CallParts>,
    pub finish: Option<FinishReason>,
    pub usage: TokenUsage,
    /// Whether the reply has announced its end.
    pub done: bool,
}

/// What a stream begins with.
pub open spec fn fresh() -> StreamState {
    StreamState {
        buffer: seq![],
        calls: Map::empty(),
        finish: None,
        usage: no_usage(),
        done: false,
    }
}

/// A call of which nothing is known.
pub open spec fn no_parts() -> CallParts {
    CallParts { id: None, name: seq![], arguments: seq![] }
}

/// The call `parts` once the fragment `item` came: an id and a name replace
/// what was there, arguments are appended to it.
pub open spec fn extended(parts: CallParts, item: JsonView) -> CallParts {
    let function = item.field("function"@);
    CallParts {
        id: match item.str_field("id"@) {
            Some(id) => Some(id),
            None => parts.id,
        },
        name: match function {
            Some(f) => match f.str_field("name"@) {
                Some(name) => name,
                None => parts.name,
            },
            None => parts.name,
        },
        arguments: match function {
            Some(f) => match f.str_field("arguments"@) {
                Some(text) => parts.arguments + text,
                None => parts.arguments,
            },
            None => parts.arguments,
        },
    }
}

/// The call at `index`, which may be new.
pub open spec fn parts_at(calls: Map<u64, CallParts>, index: u64) -> CallParts {
    if calls.contains_key(index) {
        calls[index]
    } else {
        no_parts()
    }
}

/// The calls once the fragment `item` came; one without an index is skipped.
pub open spec fn merged(calls: Map<u64, CallParts>, item: JsonView) -> Map<u64, CallParts> {
    match item.u64_field("index"@) {
        Some(index) => calls.insert(index, extended(parts_at(calls, index), item)),
        None => calls,
    }
}

/// The calls once the fragments `items` came.
pub open spec fn merged_all(calls: Map<u64, CallParts>, items: Seq<JsonView>) -> Map<u64, CallParts>
    decreases items.len(),
{
    if items.len() == 0 {
        calls
    } else {
        merged(merged_all(calls, items.drop_last()), items.last())
    }
}

/// What the first choice of an event adds to the reply.
pub open spec fn delta(event: JsonView) -> Option<JsonView> {
    match first_choice(event) {
        Some(choice) => choice.field("delta"@),
        None => None,
    }
}

/// The text that an event adds: none, or one that is not empty.
pub open spec fn text_of_event(event: JsonView) -> Seq<Seq<char>> {
    match delta(event) {
        Some(d) => match d.str_field("content"@) {
            Some(text) => if text.len() > 0 {
                seq![text]
            } else {
                seq![]
            },
            None => seq![],
        },
        None => seq![],
    }
}

/// What is known once an event came.
pub open spec fn applied(st: StreamState, event: JsonView) -> StreamState {
    StreamState {
        buffer: st.buffer,
        calls: match delta(event) {
            Some(d) => match d.array_field("tool_calls"@) {
                Some(items) => merged_all(st.calls, items),
                None => st.calls,
            },
            None => st.calls,
        },
        finish: match first_choice(event) {
            Some(choice) => match choice.str_field("finish_reason"@) {
                Some(reason) => Some(reason_of(reason)),
                None => st.finish,
            },
            None => st.finish,
        },
        usage: match event.field("usage"@) {
            Some(u) => usage_of(u),
            None => st.usage,
        },
        done: st.done,
    }
}

/// What is known once the payload of an event came, and the text that it adds.
/// A payload that is no JSON document is skipped.
pub open spec fn after_payload(st: StreamState, text: Seq<char>) -> (StreamState, Seq<Seq<char>>) {
    if trim(text) == "[DONE]"@ {
        (StreamState { buffer: seq![], done: true, ..st }, seq![])
    } else {
        match json_of_text(text) {
            Ok(event) => (applied(st, event), text_of_event(event)),
            Err(_) => (st, seq![]),
        }
    }
}

/// What is known once an event came, and the text that it adds.  An event
/// without a payload is skipped.
pub open spec fn after_bytes(st: StreamState, event: Seq<u8>) -> (StreamState, Seq<Seq<char>>) {
    match payload(event) {
        Some(text) => after_payload(st, text),
        None => (st, seq![]),
    }
}

/// What is known once every whole event of the buffer was taken, and the text
/// that they add.
pub open spec fn drained(st: StreamState) -> (StreamState, Seq<Seq<char>>)
    decreases st.buffer.len(),
{
    if st.done {
        (st, seq![])
    } else {
        match boundary(st.buffer) {
            None => (st, seq![]),
            Some(p) => {
                let rest = StreamState { buffer: after_event(st.buffer, p), ..st };
                let (next, text) = after_bytes(rest, st.buffer.take(p));
                let (end, more) = drained(next);
                (end, text + more)
            },
        }
    }
}

/// What is known once the bytes `chunk` came, and the text that they add.
/// After the end that a reply announces nothing counts.
pub open spec fn fed(st: StreamState, chunk: Seq<u8>) -> (StreamState, Seq<Seq<char>>) {
    if st.done {
        (st, seq![])
    } else {
        drained(StreamState { buffer: st.buffer + chunk, ..st })
    }
}

// ---------------------------------------------------------------------------
// The calls of tools
// ---------------------------------------------------------------------------
/// A call of a tool in the making.
pub struct PartialCall {
    pub id: Option<String>,
    pub name: String,
    pub arguments: String,
}

impl View for PartialCall {
    type V = CallParts;

    open spec fn view(&self) -> CallParts {
        CallParts {
            id: match self.id {
                Some(id) => Some(id@),
                None => None,
            },
            name: self.name@,
            arguments: self.arguments@,
        }
    }
}

/// Whether the indexes are strictly ascending.
spec fn ascending(calls: Seq<(u64, PartialCall)>) -> bool {
    forall|i: int, j: int| 0 <= i < j < calls.len() ==> calls[i].0 < calls[j].0
}

/// Whether there is a call at `index`.
spec fn has_index(calls: Seq<(u64, PartialCall)>, index: u64) -> bool {
    exists|i: int| 0 <= i < calls.len() && calls[i].0 == index
}

/// The calls by their index.
spec fn call_map(calls: Seq<(u64, PartialCall)>) -> Map<u64, CallParts> {
    Map::new(
        |index: u64| has_index(calls, index),
        |index: u64|
            calls[choose|i: int| 0 <= i < calls.len() && calls[i].0 == index].1@,
    )
}

proof fn lemma_call_at(calls: Seq<(u64, PartialCall)>, i: int)
    requires
        ascending(calls),
        0 <= i < calls.len(),
    ensures
        call_map(calls).contains_key(calls[i].0),
        call_map(calls)[calls[i].0] == calls[i].1@,
{
    let index = calls[i].0;
    assert(has_index(calls, index));
    let j = choose|j: int| 0 <= j < calls.len() && calls[j].0 == index;
    assert(i == j);
}

proof fn lemma_no_call_between(calls: Seq<(u64, PartialCall)>, i: int, index: u64)
    requires
        ascending(calls),
        0 <= i <= calls.len(),
        forall|j: int| 0 <= j < i ==> calls[j].0 < index,
        i < calls.len() ==> index < calls[i].0,
    ensures
        !call_map(calls).contains_key(index),
{
    if has_index(calls, index) {
        let j = choose|j: int| 0 <= j < calls.len() && calls[j].0 == index;
        assert(calls[j].0 == index);
    }
}

proof fn lemma_call_inserted(
    calls: Seq<(u64, PartialCall)>,
    i: int,
    index: u64,
    call: PartialCall,
)
    requires
        ascending(calls),
        0 <= i <= calls.len(),
        forall|j: int| 0 <= j < i ==> calls[j].0 < index,
        i < calls.len() ==> index < calls[i].0,
    ensures
        ascending(calls.insert(i, (index, call))),
        call_map(calls.insert(i, (index, call))) == call_map(calls).insert(index, call@),
{
    let after = calls.insert(i, (index, call));
    assert forall|j: int, k: int| 0 <= j < k < after.len() implies after[j].0 < after[k].0 by {
        if k > i && i < calls.len() {
            assert(index < calls[k - 1].0);
        }
    }
    let left = call_map(after);
    let right = call_map(calls).insert(index, call@);
    lemma_call_at(after, i);
    assert forall|key: u64| left.contains_key(key) == right.contains_key(key) by {
        if has_index(after, key) {
            let j = choose|j: int| 0 <= j < after.len() && after[j].0 == key;
            if j < i {
                assert(calls[j].0 == key);
            } else if j > i {
                assert(calls[j - 1].0 == key);
            }
        }
        if has_index(calls, key) {
            let j = choose|j: int| 0 <= j < calls.len() && calls[j].0 == key;
            if j < i {
                assert(after[j].0 == key);
            } else {
                assert(after[j + 1].0 == key);
            }
        }
    }
    assert forall|key: u64| left.contains_key(key) implies left[key] == right[key] by {
        let j = choose|j: int| 0 <= j < after.len() && after[j].0 == key;
        lemma_call_at(after, j);
        if j < i {
            lemma_call_at(calls, j);
        } else if j > i {
            lemma_call_at(calls, j - 1);
        }
    }
    assert(left =~= right);
}

proof fn lemma_call_removed(calls: Seq<(u64, PartialCall)>, i: int)
    requires
        ascending(calls),
        0 <= i < calls.len(),
    ensures
        ascending(calls.remove(i)),
        call_map(calls.remove(i)) == call_map(calls).remove(calls[i].0),
{
    let rest = calls.remove(i);
    assert forall|j: int, k: int| 0 <= j < k < rest.len() implies rest[j].0 < rest[k].0 by {}
    let left = call_map(rest);
    let right = call_map(calls).remove(calls[i].0);
    assert forall|key: u64| left.contains_key(key) == right.contains_key(key) by {
        if has_index(rest, key) {
            let j = choose|j: int| 0 <= j < rest.len() && rest[j].0 == key;
            if j < i {
                assert(calls[j].0 == key);
            } else {
                assert(calls[j + 1].0 == key);
            }
        }
        if has_index(calls, key) && key != calls[i].0 {
            let j = choose|j: int| 0 <= j < calls.len() && calls[j].0 == key;
            if j < i {
                assert(rest[j].0 == key);
            } else {
                assert(rest[j - 1].0 == key);
            }
        }
    }
    assert forall|key: u64| left.contains_key(key) implies left[key] == right[key] by {
        let j = choose|j: int| 0 <= j < rest.len() && rest[j].0 == key;
        lemma_call_at(rest, j);
        if j < i {
            lemma_call_at(calls, j);
        } else {
            lemma_call_at(calls, j + 1);
        }
    }
    assert(left =~= right);
}

/// The call once the fragment `item` came.
fn extend_call(call: PartialCall, item: &Json) -> (r: PartialCall)
    ensures
        r@ == extended(call@, item@),
{
    let mut call = call;
    if let Some(id) = item.get_str("id") {
        call.id = Some(id.to_owned());
    }
    if let Some(function) = item.get("function") {
        if let Some(name) = function.get_str("name") {
            call.name = name.to_owned();
        }
        if let Some(text) = function.get_str("arguments") {
            call.arguments = concat2(call.arguments.as_str(), text);
        }
    }
    call
}

/// Adds the fragment `item` to the call that it belongs to.
fn merge_item(calls: &mut Vec<(u64, PartialCall)>, item: &Json)
    requires
        ascending(old(calls)@),
    ensures
        ascending(final(calls)@),
        call_map(final(calls)@) == merged(call_map(old(calls)@), item@),
{
    let index: u64 = match item.get_u64("index") {
        Some(index) => index,
        None => {
            return;
        },
    };
    let mut i: usize = 0;
    while i < calls.len() && calls[i].0 < index
        invariant
            i <= calls@.len(),
            calls@ == old(calls)@,
            forall|j: int| 0 <= j < i ==> calls@[j].0 < index,
        decreases calls@.len() - i,
    {
        i += 1;
    }
    let call = if i < calls.len() && calls[i].0 == index {
        proof {
            lemma_call_at(calls@, i as int);
            lemma_call_removed(calls@, i as int);
        }
        calls.remove(i).1
    } else {
        proof {
            lemma_no_call_between(calls@, i as int, index);
        }
        let none = PartialCall { id: None, name: String::new(), arguments: String::new() };
        assert(none@.name =~= seq![] && none@.arguments =~= seq![]);
        none
    };
    assert(call@ == parts_at(call_map(old(calls)@), index));
    let call = extend_call(call, item);
    proof {
        lemma_call_inserted(calls@, i as int, index, call);
    }
    calls.insert(i, (index, call));
    assert(call_map(calls@) =~= call_map(old(calls)@).insert(index, call@));
}

/// Adds the fragments `items` to the calls that they belong to.
fn merge_items(calls: &mut Vec<(u64, PartialCall)>, items: &[Json])
    requires
        ascending(old(calls)@),
    ensures
        ascending(final(calls)@),
        call_map(final(calls)@) == merged_all(call_map(old(calls)@), item_views(items@)),
{
    broadcast use crate::json::lemma_item_view;

    let mut i: usize = 0;
    let ghost views = item_views(items@);
    assert(views.take(0) =~= seq![]);
    while i < items.len()
        invariant
            i <= items@.len(),
            views == item_views(items@),
            ascending(calls@),
            call_map(calls@) == merged_all(call_map(old(calls)@), views.take(i as int)),
        decreases items@.len() - i,
    {
        merge_item(calls, &items[i]);
        i += 1;
        assert(views.take(i as int).drop_last() =~= views.take(i - 1));
    }
    assert(views.take(i as int) =~= views);
}

// ---------------------------------------------------------------------------
// The stream
// ---------------------------------------------------------------------------
/// A streamed reply that is being received.
pub struct ChatStream {
    buffer: Vec<u8>,
    calls: Vec<(u64, PartialCall)>,
    finish: Option<FinishReason>,
    usage: TokenUsage,
    done: bool,
}

impl View for ChatStream {
    type V = StreamState;

    closed spec fn view(&self) -> StreamState {
        StreamState {
            buffer: self.buffer@,
            calls: call_map(self.calls@),
            finish: self.finish,
            usage: self.usage,
            done: self.done,
        }
    }
}

/// The texts, as values.
pub open spec fn text_views(texts: Seq<String>) -> Seq<Seq<char>> {
    texts.map_values(|s: String| s@)
}

impl ChatStream {
    /// Whether the calls are held in the order of their indexes.
    pub closed spec fn wf(&self) -> bool {
        ascending(self.calls@)
    }

    /// A stream of which nothing has come yet.
    pub fn new() -> (r: ChatStream)
        ensures
            r.wf(),
            r@ == fresh(),
    {
        let r = ChatStream {
            buffer: Vec::new(),
            calls: Vec::new(),
            finish: None,
            usage: TokenUsage { input_tokens: 0, output_tokens: 0, cached_input_tokens: 0 },
            done: false,
        };
        assert(r@.buffer =~= seq![]);
        assert(r@.calls =~= Map::empty());
        r
    }

    /// Whether the reply has announced its end.
    pub fn is_done(&self) -> (r: bool)
        ensures
            r == self@.done,
    {
        self.done
    }

    /// Takes in the event `event`, and returns the text that it adds.
    pub fn apply_event(&mut self, event: &Json) -> (r: Option<String>)
        requires
            old(self).wf(),
        ensures
            final(self).wf(),
            final(self)@ == applied(old(self)@, event@),
            text_of_event(event@) == match r {
                Some(s) => seq![s@],
                None => seq![],
            },
    {
        if let Some(u) = event.get("usage") {
            self.usage = decode_usage(Some(u));
        }
        let choice = match get_first_choice(event) {
            Some(choice) => choice,
            None => {
                return None;
            },
        };
        let mut text: Option<String> = None;
        if let Some(delta) = choice.get("delta") {
            if let Some(content) = delta.get_str("content") {
                if !content.is_empty() {
                    text = Some(content.to_owned());
                }
            }
            if let Some(items) = delta.get_array("tool_calls") {
                merge_items(&mut self.calls, items.as_slice());
            }
        }
        if let Some(reason) = choice.get_str("finish_reason") {
            self.finish = Some(finish_reason(reason));
        }
        text
    }

    /// Takes in the payload of an event, and returns the text that it adds.
    fn apply_payload(&mut self, text: &str) -> (r: Option<String>)
        requires
            old(self).wf(),
        ensures
            final(self).wf(),
            after_payload(old(self)@, text@) == (
                final(self)@,
                match r {
                    Some(s) => seq![s@],
                    None => seq![],
                },
            ),
    {
        let chars = chars_of(text);
        let core = text_of(trim_chars(chars.as_slice()).as_slice());
        if str_eq(core.as_str(), "[DONE]") {
            self.buffer.clear();
            self.done = true;
            return None;
        }
        match parse_text(text) {
            Ok(event) => self.apply_event(&event),
            Err(_) => None,
        }
    }

    /// Takes in the bytes `chunk`, and returns the pieces of text that they
    /// add.
    pub fn push_chunk(&mut self, chunk: &[u8]) -> (r: Vec<String>)
        requires
            old(self).wf(),
        ensures
            final(self).wf(),
            fed(old(self)@, chunk@) == (final(self)@, text_views(r@)),
    {
        let mut texts: Vec<String> = Vec::new();
        assert(text_views(texts@) =~= seq![]);
        if self.done {
            return texts;
        }
        self.buffer.extend_from_slice(chunk);
        assert(self.buffer@ =~= old(self)@.buffer + chunk@);
        let ghost start = self@;
        assert(seq![] + drained(start).1 =~= drained(start).1);
        while !self.done
            invariant
                self.wf(),
                drained(start) == (drained(self@).0, text_views(texts@) + drained(self@).1),
            ensures
                self.wf(),
                drained(start) == (self@, text_views(texts@)),
            decreases self@.buffer.len(),
        {
            let ghost before = self@;
            let event = match take_event(&mut self.buffer) {
                Some(event) => event,
                None => {
                    assert(text_views(texts@) + seq![] =~= text_views(texts@));
                    break;
                },
            };
            let ghost p = boundary(before.buffer)->0;
            let ghost rest = self@;
            let ghost so_far = text_views(texts@);
            proof {
                lemma_boundary_ends_event(before.buffer);
                lemma_after_event(before.buffer, p);
                assert(rest == StreamState { buffer: after_event(before.buffer, p), ..before });
            }
            let ghost mut added: Seq<Seq<char>> = seq![];
            if let Some(text) = event_payload(event.as_slice()) {
                if let Some(piece) = self.apply_payload(text.as_str()) {
                    proof {
                        added = seq![piece@];
                    }
                    let ghost earlier = texts@;
                    texts.push(piece);
                    assert(text_views(texts@) =~= text_views(earlier) + seq![piece@]);
                }
            }
            assert(after_bytes(rest, event@) == (self@, added));
            assert(text_views(texts@) =~= so_far + added);
            assert(drained(before) == (drained(self@).0, added + drained(self@).1));
            assert(so_far + (added + drained(self@).1) =~= text_views(texts@) + drained(self@).1);
            assert(text_views(texts@) + seq![] =~= text_views(texts@));
        }
        texts
    }
}

// ---------------------------------------------------------------------------
// The end
// ---------------------------------------------------------------------------
/// Whether `keys` are the indexes of the calls, in ascending order.
pub open spec fn lists(keys: Seq<u64>, calls: Map<u64, CallParts>) -> bool {
    &&& forall|i: int, j: int| 0 <= i < j < keys.len() ==> keys[i] < keys[j]
    &&& forall|k: u64| #[trigger] keys.contains(k) <==> calls.contains_key(k)
}

/// The indexes of the calls, in ascending order.
pub open spec fn indexes(calls: Map<u64, CallParts>) -> Seq<u64> {
    choose|keys: Seq<u64>| lists(keys, calls)
}

/// The call that is handed out once the arguments went through the parser:
/// arguments that are no JSON document become null.
pub open spec fn completed(parts: CallParts, parsed: Result<JsonView, Seq<char>>) -> ToolCallView {
    ToolCallView {
        id: match parts.id {
            Some(id) => id,
            None => seq![],
        },
        name: parts.name,
        arguments: match parsed {
            Ok(arguments) => arguments,
            Err(_) => JsonView::Null,
        },
    }
}

/// The calls at the given indexes that are handed out: those with a name.
pub open spec fn ready_calls(keys: Seq<u64>, calls: Map<u64, CallParts>) -> Seq<ToolCallView>
    decreases keys.len(),
{
    if keys.len() == 0 {
        seq![]
    } else {
        let earlier = ready_calls(keys.drop_last(), calls);
        let parts = calls[keys.last()];
        if parts.name.len() == 0 {
            earlier
        } else {
            earlier.push(completed(parts, json_of_text(parts.arguments)))
        }
    }
}

/// How a stream ended.
#[derive(Debug, Clone, Copy, PartialEq, Eq, Structural)]
pub struct StreamEnd {
    pub reason: FinishReason,
    pub usage: TokenUsage,
}

/// How the stream ends: with the error that broke it off, or with what the
/// reply said of its end.
pub open spec fn ending(st: StreamState, read_error: Option<Seq<char>>) -> Result<
    StreamEnd,
    ProviderFailure,
> {
    match read_error {
        Some(detail) => Err(failure(ErrorClass::Network, "read sse chunk: "@ + detail)),
        None => Ok(
            StreamEnd {
                reason: match st.finish {
                    Some(reason) => reason,
                    None => FinishReason::Other,
                },
                usage: st.usage,
            },
        ),
    }
}

/// The calls have one list of indexes in ascending order.
pub proof fn lemma_one_list(a: Seq<u64>, b: Seq<u64>, calls: Map<u64, CallParts>)
    requires
        lists(a, calls),
        lists(b, calls),
    ensures
        a == b,
    decreases a.len(),
{
    if a.len() == 0 {
        if b.len() > 0 {
            assert(b.contains(b[0]));
            assert(a.contains(b[0]));
        }
    } else {
        assert(a.contains(a.last()));
        assert(b.contains(a.last()));
        assert(b.contains(b.last()));
        assert(a.contains(b.last()));
        let i = choose|i: int| 0 <= i < b.len() && b[i] == a.last();
        let j = choose|j: int| 0 <= j < a.len() && a[j] == b.last();
        assert(a.last() == b.last());
        let k = a.last();
        let fewer = calls.remove(k);
        assert(lists(a.drop_last(), fewer)) by {
            lemma_shorter_list(a, calls);
        }
        assert(lists(b.drop_last(), fewer)) by {
            lemma_shorter_list(b, calls);
        }
        lemma_one_list(a.drop_last(), b.drop_last(), fewer);
        assert(a =~= a.drop_last().push(k));
        assert(b =~= b.drop_last().push(k));
    }
}

proof fn lemma_shorter_list(keys: Seq<u64>, calls: Map<u64, CallParts>)
    requires
        lists(keys, calls),
        keys.len() > 0,
    ensures
        lists(keys.drop_last(), calls.remove(keys.last())),
{
    let short = keys.drop_last();
    let fewer = calls.remove(keys.last());
    assert forall|k: u64| #[trigger] short.contains(k) <==> fewer.contains_key(k) by {
        if short.contains(k) {
            let i = choose|i: int| 0 <= i < short.len() && short[i] == k;
            assert(keys[i] == k);
            assert(keys.contains(k));
        }
        if fewer.contains_key(k) {
            assert(keys.contains(k));
            let i = choose|i: int| 0 <= i < keys.len() && keys[i] == k;
            assert(short[i] == k);
        }
    }
}

/// Hands a call out with what the parser made of its arguments.
pub fn complete_call(call: PartialCall, parsed: Result<Json, String>) -> (r: ToolCall)
    ensures
        r@ == completed(
            call@,
            match parsed {
                Ok(j) => Ok(j@),
                Err(e) => Err(e@),
            },
        ),
{
    let id = match call.id {
        Some(id) => id,
        None => String::new(),
    };
    let arguments = match parsed {
        Ok(arguments) => arguments,
        Err(_) => Json::Null,
    };
    let r = ToolCall { id, name: call.name, arguments };
    assert(call.id is None ==> r@.id =~= seq![]);
    r
}

/// The indexes of the calls, in the order in which they are held.
spec fn held(calls: Seq<(u64, PartialCall)>) -> Seq<u64> {
    calls.map_values(|c: (u64, PartialCall)| c.0)
}

proof fn lemma_held(calls: Seq<(u64, PartialCall)>)
    requires
        ascending(calls),
    ensures
        lists(held(calls), call_map(calls)),
        indexes(call_map(calls)) == held(calls),
{
    let keys = held(calls);
    assert forall|k: u64| #[trigger] keys.contains(k) <==> call_map(calls).contains_key(k) by {
        if keys.contains(k) {
            let i = choose|i: int| 0 <= i < keys.len() && keys[i] == k;
            assert(calls[i].0 == k);
        }
        if has_index(calls, k) {
            let i = choose|i: int| 0 <= i < calls.len() && calls[i].0 == k;
            assert(keys[i] == k);
        }
    }
    assert(lists(keys, call_map(calls)));
    lemma_one_list(indexes(call_map(calls)), keys, call_map(calls));
}

impl ChatStream {
    /// Ends the stream, with the error that broke it off if there is one: the
    /// calls of tools that are handed out, and then the end.
    pub fn finish(self, read_error: Option<String>) -> (r: (
        Vec<ToolCall>,
        Result<StreamEnd, ProviderError>,
    ))
        requires
            self.wf(),
        ensures
            lists(indexes(self@.calls), self@.calls),
            call_views(r.0@) == ready_calls(indexes(self@.calls), self@.calls),
            ({
                let detail = match read_error {
                    Some(e) => Some(e@),
                    None => None,
                };
                match r.1 {
                    Ok(end) => ending(self@, detail) == Ok::<StreamEnd, ProviderFailure>(end),
                    Err(e) => ending(self@, detail) == Err::<StreamEnd, ProviderFailure>(e@),
                }
            }),
    {
        let ghost calls = self.calls@;
        let ghost map = call_map(calls);
        let ghost keys = held(calls);
        proof {
            lemma_held(calls);
        }
        let mut out: Vec<ToolCall> = Vec::new();
        assert(call_views(out@) =~= seq![]);
        assert(keys.take(0) =~= seq![]);
        let finish = self.finish;
        let usage = self.usage;
        for entry in it: self.calls
            invariant
                it.seq() == calls,
                ascending(calls),
                map == call_map(calls),
                keys == held(calls),
                call_views(out@) == ready_calls(keys.take(it.index() as int), map),
        {
            let ghost i = it.index() as int;
            let ghost before = out@;
            let call = entry.1;
            proof {
                lemma_call_at(calls, i);
                assert(keys.take(i + 1).drop_last() =~= keys.take(i));
                assert(keys.take(i + 1).last() == calls[i].0);
            }
            if !call.name.as_str().is_empty() {
                let parsed = parse_text(call.arguments.as_str());
                let done = complete_call(call, parsed);
                out.push(done);
                assert(call_views(out@) =~= call_views(before).push(done@));
            }
        }
        assert(keys.take(keys.len() as int) =~= keys);
        let end = match read_error {
            Some(e) => Err(
                ProviderError::Network { message: concat2("read sse chunk: ", e.as_str()) },
            ),
            None => {
                let reason = match finish {
                    Some(reason) => reason,
                    None => FinishReason::Other,
                };
                Ok(StreamEnd { reason, usage })
            },
        };
        (out, end)
    }
}

/// Begins to receive the reply to a request for a streamed one: an error if
/// the status does not report success.
pub fn open_stream(status: u16, body: &[u8]) -> (r: Result<ChatStream, ProviderError>)
    ensures
        match r {
            Ok(stream) => success(status) && stream.wf() && stream@ == fresh(),
            Err(e) => !success(status) && e@ == chat_status_failure(
                status,
                excerpt(readable(body@)),
            ),
        },
{
    if is_success(status) {
        Ok(ChatStream::new())
    } else {
        Err(map_status_error(status, body))
    }
}

// ---------------------------------------------------------------------------
// Laws
// ---------------------------------------------------------------------------
/// Whether every empty line with CRLF line ends stands before every empty line
/// with LF line ends.  So it is with bytes that use one kind of line end only.
pub open spec fn orderly(s: Seq<u8>) -> bool {
    forall|i: int, j: int| #[trigger] lf_at(s, i) && #[trigger] crlf_at(s, j) ==> j < i
}

/// What is known once the chunks came one after the other, and the text that
/// they add.
pub open spec fn fed_all(st: StreamState, chunks: Seq<Seq<u8>>) -> (StreamState, Seq<Seq<char>>)
    decreases chunks.len(),
{
    if chunks.len() == 0 {
        (st, seq![])
    } else {
        let (before, text) = fed_all(st, chunks.drop_last());
        let (end, more) = fed(before, chunks.last());
        (end, text + more)
    }
}

/// The chunks as one.
pub open spec fn glued(chunks: Seq<Seq<u8>>) -> Seq<u8>
    decreases chunks.len(),
{
    if chunks.len() == 0 {
        seq![]
    } else {
        glued(chunks.drop_last()) + chunks.last()
    }
}

proof fn lemma_orderly_suffix(s: Seq<u8>, k: int)
    requires
        orderly(s),
        0 <= k <= s.len(),
    ensures
        orderly(s.skip(k)),
{
    let t = s.skip(k);
    assert forall|i: int, j: int| #[trigger] lf_at(t, i) && #[trigger] crlf_at(t, j) implies j
        < i by {
        assert(lf_at(s, i + k));
        assert(crlf_at(s, j + k));
    }
}

proof fn lemma_orderly_prefix(s: Seq<u8>, t: Seq<u8>)
    requires
        orderly(s + t),
    ensures
        orderly(s),
{
    assert forall|i: int, j: int| #[trigger] lf_at(s, i) && #[trigger] crlf_at(s, j) implies j
        < i by {
        assert(lf_at(s + t, i));
        assert(crlf_at(s + t, j));
    }
}

proof fn lemma_boundary_stays(s: Seq<u8>, t: Seq<u8>)
    requires
        boundary(s) is Some,
        orderly(s + t),
    ensures
        boundary(s + t) == boundary(s),
{
    lemma_boundary_ends_event(s);
    let p = boundary(s)->0;
    let all = s + t;
    if has_crlf(s) {
        assert(crlf_at(all, p));
        assert forall|i: int| 0 <= i < p implies !#[trigger] crlf_at(all, i) by {
            assert(!crlf_at(s, i));
        }
    } else {
        assert(lf_at(all, p));
        assert forall|j: int| !#[trigger] crlf_at(all, j) by {
            if crlf_at(all, j) {
                assert(j < p);
                if j + 4 <= s.len() {
                    assert(crlf_at(s, j));
                } else {
                    assert(all[j + 2] == 13 && all[p + 1] == 10);
                }
            }
        }
        assert forall|i: int| 0 <= i < p implies !#[trigger] lf_at(all, i) by {
            assert(!lf_at(s, i));
        }
    }
    lemma_boundary_is_unique(all, p);
}

proof fn lemma_after_event_grows(s: Seq<u8>, t: Seq<u8>, p: int)
    requires
        crlf_at(s, p) || lf_at(s, p),
    ensures
        after_event(s + t, p) == after_event(s, p) + t,
{
    assert(crlf_at(s, p) ==> crlf_at(s + t, p));
    assert(lf_at(s, p) ==> lf_at(s + t, p));
    lemma_after_event(s, p);
    lemma_after_event(s + t, p);
    assert(after_event(s + t, p) =~= after_event(s, p) + t);
}

proof fn lemma_drained_grows(st: StreamState, t: Seq<u8>)
    requires
        !st.done,
        orderly(st.buffer + t),
    ensures
        ({
            let (before, text) = drained(st);
            let (end, more) = fed(before, t);
            drained(StreamState { buffer: st.buffer + t, ..st }) == (end, text + more)
        }),
    decreases st.buffer.len(),
{
    let grown = StreamState { buffer: st.buffer + t, ..st };
    match boundary(st.buffer) {
        None => {
            let more = fed(st, t).1;
            assert(Seq::<Seq<char>>::empty() + more =~= more);
        },
        Some(p) => {
            lemma_boundary_ends_event(st.buffer);
            lemma_boundary_stays(st.buffer, t);
            lemma_after_event(st.buffer, p);
            lemma_after_event_grows(st.buffer, t, p);
            assert(grown.buffer.take(p) =~= st.buffer.take(p));
            let event = st.buffer.take(p);
            let rest = StreamState { buffer: after_event(st.buffer, p), ..st };
            let rest_grown = StreamState { buffer: after_event(grown.buffer, p), ..grown };
            let (next, text) = after_bytes(rest, event);
            let (next_grown, text_grown) = after_bytes(rest_grown, event);
            assert(text_grown == text);
            let (before, more) = drained(next);
            let (end, last) = fed(before, t);
            if next.done {
                assert(next_grown == next);
                assert(text + more + last =~= text + more);
            } else {
                assert(next_grown == StreamState { buffer: next.buffer + t, ..next });
                assert(next.buffer + t =~= (st.buffer + t).skip(
                    (st.buffer + t).len() - (next.buffer + t).len(),
                )) by {
                    lemma_after_event(grown.buffer, p);
                }
                lemma_orderly_suffix(
                    st.buffer + t,
                    (st.buffer + t).len() - (next.buffer + t).len(),
                );
                lemma_drained_grows(next, t);
                assert(text + more + last =~= text + (more + last));
            }
        },
    }
}

/// It does not matter whether bytes arrive in two chunks or in one.
pub proof fn law_two_chunks_are_one(st: StreamState, a: Seq<u8>, b: Seq<u8>)
    requires
        orderly(st.buffer + a + b),
    ensures
        ({
            let (before, text) = fed(st, a);
            let (end, more) = fed(before, b);
            fed(st, a + b) == (end, text + more)
        }),
{
    if st.done {
        assert(Seq::<Seq<char>>::empty() + Seq::<Seq<char>>::empty() =~= seq![]);
    } else {
        assert(st.buffer + a + b =~= st.buffer + (a + b));
        lemma_drained_grows(StreamState { buffer: st.buffer + a, ..st }, b);
    }
}

/// It does not matter into which chunks the bytes of a reply are cut: the
/// pieces of text and all that is known at the end are the same.
pub proof fn law_chunks_do_not_matter(chunks: Seq<Seq<u8>>)
    requires
        orderly(glued(chunks)),
    ensures
        fed_all(fresh(), chunks) == fed(fresh(), glued(chunks)),
    decreases chunks.len(),
{
    if chunks.len() == 0 {
        let empty = Seq::<u8>::empty();
        assert(empty + empty =~= empty);
        assert(boundary(empty) is None);
    } else {
        let earlier = glued(chunks.drop_last());
        lemma_orderly_prefix(earlier, chunks.last());
        law_chunks_do_not_matter(chunks.drop_last());
        assert(Seq::<u8>::empty() + earlier + chunks.last() =~= earlier + chunks.last());
        law_two_chunks_are_one(fresh(), earlier, chunks.last());
    }
}

/// Nothing that arrives after the end that a reply announces counts.
pub proof fn law_the_end_is_final(st: StreamState, chunk: Seq<u8>)
    requires
        st.done,
    ensures
        fed(st, chunk) == (st, Seq::<Seq<char>>::empty()),
{
}

/// The call that is handed out for the call at `key`.
pub open spec fn handed_out(calls: Map<u64, CallParts>, key: u64) -> ToolCallView {
    completed(calls[key], json_of_text(calls[key].arguments))
}

proof fn lemma_handed_out(calls: Map<u64, CallParts>, keys: Seq<u64>, c: ToolCallView)
    ensures
        ready_calls(keys, calls).contains(c) <==> exists|i: int|
            0 <= i < keys.len() && calls[#[trigger] keys[i]].name.len() > 0 && c == handed_out(
                calls,
                keys[i],
            ),
    decreases keys.len(),
{
    if keys.len() > 0 {
        let short = keys.drop_last();
        let earlier = ready_calls(short, calls);
        let all = ready_calls(keys, calls);
        let key = keys.last();
        lemma_handed_out(calls, short, c);
        if earlier.contains(c) {
            let i = choose|i: int|
                0 <= i < short.len() && calls[#[trigger] short[i]].name.len() > 0 && c
                    == handed_out(calls, short[i]);
            assert(keys[i] == short[i]);
            let j = choose|j: int| 0 <= j < earlier.len() && earlier[j] == c;
            assert(all[j] == c);
        }
        if calls[key].name.len() > 0 && c == handed_out(calls, key) {
            assert(keys[keys.len() - 1] == key);
            assert(all[all.len() - 1] == c);
        }
        if all.contains(c) {
            let j = choose|j: int| 0 <= j < all.len() && all[j] == c;
            if j < earlier.len() {
                assert(earlier[j] == c);
            }
        }
        if exists|i: int|
            0 <= i < keys.len() && calls[#[trigger] keys[i]].name.len() > 0 && c == handed_out(
                calls,
                keys[i],
            ) {
            let i = choose|i: int|
                0 <= i < keys.len() && calls[#[trigger] keys[i]].name.len() > 0 && c
                    == handed_out(calls, keys[i]);
            if i < short.len() {
                assert(short[i] == keys[i]);
            }
        }
    }
}

/// At the end exactly the calls that have a name are handed out, in the
/// ascending order of their indexes.
pub proof fn law_named_calls_are_handed_out(calls: Map<u64, CallParts>, keys: Seq<u64>)
    requires
        lists(keys, calls),
    ensures
        indexes(calls) == keys,
        forall|c: ToolCallView| #[trigger]
            ready_calls(indexes(calls), calls).contains(c) <==> exists|i: int|
                0 <= i < keys.len() && calls[#[trigger] keys[i]].name.len() > 0 && c == handed_out(
                    calls,
                    keys[i],
                ),
{
    lemma_one_list(indexes(calls), keys, calls);
    assert forall|c: ToolCallView| #[trigger]
        ready_calls(indexes(calls), calls).contains(c) <==> exists|i: int|
            0 <= i < keys.len() && calls[#[trigger] keys[i]].name.len() > 0 && c == handed_out(
                calls,
                keys[i],
            ) by {
        lemma_handed_out(calls, keys, c);
    }
}

} // verus!
