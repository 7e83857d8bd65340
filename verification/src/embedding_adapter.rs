//! OpenAI embeddings.
use vstd::prelude::*;
use vstd::utf8::encode_utf8;

use crate::adapter::{
    chat_status_class, chat_status_failure, class_of_status, excerpt, low32, text_excerpt,
    truncate_count, EXCERPT_BYTES,
};
use crate::error::{failure, ErrorClass, ProviderError, ProviderFailure};
use crate::json::{
    item_views, lemma_item_view, lemma_item_views_push, object, optional, Fields,
    Json, JsonView,
};
use crate::text::{lossy_text, readable};
use crate::upstream::{
    configured, header_views, is_success, json_content, json_reply, success, take_json, Exchange,
    Header, JsonPost, JsonRequest, OpenAiVariant, Upstream, UpstreamView,
};

verus! {

/// How many inputs one request may carry.
pub const OPENAI_MAX_INPUTS: usize = 2048;

// ---------------------------------------------------------------------------
// Requests
// ---------------------------------------------------------------------------
/// A request for embeddings.
#[derive(Debug)]
pub struct NormalizedEmbeddingRequest {
    pub model: String,
    pub inputs: Vec<String>,
    pub dimensions: Option<u32>,
}

/// The inputs of a request.
pub open spec fn inputs_json(inputs: Seq<String>) -> JsonView {
    JsonView::Array(inputs.map_values(|s: String| JsonView::Str(s@)))
}

/// What a request is sent as.
pub open spec fn request_json(request: NormalizedEmbeddingRequest) -> JsonView {
    object(
        seq![
            ("model"@, JsonView::Str(request.model@)),
            ("input"@, inputs_json(request.inputs@)),
        ] + optional(
            "dimensions"@,
            match request.dimensions {
                Some(d) => Some(JsonView::Unsigned(d as u64)),
                None => None,
            },
        ),
    )
}

fn encode_inputs(inputs: &[String]) -> (r: Json)
    ensures
        r@ == inputs_json(inputs@),
{
    let mut items: Vec<Json> = Vec::new();
    let mut i: usize = 0;
    let ghost all = inputs@.map_values(|s: String| JsonView::Str(s@));
    while i < inputs.len()
        invariant
            i <= inputs@.len(),
            all == inputs@.map_values(|s: String| JsonView::Str(s@)),
            item_views(items@) =~= all.take(i as int),
        decreases inputs@.len() - i,
    {
        broadcast use lemma_item_views_push;

        items.push(Json::string(inputs[i].as_str()));
        i += 1;
    }
    assert(item_views(items@) =~= all);
    Json::Array(items)
}

/// Encodes a request.
pub fn encode_request(request: &NormalizedEmbeddingRequest) -> (r: Json)
    ensures
        r@ == request_json(*request),
{
    let mut f = Fields::new();
    f.put_str("model", request.model.as_str());
    f.put("input", encode_inputs(request.inputs.as_slice()));
    assert(f@ =~= seq![
        ("model"@, JsonView::Str(request.model@)),
        ("input"@, inputs_json(request.inputs@)),
    ]);
    let dimensions = match request.dimensions {
        Some(d) => Some(Json::Unsigned(d as u64)),
        None => None,
    };
    f.put_opt("dimensions", &dimensions);
    f.into_json()
}

// ---------------------------------------------------------------------------
// Replies
// ---------------------------------------------------------------------------
/// How many tokens a request took.
#[derive(Debug, Clone, Copy, PartialEq, Eq, Structural)]
pub struct EmbeddingTokenUsage {
    pub input_tokens: u32,
}

/// Embeddings, in the order of the inputs; the components are JSON numbers.
#[derive(Debug)]
pub struct NormalizedEmbeddingResponse {
    pub embeddings: Vec<Vec<Json>>,
    pub dimensions: u32,
    pub usage: Option<EmbeddingTokenUsage>,
}

/// An embedding with the index of its input.
pub type Entry = (u64, Seq<JsonView>);

/// The failure of a reply that is not what the API promises.
pub open spec fn malformed(message: Seq<char>) -> ProviderFailure {
    failure(ErrorClass::Malformed, message)
}

/// Whether all of the values are numbers.
pub open spec fn all_numbers(values: Seq<JsonView>) -> bool {
    forall|i: int| 0 <= i < values.len() ==> (#[trigger] values[i]).is_number()
}

/// What an entry of the reply says.
pub open spec fn entry_of(item: JsonView) -> Result<Entry, ProviderFailure> {
    match item.u64_field("index"@) {
        None => Err(malformed("embedding entry missing `index`"@)),
        Some(index) => match item.array_field("embedding"@) {
            None => Err(malformed("embedding entry missing `embedding`"@)),
            Some(values) => if all_numbers(values) {
                Ok((index, values))
            } else {
                Err(malformed("embedding contains non-number"@))
            },
        },
    }
}

/// The number of components, kept to 32 bits.
pub open spec fn width(values: Seq<JsonView>) -> u32 {
    (values.len() % 0x1_0000_0000) as u32
}

/// The entries of a reply and their common number of components, or the first
/// failure.  Entries without components put no demand on the others.
pub open spec fn entries_of(items: Seq<JsonView>) -> Result<(Seq<Entry>, u32), ProviderFailure>
    decreases items.len(),
{
    if items.len() == 0 {
        Ok((seq![], 0))
    } else {
        match entries_of(items.drop_last()) {
            Err(e) => Err(e),
            Ok((entries, dimensions)) => match entry_of(items.last()) {
                Err(e) => Err(e),
                Ok(entry) => if dimensions == 0 {
                    Ok((entries.push(entry), width(entry.1)))
                } else if width(entry.1) != dimensions {
                    Err(malformed("embeddings have inconsistent dimensions"@))
                } else {
                    Ok((entries.push(entry), dimensions))
                },
            },
        }
    }
}

/// The entries with the index `k`, in the order in which they stand.
pub open spec fn with_index(entries: Seq<Entry>, k: u64) -> Seq<Entry>
    decreases entries.len(),
{
    if entries.len() == 0 {
        seq![]
    } else {
        let earlier = with_index(entries.drop_last(), k);
        if entries.last().0 == k {
            earlier.push(entries.last())
        } else {
            earlier
        }
    }
}

/// Whether the indexes are ascending.
pub open spec fn by_index(entries: Seq<Entry>) -> bool {
    forall|i: int, j: int| 0 <= i < j < entries.len() ==> entries[i].0 <= entries[j].0
}

/// Whether `sorted` holds the entries in the order of their indexes, those
/// with one index in the order in which they stand in `entries`.
pub open spec fn sorts(entries: Seq<Entry>, sorted: Seq<Entry>) -> bool {
    by_index(sorted) && forall|k: u64| #[trigger] with_index(sorted, k) == with_index(entries, k)
}

/// The entries in the order of their indexes.
pub open spec fn sorted(entries: Seq<Entry>) -> Seq<Entry> {
    choose|s: Seq<Entry>| sorts(entries, s)
}

/// The embeddings of the entries.
pub open spec fn vectors(entries: Seq<Entry>) -> Seq<Seq<JsonView>> {
    entries.map_values(|e: Entry| e.1)
}

/// What a reply says: the embeddings, their number of components, and the
/// tokens that the request took.
pub struct EmbeddingReply {
    pub embeddings: Seq<Seq<JsonView>>,
    pub dimensions: u32,
    pub usage: Option<EmbeddingTokenUsage>,
}

impl View for NormalizedEmbeddingResponse {
    type V = EmbeddingReply;

    open spec fn view(&self) -> EmbeddingReply {
        EmbeddingReply {
            embeddings: self.embeddings@.map_values(|v: Vec<Json>| item_views(v@)),
            dimensions: self.dimensions,
            usage: self.usage,
        }
    }
}

/// The usage that a reply reports.
pub open spec fn usage_of(value: JsonView) -> Option<EmbeddingTokenUsage> {
    match value.field("usage"@) {
        Some(u) => match u.u64_field("prompt_tokens"@) {
            Some(n) => Some(EmbeddingTokenUsage { input_tokens: low32(n) }),
            None => None,
        },
        None => None,
    }
}

/// What a reply says.
pub open spec fn decoded(value: JsonView) -> Result<EmbeddingReply, ProviderFailure> {
    match value.array_field("data"@) {
        None => Err(malformed("response missing `data`"@)),
        Some(items) => match entries_of(items) {
            Err(e) => Err(e),
            Ok((entries, dimensions)) => Ok(
                EmbeddingReply {
                    embeddings: vectors(sorted(entries)),
                    dimensions,
                    usage: usage_of(value),
                },
            ),
        },
    }
}

// ---------------------------------------------------------------------------
// Sorting
// ---------------------------------------------------------------------------
proof fn lemma_with_index_concat(a: Seq<Entry>, b: Seq<Entry>, k: u64)
    ensures
        with_index(a + b, k) == with_index(a, k) + with_index(b, k),
    decreases b.len(),
{
    if b.len() == 0 {
        assert(a + b =~= a);
        assert(with_index(a, k) + seq![] =~= with_index(a, k));
    } else {
        assert((a + b).drop_last() =~= a + b.drop_last());
        lemma_with_index_concat(a, b.drop_last(), k);
        assert(with_index(a + b, k) =~= with_index(a, k) + with_index(b, k));
    }
}

proof fn lemma_none_with_index(a: Seq<Entry>, k: u64)
    requires
        forall|i: int| 0 <= i < a.len() ==> (#[trigger] a[i]).0 != k,
    ensures
        with_index(a, k) == Seq::<Entry>::empty(),
    decreases a.len(),
{
    if a.len() > 0 {
        lemma_none_with_index(a.drop_last(), k);
    }
}

proof fn lemma_with_index_contains(a: Seq<Entry>, k: u64, e: Entry)
    ensures
        with_index(a, k).contains(e) <==> a.contains(e) && e.0 == k,
    decreases a.len(),
{
    if a.len() > 0 {
        let short = a.drop_last();
        lemma_with_index_contains(short, k, e);
        let earlier = with_index(short, k);
        let all = with_index(a, k);
        if short.contains(e) {
            let i = choose|i: int| 0 <= i < short.len() && short[i] == e;
            assert(a[i] == e);
        }
        if a.contains(e) && e != a.last() {
            let i = choose|i: int| 0 <= i < a.len() && a[i] == e;
            assert(short[i] == e);
        }
        if earlier.contains(e) {
            let i = choose|i: int| 0 <= i < earlier.len() && earlier[i] == e;
            assert(all[i] == e);
        }
        if all.contains(e) && !earlier.contains(e) {
            let i = choose|i: int| 0 <= i < all.len() && all[i] == e;
            if i < earlier.len() {
                assert(earlier[i] == e);
            }
        }
        if e == a.last() {
            assert(a[a.len() - 1] == e);
            if e.0 == k {
                assert(all[all.len() - 1] == e);
            }
        }
    }
}

/// There is one way to put entries in order.
pub proof fn lemma_one_order(a: Seq<Entry>, b: Seq<Entry>)
    requires
        by_index(a),
        by_index(b),
        forall|k: u64| #[trigger] with_index(a, k) == with_index(b, k),
    ensures
        a == b,
    decreases a.len(),
{
    if a.len() == 0 {
        if b.len() > 0 {
            let e = b.last();
            assert(b[b.len() - 1] == e);
            lemma_with_index_contains(b, e.0, e);
            lemma_with_index_contains(a, e.0, e);
            assert(with_index(a, e.0) == with_index(b, e.0));
        }
    } else {
        let x = a.last();
        assert(a[a.len() - 1] == x);
        lemma_with_index_contains(a, x.0, x);
        lemma_with_index_contains(b, x.0, x);
        assert(with_index(a, x.0) == with_index(b, x.0));
        assert(b.contains(x));
        let y = b.last();
        assert(b[b.len() - 1] == y);
        lemma_with_index_contains(b, y.0, y);
        lemma_with_index_contains(a, y.0, y);
        assert(with_index(a, y.0) == with_index(b, y.0));
        assert(a.contains(y));
        let i = choose|i: int| 0 <= i < b.len() && b[i] == x;
        let j = choose|j: int| 0 <= j < a.len() && a[j] == y;
        assert(x.0 == y.0);
        assert(with_index(a, x.0).last() == x);
        assert(with_index(b, x.0).last() == y);
        let p = a.drop_last();
        let q = b.drop_last();
        assert forall|k: u64| #[trigger] with_index(p, k) == with_index(q, k) by {
            assert(with_index(a, k) == with_index(b, k));
            if k == x.0 {
                assert(with_index(p, k) =~= with_index(a, k).drop_last());
                assert(with_index(q, k) =~= with_index(b, k).drop_last());
            }
        }
        lemma_one_order(p, q);
        assert(a =~= p.push(x));
        assert(b =~= q.push(y));
    }
}

proof fn lemma_sorted_is(entries: Seq<Entry>, s: Seq<Entry>)
    requires
        sorts(entries, s),
    ensures
        sorted(entries) == s,
{
    let t = sorted(entries);
    assert(sorts(entries, t));
    assert forall|k: u64| #[trigger] with_index(t, k) == with_index(s, k) by {
        assert(with_index(t, k) == with_index(entries, k));
        assert(with_index(s, k) == with_index(entries, k));
    }
    lemma_one_order(t, s);
}

proof fn lemma_sorted_insert(entries: Seq<Entry>, s: Seq<Entry>, i: int, e: Entry)
    requires
        sorts(entries, s),
        0 <= i <= s.len(),
        forall|j: int| 0 <= j < i ==> (#[trigger] s[j]).0 <= e.0,
        forall|j: int| i <= j < s.len() ==> (#[trigger] s[j]).0 > e.0,
    ensures
        sorts(entries.push(e), s.insert(i, e)),
{
    let a = s.take(i);
    let b = s.skip(i);
    let t = s.insert(i, e);
    assert(s =~= a + b);
    assert(t =~= a + seq![e] + b);
    assert forall|k: u64| #[trigger] with_index(t, k) == with_index(entries.push(e), k) by {
        assert(with_index(s, k) == with_index(entries, k));
        lemma_with_index_concat(a, b, k);
        lemma_with_index_concat(a + seq![e], b, k);
        lemma_with_index_concat(a, seq![e], k);
        reveal_with_fuel(with_index, 2);
        assert(seq![e].drop_last() =~= seq![]);
        assert(entries.push(e).drop_last() =~= entries);
        if k == e.0 {
            lemma_none_with_index(b, k);
            assert(with_index(seq![e], k) =~= seq![e]);
            assert(with_index(t, k) =~= with_index(s, k).push(e));
        } else {
            assert(with_index(seq![e], k) =~= seq![]);
            assert(with_index(t, k) =~= with_index(s, k));
        }
    }
    assert forall|p: int, q: int| 0 <= p < q < t.len() implies t[p].0 <= t[q].0 by {
        if q < i {
            assert(t[p] == s[p] && t[q] == s[q]);
        } else if q == i {
            assert(t[p] == s[p]);
        } else {
            assert(t[q] == s[q - 1]);
            if p < i {
                assert(t[p] == s[p]);
            } else if p > i {
                assert(t[p] == s[p - 1]);
            }
        }
    }
}

/// The entries, as values.
spec fn entry_views(entries: Seq<(u64, Vec<Json>)>) -> Seq<Entry> {
    entries.map_values(|e: (u64, Vec<Json>)| (e.0, item_views(e.1@)))
}

/// Adds an entry to entries that are in order, behind those with its index.
fn insert_entry(entries: &mut Vec<(u64, Vec<Json>)>, entry: (u64, Vec<Json>), Ghost(all): Ghost<
    Seq<Entry>,
>)
    requires
        sorts(all, entry_views(old(entries)@)),
    ensures
        sorts(all.push((entry.0, item_views(entry.1@))), entry_views(final(entries)@)),
{
    let ghost views = entry_views(entries@);
    let ghost added = (entry.0, item_views(entry.1@));
    let mut i: usize = entries.len();
    while i > 0 && entries[i - 1].0 > entry.0
        invariant
            i <= entries@.len(),
            views == entry_views(entries@),
            forall|j: int| i <= j < views.len() ==> (#[trigger] views[j]).0 > entry.0,
        decreases i,
    {
        assert(views[i - 1].0 == entries@[i - 1].0);
        i -= 1;
    }
    proof {
        assert forall|j: int| 0 <= j < i implies (#[trigger] views[j]).0 <= added.0 by {
            assert(views[i - 1].0 == entries@[i - 1].0);
        }
        lemma_sorted_insert(all, views, i as int, added);
    }
    entries.insert(i, entry);
    assert(entry_views(entries@) =~= views.insert(i as int, added));
}

// ---------------------------------------------------------------------------
// Decoding
// ---------------------------------------------------------------------------
/// A copy of values that have to be numbers, or nothing if one is not.
fn copy_numbers(values: &[Json]) -> (r: Option<Vec<Json>>)
    ensures
        match r {
            Some(copy) => all_numbers(item_views(values@)) && item_views(copy@) == item_views(
                values@,
            ),
            None => !all_numbers(item_views(values@)),
        },
{
    broadcast use {lemma_item_view, lemma_item_views_push};

    let mut copy: Vec<Json> = Vec::new();
    let mut i: usize = 0;
    let ghost views = item_views(values@);
    while i < values.len()
        invariant
            i <= values@.len(),
            views == item_views(values@),
            item_views(copy@) =~= views.take(i as int),
            forall|j: int| 0 <= j < i ==> (#[trigger] views[j]).is_number(),
        decreases values@.len() - i,
    {
        broadcast use {lemma_item_view, lemma_item_views_push};

        assert(views[i as int] == values@[i as int]@);
        if !values[i].is_number() {
            return None;
        }
        copy.push(values[i].clone());
        i += 1;
    }
    assert(item_views(copy@) =~= views);
    Some(copy)
}

/// Reads one entry of a reply.
fn read_entry(item: &Json) -> (r: Result<(u64, Vec<Json>), ProviderError>)
    ensures
        match r {
            Ok(e) => entry_of(item@) == Ok::<Entry, ProviderFailure>((e.0, item_views(e.1@))),
            Err(e) => entry_of(item@) == Err::<Entry, ProviderFailure>(e@),
        },
{
    let index: u64 = match item.get_u64("index") {
        Some(index) => index,
        None => {
            return Err(ProviderError::malformed("embedding entry missing `index`"));
        },
    };
    match item.get_array("embedding") {
        None => Err(ProviderError::malformed("embedding entry missing `embedding`")),
        Some(values) => match copy_numbers(values.as_slice()) {
            None => Err(ProviderError::malformed("embedding contains non-number")),
            Some(copy) => Ok((index, copy)),
        },
    }
}

/// The number of components, kept to 32 bits.
fn width_of(values: &Vec<Json>) -> (r: u32)
    ensures
        r == width(item_views(values@)),
{
    truncate_count(values.len() as u64)
}

proof fn lemma_first_failure_counts(items: Seq<JsonView>, i: int)
    requires
        0 <= i <= items.len(),
        entries_of(items.take(i)) is Err,
    ensures
        entries_of(items) == entries_of(items.take(i)),
    decreases items.len() - i,
{
    if i < items.len() {
        assert(items.take(i + 1).drop_last() =~= items.take(i));
        lemma_first_failure_counts(items, i + 1);
    } else {
        assert(items.take(i) =~= items);
    }
}

/// Reads the entries of a reply in the order of their indexes, with their
/// common number of components.
fn read_entries(items: &[Json]) -> (r: Result<(Vec<(u64, Vec<Json>)>, u32), ProviderError>)
    ensures
        match r {
            Ok((entries, dimensions)) => entries_of(item_views(items@)) matches Ok((all, d))
                && dimensions == d && entry_views(entries@) == sorted(all),
            Err(e) => entries_of(item_views(items@)) == Err::<(Seq<Entry>, u32), ProviderFailure>(
                e@,
            ),
        },
{
    let mut entries: Vec<(u64, Vec<Json>)> = Vec::new();
    let mut dimensions: u32 = 0;
    let mut i: usize = 0;
    let ghost views = item_views(items@);
    let ghost mut all: Seq<Entry> = seq![];
    assert(views.take(0) =~= seq![]);
    assert(entry_views(entries@) =~= seq![]);
    while i < items.len()
        invariant
            i <= items@.len(),
            views == item_views(items@),
            entries_of(views.take(i as int)) == Ok::<(Seq<Entry>, u32), ProviderFailure>(
                (all, dimensions),
            ),
            sorts(all, entry_views(entries@)),
        decreases items@.len() - i,
    {
        broadcast use lemma_item_view;

        let next = read_entry(&items[i]);
        i += 1;
        assert(views.take(i as int).drop_last() =~= views.take(i - 1));
        assert(views.take(i as int).last() == items@[i - 1]@);
        let entry = match next {
            Ok(entry) => entry,
            Err(e) => {
                proof {
                    lemma_first_failure_counts(views, i as int);
                }
                return Err(e);
            },
        };
        let found = width_of(&entry.1);
        if dimensions == 0 {
            dimensions = found;
        } else if found != dimensions {
            proof {
                lemma_first_failure_counts(views, i as int);
            }
            return Err(ProviderError::malformed("embeddings have inconsistent dimensions"));
        }
        let ghost added = (entry.0, item_views(entry.1@));
        insert_entry(&mut entries, entry, Ghost(all));
        proof {
            all = all.push(added);
        }
    }
    proof {
        assert(views.take(i as int) =~= views);
        lemma_sorted_is(all, entry_views(entries@));
    }
    Ok((entries, dimensions))
}

/// Decodes a reply.
pub fn decode_response(value: &Json) -> (r: Result<NormalizedEmbeddingResponse, ProviderError>)
    ensures
        match r {
            Ok(reply) => decoded(value@) == Ok::<EmbeddingReply, ProviderFailure>(reply@),
            Err(e) => decoded(value@) == Err::<EmbeddingReply, ProviderFailure>(e@),
        },
{
    let items = match value.get_array("data") {
        Some(items) => items,
        None => {
            return Err(ProviderError::malformed("response missing `data`"));
        },
    };
    let (entries, dimensions) = match read_entries(items.as_slice()) {
        Ok(read) => read,
        Err(e) => {
            return Err(e);
        },
    };
    let ghost all = entries@;
    let mut embeddings: Vec<Vec<Json>> = Vec::new();
    for entry in it: entries
        invariant
            it.seq() == all,
            embeddings@ =~= all.map_values(|e: (u64, Vec<Json>)| e.1).take(it.index() as int),
    {
        embeddings.push(entry.1);
    }
    let usage = match value.get("usage") {
        Some(u) => match u.get_u64("prompt_tokens") {
            Some(n) => Some(EmbeddingTokenUsage { input_tokens: truncate_count(n) }),
            None => None,
        },
        None => None,
    };
    let r = NormalizedEmbeddingResponse { embeddings, dimensions, usage };
    assert(r@.embeddings =~= vectors(entry_views(all)));
    Ok(r)
}

// ---------------------------------------------------------------------------
// Errors
// ---------------------------------------------------------------------------
/// What a status that does not report success means, where `body` is what the
/// reply says: the failure is of the class that the chat endpoint reads out of
/// the same reply, and its message is the reply.
pub open spec fn embedding_status_failure(status: u16, body: Seq<char>) -> ProviderFailure {
    failure(chat_status_class(status, excerpt(body)), body)
}

/// The error for a status that does not report success, where `body` is what
/// the reply says.
pub fn classify_embedding_status(status: u16, body: String) -> (r: ProviderError)
    ensures
        r@ == embedding_status_failure(status, body@),
{
    let shown = text_excerpt(body.clone());
    let class = class_of_status(status, shown.as_str());
    ProviderError::of_class(class, body)
}

/// What a reply with a status that does not report success means.
pub open spec fn refused(status: u16, body: Seq<u8>) -> ProviderFailure {
    embedding_status_failure(status, readable(body))
}

/// The error for a reply whose status does not report success.
pub fn map_status_error(status: u16, body: &[u8]) -> (r: ProviderError)
    ensures
        r@ == refused(status, body@),
        r@.class == chat_status_failure(status, excerpt(readable(body@))).class,
{
    classify_embedding_status(status, lossy_text(body))
}

/// What comes of the exchange over a request for embeddings.
pub open spec fn outcome(exchange: Exchange) -> Result<EmbeddingReply, ProviderFailure> {
    match exchange {
        Exchange::Replied { status, body } if !success(status) => Err(refused(status, body@)),
        _ => match json_reply(exchange) {
            Ok(value) => decoded(value),
            Err(e) => Err(e),
        },
    }
}

/// Concludes the exchange over a request for embeddings.
pub fn conclude_embed(exchange: Exchange) -> (r: Result<NormalizedEmbeddingResponse, ProviderError>)
    ensures
        match r {
            Ok(reply) => outcome(exchange) == Ok::<EmbeddingReply, ProviderFailure>(reply@),
            Err(e) => outcome(exchange) == Err::<EmbeddingReply, ProviderFailure>(e@),
        },
{
    if let Exchange::Replied { status, body } = &exchange {
        if !is_success(*status) {
            return Err(map_status_error(*status, body.as_slice()));
        }
    }
    match take_json(exchange) {
        Ok(value) => decode_response(&value),
        Err(e) => Err(e),
    }
}

// ---------------------------------------------------------------------------
// The adapter
// ---------------------------------------------------------------------------
/// The embedding endpoint of an upstream.
pub struct OpenAiEmbeddingAdapter {
    upstream: Upstream,
}

impl View for OpenAiEmbeddingAdapter {
    type V = UpstreamView;

    closed spec fn view(&self) -> UpstreamView {
        self.upstream@
    }
}

impl OpenAiEmbeddingAdapter {
    /// The embedding endpoint of the upstream with the given configuration.
    pub fn new(
        variant: OpenAiVariant,
        label: &'static str,
        base_url: String,
        api_key: String,
    ) -> (r: Result<OpenAiEmbeddingAdapter, ProviderError>)
        ensures
            match r {
                Ok(a) => configured(variant, label@, base_url@, api_key@) == Ok::<
                    UpstreamView,
                    ProviderFailure,
                >(a@),
                Err(e) => configured(variant, label@, base_url@, api_key@) == Err::<
                    UpstreamView,
                    ProviderFailure,
                >(e@),
            },
    {
        match Upstream::new(variant, label, base_url, api_key) {
            Ok(upstream) => Ok(OpenAiEmbeddingAdapter { upstream }),
            Err(e) => Err(e),
        }
    }

    /// The upstream.
    pub fn upstream(&self) -> (r: &Upstream)
        ensures
            r@ == self@,
    {
        &self.upstream
    }

    /// The name under which calls are counted.
    pub fn label(&self) -> (r: &'static str)
        ensures
            r@ == self@.label,
    {
        self.upstream.label()
    }

    /// How many inputs one request may carry.
    pub fn max_batch_size(&self) -> (r: usize)
        ensures
            r == OPENAI_MAX_INPUTS,
    {
        OPENAI_MAX_INPUTS
    }

    /// The address that requests are sent to.
    pub fn endpoint_url(&self) -> (r: String)
        ensures
            r@ == self@.endpoint("/embeddings"@),
    {
        self.upstream.endpoint_url("/embeddings")
    }

    /// The headers of a request.
    pub fn build_headers(&self) -> (r: Result<Vec<Header>, ProviderError>)
        ensures
            match r {
                Ok(h) => self@.headers(json_content()) == Ok::<
                    Seq<(Seq<char>, Seq<char>)>,
                    ProviderFailure,
                >(header_views(h@)),
                Err(e) => self@.headers(json_content()) == Err::<
                    Seq<(Seq<char>, Seq<char>)>,
                    ProviderFailure,
                >(e@),
            },
    {
        self.upstream.json_headers()
    }

    /// The request for embeddings; [`conclude_embed`] takes what comes of it.
    pub fn embed(&self, request: &NormalizedEmbeddingRequest) -> (r: Result<
        JsonRequest,
        ProviderError,
    >)
        ensures
            match r {
                Ok(p) => self@.post("/embeddings"@, request_json(*request)) == Ok::<
                    JsonPost,
                    ProviderFailure,
                >(p@),
                Err(e) => self@.post("/embeddings"@, request_json(*request)) == Err::<
                    JsonPost,
                    ProviderFailure,
                >(e@),
            },
    {
        self.upstream.post("/embeddings", encode_request(request))
    }
}

// ---------------------------------------------------------------------------
// Laws
// ---------------------------------------------------------------------------
/// Whether no two entries have one index.
pub open spec fn distinct_indexes(entries: Seq<Entry>) -> bool {
    forall|i: int, j: int| 0 <= i < j < entries.len() ==> entries[i].0 != entries[j].0
}

proof fn lemma_at_most_one(entries: Seq<Entry>, k: u64)
    requires
        distinct_indexes(entries),
    ensures
        with_index(entries, k).len() <= 1,
    decreases entries.len(),
{
    if entries.len() > 0 {
        let short = entries.drop_last();
        lemma_at_most_one(short, k);
        if entries.last().0 == k {
            assert forall|i: int| 0 <= i < short.len() implies (#[trigger] short[i]).0 != k by {
                assert(entries[i].0 != entries[entries.len() - 1].0);
            }
            lemma_none_with_index(short, k);
        }
    }
}

proof fn lemma_sorted_exists(entries: Seq<Entry>)
    ensures
        sorts(entries, sorted(entries)),
        sorted(entries).len() == entries.len(),
    decreases entries.len(),
{
    if entries.len() == 0 {
        assert(sorts(entries, entries));
        lemma_sorted_is(entries, entries);
    } else {
        let short = entries.drop_last();
        let e = entries.last();
        lemma_sorted_exists(short);
        let s = sorted(short);
        let i = lemma_place(s, e);
        lemma_sorted_insert(short, s, i, e);
        assert(short.push(e) =~= entries);
        lemma_sorted_is(entries, s.insert(i, e));
    }
}

proof fn lemma_place(s: Seq<Entry>, e: Entry) -> (i: int)
    requires
        by_index(s),
    ensures
        0 <= i <= s.len(),
        forall|j: int| 0 <= j < i ==> (#[trigger] s[j]).0 <= e.0,
        forall|j: int| i <= j < s.len() ==> (#[trigger] s[j]).0 > e.0,
    decreases s.len(),
{
    if s.len() == 0 || s.last().0 <= e.0 {
        s.len() as int
    } else {
        let short = s.drop_last();
        let i = lemma_place(short, e);
        assert forall|j: int| 0 <= j < i implies (#[trigger] s[j]).0 <= e.0 by {
            assert(short[j] == s[j]);
        }
        assert forall|j: int| i <= j < s.len() implies (#[trigger] s[j]).0 > e.0 by {
            if j < short.len() {
                assert(short[j] == s[j]);
            }
        }
        i
    }
}

/// The order in which a reply lists its entries does not matter, as long as
/// no two have one index: the embeddings come out the same.
pub proof fn law_order_of_entries_does_not_matter(a: Seq<Entry>, b: Seq<Entry>)
    requires
        distinct_indexes(a),
        distinct_indexes(b),
        forall|e: Entry| #[trigger] a.contains(e) <==> b.contains(e),
    ensures
        vectors(sorted(a)) == vectors(sorted(b)),
{
    lemma_sorted_exists(a);
    lemma_sorted_exists(b);
    assert forall|k: u64| #[trigger] with_index(sorted(a), k) == with_index(sorted(b), k) by {
        assert(with_index(sorted(a), k) == with_index(a, k));
        assert(with_index(sorted(b), k) == with_index(b, k));
        lemma_at_most_one(a, k);
        lemma_at_most_one(b, k);
        let x = with_index(a, k);
        let y = with_index(b, k);
        if x.len() == 1 {
            assert(x.contains(x[0]));
            lemma_with_index_contains(a, k, x[0]);
            lemma_with_index_contains(b, k, x[0]);
            assert(a.contains(x[0]));
            assert(y.contains(x[0]));
        }
        if y.len() == 1 {
            assert(y.contains(y[0]));
            lemma_with_index_contains(a, k, y[0]);
            lemma_with_index_contains(b, k, y[0]);
            assert(a.contains(y[0]));
            assert(x.contains(y[0]));
        }
        assert(x =~= y);
    }
    lemma_one_order(sorted(a), sorted(b));
}

/// The embeddings stand in the order of the inputs: of two entries the one
/// with the smaller index comes first, those with one index keep their order,
/// and no entry is lost, merged or invented.
pub proof fn law_embeddings_follow_the_index(entries: Seq<Entry>)
    ensures
        sorts(entries, sorted(entries)),
        by_index(sorted(entries)),
        forall|e: Entry| #[trigger] sorted(entries).contains(e) <==> entries.contains(e),
        vectors(sorted(entries)).len() == entries.len(),
{
    lemma_sorted_exists(entries);
    assert forall|e: Entry| #[trigger]
        sorted(entries).contains(e) <==> entries.contains(e) by {
        lemma_with_index_contains(sorted(entries), e.0, e);
        lemma_with_index_contains(entries, e.0, e);
        assert(with_index(sorted(entries), e.0) == with_index(entries, e.0));
    }
}

/// The embedding endpoint reads the same class out of a status and a body as
/// the chat endpoint, whatever they are; a body that is shown whole is read
/// whole.
pub proof fn law_statuses_mean_the_same_for_chat(status: u16, body: Seq<u8>)
    ensures
        refused(status, body).class == chat_status_failure(status, excerpt(readable(body))).class,
        encode_utf8(readable(body)).len() <= EXCERPT_BYTES ==> refused(status, body).class
            == chat_status_class(status, readable(body)),
{
}

/// Whether an entry of a reply says that `values` are the components of the
/// embedding of the input at `index`.
pub open spec fn gives(item: JsonView, index: u64, values: Seq<JsonView>) -> bool {
    &&& item.field("index"@) == Some(JsonView::Unsigned(index))
    &&& item.field("embedding"@) == Some(JsonView::Array(values))
    &&& forall|i: int|
        0 <= i < values.len() ==> (#[trigger] values[i] is Unsigned || values[i] is Number)
}

proof fn lemma_entry_gives(item: JsonView, index: u64, values: Seq<JsonView>)
    ensures
        gives(item, index, values) <==> entry_of(item) == Ok::<Entry, ProviderFailure>(
            (index, values),
        ),
{
    if gives(item, index, values) {
        assert(all_numbers(values));
    }
    if entry_of(item) == Ok::<Entry, ProviderFailure>((index, values)) {
        assert forall|i: int| 0 <= i < values.len() implies (#[trigger] values[i] is Unsigned
            || values[i] is Number) by {
            assert(values[i].is_number());
        }
    }
}

proof fn lemma_entries_are_read(
    items: Seq<JsonView>,
    indexes: Seq<u64>,
    values: Seq<Seq<JsonView>>,
    d: u32,
)
    requires
        items.len() == indexes.len() == values.len(),
        forall|i: int|
            0 <= i < items.len() ==> gives(#[trigger] items[i], indexes[i], values[i])
                && values[i].len() == d,
    ensures
        entries_of(items) matches Ok((entries, dimensions)) && entries.len() == items.len()
            && dimensions == (if items.len() > 0 {
            d
        } else {
            0
        }) && forall|i: int|
            0 <= i < items.len() ==> #[trigger] entries[i] == (indexes[i], values[i]),
    decreases items.len(),
{
    if items.len() > 0 {
        let n = items.len() - 1;
        let short = items.drop_last();
        let i2 = indexes.drop_last();
        let v2 = values.drop_last();
        assert forall|i: int| 0 <= i < short.len() implies gives(#[trigger] short[i], i2[i], v2[i])
            && v2[i].len() == d by {
            assert(items[i] == short[i]);
        }
        lemma_entries_are_read(short, i2, v2, d);
        assert(gives(items[n], indexes[n], values[n]));
        lemma_entry_gives(items[n], indexes[n], values[n]);
        assert(items.last() == items[n]);
        assert(width(values[n]) == d);
        let earlier = entries_of(short)->Ok_0.0;
        let entries = entries_of(items)->Ok_0.0;
        assert forall|i: int| 0 <= i < items.len() implies #[trigger] entries[i] == (
            indexes[i],
            values[i],
        ) by {
            if i < n {
                assert(entries[i] == earlier[i]);
            }
        }
    }
}

proof fn lemma_two_of_one_index(s: Seq<Entry>, a: int, b: int)
    requires
        0 <= a < b < s.len(),
        s[a].0 == s[b].0,
    ensures
        with_index(s, s[a].0).len() >= 2,
    decreases s.len(),
{
    let short = s.drop_last();
    if b < short.len() {
        lemma_two_of_one_index(short, a, b);
    } else {
        lemma_with_index_contains(short, s[a].0, s[a]);
        assert(short[a] == s[a]);
        assert(short.contains(s[a]));
        assert(with_index(short, s[a].0).contains(s[a]));
    }
}

proof fn lemma_at_least(s: Seq<Entry>, j: int)
    requires
        0 <= j < s.len(),
        forall|a: int, b: int| 0 <= a < b < s.len() ==> s[a].0 < s[b].0,
    ensures
        s[j].0 >= j,
    decreases j,
{
    if j > 0 {
        lemma_at_least(s, j - 1);
        assert(s[j - 1].0 < s[j].0);
    }
}

proof fn lemma_at_most(s: Seq<Entry>, j: int)
    requires
        0 <= j < s.len(),
        forall|a: int, b: int| 0 <= a < b < s.len() ==> s[a].0 < s[b].0,
        forall|a: int| 0 <= a < s.len() ==> (#[trigger] s[a]).0 < s.len(),
    ensures
        s[j].0 <= j,
    decreases s.len() - j,
{
    if j < s.len() - 1 {
        lemma_at_most(s, j + 1);
        assert(s[j].0 < s[j + 1].0);
    }
}

/// Every input gets the embedding that the reply gives for its index: where
/// the entries of a reply, in whatever order they stand, have the indexes of the
/// inputs, the embedding at each index is the one of the entry with that index,
/// component by component.  The number of components and the tokens are those
/// of the reply.
pub proof fn law_each_input_gets_its_embedding(
    value: JsonView,
    items: Seq<JsonView>,
    indexes: Seq<u64>,
    values: Seq<Seq<JsonView>>,
    d: u32,
)
    requires
        value.field("data"@) == Some(JsonView::Array(items)),
        items.len() == indexes.len() == values.len(),
        forall|i: int|
            0 <= i < items.len() ==> gives(#[trigger] items[i], indexes[i], values[i])
                && values[i].len() == d,
        forall|i: int| 0 <= i < indexes.len() ==> #[trigger] indexes[i] < items.len(),
        forall|i: int, j: int| 0 <= i < j < indexes.len() ==> indexes[i] != indexes[j],
    ensures
        decoded(value) matches Ok(reply) && reply.embeddings.len() == items.len()
            && reply.dimensions == (if items.len() > 0 {
            d
        } else {
            0
        }) && (forall|i: int|
            0 <= i < items.len() ==> reply.embeddings[#[trigger] indexes[i] as int] == values[i])
            && match value.field("usage"@) {
            Some(u) => match u.field("prompt_tokens"@) {
                Some(JsonView::Unsigned(n)) => reply.usage matches Some(usage)
                    && usage.input_tokens == n as int % 0x1_0000_0000,
                _ => reply.usage is None,
            },
            None => reply.usage is None,
        },
{
    lemma_entries_are_read(items, indexes, values, d);
    let entries = entries_of(items)->Ok_0.0;
    let n = items.len();
    lemma_sorted_exists(entries);
    law_embeddings_follow_the_index(entries);
    let s = sorted(entries);
    assert(distinct_indexes(entries));
    assert forall|a: int, b: int| 0 <= a < b < s.len() implies s[a].0 < s[b].0 by {
        if s[a].0 == s[b].0 {
            lemma_two_of_one_index(s, a, b);
            lemma_at_most_one(entries, s[a].0);
            assert(with_index(s, s[a].0) == with_index(entries, s[a].0));
        }
    }
    assert forall|a: int| 0 <= a < s.len() implies (#[trigger] s[a]).0 < s.len() by {
        assert(s.contains(s[a]));
        assert(entries.contains(s[a]));
        let i = choose|i: int| 0 <= i < entries.len() && entries[i] == s[a];
        assert(indexes[i] < n);
    }
    assert forall|i: int| 0 <= i < n implies vectors(s)[#[trigger] indexes[i] as int]
        == values[i] by {
        assert(entries[i] == (indexes[i], values[i]));
        assert(entries.contains(entries[i]));
        assert(s.contains(entries[i]));
        let j = choose|j: int| 0 <= j < s.len() && s[j] == entries[i];
        lemma_at_least(s, j);
        lemma_at_most(s, j);
    }
}

/// How many components an entry of a reply has, kept to 32 bits.
pub open spec fn components(item: JsonView) -> int {
    match item.field("embedding"@) {
        Some(JsonView::Array(values)) => values.len() as int % 0x1_0000_0000,
        _ => 0,
    }
}

/// Whether an entry of a reply says which embedding belongs to which input.
pub open spec fn gives_some(item: JsonView) -> bool {
    exists|index: u64, values: Seq<JsonView>| gives(item, index, values)
}

/// Whether every entry says which embedding belongs to which input, and none
/// that has components is followed by one with another number of them.
pub open spec fn usable(items: Seq<JsonView>) -> bool {
    &&& forall|i: int| 0 <= i < items.len() ==> gives_some(#[trigger] items[i])
    &&& forall|i: int, j: int|
        0 <= i < j < items.len() && components(#[trigger] items[i]) != 0 ==> components(
            #[trigger] items[j],
        ) == components(items[i])
}

proof fn lemma_refusals(items: Seq<JsonView>)
    ensures
        entries_of(items) matches Err(e) ==> e.class == ErrorClass::Malformed,
        entries_of(items) matches Ok((entries, dimensions)) ==> entries.len() == items.len()
            && dimensions == (if items.len() > 0 {
            components(items.last())
        } else {
            0
        }),
        entries_of(items) is Ok <==> usable(items),
    decreases items.len(),
{
    if items.len() > 0 {
        let n = items.len() - 1;
        let short = items.drop_last();
        let last = items[n];
        lemma_refusals(short);
        assert(items.last() == last);
        assert(entry_of(last) is Ok <==> gives_some(last)) by {
            if let Ok((index, values)) = entry_of(last) {
                lemma_entry_gives(last, index, values);
            }
            if gives_some(last) {
                let (index, values) = choose|index: u64, values: Seq<JsonView>|
                    gives(last, index, values);
                lemma_entry_gives(last, index, values);
            }
        }
        if let Ok((index, values)) = entry_of(last) {
            lemma_entry_gives(last, index, values);
            assert(components(last) == width(values));
        }
        if usable(items) {
            assert(usable(short)) by {
                assert forall|i: int| 0 <= i < short.len() implies gives_some(
                    #[trigger] short[i],
                ) by {
                    assert(short[i] == items[i]);
                }
                assert forall|i: int, j: int|
                    0 <= i < j < short.len() && components(#[trigger] short[i])
                        != 0 implies components(#[trigger] short[j]) == components(short[i]) by {
                    assert(short[i] == items[i] && short[j] == items[j]);
                }
            }
            if n > 0 {
                assert(short.last() == items[n - 1]);
                assert(components(items[n - 1]) != 0 ==> components(items[n]) == components(
                    items[n - 1],
                ));
            }
        }
        if entries_of(items) is Ok {
            assert(usable(items)) by {
                assert forall|i: int| 0 <= i < items.len() implies gives_some(
                    #[trigger] items[i],
                ) by {
                    if i < n {
                        assert(short[i] == items[i]);
                    }
                }
                assert forall|i: int, j: int|
                    0 <= i < j < items.len() && components(#[trigger] items[i])
                        != 0 implies components(#[trigger] items[j]) == components(items[i]) by {
                    assert(short[i] == items[i]);
                    if j < n {
                        assert(short[j] == items[j]);
                    } else {
                        assert(short[n - 1] == short.last());
                        if i < n - 1 {
                            assert(components(short[n - 1]) == components(short[i]));
                        }
                    }
                }
            }
        }
    }
}

/// A reply is refused, as malformed, exactly if it has no list of entries, if
/// an entry lacks its index or its components or has one that is no number, or
/// if an entry that has components is followed by one with another number of
/// them.  A reply that is not refused brings one embedding for each entry.
pub proof fn law_only_bad_embeddings_are_refused(value: JsonView)
    ensures
        match value.field("data"@) {
            Some(JsonView::Array(items)) => {
                &&& decoded(value) is Ok <==> usable(items)
                &&& decoded(value) matches Ok(reply) ==> reply.embeddings.len() == items.len()
            },
            _ => decoded(value) is Err,
        },
        decoded(value) matches Err(e) ==> e.class == ErrorClass::Malformed,
{
    if let Some(JsonView::Array(items)) = value.field("data"@) {
        lemma_refusals(items);
        if let Ok((entries, _)) = entries_of(items) {
            lemma_sorted_exists(entries);
        }
    }
}

} // verus!
