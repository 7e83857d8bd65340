//! JSON documents.
//!
//! [`Json`] is the document type that the encoders build and the decoders
//! read.  Its view, [`JsonView`], is the document as a mathematical value: an
//! object is a map from names to members, so neither the order of the members
//! nor a name given twice (the later member wins) tells two documents apart.
//!
//! Text is parsed and printed by `serde_json`; a document crosses over in
//! [`from_value`] and [`to_value`], one layer of the tree at a time.
use vstd::prelude::*;

use crate::text::str_eq;

verus! {

/// A number as `serde_json` holds it.
#[verifier::external_type_specification]
#[verifier::external_body]
pub struct ExNumber(serde_json::Number);

/// A document as `serde_json` holds it.
#[verifier::external_type_specification]
#[verifier::external_body]
pub struct ExValue(serde_json::Value);

/// `serde_json::Number` is cloned member by member: the clone is the number.
pub assume_specification[ <serde_json::Number as Clone>::clone ](n: &serde_json::Number) -> (r:
    serde_json::Number)
    ensures
        r == *n,
;

/// What `serde_json::Number::as_u64` says of a number.
pub uninterp spec fn number_u64(n: serde_json::Number) -> Option<u64>;

/// `serde_json::Number::as_u64` gives the value of an integer from zero to
/// `u64::MAX`, and nothing for any other number.
pub assume_specification[ serde_json::Number::as_u64 ](n: &serde_json::Number) -> (r: Option<u64>)
    ensures
        r == number_u64(*n),
;

/// What `serde_json::Number::as_i64` says of a number.
pub uninterp spec fn number_i64(n: serde_json::Number) -> Option<i64>;

/// `serde_json::Number::as_i64` gives the value of an integer from `i64::MIN`
/// to `i64::MAX`, and nothing for any other number; of a number for which
/// `as_u64` gives nothing, only a value below zero.
pub assume_specification[ serde_json::Number::as_i64 ](n: &serde_json::Number) -> (r: Option<i64>)
    ensures
        r == number_i64(*n),
        match number_u64(*n) {
            Some(u) => r == if u <= i64::MAX {
                Some(u as i64)
            } else {
                None
            },
            None => r matches Some(i) ==> i < 0,
        },
;

/// `serde_json::Number::from` makes an integer of a `u64`, which `as_u64` gives
/// back.
#[verifier::external_body]
pub(crate) fn number_of(n: u64) -> (r: serde_json::Number)
    ensures
        number_u64(r) == Some(n),
{
    serde_json::Number::from(n)
}

/// A JSON document.
#[derive(Debug)]
pub enum Json {
    Null,
    Bool(bool),
    /// An integer from zero to `u64::MAX`.
    Unsigned(u64),
    /// Any number.
    Number(serde_json::Number),
    Str(String),
    Array(Vec<Json>),
    /// Members in the order they were added; of two with one name the later
    /// counts.
    Object(Vec<(String, Json)>),
}

/// What a JSON document is.
pub enum JsonView {
    Null,
    Bool(bool),
    /// An integer from zero to `u64::MAX`.
    Unsigned(u64),
    /// Any other number: a negative integer, or one with a fraction or an
    /// exponent.
    Number(serde_json::Number),
    Str(Seq<char>),
    Array(Seq<JsonView>),
    Object(Map<Seq<char>, JsonView>),
}

/// The members of an object that was given `fields` one after the other.
pub open spec fn fields_map(fields: Seq<(Seq<char>, JsonView)>) -> Map<Seq<char>, JsonView>
    decreases fields.len(),
{
    if fields.len() == 0 {
        Map::empty()
    } else {
        fields_map(fields.drop_last()).insert(fields.last().0, fields.last().1)
    }
}

/// The object with the given members.
pub open spec fn object(fields: Seq<(Seq<char>, JsonView)>) -> JsonView {
    JsonView::Object(fields_map(fields))
}

/// A member that is there only if it has a value.
pub open spec fn optional(name: Seq<char>, value: Option<JsonView>) -> Seq<(Seq<char>, JsonView)> {
    match value {
        Some(v) => seq![(name, v)],
        None => seq![],
    }
}

/// The document that is there if `value` is.
pub open spec fn optional_json(value: Option<Json>) -> Option<JsonView> {
    match value {
        Some(v) => Some(v@),
        None => None,
    }
}

/// The string value that is there if `text` is.
pub open spec fn optional_str(text: Option<String>) -> Option<JsonView> {
    match text {
        Some(s) => Some(JsonView::Str(s@)),
        None => None,
    }
}

/// What a number is as a document.
pub open spec fn number_view(n: serde_json::Number) -> JsonView {
    match number_u64(n) {
        Some(u) => JsonView::Unsigned(u),
        None => JsonView::Number(n),
    }
}

/// What the document `j` is.
pub open spec fn json_view(j: Json) -> JsonView
    decreases j,
{
    match j {
        Json::Null => JsonView::Null,
        Json::Bool(b) => JsonView::Bool(b),
        Json::Unsigned(n) => JsonView::Unsigned(n),
        Json::Number(n) => number_view(n),
        Json::Str(s) => JsonView::Str(s@),
        Json::Array(items) => JsonView::Array(item_views(items@)),
        Json::Object(fields) => object(field_views(fields@)),
    }
}

/// The items of an array, each as the document it is.
pub open spec fn item_views(items: Seq<Json>) -> Seq<JsonView>
    decreases items,
{
    Seq::new(
        items.len(),
        |i: int|
            if 0 <= i < items.len() {
                json_view(items[i])
            } else {
                JsonView::Null
            },
    )
}

/// The members of an object, each as its name and the document it is.
pub open spec fn field_views(fields: Seq<(String, Json)>) -> Seq<(Seq<char>, JsonView)>
    decreases fields,
{
    Seq::new(
        fields.len(),
        |i: int|
            if 0 <= i < fields.len() {
                (fields[i].0@, json_view(fields[i].1))
            } else {
                (seq![], JsonView::Null)
            },
    )
}

impl View for Json {
    type V = JsonView;

    open spec fn view(&self) -> JsonView {
        json_view(*self)
    }
}

pub broadcast proof fn lemma_item_view(items: Seq<Json>, i: int)
    requires
        0 <= i < items.len(),
    ensures
        #[trigger] item_views(items)[i] == items[i]@,
{
}

pub broadcast proof fn lemma_item_views_push(items: Seq<Json>, item: Json)
    ensures
        #[trigger] item_views(items.push(item)) == item_views(items).push(item@),
{
    assert(item_views(items.push(item)) =~= item_views(items).push(item@));
}

pub broadcast proof fn lemma_field_views_push(fields: Seq<(String, Json)>, field: (String, Json))
    ensures
        #[trigger] field_views(fields.push(field)) == field_views(fields).push(
            (field.0@, field.1@),
        ),
{
    assert(field_views(fields.push(field)) =~= field_views(fields).push((field.0@, field.1@)));
}

impl JsonView {
    /// The member `name` of an object; nothing else has members.
    pub open spec fn field(self, name: Seq<char>) -> Option<JsonView> {
        match self {
            JsonView::Object(m) => if m.contains_key(name) {
                Some(m[name])
            } else {
                None
            },
            _ => None,
        }
    }

    /// The text of a string.
    pub open spec fn str(self) -> Option<Seq<char>> {
        match self {
            JsonView::Str(s) => Some(s),
            _ => None,
        }
    }

    /// The items of an array.
    pub open spec fn items(self) -> Option<Seq<JsonView>> {
        match self {
            JsonView::Array(s) => Some(s),
            _ => None,
        }
    }

    /// The number, where it is an integer from zero to `u64::MAX`.
    pub open spec fn u64(self) -> Option<u64> {
        match self {
            JsonView::Unsigned(n) => Some(n),
            _ => None,
        }
    }

    /// The number, where it is an integer from `i64::MIN` to `i64::MAX`.
    pub open spec fn i64(self) -> Option<i64> {
        match self {
            JsonView::Unsigned(n) => if n <= i64::MAX {
                Some(n as i64)
            } else {
                None
            },
            JsonView::Number(n) => number_i64(n),
            _ => None,
        }
    }

    /// Whether it is a number of any kind.
    pub open spec fn is_number(self) -> bool {
        self is Unsigned || self is Number
    }

    /// The member `name`, where it is a string.
    pub open spec fn str_field(self, name: Seq<char>) -> Option<Seq<char>> {
        match self.field(name) {
            Some(v) => v.str(),
            None => None,
        }
    }

    /// The member `name`, where it is an array.
    pub open spec fn array_field(self, name: Seq<char>) -> Option<Seq<JsonView>> {
        match self.field(name) {
            Some(v) => v.items(),
            None => None,
        }
    }

    /// The member `name`, where it is an integer from zero to `u64::MAX`.
    pub open spec fn u64_field(self, name: Seq<char>) -> Option<u64> {
        match self.field(name) {
            Some(v) => v.u64(),
            None => None,
        }
    }
}

pub broadcast proof fn lemma_field_of_push(
    fields: Seq<(Seq<char>, JsonView)>,
    field: (Seq<char>, JsonView),
    name: Seq<char>,
)
    ensures
        #[trigger] object(fields.push(field)).field(name) == if field.0 == name {
            Some(field.1)
        } else {
            object(fields).field(name)
        },
{
    assert(fields.push(field).drop_last() =~= fields);
}

pub broadcast proof fn lemma_field_of_none(name: Seq<char>)
    ensures
        #[trigger] object(Seq::empty()).field(name) is None,
{
}

pub broadcast proof fn lemma_field_of_concat(
    a: Seq<(Seq<char>, JsonView)>,
    b: Seq<(Seq<char>, JsonView)>,
    name: Seq<char>,
)
    ensures
        #[trigger] object(a + b).field(name) == match object(b).field(name) {
            Some(v) => Some(v),
            None => object(a).field(name),
        },
    decreases b.len(),
{
    if b.len() == 0 {
        assert(a + b =~= a);
    } else {
        assert((a + b).drop_last() =~= a + b.drop_last());
        lemma_field_of_concat(a, b.drop_last(), name);
    }
}

pub broadcast proof fn lemma_field_of_optional(
    member: Seq<char>,
    value: Option<JsonView>,
    name: Seq<char>,
)
    ensures
        #[trigger] object(optional(member, value)).field(name) == if member == name {
            value
        } else {
            None
        },
{
    broadcast use {lemma_field_of_push, lemma_field_of_none};

}

/// What the members of an object are, by the way in which they were given.
pub broadcast group group_fields {
    lemma_field_of_push,
    lemma_field_of_none,
    lemma_field_of_concat,
    lemma_field_of_optional,
}

/// Members added before the last one with a given name do not count.
pub proof fn lemma_last_field_counts(fields: Seq<(Seq<char>, JsonView)>, name: Seq<char>, i: int)
    requires
        0 <= i < fields.len(),
        fields[i].0 == name,
        forall|j: int| i < j < fields.len() ==> fields[j].0 != name,
    ensures
        object(fields).field(name) == Some(fields[i].1),
    decreases fields.len(),
{
    if i < fields.len() - 1 {
        lemma_last_field_counts(fields.drop_last(), name, i);
    }
}

/// An object has no members but those it was given.
pub proof fn lemma_no_such_field(fields: Seq<(Seq<char>, JsonView)>, name: Seq<char>)
    requires
        forall|j: int| 0 <= j < fields.len() ==> fields[j].0 != name,
    ensures
        object(fields).field(name) is None,
    decreases fields.len(),
{
    if fields.len() > 0 {
        lemma_no_such_field(fields.drop_last(), name);
    }
}

impl Json {
    /// The member `name` of an object; nothing else has members.
    pub fn get(&self, name: &str) -> (r: Option<&Json>)
        ensures
            match r {
                Some(v) => self@.field(name@) == Some(v@),
                None => self@.field(name@) is None,
            },
    {
        match self {
            Json::Object(fields) => {
                let mut i: usize = fields.len();
                while i > 0
                    invariant
                        i <= fields@.len(),
                        self@ == object(field_views(fields@)),
                        forall|j: int| i <= j < fields@.len() ==> fields@[j].0@ != name@,
                    decreases i,
                {
                    i -= 1;
                    if str_eq(fields[i].0.as_str(), name) {
                        proof {
                            lemma_last_field_counts(field_views(fields@), name@, i as int);
                        }
                        return Some(&fields[i].1);
                    }
                }
                proof {
                    lemma_no_such_field(field_views(fields@), name@);
                }
                None
            },
            _ => None,
        }
    }

    /// The text of a string.
    pub fn as_str(&self) -> (r: Option<&str>)
        ensures
            match r {
                Some(s) => self@.str() == Some(s@),
                None => self@.str() is None,
            },
    {
        match self {
            Json::Str(s) => Some(s.as_str()),
            _ => None,
        }
    }

    /// The items of an array.
    pub fn as_array(&self) -> (r: Option<&Vec<Json>>)
        ensures
            match r {
                Some(items) => self@.items() == Some(item_views(items@)),
                None => self@.items() is None,
            },
    {
        match self {
            Json::Array(items) => Some(items),
            _ => None,
        }
    }

    /// The number, where it is an integer from zero to `u64::MAX`.
    pub fn as_u64(&self) -> (r: Option<u64>)
        ensures
            r == self@.u64(),
    {
        match self {
            Json::Unsigned(n) => Some(*n),
            Json::Number(n) => n.as_u64(),
            _ => None,
        }
    }

    /// The number, where it is an integer from `i64::MIN` to `i64::MAX`.
    pub fn as_i64(&self) -> (r: Option<i64>)
        ensures
            r == self@.i64(),
            self@ is Number ==> (r matches Some(i) ==> i < 0),
    {
        match self {
            Json::Unsigned(n) => if *n <= i64::MAX as u64 {
                Some(*n as i64)
            } else {
                None
            },
            Json::Number(n) => n.as_i64(),
            _ => None,
        }
    }

    /// Whether it is a number of any kind.
    pub fn is_number(&self) -> (r: bool)
        ensures
            r == self@.is_number(),
    {
        match self {
            Json::Unsigned(_) => true,
            Json::Number(_) => true,
            _ => false,
        }
    }

    /// The member `name`, where it is a string.
    pub fn get_str(&self, name: &str) -> (r: Option<&str>)
        ensures
            match r {
                Some(s) => self@.str_field(name@) == Some(s@),
                None => self@.str_field(name@) is None,
            },
    {
        match self.get(name) {
            Some(v) => v.as_str(),
            None => None,
        }
    }

    /// The member `name`, where it is an array.
    pub fn get_array(&self, name: &str) -> (r: Option<&Vec<Json>>)
        ensures
            match r {
                Some(items) => self@.array_field(name@) == Some(item_views(items@)),
                None => self@.array_field(name@) is None,
            },
    {
        match self.get(name) {
            Some(v) => v.as_array(),
            None => None,
        }
    }

    /// The member `name`, where it is an integer from zero to `u64::MAX`.
    pub fn get_u64(&self, name: &str) -> (r: Option<u64>)
        ensures
            r == self@.u64_field(name@),
    {
        match self.get(name) {
            Some(v) => v.as_u64(),
            None => None,
        }
    }

    /// A string.
    pub fn string(s: &str) -> (r: Json)
        ensures
            r@ == JsonView::Str(s@),
    {
        Json::Str(s.to_owned())
    }
}

proof fn lemma_item_is_smaller(j: Json, i: int)
    requires
        j is Array,
        0 <= i < j->Array_0@.len(),
    ensures
        decreases_to!(j => j->Array_0@[i]),
{
    assert(decreases_to!(j => j->Array_0));
    assert(decreases_to!(j->Array_0 => j->Array_0@));
    assert(decreases_to!(j->Array_0@ => j->Array_0@[i]));
}

proof fn lemma_field_is_smaller(j: Json, i: int)
    requires
        j is Object,
        0 <= i < j->Object_0@.len(),
    ensures
        decreases_to!(j => j->Object_0@[i].1),
{
    assert(decreases_to!(j => j->Object_0));
    assert(decreases_to!(j->Object_0 => j->Object_0@));
    assert(decreases_to!(j->Object_0@ => j->Object_0@[i]));
    assert(decreases_to!(j->Object_0@[i] => j->Object_0@[i].1));
}

impl Clone for Json {
    /// The same document.
    fn clone(&self) -> (r: Json)
        ensures
            r@ == self@,
        decreases self,
    {
        match self {
            Json::Null => Json::Null,
            Json::Bool(b) => Json::Bool(*b),
            Json::Unsigned(n) => Json::Unsigned(*n),
            Json::Number(n) => Json::Number(n.clone()),
            Json::Str(s) => Json::Str(s.clone()),
            Json::Array(items) => {
                let mut copy: Vec<Json> = Vec::new();
                let mut i: usize = 0;
                while i < items.len()
                    invariant
                        self == Json::Array(*items),
                        i <= items@.len(),
                        item_views(copy@) =~= item_views(items@).take(i as int),
                    decreases items@.len() - i,
                {
                    broadcast use lemma_item_views_push;

                    proof {
                        lemma_item_is_smaller(*self, i as int);
                    }
                    copy.push(items[i].clone());
                    i += 1;
                }
                assert(item_views(copy@) =~= item_views(items@));
                Json::Array(copy)
            },
            Json::Object(fields) => {
                let mut copy: Vec<(String, Json)> = Vec::new();
                let mut i: usize = 0;
                while i < fields.len()
                    invariant
                        self == Json::Object(*fields),
                        i <= fields@.len(),
                        field_views(copy@) =~= field_views(fields@).take(i as int),
                    decreases fields@.len() - i,
                {
                    broadcast use lemma_field_views_push;

                    proof {
                        lemma_field_is_smaller(*self, i as int);
                    }
                    copy.push((fields[i].0.clone(), fields[i].1.clone()));
                    i += 1;
                }
                assert(field_views(copy@) =~= field_views(fields@));
                Json::Object(copy)
            },
        }
    }
}

/// An object under construction.
pub struct Fields {
    fields: Vec<(String, Json)>,
}

impl View for Fields {
    type V = Seq<(Seq<char>, JsonView)>;

    closed spec fn view(&self) -> Seq<(Seq<char>, JsonView)> {
        field_views(self.fields@)
    }
}

impl Fields {
    /// No members yet.
    pub fn new() -> (r: Fields)
        ensures
            r@ == Seq::<(Seq<char>, JsonView)>::empty(),
    {
        let r = Fields { fields: Vec::new() };
        assert(r@ =~= Seq::<(Seq<char>, JsonView)>::empty());
        r
    }

    /// Adds the member `name`.
    pub fn put(&mut self, name: &str, value: Json)
        ensures
            final(self)@ == old(self)@.push((name@, value@)),
    {
        broadcast use lemma_field_views_push;

        self.fields.push((name.to_owned(), value));
    }

    /// Adds the member `name` with a text.
    pub fn put_str(&mut self, name: &str, value: &str)
        ensures
            final(self)@ == old(self)@.push((name@, JsonView::Str(value@))),
    {
        self.put(name, Json::string(value));
    }

    /// Adds the member `name` if it has a value.
    pub fn put_opt(&mut self, name: &str, value: &Option<Json>)
        ensures
            final(self)@ == old(self)@ + optional(name@, optional_json(*value)),
    {
        match value {
            Some(v) => self.put(name, v.clone()),
            None => {},
        }
        assert(self@ =~= old(self)@ + optional(name@, optional_json(*value)));
    }

    /// Adds the member `name` if it has a text.
    pub fn put_opt_str(&mut self, name: &str, value: &Option<String>)
        ensures
            final(self)@ == old(self)@ + optional(name@, optional_str(*value)),
    {
        match value {
            Some(s) => self.put_str(name, s.as_str()),
            None => {},
        }
        assert(self@ =~= old(self)@ + optional(name@, optional_str(*value)));
    }

    /// The object.
    pub fn into_json(self) -> (r: Json)
        ensures
            r@ == object(self@),
    {
        Json::Object(self.fields)
    }
}

// ---------------------------------------------------------------------------
// Documents of serde_json
// ---------------------------------------------------------------------------
/// What a document of `serde_json` holds.
pub uninterp spec fn value_view(v: serde_json::Value) -> JsonView;

/// The outermost layer of a document of `serde_json`.
pub(crate) enum Layer {
    Null,
    Bool(bool),
    Number(serde_json::Number),
    Str(String),
    Array(Vec<serde_json::Value>),
    Object(Vec<(String, serde_json::Value)>),
}

/// The items of an array of `serde_json`.
pub(crate) open spec fn value_views(items: Seq<serde_json::Value>) -> Seq<JsonView> {
    items.map_values(|v: serde_json::Value| value_view(v))
}

/// The members of an object of `serde_json`.
pub(crate) open spec fn member_views(members: Seq<(String, serde_json::Value)>) -> Seq<
    (Seq<char>, JsonView),
> {
    members.map_values(|m: (String, serde_json::Value)| (m.0@, value_view(m.1)))
}

/// Whether no two members have one name.
pub(crate) open spec fn distinct_names(members: Seq<(String, serde_json::Value)>) -> bool {
    forall|i: int, j: int| 0 <= i < j < members.len() ==> members[i].0@ != members[j].0@
}

impl Layer {
    /// The document that has this outermost layer.
    pub(crate) open spec fn whole(self) -> JsonView {
        match self {
            Layer::Null => JsonView::Null,
            Layer::Bool(b) => JsonView::Bool(b),
            Layer::Number(n) => number_view(n),
            Layer::Str(s) => JsonView::Str(s@),
            Layer::Array(items) => JsonView::Array(value_views(items@)),
            Layer::Object(members) => object(member_views(members@)),
        }
    }

    /// Whether no two members have one name.
    pub(crate) open spec fn distinct(self) -> bool {
        match self {
            Layer::Object(members) => distinct_names(members@),
            _ => true,
        }
    }
}

/// Takes a `serde_json::Value` apart: the variants of that type one by one.
/// The contract says that the layer is that of the document, and that the
/// entries of a `serde_json::Map` have distinct names.
#[verifier::external_body]
pub(crate) fn value_layer(v: serde_json::Value) -> (r: Layer)
    ensures
        r.whole() == value_view(v),
        r.distinct(),
{
    match v {
        serde_json::Value::Null => Layer::Null,
        serde_json::Value::Bool(b) => Layer::Bool(b),
        serde_json::Value::Number(n) => Layer::Number(n),
        serde_json::Value::String(s) => Layer::Str(s),
        serde_json::Value::Array(items) => Layer::Array(items),
        serde_json::Value::Object(members) => Layer::Object(members.into_iter().collect()),
    }
}

/// Puts a `serde_json::Value` together: the variants of that type one by one.
/// The contract says that the document has the given layer, where no two
/// members have one name.
#[verifier::external_body]
pub(crate) fn layer_value(layer: Layer) -> (r: serde_json::Value)
    requires
        layer.distinct(),
    ensures
        value_view(r) == layer.whole(),
{
    match layer {
        Layer::Null => serde_json::Value::Null,
        Layer::Bool(b) => serde_json::Value::Bool(b),
        Layer::Number(n) => serde_json::Value::Number(n),
        Layer::Str(s) => serde_json::Value::String(s),
        Layer::Array(items) => serde_json::Value::Array(items),
        Layer::Object(members) => serde_json::Value::Object(members.into_iter().collect()),
    }
}

/// What `serde_json::from_slice` makes of bytes: a document, or the text of an
/// error.
pub uninterp spec fn json_of_bytes(bytes: Seq<u8>) -> Result<JsonView, Seq<char>>;

/// `serde_json::from_slice`, under the name [`json_of_bytes`].
#[verifier::external_body]
pub(crate) fn value_of_bytes(bytes: &[u8]) -> (r: Result<serde_json::Value, String>)
    ensures
        match r {
            Ok(v) => json_of_bytes(bytes@) == Ok::<JsonView, Seq<char>>(value_view(v)),
            Err(e) => json_of_bytes(bytes@) == Err::<JsonView, Seq<char>>(e@),
        },
{
    match serde_json::from_slice(bytes) {
        Ok(v) => Ok(v),
        Err(e) => Err(e.to_string()),
    }
}

/// What `serde_json::from_str` makes of text: a document, or the text of an
/// error.
pub uninterp spec fn json_of_text(text: Seq<char>) -> Result<JsonView, Seq<char>>;

/// `serde_json::from_str`, under the name [`json_of_text`].
#[verifier::external_body]
pub(crate) fn value_of_text(text: &str) -> (r: Result<serde_json::Value, String>)
    ensures
        match r {
            Ok(v) => json_of_text(text@) == Ok::<JsonView, Seq<char>>(value_view(v)),
            Err(e) => json_of_text(text@) == Err::<JsonView, Seq<char>>(e@),
        },
{
    match serde_json::from_str(text) {
        Ok(v) => Ok(v),
        Err(e) => Err(e.to_string()),
    }
}

/// The text that `serde_json` prints for a document: `Display` of
/// `serde_json::Value`, the compact form.  It prints the members of an object
/// in the order of their names, since `serde_json::Map` keeps them so unless
/// the crate is built with its feature `preserve_order`, which it is not here.
pub uninterp spec fn json_text(document: JsonView) -> Seq<char>;

/// How deep arrays and objects may nest in a text that `serde_json` parses.
pub const PARSER_DEPTH: usize = 127;

/// Whether a document has no numbers but integers that a `u64` or an `i64`
/// holds, and arrays and objects that nest no deeper than `depth`.
pub open spec fn plain(document: JsonView, depth: nat) -> bool
    decreases depth,
{
    match document {
        JsonView::Number(n) => number_i64(n) is Some,
        JsonView::Array(items) => depth > 0 && forall|i: int|
            0 <= i < items.len() ==> plain(#[trigger] items[i], (depth - 1) as nat),
        JsonView::Object(members) => depth > 0 && forall|name: Seq<char>|
            members.contains_key(name) ==> plain(#[trigger] members[name], (depth - 1) as nat),
        _ => true,
    }
}

/// Whether a text is parsed as the given document.
pub open spec fn reads_as(text: Seq<char>, document: JsonView) -> bool {
    json_of_text(text) == Ok::<JsonView, Seq<char>>(document)
}

/// Whether a document that is printed and parsed again comes back.
pub open spec fn reads_back(document: JsonView) -> bool {
    reads_as(json_text(document), document)
}

/// `Display` of `serde_json::Value`, under the name [`json_text`].  The
/// contract also says that `serde_json::from_str` gives a plain document back:
/// strings are escaped so that they are read as they were, integers are printed
/// and read in decimal, and the parser refuses only what nests deeper than
/// [`PARSER_DEPTH`].  Nothing is said of numbers with a fraction or an exponent.
#[verifier::external_body]
pub(crate) fn value_text(v: &serde_json::Value) -> (r: String)
    ensures
        r@ == json_text(value_view(*v)),
        plain(value_view(*v), PARSER_DEPTH as nat) ==> reads_as(r@, value_view(*v)),
{
    v.to_string()
}

/// What `serde_json::to_vec` makes of a document: bytes, or the text of an
/// error.  The members of an object come in the order of their names.
pub uninterp spec fn json_bytes(document: JsonView) -> Result<Seq<u8>, Seq<char>>;

/// `serde_json::to_vec`, under the name [`json_bytes`].
#[verifier::external_body]
pub(crate) fn value_bytes(v: &serde_json::Value) -> (r: Result<Vec<u8>, String>)
    ensures
        match r {
            Ok(bytes) => json_bytes(value_view(*v)) == Ok::<Seq<u8>, Seq<char>>(bytes@),
            Err(e) => json_bytes(value_view(*v)) == Err::<Seq<u8>, Seq<char>>(e@),
        },
{
    match serde_json::to_vec(v) {
        Ok(bytes) => Ok(bytes),
        Err(e) => Err(e.to_string()),
    }
}

proof fn lemma_value_item_is_smaller(layer: Layer, i: int)
    requires
        layer is Array,
        0 <= i < layer->Array_0@.len(),
    ensures
        decreases_to!(layer.whole() => value_view(layer->Array_0@[i])),
{
    let whole = layer.whole();
    assert(decreases_to!(whole => whole->Array_0));
    assert(decreases_to!(whole->Array_0 => whole->Array_0[i]));
}

proof fn lemma_fields_map_finite(fields: Seq<(Seq<char>, JsonView)>)
    ensures
        fields_map(fields).dom().finite(),
    decreases fields.len(),
{
    if fields.len() > 0 {
        lemma_fields_map_finite(fields.drop_last());
    }
}

proof fn lemma_value_member_is_smaller(layer: Layer, i: int)
    requires
        layer is Object,
        layer.distinct(),
        0 <= i < layer->Object_0@.len(),
    ensures
        decreases_to!(layer.whole() => value_view(layer->Object_0@[i].1)),
{
    let whole = layer.whole();
    let fields = member_views(layer->Object_0@);
    lemma_fields_map_finite(fields);
    lemma_last_field_counts(fields, fields[i].0, i);
    assert(decreases_to!(whole => whole->Object_0));
    assert(decreases_to!(whole->Object_0 => whole->Object_0[fields[i].0]));
}

/// The document that a `serde_json::Value` holds.
pub fn from_value(value: serde_json::Value) -> (r: Json)
    ensures
        r@ == value_view(value),
    decreases value_view(value),
{
    let layer = value_layer(value);
    let ghost outer = layer;
    match layer {
        Layer::Null => Json::Null,
        Layer::Bool(b) => Json::Bool(b),
        Layer::Number(n) => Json::Number(n),
        Layer::Str(s) => Json::Str(s),
        Layer::Array(values) => {
            let mut items: Vec<Json> = Vec::new();
            for v in it: values
                invariant
                    it.seq() == outer->Array_0@,
                    outer is Array,
                    outer.whole() == value_view(value),
                    item_views(items@) =~= value_views(it.seq()).take(it.index() as int),
            {
                broadcast use lemma_item_views_push;

                proof {
                    lemma_value_item_is_smaller(outer, it.index() as int);
                }
                items.push(from_value(v));
            }
            assert(item_views(items@) =~= value_views(outer->Array_0@));
            Json::Array(items)
        },
        Layer::Object(members) => {
            let mut fields: Vec<(String, Json)> = Vec::new();
            for m in it: members
                invariant
                    it.seq() == outer->Object_0@,
                    outer is Object,
                    outer.distinct(),
                    outer.whole() == value_view(value),
                    field_views(fields@) =~= member_views(it.seq()).take(it.index() as int),
            {
                broadcast use lemma_field_views_push;

                proof {
                    lemma_value_member_is_smaller(outer, it.index() as int);
                }
                fields.push((m.0, from_value(m.1)));
            }
            assert(field_views(fields@) =~= member_views(outer->Object_0@));
            Json::Object(fields)
        },
    }
}

proof fn lemma_fields_map_front(fields: Seq<(Seq<char>, JsonView)>, i: int)
    requires
        0 <= i < fields.len(),
    ensures
        fields_map(fields.skip(i)) == if fields_map(fields.skip(i + 1)).contains_key(fields[i].0) {
            fields_map(fields.skip(i + 1))
        } else {
            fields_map(fields.skip(i + 1)).insert(fields[i].0, fields[i].1)
        },
    decreases fields.len(),
{
    let whole = fields.skip(i);
    if i == fields.len() - 1 {
        assert(whole =~= seq![fields[i]]);
        assert(whole.drop_last() =~= seq![]);
        assert(fields.skip(i + 1) =~= seq![]);
    } else {
        let short = fields.drop_last();
        let rest = fields.skip(i + 1);
        lemma_fields_map_front(short, i);
        assert(whole.drop_last() =~= short.skip(i));
        assert(rest.drop_last() =~= short.skip(i + 1));
        assert(whole.last() == rest.last());
        assert(fields_map(whole) =~= if fields_map(rest).contains_key(fields[i].0) {
            fields_map(rest)
        } else {
            fields_map(rest).insert(fields[i].0, fields[i].1)
        });
    }
}

/// Whether a member has the given name.
fn names(members: &Vec<(String, serde_json::Value)>, name: &str) -> (r: bool)
    ensures
        r == fields_map(member_views(members@)).contains_key(name@),
        !r ==> forall|k: int| 0 <= k < members@.len() ==> (#[trigger] members@[k]).0@ != name@,
{
    let ghost views = member_views(members@);
    let mut k: usize = 0;
    while k < members.len()
        invariant
            views == member_views(members@),
            k <= members@.len(),
            forall|l: int| 0 <= l < k ==> (#[trigger] members@[l]).0@ != name@,
            !fields_map(views.take(k as int)).contains_key(name@),
        decreases members@.len() - k,
    {
        if str_eq(members[k].0.as_str(), name) {
            proof {
                lemma_named(views, k as int);
            }
            return true;
        }
        k += 1;
        assert(views.take(k as int).drop_last() =~= views.take(k - 1));
    }
    assert(views.take(k as int) =~= views);
    false
}

proof fn lemma_named(fields: Seq<(Seq<char>, JsonView)>, i: int)
    requires
        0 <= i < fields.len(),
    ensures
        fields_map(fields).contains_key(fields[i].0),
    decreases fields.len(),
{
    if i < fields.len() - 1 {
        lemma_named(fields.drop_last(), i);
    }
}

/// The `serde_json::Value` that holds a document.
pub fn to_value(j: &Json) -> (r: serde_json::Value)
    ensures
        value_view(r) == j@,
    decreases j,
{
    let layer = match j {
        Json::Null => Layer::Null,
        Json::Bool(b) => Layer::Bool(*b),
        Json::Unsigned(n) => Layer::Number(number_of(*n)),
        Json::Number(n) => Layer::Number(n.clone()),
        Json::Str(s) => Layer::Str(s.clone()),
        Json::Array(items) => {
            let mut values: Vec<serde_json::Value> = Vec::new();
            let mut i: usize = 0;
            while i < items.len()
                invariant
                    j == Json::Array(*items),
                    i <= items@.len(),
                    value_views(values@) =~= item_views(items@).take(i as int),
                decreases items@.len() - i,
            {
                proof {
                    lemma_item_is_smaller(*j, i as int);
                }
                let ghost before = values@;
                values.push(to_value(&items[i]));
                i += 1;
                assert(value_views(values@) =~= value_views(before).push(items@[i - 1]@));
                assert(item_views(items@).take(i as int) =~= item_views(items@).take(i - 1).push(
                    items@[i - 1]@,
                ));
            }
            assert(value_views(values@) =~= item_views(items@));
            Layer::Array(values)
        },
        Json::Object(fields) => {
            // From the last member to the first: of two with one name the
            // later counts.
            let mut members: Vec<(String, serde_json::Value)> = Vec::new();
            let mut i: usize = fields.len();
            let ghost views = field_views(fields@);
            assert(views.skip(i as int) =~= seq![]);
            assert(member_views(members@) =~= seq![]);
            while i > 0
                invariant
                    j == Json::Object(*fields),
                    views == field_views(fields@),
                    i <= fields@.len(),
                    distinct_names(members@),
                    fields_map(member_views(members@)) == fields_map(views.skip(i as int)),
                decreases i,
            {
                i -= 1;
                proof {
                    lemma_field_is_smaller(*j, i as int);
                    lemma_fields_map_front(views, i as int);
                }
                if !names(&members, fields[i].0.as_str()) {
                    let ghost before = member_views(members@);
                    members.push((fields[i].0.clone(), to_value(&fields[i].1)));
                    assert(member_views(members@) =~= before.push(views[i as int]));
                    assert(before.push(views[i as int]).drop_last() =~= before);
                }
            }
            assert(views.skip(0) =~= views);
            Layer::Object(members)
        },
    };
    layer_value(layer)
}

/// Parses the text of a document given as bytes.
pub fn parse_bytes(bytes: &[u8]) -> (r: Result<Json, String>)
    ensures
        match r {
            Ok(j) => json_of_bytes(bytes@) == Ok::<JsonView, Seq<char>>(j@),
            Err(e) => json_of_bytes(bytes@) == Err::<JsonView, Seq<char>>(e@),
        },
{
    match value_of_bytes(bytes) {
        Ok(v) => Ok(from_value(v)),
        Err(e) => Err(e),
    }
}

/// Parses the text of a document.
pub fn parse_text(text: &str) -> (r: Result<Json, String>)
    ensures
        match r {
            Ok(j) => json_of_text(text@) == Ok::<JsonView, Seq<char>>(j@),
            Err(e) => json_of_text(text@) == Err::<JsonView, Seq<char>>(e@),
        },
{
    match value_of_text(text) {
        Ok(v) => Ok(from_value(v)),
        Err(e) => Err(e),
    }
}

/// Prints a document in the compact form.  A plain document can be read back.
pub fn print(j: &Json) -> (r: String)
    ensures
        r@ == json_text(j@),
        plain(j@, PARSER_DEPTH as nat) ==> reads_as(r@, j@),
{
    let v = to_value(j);
    value_text(&v)
}

} // verus!
