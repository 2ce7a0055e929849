//! Conversion of the store's reply values into JSON, with the context rule that turns
//! numeric texts into numbers one level inside a map.
use vstd::prelude::*;
use vstd::string::*;
use vstd::utf8::*;
use crate::text::{decimal_i64, float_text, parse_i64};
use crate::trusted::{decode_utf8_text, lossy_decode, lossy_text, parses_as_float};

verus! {

broadcast use vstd::std_specs::vec::axiom_vec_index_decreases;

/// A value of the store's reply protocol.
pub enum ReplyValue {
    Nil,
    Int(i64),
    /// Binary-safe bytes.
    BulkString(Vec<u8>),
    SimpleString(String),
    /// The status reply `OK`.
    Okay,
    Array(Vec<ReplyValue>),
    /// Key and value pairs, in the order the store sent them.
    MapPairs(Vec<(ReplyValue, ReplyValue)>),
    /// A value with metadata attached.
    Attribute { value: Box<ReplyValue>, attributes: Vec<(ReplyValue, ReplyValue)> },
    SetItems(Vec<ReplyValue>),
    /// A double, by its decimal text.
    Double(String),
    Boolean(bool),
    VerbatimString { format: String, text: String },
    /// An integer beyond the range of `i64`, by its decimal text.
    BigNumber(String),
    Push { kind: String, data: Vec<ReplyValue> },
    /// A failure reported by the store, by its description.
    ServerError(String),
    /// A reply shape that this library does not know.
    Unrecognized,
}

/// Where a value stands while it is converted.
#[derive(Clone, Copy, PartialEq, Eq, Structural, Debug)]
pub enum ConversionContext {
    Default,
    InsideMap,
}

/// A JSON value.
#[derive(Debug, PartialEq)]
pub enum Json {
    Null,
    Bool(bool),
    Int(i64),
    /// A number given by decimal text and read as a double; a text that reads as no
    /// finite double stands for `null`.
    Float(String),
    Str(String),
    Array(Vec<Json>),
    /// Members in order of insertion; a later member replaces an earlier one of the same key.
    Object(Vec<(String, Json)>),
}

/// The mathematical form of a JSON value.
pub enum JsonView {
    Null,
    Bool(bool),
    Int(i64),
    Float(Seq<char>),
    Str(Seq<char>),
    Array(Seq<JsonView>),
    Object(Seq<(Seq<char>, JsonView)>),
}

impl Json {
    pub open spec fn view(self) -> JsonView
        decreases self,
    {
        match self {
            Json::Null => JsonView::Null,
            Json::Bool(b) => JsonView::Bool(b),
            Json::Int(i) => JsonView::Int(i),
            Json::Float(t) => JsonView::Float(t@),
            Json::Str(s) => JsonView::Str(s@),
            Json::Array(items) => JsonView::Array(
                Seq::new(items@.len(), |i: int| if 0 <= i < items@.len() { items@[i].view() } else { JsonView::Null }),
            ),
            Json::Object(members) => JsonView::Object(
                Seq::new(
                    members@.len(),
                    |i: int|
                        if 0 <= i < members@.len() {
                            (members@[i].0@, members@[i].1.view())
                        } else {
                            (Seq::empty(), JsonView::Null)
                        },
                ),
            ),
        }
    }
}

/// The text of a map key; a key that is not text has none.
pub open spec fn key_text(k: ReplyValue) -> Option<Seq<char>> {
    match k {
        ReplyValue::SimpleString(s) => Some(s@),
        ReplyValue::BulkString(b) => if valid_utf8(b@) {
            Some(decode_utf8(b@))
        } else {
            None
        },
        _ => None,
    }
}

/// The members that a map gives: those whose key is text, in order.
pub open spec fn keyed_members(s: Seq<(Option<Seq<char>>, JsonView)>) -> Seq<(Seq<char>, JsonView)>
    decreases s.len(),
{
    if s.len() == 0 {
        Seq::empty()
    } else {
        let rest = keyed_members(s.drop_last());
        match s.last().0 {
            Some(k) => rest.push((k, s.last().1)),
            None => rest,
        }
    }
}

/// What a bulk string becomes: inside a map, a non-empty text that reads as an integer
/// or a double becomes a number; elsewhere valid UTF-8 stays text; invalid UTF-8 is
/// decoded lossily.
pub open spec fn bulk_json(b: Seq<u8>, ctx: ConversionContext) -> JsonView {
    if valid_utf8(b) {
        let s = decode_utf8(b);
        if ctx == ConversionContext::InsideMap && s.len() > 0 {
            match decimal_i64(s) {
                Some(n) => JsonView::Int(n),
                None => if float_text(s) {
                    JsonView::Float(s)
                } else {
                    JsonView::Str(s)
                },
            }
        } else {
            JsonView::Str(s)
        }
    } else {
        JsonView::Str(lossy_text(b))
    }
}

/// The JSON form of a reply value in a context.
pub open spec fn json_of(v: ReplyValue, ctx: ConversionContext) -> JsonView
    decreases v,
{
    match v {
        ReplyValue::Nil => JsonView::Null,
        ReplyValue::Int(i) => JsonView::Int(i),
        ReplyValue::BulkString(b) => bulk_json(b@, ctx),
        ReplyValue::SimpleString(s) => JsonView::Str(s@),
        ReplyValue::Okay => JsonView::Str("OK"@),
        ReplyValue::Array(items) => JsonView::Array(
            Seq::new(items@.len(), |i: int| if 0 <= i < items@.len() { json_of(items@[i], ConversionContext::Default) } else { JsonView::Null }),
        ),
        ReplyValue::SetItems(items) => JsonView::Array(
            Seq::new(items@.len(), |i: int| if 0 <= i < items@.len() { json_of(items@[i], ConversionContext::Default) } else { JsonView::Null }),
        ),
        ReplyValue::Push { kind, data } => JsonView::Array(
            Seq::new(data@.len(), |i: int| if 0 <= i < data@.len() { json_of(data@[i], ConversionContext::Default) } else { JsonView::Null }),
        ),
        ReplyValue::MapPairs(entries) => JsonView::Object(keyed_members(member_sources(entries))),
        ReplyValue::Attribute { value, attributes } => json_of(*value, ctx),
        ReplyValue::Double(t) => JsonView::Float(t@),
        ReplyValue::Boolean(b) => JsonView::Bool(b),
        ReplyValue::VerbatimString { format, text } => JsonView::Str(text@),
        ReplyValue::BigNumber(t) => JsonView::Str(t@),
        ReplyValue::ServerError(d) => JsonView::Object(seq![("error"@, JsonView::Str(d@))]),
        ReplyValue::Unrecognized => JsonView::Null,
    }
}

fn bulk_to_json(b: &Vec<u8>, ctx: ConversionContext) -> (r: Json)
    ensures
        r.view() == bulk_json(b@, ctx),
{
    match decode_utf8_text(b.as_slice()) {
        Some(s) => {
            if ctx == ConversionContext::InsideMap && s.unicode_len() > 0 {
                match parse_i64(s.as_str()) {
                    Some(n) => {
                        return Json::Int(n);
                    },
                    None => {},
                }
                if parses_as_float(s.as_str()) {
                    return Json::Float(s);
                }
            }
            Json::Str(s)
        },
        None => Json::Str(lossy_decode(b.as_slice())),
    }
}

fn convert_items(items: &Vec<ReplyValue>, Ghost(whole): Ghost<ReplyValue>) -> (r: Vec<Json>)
    requires
        forall|i: int| 0 <= i < items.len() ==> decreases_to!(whole => #[trigger] items@[i]),
    ensures
        r.len() == items.len(),
        forall|i: int| 0 <= i < r.len() ==> (#[trigger] r@[i]).view() == json_of(items@[i], ConversionContext::Default),
    decreases whole, 0nat,
{
    let mut out: Vec<Json> = Vec::new();
    let mut i: usize = 0;
    while i < items.len()
        invariant
            i <= items.len(),
            out.len() == i,
            forall|j: int| 0 <= j < i ==> (#[trigger] out@[j]).view() == json_of(items@[j], ConversionContext::Default),
            forall|j: int| 0 <= j < items.len() ==> decreases_to!(whole => #[trigger] items@[j]),
        decreases items.len() - i,
    {
        assert(decreases_to!(whole => items@[i as int]));
        let j = redis_to_json_with_context(&items[i], ConversionContext::Default);
        out.push(j);
        i = i + 1;
    }
    out
}

/// The member sources of a map: each value converted inside the map, with its key's text.
pub open spec fn member_sources(entries: Vec<(ReplyValue, ReplyValue)>) -> Seq<(Option<Seq<char>>, JsonView)>
    decreases entries,
{
    Seq::new(
        entries@.len(),
        |i: int|
            if 0 <= i < entries@.len() {
                (key_text(entries@[i].0), json_of(entries@[i].1, ConversionContext::InsideMap))
            } else {
                (None, JsonView::Null)
            },
    )
}

fn convert_members(entries: &Vec<(ReplyValue, ReplyValue)>, Ghost(whole): Ghost<ReplyValue>) -> (r: Vec<(String, Json)>)
    requires
        forall|i: int| 0 <= i < entries.len() ==> decreases_to!(whole => #[trigger] entries@[i].1),
    ensures
        Json::Object(r).view()->Object_0 == keyed_members(member_sources(*entries)),
    decreases whole, 0nat,
{
    let ghost src = member_sources(*entries);
    let mut out: Vec<(String, Json)> = Vec::new();
    let mut i: usize = 0;
    assert(Json::Object(out).view()->Object_0 =~= keyed_members(src.subrange(0, 0)));
    while i < entries.len()
        invariant
            i <= entries.len(),
            src == member_sources(*entries),
            src.len() == entries@.len(),
            Json::Object(out).view()->Object_0 == keyed_members(src.subrange(0, i as int)),
            forall|j: int| 0 <= j < entries.len() ==> decreases_to!(whole => #[trigger] entries@[j].1),
        decreases entries.len() - i,
    {
        let ghost before = Json::Object(out).view()->Object_0;
        assert(src.subrange(0, i + 1).drop_last() =~= src.subrange(0, i as int));
        let key: Option<String> = match &entries[i].0 {
            ReplyValue::SimpleString(s) => Some(s.clone()),
            ReplyValue::BulkString(b) => decode_utf8_text(b.as_slice()),
            _ => None,
        };
        match key {
            Some(k) => {
                assert(decreases_to!(whole => entries@[i as int].1));
                let v = redis_to_json_with_context(&entries[i].1, ConversionContext::InsideMap);
                out.push((k, v));
                assert(Json::Object(out).view()->Object_0 =~= before.push((src[i as int].0->0, src[i as int].1)));
            },
            None => {},
        }
        i = i + 1;
    }
    assert(src.subrange(0, entries.len() as int) =~= src);
    out
}

/// Converts a reply value to JSON in the given context: arrays, sets and pushes reset
/// the context for their elements, a map sets it for each of its values, an attribute
/// passes it on to the value it wraps.
pub fn redis_to_json_with_context(v: &ReplyValue, ctx: ConversionContext) -> (r: Json)
    ensures
        r.view() == json_of(*v, ctx),
    decreases *v, 1nat,
{
    match v {
        ReplyValue::Nil => Json::Null,
        ReplyValue::Int(i) => Json::Int(*i),
        ReplyValue::BulkString(b) => bulk_to_json(b, ctx),
        ReplyValue::SimpleString(s) => Json::Str(s.clone()),
        ReplyValue::Okay => Json::Str(String::from_str("OK")),
        ReplyValue::Array(items) => {
            let out = convert_items(items, Ghost(*v));
            assert(Json::Array(out).view()->Array_0 =~= json_of(*v, ctx)->Array_0);
            Json::Array(out)
        },
        ReplyValue::SetItems(items) => {
            let out = convert_items(items, Ghost(*v));
            assert(Json::Array(out).view()->Array_0 =~= json_of(*v, ctx)->Array_0);
            Json::Array(out)
        },
        ReplyValue::Push { kind, data } => {
            let out = convert_items(data, Ghost(*v));
            assert(Json::Array(out).view()->Array_0 =~= json_of(*v, ctx)->Array_0);
            Json::Array(out)
        },
        ReplyValue::MapPairs(entries) => {
            let out = convert_members(entries, Ghost(*v));
            Json::Object(out)
        },
        ReplyValue::Attribute { value, attributes } => redis_to_json_with_context(value, ctx),
        ReplyValue::Double(t) => Json::Float(t.clone()),
        ReplyValue::Boolean(b) => Json::Bool(*b),
        ReplyValue::VerbatimString { format, text } => Json::Str(text.clone()),
        ReplyValue::BigNumber(t) => Json::Str(t.clone()),
        ReplyValue::ServerError(d) => {
            let mut members: Vec<(String, Json)> = Vec::new();
            members.push((String::from_str("error"), Json::Str(d.clone())));
            assert(members@[0].1.view() == JsonView::Str(d@));
            let r = Json::Object(members);
            assert(r.view()->Object_0 =~= seq![("error"@, JsonView::Str(d@))]);
            r
        },
        ReplyValue::Unrecognized => Json::Null,
    }
}

/// Numeric coercion reaches exactly one level into a map: a bulk text that reads as an
/// integer becomes that number as the value of a text-keyed map entry, and stays text as
/// an element of a top-level array.
pub proof fn lemma_numeric_text_context(
    key: ReplyValue,
    text: Vec<u8>,
    entries: Vec<(ReplyValue, ReplyValue)>,
    items: Vec<ReplyValue>,
)
    requires
        valid_utf8(text@),
        decimal_i64(decode_utf8(text@)) is Some,
        key_text(key) is Some,
        entries@ == seq![(key, ReplyValue::BulkString(text))],
        items@ == seq![ReplyValue::BulkString(text)],
    ensures
        json_of(ReplyValue::MapPairs(entries), ConversionContext::Default) == JsonView::Object(
            seq![(key_text(key)->0, JsonView::Int(decimal_i64(decode_utf8(text@))->0))],
        ),
        json_of(ReplyValue::Array(items), ConversionContext::Default) == JsonView::Array(
            seq![JsonView::Str(decode_utf8(text@))],
        ),
{
    let s = decode_utf8(text@);
    assert(s.len() > 0);
    let src = member_sources(entries);
    assert(src.len() == 1);
    assert(src[0] == (key_text(key), json_of(ReplyValue::BulkString(text), ConversionContext::InsideMap)));
    assert(json_of(ReplyValue::BulkString(text), ConversionContext::InsideMap) == JsonView::Int(decimal_i64(s)->0));
    assert(src.drop_last() =~= Seq::<(Option<Seq<char>>, JsonView)>::empty());
    assert(keyed_members(src.drop_last()) =~= Seq::<(Seq<char>, JsonView)>::empty());
    assert(keyed_members(src) =~= seq![(key_text(key)->0, JsonView::Int(decimal_i64(s)->0))]);
    let arr = json_of(ReplyValue::Array(items), ConversionContext::Default)->Array_0;
    assert(json_of(ReplyValue::BulkString(text), ConversionContext::Default) == JsonView::Str(s));
    assert(arr.len() == 1);
    assert(arr[0] == json_of(items@[0], ConversionContext::Default));
    assert(arr =~= seq![JsonView::Str(s)]);
}

/// Converts a reply value to JSON at the top level.
pub fn redis_to_json(v: &ReplyValue) -> (r: Json)
    ensures
        r.view() == json_of(*v, ConversionContext::Default),
{
    redis_to_json_with_context(v, ConversionContext::Default)
}

} // verus!
