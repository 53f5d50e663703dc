//! JSON documents.
use serde_json::Value as Document;
use vstd::prelude::*;
use vstd::string::*;
use crate::dict::{
    distinct_keys, entries_map, keys_of, lemma_entries_finite, lemma_entry_in_map, lemma_view,
    Dict,
};
use crate::text::opt_text;
use crate::value::{dict_view, list_view, no_entries, put, Float, Value, ValueView};

verus! {

/// A JSON document. A number is held in each of its forms: as a signed integer and as an unsigned
/// one, where it is one that fits, and as a floating-point number.
#[derive(Debug)]
pub enum Json {
    Null,
    Bool(bool),
    Number { whole: Option<i64>, natural: Option<u64>, float: Float },
    String(String),
    Array(Vec<Json>),
    Object(Dict<Json>),
}

/// What a JSON document is, mathematically.
pub enum JsonView {
    Null,
    Bool(bool),
    Number { whole: Option<i64>, natural: Option<u64>, float: u64 },
    String(Seq<char>),
    Array(Seq<JsonView>),
    Object(Map<Seq<char>, JsonView>),
}

/// What the members of an object are, for a map of documents.
pub open spec fn json_views(m: Map<Seq<char>, Json>) -> Map<Seq<char>, JsonView> {
    m.map_values(|v: Json| json_view(v))
}

/// What a document is.
pub open spec fn json_view(j: Json) -> JsonView
    decreases j,
{
    match j {
        Json::Null => JsonView::Null,
        Json::Bool(b) => JsonView::Bool(b),
        Json::Number { whole, natural, float } => JsonView::Number {
            whole,
            natural,
            float: float.bits,
        },
        Json::String(s) => JsonView::String(s@),
        Json::Array(a) => JsonView::Array(array_view(a@)),
        Json::Object(d) => JsonView::Object(object_view(d)),
    }
}

/// What the items of an array are.
pub open spec fn array_view(s: Seq<Json>) -> Seq<JsonView>
    decreases s,
{
    if s.len() == 0 {
        Seq::empty()
    } else {
        array_view(s.drop_last()).push(json_view(s.last()))
    }
}

/// What the members of an object are.
pub closed spec fn object_view(d: Dict<Json>) -> Map<Seq<char>, JsonView>
    decreases d,
{
    members_view(d.entries@)
}

spec fn members_view(s: Seq<(String, Json)>) -> Map<Seq<char>, JsonView>
    decreases s,
{
    if s.len() == 0 {
        Map::empty()
    } else {
        members_view(s.drop_last()).insert(s.last().0@, json_view(s.last().1))
    }
}

/// A JSON document with the members of objects in their order.
pub enum OrderedJson {
    Null,
    Bool(bool),
    Number { whole: Option<i64>, natural: Option<u64>, float: u64 },
    String(Seq<char>),
    Array(Seq<OrderedJson>),
    Object(Seq<(Seq<char>, OrderedJson)>),
}

/// A document with the members of objects in their order.
pub open spec fn ordered(j: Json) -> OrderedJson
    decreases j,
{
    match j {
        Json::Null => OrderedJson::Null,
        Json::Bool(b) => OrderedJson::Bool(b),
        Json::Number { whole, natural, float } => OrderedJson::Number {
            whole,
            natural,
            float: float.bits,
        },
        Json::String(s) => OrderedJson::String(s@),
        Json::Array(a) => OrderedJson::Array(array_ordered(a@)),
        Json::Object(d) => OrderedJson::Object(object_ordered(d)),
    }
}

/// The items of an array, with the members of objects in their order.
pub open spec fn array_ordered(s: Seq<Json>) -> Seq<OrderedJson>
    decreases s,
{
    if s.len() == 0 {
        Seq::empty()
    } else {
        array_ordered(s.drop_last()).push(ordered(s.last()))
    }
}

/// The members of an object in their order.
pub closed spec fn object_ordered(d: Dict<Json>) -> Seq<(Seq<char>, OrderedJson)>
    decreases d,
{
    members_ordered(d.entries@)
}

spec fn members_ordered(s: Seq<(String, Json)>) -> Seq<(Seq<char>, OrderedJson)>
    decreases s,
{
    if s.len() == 0 {
        Seq::empty()
    } else {
        members_ordered(s.drop_last()).push((s.last().0@, ordered(s.last().1)))
    }
}

proof fn lemma_members_ordered(s: Seq<(String, Json)>)
    ensures
        members_ordered(s).len() == s.len(),
        forall|i: int|
            0 <= i < s.len() ==> #[trigger] members_ordered(s)[i] == (s[i].0@, ordered(s[i].1)),
    decreases s.len(),
{
    if s.len() > 0 {
        lemma_members_ordered(s.drop_last());
    }
}

/// The members of an object in their order are those that its keys give, in their order.
pub proof fn lemma_object_ordered(d: Dict<Json>)
    ensures
        object_ordered(d).len() == d.keys().len(),
        forall|i: int| 0 <= i < d.keys().len() ==> (#[trigger] object_ordered(d)[i]).0 == d.keys()[i],
{
    lemma_view(d);
    lemma_members_ordered(d.entries@);
}

/// The items of an array in order are what they are one by one.
pub proof fn lemma_array_ordered(s: Seq<Json>)
    ensures
        array_ordered(s).len() == s.len(),
        forall|i: int| 0 <= i < s.len() ==> #[trigger] array_ordered(s)[i] == ordered(s[i]),
    decreases s.len(),
{
    if s.len() > 0 {
        lemma_array_ordered(s.drop_last());
    }
}

impl View for Json {
    type V = JsonView;

    open spec fn view(&self) -> JsonView {
        json_view(*self)
    }
}

proof fn lemma_members_view(s: Seq<(String, Json)>)
    ensures
        members_view(s) == json_views(entries_map(s)),
    decreases s.len(),
{
    if s.len() > 0 {
        lemma_members_view(s.drop_last());
    }
    assert(members_view(s) =~= json_views(entries_map(s)));
}

proof fn lemma_json_views_insert(m: Map<Seq<char>, Json>, k: Seq<char>, v: Json)
    ensures
        json_views(m.insert(k, v)) == json_views(m).insert(k, json_view(v)),
{
    assert(json_views(m.insert(k, v)) =~= json_views(m).insert(k, json_view(v)));
}

/// An object stands for the map of what its members are.
pub proof fn lemma_object_view(d: Dict<Json>)
    ensures
        object_view(d) == json_views(d@),
{
    lemma_view(d);
    lemma_members_view(d.entries@);
}

/// The items of an array are what they are one by one.
pub proof fn lemma_array_view(s: Seq<Json>)
    ensures
        array_view(s).len() == s.len(),
        forall|i: int| 0 <= i < s.len() ==> #[trigger] array_view(s)[i] == json_view(s[i]),
    decreases s.len(),
{
    if s.len() > 0 {
        lemma_array_view(s.drop_last());
    }
}

/// A new member comes behind the others.
proof fn lemma_new_member(before: Dict<Json>, after: Dict<Json>, key: Seq<char>, value: Json)
    requires
        distinct_keys(before.entries@),
        distinct_keys(after.entries@),
        after@ == before@.insert(key, value),
        after.keys() == before.keys().push(key),
        !before.keys().contains(key),
    ensures
        object_ordered(after) == object_ordered(before).push((key, ordered(value))),
{
    let a = before.entries@;
    let b = after.entries@;
    lemma_view(before);
    lemma_view(after);
    lemma_members_ordered(a);
    lemma_members_ordered(b);
    let expected = object_ordered(before).push((key, ordered(value)));
    assert(b.len() == keys_of(b).len() && a.len() == keys_of(a).len());
    assert forall|i: int| 0 <= i < b.len() implies #[trigger] object_ordered(after)[i]
        == expected[i] by {
        lemma_entry_in_map(b, i);
        assert(keys_of(b)[i] == b[i].0@);
        if i < a.len() {
            lemma_entry_in_map(a, i);
            assert(keys_of(a)[i] == a[i].0@);
            assert(before.keys().contains(a[i].0@));
        }
    }
    assert(object_ordered(after) =~= expected);
}

/// A copy of an array.
fn copy_array(a: &Vec<Json>) -> (r: Vec<Json>)
    ensures
        array_view(r@) == array_view(a@),
        array_ordered(r@) == array_ordered(a@),
    decreases a, 0nat,
{
    let mut out: Vec<Json> = Vec::new();
    let mut i: usize = 0;
    while i < a.len()
        invariant
            i <= a@.len(),
            array_view(out@) == array_view(a@.take(i as int)),
            array_ordered(out@) == array_ordered(a@.take(i as int)),
        decreases a@.len() - i,
    {
        let ghost before = out@;
        out.push(a[i].copy());
        proof {
            assert(out@.drop_last() =~= before);
            assert(a@.take(i + 1).drop_last() =~= a@.take(i as int));
        }
        i = i + 1;
    }
    assert(a@.take(a@.len() as int) =~= a@);
    out
}

/// A copy of an object.
fn copy_object(d: &Dict<Json>) -> (r: Dict<Json>)
    ensures
        object_view(r) == object_view(*d),
        object_ordered(r) == object_ordered(*d),
    decreases d, 0nat,
{
    proof {
        use_type_invariant(d);
    }
    let mut out = no_members();
    let mut i: usize = 0;
    while i < d.entries.len()
        invariant
            i <= d.entries@.len(),
            distinct_keys(d.entries@),
            object_view(out) == members_view(d.entries@.take(i as int)),
            object_ordered(out) == members_ordered(d.entries@.take(i as int)),
        decreases d.entries@.len() - i,
    {
        let copied = d.entries[i].1.copy();
        proof {
            lemma_members_ordered(d.entries@.take(i as int));
        }
        let ghost before = object_ordered(out);
        set_member(&mut out, d.entries[i].0.clone(), copied);
        proof {
            assert(d.entries@.take(i + 1).drop_last() =~= d.entries@.take(i as int));
            assert(object_ordered(out) =~= before.push(
                (d.entries@[i as int].0@, ordered(d.entries@[i as int].1)),
            ));
        }
        i = i + 1;
    }
    assert(d.entries@.take(d.entries@.len() as int) =~= d.entries@);
    out
}

impl Json {
    /// A copy of a document, with the members of objects in their order.
    pub fn copy(&self) -> (r: Json)
        ensures
            r@ == self@,
            ordered(r) == ordered(*self),
        decreases self, 0nat,
    {
        match self {
            Json::Null => Json::Null,
            Json::Bool(b) => Json::Bool(*b),
            Json::Number { whole, natural, float } => Json::Number {
                whole: *whole,
                natural: *natural,
                float: *float,
            },
            Json::String(s) => Json::String(s.clone()),
            Json::Array(a) => Json::Array(copy_array(a)),
            Json::Object(d) => Json::Object(copy_object(d)),
        }
    }
}

impl Clone for Json {
    fn clone(&self) -> (r: Self)
        ensures
            r@ == self@,
            ordered(r) == ordered(*self),
    {
        self.copy()
    }
}

/// An object without members.
pub fn no_members() -> (r: Dict<Json>)
    ensures
        object_view(r) == Map::<Seq<char>, JsonView>::empty(),
        object_ordered(r) == Seq::<(Seq<char>, OrderedJson)>::empty(),
{
    let r: Dict<Json> = Dict::new();
    proof {
        lemma_object_view(r);
        lemma_object_ordered(r);
        assert(object_view(r) =~= Map::<Seq<char>, JsonView>::empty());
        assert(object_ordered(r) =~= Seq::<(Seq<char>, OrderedJson)>::empty());
    }
    r
}

/// Sets a member of an object; a new one comes last.
pub fn set_member(d: &mut Dict<Json>, key: String, value: Json)
    ensures
        object_view(*final(d)) == object_view(*old(d)).insert(key@, value@),
        is_new(object_ordered(*old(d)), key@) ==> object_ordered(*final(d)) == object_ordered(
            *old(d),
        ) + entry(key@, Some(ordered(value))),
{
    proof {
        lemma_object_view(*d);
        lemma_object_ordered(*d);
        lemma_json_views_insert(d@, key@, value);
        use_type_invariant(&*d);
    }
    let ghost before = *d;
    d.insert(key, value);
    proof {
        lemma_object_view(*d);
        use_type_invariant(&*d);
        if is_new(object_ordered(before), key@) {
            assert forall|i: int| 0 <= i < before.keys().len() implies before.keys()[i] != key@ by {
                assert(object_ordered(before)[i].0 == before.keys()[i]);
            }
            lemma_new_member(before, *d, key@, value);
            assert(object_ordered(*d) =~= object_ordered(before) + entry(
                key@,
                Some(ordered(value)),
            ));
        }
    }
}

/// A member of an object.
pub fn member<'a>(d: &'a Dict<Json>, key: &str) -> (r: Option<&'a Json>)
    ensures
        match r {
            Some(v) => object_view(*d).dom().contains(key@) && v@ == object_view(*d)[key@],
            None => !object_view(*d).dom().contains(key@),
        },
{
    proof {
        lemma_object_view(*d);
    }
    d.get(&key.to_string())
}

/// Members with a text member put in, where there is a text.
pub open spec fn with_text(
    m: Map<Seq<char>, JsonView>,
    key: Seq<char>,
    text: Option<Seq<char>>,
) -> Map<Seq<char>, JsonView> {
    match text {
        Some(s) => m.insert(key, JsonView::String(s)),
        None => m,
    }
}

/// One ordered member, or none where there is nothing for it to be.
pub open spec fn entry(key: Seq<char>, value: Option<OrderedJson>) -> Seq<
    (Seq<char>, OrderedJson),
> {
    match value {
        Some(v) => seq![(key, v)],
        None => Seq::empty(),
    }
}

/// What an optional text is, as an ordered document.
pub open spec fn ordered_text(text: Option<Seq<char>>) -> Option<OrderedJson> {
    match text {
        Some(s) => Some(OrderedJson::String(s)),
        None => None,
    }
}

/// Whether a key is not one of those of ordered members.
pub open spec fn is_new(members: Seq<(Seq<char>, OrderedJson)>, key: Seq<char>) -> bool {
    forall|i: int| 0 <= i < members.len() ==> (#[trigger] members[i]).0 != key
}

/// A key is new to members in two parts where it is new to both.
pub broadcast proof fn lemma_new_to_both(
    a: Seq<(Seq<char>, OrderedJson)>,
    b: Seq<(Seq<char>, OrderedJson)>,
    key: Seq<char>,
)
    ensures
        #[trigger] is_new(a + b, key) <==> is_new(a, key) && is_new(b, key),
{
    let all = a + b;
    if is_new(all, key) {
        assert forall|i: int| 0 <= i < a.len() implies (#[trigger] a[i]).0 != key by {
            assert(all[i] == a[i]);
        }
        assert forall|i: int| 0 <= i < b.len() implies (#[trigger] b[i]).0 != key by {
            assert(all[a.len() + i] == b[i]);
        }
    }
}

/// A key is new to one member where the member has another.
pub broadcast proof fn lemma_new_to_entry(
    other: Seq<char>,
    value: Option<OrderedJson>,
    key: Seq<char>,
)
    ensures
        #[trigger] is_new(entry(other, value), key) <==> value is None || other != key,
{
    if value is Some {
        assert(entry(other, value)[0].0 == other);
    }
}

/// Sets a text member of an object; a new one comes last.
pub fn set_text(d: &mut Dict<Json>, key: &str, text: &str)
    ensures
        object_view(*final(d)) == object_view(*old(d)).insert(key@, JsonView::String(text@)),
        is_new(object_ordered(*old(d)), key@) ==> object_ordered(*final(d)) == object_ordered(
            *old(d),
        ) + entry(key@, Some(OrderedJson::String(text@))),
{
    set_member(d, key.to_string(), Json::String(text.to_string()));
}

/// Sets a text member of an object, where there is a text.
pub fn set_text_if(d: &mut Dict<Json>, key: &str, text: &Option<String>)
    ensures
        object_view(*final(d)) == with_text(object_view(*old(d)), key@, opt_text(*text)),
        is_new(object_ordered(*old(d)), key@) ==> object_ordered(*final(d)) == object_ordered(
            *old(d),
        ) + entry(key@, ordered_text(opt_text(*text))),
{
    if let Some(s) = text {
        set_text(d, key, s.as_str());
    }
}

/// The document type of `serde_json`.
#[verifier::external_type_specification]
#[verifier::external_body]
pub struct ExJsonValue(Document);

/// What a document of `serde_json` holds.
pub uninterp spec fn json_contents(v: Document) -> JsonView;

/// What `serde_json` reads from a text: the document, or the message of the error.
pub uninterp spec fn json_parsed(text: Seq<char>) -> Result<JsonView, Seq<char>>;

/// One level of a document of `serde_json`.
pub enum Node {
    Null,
    Bool(bool),
    Number(Option<i64>, Option<u64>, Option<u64>),
    String(String),
    Array(Vec<Document>),
    Object(Vec<(String, Document)>),
}

/// What a map of documents of `serde_json` holds.
pub open spec fn contents_of(m: Map<Seq<char>, Document>) -> Map<Seq<char>, JsonView> {
    m.map_values(|v: Document| json_contents(v))
}

/// What one level of a document stands for.
pub open spec fn node_contents(n: Node) -> JsonView {
    match n {
        Node::Null => JsonView::Null,
        Node::Bool(b) => JsonView::Bool(b),
        Node::Number(whole, natural, float) => JsonView::Number { whole, natural, float: float->0 },
        Node::String(s) => JsonView::String(s@),
        Node::Array(items) => JsonView::Array(
            items@.map_values(|v: Document| json_contents(v)),
        ),
        Node::Object(members) => JsonView::Object(
            contents_of(entries_map(members@)),
        ),
    }
}

proof fn lemma_contents_insert(m: Map<Seq<char>, Document>, k: Seq<char>, v: Document)
    ensures
        contents_of(m.insert(k, v)) == contents_of(m).insert(k, json_contents(v)),
{
    assert(contents_of(m.insert(k, v)) =~= contents_of(m).insert(k, json_contents(v)));
}

/// `serde_json::from_str`, into a document: the document that the text holds, or the message of
/// the error that it gives.
#[verifier::external_body]
fn read_text(text: &str) -> (r: Result<Document, String>)
    ensures
        match r {
            Ok(v) => json_parsed(text@) == Ok::<JsonView, Seq<char>>(json_contents(v)),
            Err(e) => json_parsed(text@) == Err::<JsonView, Seq<char>>(e@),
        },
{
    serde_json::from_str(text).map_err(|e: serde_json::Error| e.to_string())
}

/// The variants of `serde_json::Value`, with the number's `as_i64`, `as_u64` and `as_f64`, the
/// last as its bit pattern, and with an object's members in a list. Each number has a
/// floating-point form, and no two members have the same key.
#[verifier::external_body]
fn open_value(v: Document) -> (r: Node)
    ensures
        node_contents(r) == json_contents(v),
        r matches Node::Number(_, _, float) ==> float is Some,
        r matches Node::Object(members) ==> distinct_keys(members@),
{
    match v {
        Document::Null => Node::Null,
        Document::Bool(b) => Node::Bool(b),
        Document::Number(n) => {
            Node::Number(n.as_i64(), n.as_u64(), n.as_f64().map(|f| f.to_bits()))
        },
        Document::String(s) => Node::String(s),
        Document::Array(a) => Node::Array(a),
        Document::Object(m) => Node::Object(m.into_iter().collect()),
    }
}

/// A document of `serde_json` as one of this library.
pub fn from_outside(v: Document) -> (r: Json)
    ensures
        r@ == json_contents(v),
    decreases json_contents(v),
{
    match open_value(v) {
        Node::Null => Json::Null,
        Node::Bool(b) => Json::Bool(b),
        Node::Number(whole, natural, float) => Json::Number {
            whole,
            natural,
            float: Float { bits: float.unwrap() },
        },
        Node::String(s) => Json::String(s),
        Node::Array(items) => {
            let mut out: Vec<Json> = Vec::new();
            let ghost contents = items@.map_values(|v: Document| json_contents(v));
            for x in it: items
                invariant
                    json_contents(v) == JsonView::Array(contents),
                    contents == it.seq().map_values(|v: Document| json_contents(v)),
                    array_view(out@) == contents.take(it.index() as int),
            {
                proof {
                    let i = it.index() as int;
                    assert(json_contents(x) == json_contents(v)->Array_0[i]);
                    assert(decreases_to!(json_contents(v) => json_contents(v)->Array_0));
                    assert(decreases_to!(json_contents(v)->Array_0 => json_contents(v)->Array_0[i]));
                }
                let ghost before = out@;
                out.push(from_outside(x));
                assert(out@.drop_last() =~= before);
            }
            assert(contents.take(contents.len() as int) =~= contents);
            Json::Array(out)
        },
        Node::Object(members) => {
            let mut out: Dict<Json> = Dict::new();
            let ghost list = members@;
            proof {
                lemma_object_view(out);
                lemma_entries_finite(list);
                assert(object_view(out) =~= contents_of(entries_map(list.take(0))));
                assert(contents_of(entries_map(list)).dom() =~= entries_map(list).dom());
            }
            for m in it: members
                invariant
                    json_contents(v) == JsonView::Object(contents_of(entries_map(list))),
                    contents_of(entries_map(list)).dom().finite(),
                    distinct_keys(list),
                    list == it.seq(),
                    object_view(out) == contents_of(entries_map(list.take(it.index() as int))),
            {
                proof {
                    let i = it.index() as int;
                    lemma_entry_in_map(list, i);
                    lemma_object_view(out);
                    assert(list.take(i + 1).drop_last() =~= list.take(i));
                    assert(json_contents(m.1) == json_contents(v)->Object_0[m.0@]);
                    assert(decreases_to!(json_contents(v) => json_contents(v)->Object_0));
                    assert(decreases_to!(json_contents(v)->Object_0 => json_contents(v)->Object_0[m.0@]));
                    lemma_contents_insert(entries_map(list.take(i)), m.0@, m.1);
                }
                let ghost before = out@;
                let (key, x) = m;
                let read = from_outside(x);
                proof {
                    lemma_json_views_insert(before, key@, read);
                }
                out.insert(key, read);
                proof {
                    lemma_object_view(out);
                }
            }
            assert(list.take(list.len() as int) =~= list);
            Json::Object(out)
        },
    }
}

/// What came of reading a text as JSON.
pub open spec fn json_end(r: Result<Json, String>) -> Result<JsonView, Seq<char>> {
    match r {
        Ok(j) => Ok(j@),
        Err(e) => Err(e@),
    }
}

/// The document that a text holds, or the message of the error that reading it gives.
pub fn parse_json(text: &str) -> (r: Result<Json, String>)
    ensures
        json_end(r) == json_parsed(text@),
{
    match read_text(text) {
        Ok(v) => Ok(from_outside(v)),
        Err(e) => Err(e),
    }
}

/// The value that a JSON document stands for: a number is an integer where it is one that fits
/// and a floating-point number otherwise, and an object is a dictionary.
pub open spec fn json_value(j: JsonView) -> ValueView
    decreases j,
{
    match j {
        JsonView::Null => ValueView::Null,
        JsonView::Bool(b) => ValueView::Bool(b),
        JsonView::Number { whole: Some(i), .. } => ValueView::Int(i),
        JsonView::Number { whole: None, float, .. } => ValueView::Float(float),
        JsonView::String(s) => ValueView::String(s),
        JsonView::Array(a) => ValueView::List(
            Seq::new(
                a.len(),
                |i: int|
                    if 0 <= i < a.len() {
                        json_value(a[i])
                    } else {
                        ValueView::Null
                    },
            ),
        ),
        JsonView::Object(m) => ValueView::Dict(
            Map::new(
                |k: Seq<char>| m.dom().contains(k),
                |k: Seq<char>|
                    if m.dom().contains(k) {
                        json_value(m[k])
                    } else {
                        ValueView::Null
                    },
            ),
        ),
    }
}

/// The value that a JSON document stands for.
pub fn json_to_value(json: Json) -> (r: Value)
    ensures
        r@ == json_value(json@),
    decreases json,
{
    match json {
        Json::Null => Value::Null,
        Json::Bool(b) => Value::Bool(b),
        Json::Number { whole, natural: _, float } => match whole {
            Some(i) => Value::Int(i),
            None => Value::Float(float),
        },
        Json::String(s) => Value::String(s),
        Json::Array(items) => Value::List(items_to_values(items)),
        Json::Object(members) => Value::Dict(members_to_values(members)),
    }
}

/// The values that the items of an array stand for.
fn items_to_values(items: Vec<Json>) -> (r: Vec<Value>)
    ensures
        ValueView::List(list_view(r@)) == json_value(JsonView::Array(array_view(items@))),
    decreases items,
{
    let mut out: Vec<Value> = Vec::new();
    proof {
        lemma_array_view(items@);
    }
    for x in it: items
        invariant
            it.seq() == items@,
            list_view(out@).len() == it.index(),
            forall|i: int|
                0 <= i < it.index() ==> #[trigger] list_view(out@)[i] == json_value(
                    json_view(items@[i]),
                ),
    {
        let ghost before = out@;
        assert(decreases_to!(items => items@));
        assert(decreases_to!(items@ => items@[it.index() as int]));
        out.push(json_to_value(x));
        assert(out@.drop_last() =~= before);
    }
    assert(list_view(out@) =~= json_value(JsonView::Array(array_view(items@)))->List_0);
    out
}

/// What is made of the members of an object.
spec fn members_values(m: Map<Seq<char>, Json>) -> Map<Seq<char>, ValueView> {
    m.map_values(|v: Json| json_value(json_view(v)))
}

/// The values that the members of an object stand for.
fn members_to_values(members: Dict<Json>) -> (r: Dict<Value>)
    ensures
        ValueView::Dict(dict_view(r)) == json_value(JsonView::Object(object_view(members))),
    decreases members,
{
    let mut out = no_entries();
    let ghost list = members.entries@;
    proof {
        lemma_view(members);
        lemma_object_view(members);
        assert(dict_view(out) =~= members_values(entries_map(list.take(0))));
        assert(decreases_to!(members => members.entries));
    }
    for m in it: members.entries
        invariant
            decreases_to!(members => members.entries),
            list == members.entries@,
            it.seq() == list,
            dict_view(out) == members_values(entries_map(list.take(it.index() as int))),
    {
        proof {
            let i = it.index() as int;
            assert(list.take(i + 1).drop_last() =~= list.take(i));
            assert(decreases_to!(members.entries => members.entries@));
            assert(decreases_to!(members.entries@ => members.entries@[i]));
            assert(decreases_to!(members.entries@[i] => members.entries@[i].1));
            assert(members_values(entries_map(list.take(i)).insert(m.0@, m.1)) =~= members_values(
                entries_map(list.take(i)),
            ).insert(m.0@, json_value(json_view(m.1))));
        }
        let (key, x) = m;
        put(&mut out, key, json_to_value(x));
    }
    proof {
        assert(list.take(list.len() as int) =~= list);
        assert(dict_view(out) =~= json_value(JsonView::Object(object_view(members)))->Dict_0);
    }
    out
}

/// What a document with its members in order is without the order.
pub open spec fn unordered(o: OrderedJson) -> JsonView
    decreases o,
{
    match o {
        OrderedJson::Null => JsonView::Null,
        OrderedJson::Bool(b) => JsonView::Bool(b),
        OrderedJson::Number { whole, natural, float } => JsonView::Number { whole, natural, float },
        OrderedJson::String(s) => JsonView::String(s),
        OrderedJson::Array(a) => JsonView::Array(array_unordered(a)),
        OrderedJson::Object(m) => JsonView::Object(members_unordered(m)),
    }
}

/// What the items of an array are without the order of members.
pub open spec fn array_unordered(s: Seq<OrderedJson>) -> Seq<JsonView>
    decreases s,
{
    if s.len() == 0 {
        Seq::empty()
    } else {
        array_unordered(s.drop_last()).push(unordered(s.last()))
    }
}

/// What members are without their order.
pub open spec fn members_unordered(s: Seq<(Seq<char>, OrderedJson)>) -> Map<Seq<char>, JsonView>
    decreases s,
{
    if s.len() == 0 {
        Map::empty()
    } else {
        members_unordered(s.drop_last()).insert(s.last().0, unordered(s.last().1))
    }
}

/// A document is what it is with its members in order, without the order.
pub proof fn order_is_only_added(j: Json)
    ensures
        j@ == unordered(ordered(j)),
    decreases j, 0nat,
{
    match j {
        Json::Array(a) => {
            lemma_array_unordered(a@);
        },
        Json::Object(d) => {
            lemma_members_unordered(d.entries@);
        },
        _ => {},
    }
}

proof fn lemma_array_unordered(s: Seq<Json>)
    ensures
        array_view(s) == array_unordered(array_ordered(s)),
    decreases s, 0nat,
{
    if s.len() > 0 {
        lemma_array_unordered(s.drop_last());
        order_is_only_added(s.last());
        assert(array_ordered(s).drop_last() =~= array_ordered(s.drop_last()));
    }
}

proof fn lemma_members_unordered(s: Seq<(String, Json)>)
    ensures
        members_view(s) == members_unordered(members_ordered(s)),
    decreases s, 0nat,
{
    if s.len() > 0 {
        lemma_members_unordered(s.drop_last());
        order_is_only_added(s.last().1);
        assert(members_ordered(s).drop_last() =~= members_ordered(s.drop_last()));
    }
}

/// Whether a value is made of what JSON has: it holds no bytes and no struct, at any depth.
pub open spec fn is_plain(v: ValueView) -> bool
    decreases v,
{
    match v {
        ValueView::Bytes(_) => false,
        ValueView::Struct { .. } => false,
        ValueView::List(l) => forall|i: int| 0 <= i < l.len() ==> is_plain(#[trigger] l[i]),
        ValueView::Dict(m) => forall|k: Seq<char>|
            m.dom().contains(k) ==> is_plain(#[trigger] m[k]),
        _ => true,
    }
}

/// A value keeps the shape of its document: null, truth values and texts stay what they are; a
/// number is an integer exactly where it is one that fits, and otherwise a floating-point number;
/// an array gives a list of the same length, item by item, and an object a dictionary with the
/// same keys, member by member.
pub proof fn values_keep_the_shape(j: JsonView)
    ensures
        json_value(j) is Null <==> j is Null,
        forall|b: bool| json_value(j) == ValueView::Bool(b) <==> j == JsonView::Bool(b),
        forall|s: Seq<char>| json_value(j) == ValueView::String(s) <==> j == JsonView::String(s),
        j matches JsonView::Number { whole, float, .. } ==> {
            &&& forall|i: i64| json_value(j) == ValueView::Int(i) <==> whole == Some(i)
            &&& whole is None ==> json_value(j) == ValueView::Float(float)
        },
        j matches JsonView::Array(a) ==> {
            &&& json_value(j) matches ValueView::List(l)
            &&& l.len() == a.len()
            &&& forall|i: int| 0 <= i < a.len() ==> #[trigger] l[i] == json_value(a[i])
        },
        j matches JsonView::Object(m) ==> {
            &&& json_value(j) matches ValueView::Dict(d)
            &&& d.dom() == m.dom()
            &&& forall|k: Seq<char>| m.dom().contains(k) ==> #[trigger] d[k] == json_value(m[k])
        },
{
}

/// The value of a document holds no bytes and no struct, at any depth.
pub proof fn values_of_documents_are_plain(j: JsonView)
    ensures
        is_plain(json_value(j)),
    decreases j,
{
    match j {
        JsonView::Array(a) => {
            let l = json_value(j)->List_0;
            assert forall|i: int| 0 <= i < l.len() implies is_plain(#[trigger] l[i]) by {
                values_of_documents_are_plain(a[i]);
            }
        },
        JsonView::Object(m) => {
            let d = json_value(j)->Dict_0;
            assert forall|k: Seq<char>| d.dom().contains(k) implies is_plain(#[trigger] d[k]) by {
                values_of_documents_are_plain(m[k]);
            }
        },
        _ => {},
    }
}

} // verus!
