//! What language models are told of types: examples, outlines and JSON schemas.
use vstd::prelude::*;
use vstd::string::*;
use crate::dict::Dict;
use crate::ir::{TypeDefIR, TypeIR};
use crate::json::{
    array_view, lemma_array_view, member, no_members, object_view, set_member, Json, JsonView,
};
use crate::text::same_text;

verus! {

/// An outline of a type: JSON with the names of types in place of values.
pub open spec fn outline(ty: TypeIR) -> Seq<char>
    decreases ty,
{
    match ty {
        TypeIR::Bool => "boolean"@,
        TypeIR::Int => "integer"@,
        TypeIR::Float => "number"@,
        TypeIR::String => "\"string\""@,
        TypeIR::Any => "\"any\""@,
        TypeIR::Bytes => "\"string\""@,
        TypeIR::List { element } => "["@ + outline(*element) + "]"@,
        TypeIR::Dict { key: _, value } => "{ \"key\": "@ + outline(*value) + " }"@,
        TypeIR::Option { inner } => outline(*inner),
        TypeIR::Result { ok, err: _ } => outline(*ok),
        TypeIR::Struct { fields } => "{ "@ + outline_fields(fields@) + " }"@,
        TypeIR::Named { name } => "\""@ + name@ + "\""@,
    }
}

/// A field of an object, as text.
pub open spec fn field_text(name: Seq<char>, value: Seq<char>) -> Seq<char> {
    "\""@ + name + "\": "@ + value
}

/// Texts put together, with a comma between them.
pub open spec fn then_comma(before: Seq<char>, first: bool, next: Seq<char>) -> Seq<char> {
    if first {
        next
    } else {
        before + ", "@ + next
    }
}

/// An outline of the fields of a struct.
pub open spec fn outline_fields(fields: Seq<(String, TypeIR)>) -> Seq<char>
    decreases fields,
{
    if fields.len() == 0 {
        Seq::empty()
    } else {
        then_comma(
            outline_fields(fields.drop_last()),
            fields.len() == 1,
            field_text(fields.last().0@, outline(fields.last().1)),
        )
    }
}

/// Three texts, one behind the other.
fn joined(a: &str, b: &str, c: &str) -> (r: String)
    ensures
        r@ == a@ + b@ + c@,
{
    a.to_string().concat(b).concat(c)
}

/// Puts a field behind the fields before it.
fn next_field(before: String, first: bool, name: &String, value: &str) -> (r: String)
    ensures
        r@ == then_comma(before@, first, field_text(name@, value@)),
{
    let text = joined("\"", name.as_str(), "\": ").concat(value);
    if first {
        text
    } else {
        before.concat(", ").concat(text.as_str())
    }
}

/// An outline of a type.
pub fn type_to_json_schema(ty: &TypeIR) -> (r: String)
    ensures
        r@ == outline(*ty),
    decreases ty,
{
    match ty {
        TypeIR::Bool => "boolean".to_string(),
        TypeIR::Int => "integer".to_string(),
        TypeIR::Float => "number".to_string(),
        TypeIR::String => "\"string\"".to_string(),
        TypeIR::Any => "\"any\"".to_string(),
        TypeIR::Bytes => "\"string\"".to_string(),
        TypeIR::List { element } => joined("[", type_to_json_schema(element).as_str(), "]"),
        TypeIR::Dict { key: _, value } => joined(
            "{ \"key\": ",
            type_to_json_schema(value).as_str(),
            " }",
        ),
        TypeIR::Option { inner } => type_to_json_schema(inner),
        TypeIR::Result { ok, err: _ } => type_to_json_schema(ok),
        TypeIR::Struct { fields } => joined("{ ", fields_to_schema(fields).as_str(), " }"),
        TypeIR::Named { name } => joined("\"", name.as_str(), "\""),
    }
}

/// An outline of the fields of a struct.
fn fields_to_schema(fields: &Vec<(String, TypeIR)>) -> (r: String)
    ensures
        r@ == outline_fields(fields@),
    decreases fields,
{
    let mut out = String::new();
    let mut i: usize = 0;
    assert(out@ =~= outline_fields(fields@.take(0)));
    while i < fields.len()
        invariant
            i <= fields@.len(),
            out@ == outline_fields(fields@.take(i as int)),
        decreases fields@.len() - i,
    {
        let text = type_to_json_schema(&fields[i].1);
        out = next_field(out, i == 0, &fields[i].0, text.as_str());
        assert(fields@.take(i + 1).drop_last() =~= fields@.take(i as int));
        i = i + 1;
    }
    assert(fields@.take(fields@.len() as int) =~= fields@);
    out
}

/// An example of a value of a type, as JSON. A named type is looked up, which takes one unit of
/// fuel; there is no example where the fuel runs out.
pub open spec fn example(types: Map<Seq<char>, &TypeDefIR>, ty: TypeIR, fuel: nat) -> Option<
    Seq<char>,
>
    decreases fuel, ty,
{
    match ty {
        TypeIR::Bool => Some("true"@),
        TypeIR::Int => Some("42"@),
        TypeIR::Float => Some("3.14"@),
        TypeIR::String => Some("\"your text here\""@),
        TypeIR::Any => Some("null"@),
        TypeIR::Bytes => Some("\"base64data\""@),
        TypeIR::List { element } => match example(types, *element, fuel) {
            Some(t) => Some("["@ + t + "]"@),
            None => None,
        },
        TypeIR::Dict { key: _, value } => match example(types, *value, fuel) {
            Some(t) => Some("{\"key\": "@ + t + "}"@),
            None => None,
        },
        TypeIR::Option { inner } => example(types, *inner, fuel),
        TypeIR::Result { ok, err: _ } => example(types, *ok, fuel),
        TypeIR::Struct { fields } => match example_fields(types, fields@, fuel) {
            Some(t) => Some("{"@ + t + "}"@),
            None => None,
        },
        TypeIR::Named { name } => if types.dom().contains(name@) {
            if fuel == 0 {
                None
            } else {
                example(types, types[name@].definition, (fuel - 1) as nat)
            }
        } else {
            Some("{}"@)
        },
    }
}

/// Examples of the fields of a struct.
pub open spec fn example_fields(
    types: Map<Seq<char>, &TypeDefIR>,
    fields: Seq<(String, TypeIR)>,
    fuel: nat,
) -> Option<Seq<char>>
    decreases fuel, fields,
{
    if fields.len() == 0 {
        Some(Seq::empty())
    } else {
        match (
            example_fields(types, fields.drop_last(), fuel),
            example(types, fields.last().1, fuel),
        ) {
            (Some(before), Some(t)) => Some(
                then_comma(before, fields.len() == 1, field_text(fields.last().0@, t)),
            ),
            _ => None,
        }
    }
}

/// What an optional result that is a text is.
pub open spec fn text_of(r: Option<String>) -> Option<Seq<char>> {
    match r {
        Some(s) => Some(s@),
        None => None,
    }
}

/// An example of a value of a type, as JSON.
pub fn generate_example_json(
    types: &Dict<&TypeDefIR>,
    ty: &TypeIR,
    fuel: u64,
) -> (r: Option<String>)
    ensures
        text_of(r) == example(types@, *ty, fuel as nat),
    decreases fuel, ty,
{
    match ty {
        TypeIR::Bool => Some("true".to_string()),
        TypeIR::Int => Some("42".to_string()),
        TypeIR::Float => Some("3.14".to_string()),
        TypeIR::String => Some("\"your text here\"".to_string()),
        TypeIR::Any => Some("null".to_string()),
        TypeIR::Bytes => Some("\"base64data\"".to_string()),
        TypeIR::List { element } => match generate_example_json(types, element, fuel) {
            Some(t) => Some(joined("[", t.as_str(), "]")),
            None => None,
        },
        TypeIR::Dict { key: _, value } => match generate_example_json(types, value, fuel) {
            Some(t) => Some(joined("{\"key\": ", t.as_str(), "}")),
            None => None,
        },
        TypeIR::Option { inner } => generate_example_json(types, inner, fuel),
        TypeIR::Result { ok, err: _ } => generate_example_json(types, ok, fuel),
        TypeIR::Struct { fields } => match example_of_fields(types, fields, fuel) {
            Some(t) => Some(joined("{", t.as_str(), "}")),
            None => None,
        },
        TypeIR::Named { name } => match types.get(name) {
            Some(def) => if fuel == 0 {
                None
            } else {
                generate_example_json(types, &def.definition, fuel - 1)
            },
            None => Some("{}".to_string()),
        },
    }
}

/// No example of the first fields, none of all of them.
proof fn lemma_example_fields_none(
    types: Map<Seq<char>, &TypeDefIR>,
    fields: Seq<(String, TypeIR)>,
    i: int,
    fuel: nat,
)
    requires
        0 <= i <= fields.len(),
        example_fields(types, fields.take(i), fuel) is None,
    ensures
        example_fields(types, fields, fuel) is None,
    decreases fields.len(),
{
    if i == fields.len() {
        assert(fields.take(i) =~= fields);
    } else {
        assert(fields.drop_last().take(i) =~= fields.take(i));
        lemma_example_fields_none(types, fields.drop_last(), i, fuel);
    }
}

/// Examples of the fields of a struct.
fn example_of_fields(types: &Dict<&TypeDefIR>, fields: &Vec<(String, TypeIR)>, fuel: u64) -> (r:
    Option<String>)
    ensures
        text_of(r) == example_fields(types@, fields@, fuel as nat),
    decreases fuel, fields,
{
    let mut out = String::new();
    let mut i: usize = 0;
    assert(out@ =~= Seq::<char>::empty());
    assert(fields@.take(0) =~= Seq::<(String, TypeIR)>::empty());
    while i < fields.len()
        invariant
            i <= fields@.len(),
            Some(out@) == example_fields(types@, fields@.take(i as int), fuel as nat),
        decreases fields@.len() - i,
    {
        assert(fields@.take(i + 1).drop_last() =~= fields@.take(i as int));
        match generate_example_json(types, &fields[i].1, fuel) {
            Some(t) => {
                out = next_field(out, i == 0, &fields[i].0, t.as_str());
            },
            None => {
                proof {
                    lemma_example_fields_none(types@, fields@, i + 1, fuel as nat);
                }
                return None;
            },
        }
        i = i + 1;
    }
    assert(fields@.take(fields@.len() as int) =~= fields@);
    Some(out)
}

/// A schema that names a type.
pub open spec fn type_schema(name: Seq<char>) -> Map<Seq<char>, JsonView> {
    Map::<Seq<char>, JsonView>::empty().insert("type"@, JsonView::String(name))
}

/// The schema that allows what another allows, and null.
pub open spec fn any_of_null(s: JsonView) -> JsonView {
    JsonView::Object(
        Map::<Seq<char>, JsonView>::empty().insert(
            "anyOf"@,
            JsonView::Array(seq![JsonView::Object(type_schema("null"@)), s]),
        ),
    )
}

/// A schema that allows null too: null is put among its types where it names types, and beside
/// it otherwise.
pub open spec fn nullable(s: JsonView) -> JsonView {
    match s {
        JsonView::Object(m) if m.dom().contains("type"@) => match m["type"@] {
            JsonView::String(t) => JsonView::Object(
                m.insert(
                    "type"@,
                    JsonView::Array(seq![JsonView::String("null"@), JsonView::String(t)]),
                ),
            ),
            JsonView::Array(a) => if a.contains(JsonView::String("null"@)) {
                s
            } else {
                JsonView::Object(
                    m.insert("type"@, JsonView::Array(seq![JsonView::String("null"@)] + a)),
                )
            },
            _ => any_of_null(s),
        },
        _ => any_of_null(s),
    }
}

/// The name of a field that has to be there: one whose type is not an option.
pub open spec fn required_name(field: (String, TypeIR)) -> Option<JsonView> {
    if field.1 is Option {
        None
    } else {
        Some(JsonView::String(field.0@))
    }
}

/// The names of the fields that have to be there, in order.
pub open spec fn required_names(fields: Seq<(String, TypeIR)>) -> Seq<JsonView> {
    fields.filter_map(|f: (String, TypeIR)| required_name(f))
}

/// The JSON schema of a type. A named type is looked up, which takes one unit of fuel; there is
/// no schema where the fuel runs out.
pub open spec fn schema(types: Map<Seq<char>, &TypeDefIR>, ty: TypeIR, fuel: nat) -> Option<
    JsonView,
>
    decreases fuel, ty,
{
    match ty {
        TypeIR::Bool => Some(JsonView::Object(type_schema("boolean"@))),
        TypeIR::Int => Some(JsonView::Object(type_schema("integer"@))),
        TypeIR::Float => Some(JsonView::Object(type_schema("number"@))),
        TypeIR::String => Some(JsonView::Object(type_schema("string"@))),
        TypeIR::Bytes => Some(
            JsonView::Object(type_schema("string"@).insert("format"@, JsonView::String("byte"@))),
        ),
        TypeIR::Any => Some(JsonView::Object(Map::empty())),
        TypeIR::List { element } => match schema(types, *element, fuel) {
            Some(s) => Some(JsonView::Object(type_schema("array"@).insert("items"@, s))),
            None => None,
        },
        TypeIR::Dict { key: _, value } => match schema(types, *value, fuel) {
            Some(s) => Some(
                JsonView::Object(type_schema("object"@).insert("additionalProperties"@, s)),
            ),
            None => None,
        },
        TypeIR::Option { inner } => match schema(types, *inner, fuel) {
            Some(s) => Some(nullable(s)),
            None => None,
        },
        TypeIR::Result { ok, err: _ } => schema(types, *ok, fuel),
        TypeIR::Struct { fields } => match schema_fields(types, fields@, fuel) {
            Some(properties) => Some(
                JsonView::Object(
                    type_schema("object"@).insert(
                        "properties"@,
                        JsonView::Object(properties),
                    ).insert("required"@, JsonView::Array(required_names(fields@))),
                ),
            ),
            None => None,
        },
        TypeIR::Named { name } => if types.dom().contains(name@) {
            if fuel == 0 {
                None
            } else {
                schema(types, types[name@].definition, (fuel - 1) as nat)
            }
        } else {
            Some(JsonView::Object(type_schema("object"@)))
        },
    }
}

/// The JSON schemas of the fields of a struct.
pub open spec fn schema_fields(
    types: Map<Seq<char>, &TypeDefIR>,
    fields: Seq<(String, TypeIR)>,
    fuel: nat,
) -> Option<Map<Seq<char>, JsonView>>
    decreases fuel, fields,
{
    if fields.len() == 0 {
        Some(Map::empty())
    } else {
        match (
            schema_fields(types, fields.drop_last(), fuel),
            schema(types, fields.last().1, fuel),
        ) {
            (Some(before), Some(s)) => Some(before.insert(fields.last().0@, s)),
            _ => None,
        }
    }
}

/// What an optional result that is a document is.
pub open spec fn document_of(r: Option<Json>) -> Option<JsonView> {
    match r {
        Some(j) => Some(j@),
        None => None,
    }
}

/// A JSON text.
fn text_json(s: &str) -> (r: Json)
    ensures
        r@ == JsonView::String(s@),
{
    Json::String(s.to_string())
}

/// A schema that names a type.
fn naming_type(name: &str) -> (r: Dict<Json>)
    ensures
        object_view(r) == type_schema(name@),
{
    let mut d = no_members();
    set_member(&mut d, "type".to_string(), text_json(name));
    d
}

/// A schema that names a type, with one member more.
fn naming_type_with(name: &str, key: &str, value: Json) -> (r: Json)
    ensures
        r@ == JsonView::Object(type_schema(name@).insert(key@, value@)),
{
    let mut d = naming_type(name);
    set_member(&mut d, key.to_string(), value);
    Json::Object(d)
}

/// An array of two documents.
fn pair(a: Json, b: Json) -> (r: Json)
    ensures
        r@ == JsonView::Array(seq![a@, b@]),
{
    let mut v: Vec<Json> = Vec::new();
    v.push(a);
    v.push(b);
    proof {
        lemma_array_view(v@);
        assert(array_view(v@) =~= seq![a@, b@]);
    }
    Json::Array(v)
}

/// The schema that allows what another allows, and null.
fn or_null(s: Json) -> (r: Json)
    ensures
        r@ == any_of_null(s@),
{
    let mut d = no_members();
    set_member(&mut d, "anyOf".to_string(), pair(Json::Object(naming_type("null")), s));
    Json::Object(d)
}

/// Whether an array holds a text.
fn holds_text(a: &Vec<Json>, text: &str) -> (r: bool)
    ensures
        r == array_view(a@).contains(JsonView::String(text@)),
{
    proof {
        lemma_array_view(a@);
    }
    let mut i: usize = 0;
    while i < a.len()
        invariant
            i <= a@.len(),
            array_view(a@).len() == a@.len(),
            forall|j: int| 0 <= j < i ==> #[trigger] array_view(a@)[j] != JsonView::String(text@),
        decreases a@.len() - i,
    {
        proof {
            lemma_array_view(a@);
            assert(array_view(a@)[i as int] == a@[i as int]@);
        }
        if let Json::String(s) = &a[i] {
            if same_text(s.as_str(), text) {
                return true;
            }
        }
        i = i + 1;
    }
    false
}

/// An array with a text put before its items.
fn with_text_first(text: &str, a: &Vec<Json>) -> (r: Json)
    ensures
        r@ == JsonView::Array(seq![JsonView::String(text@)] + array_view(a@)),
{
    let mut out: Vec<Json> = Vec::new();
    out.push(text_json(text));
    let mut i: usize = 0;
    while i < a.len()
        invariant
            i <= a@.len(),
            out@.len() == i + 1,
            out@[0]@ == JsonView::String(text@),
            forall|j: int| 0 < j <= i ==> (#[trigger] out@[j])@ == a@[j - 1]@,
        decreases a@.len() - i,
    {
        out.push(a[i].copy());
        i = i + 1;
    }
    proof {
        lemma_array_view(a@);
        lemma_array_view(out@);
        assert(array_view(out@) =~= seq![JsonView::String(text@)] + array_view(a@));
    }
    Json::Array(out)
}

/// A schema that allows null too.
pub fn allow_null(s: Json) -> (r: Json)
    ensures
        r@ == nullable(s@),
{
    match s {
        Json::Object(mut obj) => {
            let types = match member(&obj, "type") {
                Some(Json::String(t)) => Some(pair(text_json("null"), Json::String(t.clone()))),
                Some(Json::Array(a)) => if holds_text(a, "null") {
                    return Json::Object(obj);
                } else {
                    Some(with_text_first("null", a))
                },
                _ => None,
            };
            match types {
                Some(t) => {
                    set_member(&mut obj, "type".to_string(), t);
                    Json::Object(obj)
                },
                None => or_null(Json::Object(obj)),
            }
        },
        other => or_null(other),
    }
}

/// The names of the fields that have to be there.
fn names_required(fields: &Vec<(String, TypeIR)>) -> (r: Vec<Json>)
    ensures
        array_view(r@) == required_names(fields@),
{
    let mut out: Vec<Json> = Vec::new();
    let mut i: usize = 0;
    while i < fields.len()
        invariant
            i <= fields@.len(),
            array_view(out@) == required_names(fields@.take(i as int)),
        decreases fields@.len() - i,
    {
        let ghost before = out@;
        assert(fields@.take(i + 1).drop_last() =~= fields@.take(i as int));
        let optional = match fields[i].1 {
            TypeIR::Option { .. } => true,
            _ => false,
        };
        if !optional {
            out.push(Json::String(fields[i].0.clone()));
            assert(out@.drop_last() =~= before);
            assert(out@.last()@ == JsonView::String(fields@[i as int].0@));
        }
        assert(array_view(out@) =~= required_names(fields@.take(i + 1)));
        i = i + 1;
    }
    assert(fields@.take(fields@.len() as int) =~= fields@);
    out
}

/// The JSON schema of a type.
pub fn type_to_json_schema_value(types: &Dict<&TypeDefIR>, ty: &TypeIR, fuel: u64) -> (r: Option<
    Json,
>)
    ensures
        document_of(r) == schema(types@, *ty, fuel as nat),
    decreases fuel, ty,
{
    match ty {
        TypeIR::Bool => Some(Json::Object(naming_type("boolean"))),
        TypeIR::Int => Some(Json::Object(naming_type("integer"))),
        TypeIR::Float => Some(Json::Object(naming_type("number"))),
        TypeIR::String => Some(Json::Object(naming_type("string"))),
        TypeIR::Bytes => Some(naming_type_with("string", "format", text_json("byte"))),
        TypeIR::Any => Some(Json::Object(no_members())),
        TypeIR::List { element } => match type_to_json_schema_value(types, element, fuel) {
            Some(s) => Some(naming_type_with("array", "items", s)),
            None => None,
        },
        TypeIR::Dict { key: _, value } => match type_to_json_schema_value(types, value, fuel) {
            Some(s) => Some(naming_type_with("object", "additionalProperties", s)),
            None => None,
        },
        TypeIR::Option { inner } => match type_to_json_schema_value(types, inner, fuel) {
            Some(s) => Some(allow_null(s)),
            None => None,
        },
        TypeIR::Result { ok, err: _ } => type_to_json_schema_value(types, ok, fuel),
        TypeIR::Struct { fields } => match fields_to_properties(types, fields, fuel) {
            Some(properties) => {
                let mut d = naming_type("object");
                set_member(&mut d, "properties".to_string(), Json::Object(properties));
                set_member(&mut d, "required".to_string(), Json::Array(names_required(fields)));
                Some(Json::Object(d))
            },
            None => None,
        },
        TypeIR::Named { name } => match types.get(name) {
            Some(def) => if fuel == 0 {
                None
            } else {
                type_to_json_schema_value(types, &def.definition, fuel - 1)
            },
            None => Some(Json::Object(naming_type("object"))),
        },
    }
}

/// No schemas of the first fields, none of all of them.
proof fn lemma_schema_fields_none(
    types: Map<Seq<char>, &TypeDefIR>,
    fields: Seq<(String, TypeIR)>,
    i: int,
    fuel: nat,
)
    requires
        0 <= i <= fields.len(),
        schema_fields(types, fields.take(i), fuel) is None,
    ensures
        schema_fields(types, fields, fuel) is None,
    decreases fields.len(),
{
    if i == fields.len() {
        assert(fields.take(i) =~= fields);
    } else {
        assert(fields.drop_last().take(i) =~= fields.take(i));
        lemma_schema_fields_none(types, fields.drop_last(), i, fuel);
    }
}

/// What an optional result that is an object is.
pub open spec fn members_of(r: Option<Dict<Json>>) -> Option<Map<Seq<char>, JsonView>> {
    match r {
        Some(d) => Some(object_view(d)),
        None => None,
    }
}

/// The JSON schemas of the fields of a struct.
fn fields_to_properties(types: &Dict<&TypeDefIR>, fields: &Vec<(String, TypeIR)>, fuel: u64) -> (r:
    Option<Dict<Json>>)
    ensures
        members_of(r) == schema_fields(types@, fields@, fuel as nat),
    decreases fuel, fields,
{
    let mut out = no_members();
    let mut i: usize = 0;
    assert(fields@.take(0) =~= Seq::<(String, TypeIR)>::empty());
    while i < fields.len()
        invariant
            i <= fields@.len(),
            Some(object_view(out)) == schema_fields(types@, fields@.take(i as int), fuel as nat),
        decreases fields@.len() - i,
    {
        assert(fields@.take(i + 1).drop_last() =~= fields@.take(i as int));
        match type_to_json_schema_value(types, &fields[i].1, fuel) {
            Some(s) => {
                set_member(&mut out, fields[i].0.clone(), s);
            },
            None => {
                proof {
                    lemma_schema_fields_none(types@, fields@, i + 1, fuel as nat);
                }
                return None;
            },
        }
        i = i + 1;
    }
    assert(fields@.take(fields@.len() as int) =~= fields@);
    Some(out)
}

/// Whether a schema allows null: it names null among its types, or offers it beside another
/// schema.
pub open spec fn allows_null(s: JsonView) -> bool {
    match s {
        JsonView::Object(m) => {
            ||| m.dom().contains("type"@) && (m["type"@] matches JsonView::Array(a) && a.contains(
                JsonView::String("null"@),
            ))
            ||| m.dom().contains("anyOf"@) && (m["anyOf"@] matches JsonView::Array(a)
                && a.contains(JsonView::Object(type_schema("null"@))))
        },
        _ => false,
    }
}

/// The schema of an optional type allows null, whatever the schema of the type inside is.
pub proof fn option_allows_null(s: JsonView)
    ensures
        allows_null(nullable(s)),
{
    let null = JsonView::String("null"@);
    let beside = JsonView::Array(seq![JsonView::Object(type_schema("null"@)), s]);
    assert(beside->Array_0[0] == JsonView::Object(type_schema("null"@)));
    if let JsonView::Object(m) = s {
        if m.dom().contains("type"@) {
            match m["type"@] {
                JsonView::String(t) => {
                    assert(seq![null, JsonView::String(t)][0] == null);
                },
                JsonView::Array(a) => {
                    assert((seq![null] + a)[0] == null);
                },
                _ => {},
            }
        }
    }
}

/// An option of an option has the schema of the option, where the schema inside names its type
/// or types.
pub proof fn option_of_option(s: JsonView)
    requires
        s matches JsonView::Object(m) && m.dom().contains("type"@) && (m["type"@] is String
            || m["type"@] is Array),
    ensures
        nullable(nullable(s)) == nullable(s),
{
    let null = JsonView::String("null"@);
    let m = s->Object_0;
    match m["type"@] {
        JsonView::String(t) => {
            assert(seq![null, JsonView::String(t)][0] == null);
        },
        JsonView::Array(a) => {
            assert((seq![null] + a)[0] == null);
        },
        _ => {},
    }
}

/// The schema of a struct requires exactly the names of its fields that are not options.
pub proof fn required_are_not_options(fields: Seq<(String, TypeIR)>, name: Seq<char>)
    ensures
        required_names(fields).contains(JsonView::String(name)) <==> exists|i: int|
            0 <= i < fields.len() && (#[trigger] fields[i]).0@ == name && !(fields[i].1 is Option),
    decreases fields.len(),
{
    if fields.len() > 0 {
        let shorter = fields.drop_last();
        let last = fields.last();
        let here = last.0@ == name && !(last.1 is Option);
        required_are_not_options(shorter, name);
        let before = required_names(shorter);
        let wanted = JsonView::String(name);
        assert(required_names(fields) == if last.1 is Option {
            before
        } else {
            before + seq![JsonView::String(last.0@)]
        });
        if before.contains(wanted) {
            let j = choose|j: int| 0 <= j < before.len() && before[j] == wanted;
            assert(required_names(fields)[j] == wanted);
            let i = choose|i: int|
                0 <= i < shorter.len() && (#[trigger] shorter[i]).0@ == name && !(
                shorter[i].1 is Option);
            assert(fields[i] == shorter[i]);
        } else if here {
            assert(required_names(fields)[before.len() as int] == wanted);
            assert(fields[fields.len() - 1] == last);
        } else {
            assert forall|i: int| 0 <= i < fields.len() implies !((#[trigger] fields[i]).0@ == name
                && !(fields[i].1 is Option)) by {
                if i < shorter.len() {
                    assert(shorter[i] == fields[i]);
                }
            }
            if required_names(fields).contains(wanted) {
                let j = choose|j: int|
                    0 <= j < required_names(fields).len() && required_names(fields)[j] == wanted;
                if j < before.len() {
                    assert(before[j] == wanted);
                }
            }
        }
    }
}

/// More fuel gives the same example and the same schema.
pub proof fn more_fuel_same_schema(
    types: Map<Seq<char>, &TypeDefIR>,
    ty: TypeIR,
    fuel: nat,
    more: nat,
)
    requires
        fuel <= more,
    ensures
        example(types, ty, fuel) is Some ==> example(types, ty, more) == example(types, ty, fuel),
        schema(types, ty, fuel) is Some ==> schema(types, ty, more) == schema(types, ty, fuel),
    decreases fuel, ty,
{
    match ty {
        TypeIR::List { element } => more_fuel_same_schema(types, *element, fuel, more),
        TypeIR::Dict { key: _, value } => more_fuel_same_schema(types, *value, fuel, more),
        TypeIR::Option { inner } => more_fuel_same_schema(types, *inner, fuel, more),
        TypeIR::Result { ok, err: _ } => more_fuel_same_schema(types, *ok, fuel, more),
        TypeIR::Struct { fields } => lemma_more_fuel_fields(types, fields@, fuel, more),
        TypeIR::Named { name } => if types.dom().contains(name@) && fuel > 0 {
            more_fuel_same_schema(
                types,
                types[name@].definition,
                (fuel - 1) as nat,
                (more - 1) as nat,
            );
        },
        _ => {},
    }
}

proof fn lemma_more_fuel_fields(
    types: Map<Seq<char>, &TypeDefIR>,
    fields: Seq<(String, TypeIR)>,
    fuel: nat,
    more: nat,
)
    requires
        fuel <= more,
    ensures
        example_fields(types, fields, fuel) is Some ==> example_fields(types, fields, more)
            == example_fields(types, fields, fuel),
        schema_fields(types, fields, fuel) is Some ==> schema_fields(types, fields, more)
            == schema_fields(types, fields, fuel),
    decreases fuel, fields,
{
    if fields.len() > 0 {
        lemma_more_fuel_fields(types, fields.drop_last(), fuel, more);
        more_fuel_same_schema(types, fields.last().1, fuel, more);
    }
}

/// Whether each type definition that a type refers to has a rank below a bound.
pub open spec fn refers_below(
    types: Map<Seq<char>, &TypeDefIR>,
    ty: TypeIR,
    rank: spec_fn(Seq<char>) -> nat,
    bound: nat,
) -> bool
    decreases ty,
{
    match ty {
        TypeIR::List { element } => refers_below(types, *element, rank, bound),
        TypeIR::Dict { key: _, value } => refers_below(types, *value, rank, bound),
        TypeIR::Option { inner } => refers_below(types, *inner, rank, bound),
        TypeIR::Result { ok, err: _ } => refers_below(types, *ok, rank, bound),
        TypeIR::Struct { fields } => fields_refer_below(types, fields@, rank, bound),
        TypeIR::Named { name } => types.dom().contains(name@) ==> rank(name@) < bound,
        _ => true,
    }
}

/// Whether each type definition that the fields of a struct refer to has a rank below a bound.
pub open spec fn fields_refer_below(
    types: Map<Seq<char>, &TypeDefIR>,
    fields: Seq<(String, TypeIR)>,
    rank: spec_fn(Seq<char>) -> nat,
    bound: nat,
) -> bool
    decreases fields,
{
    fields.len() > 0 ==> fields_refer_below(types, fields.drop_last(), rank, bound)
        && refers_below(types, fields.last().1, rank, bound)
}

/// Type definitions that do not refer to themselves, directly or by way of others: each has a
/// rank, and refers only to definitions of lower rank.
pub open spec fn ranked(
    types: Map<Seq<char>, &TypeDefIR>,
    rank: spec_fn(Seq<char>) -> nat,
) -> bool {
    forall|name: Seq<char>| #[trigger]
        types.dom().contains(name) ==> refers_below(types, types[name].definition, rank, rank(name))
}

/// Where no type definition refers to itself, every type has an example and a schema: as much
/// fuel is enough as its definitions are deep.
pub proof fn ranked_types_have_schemas(
    types: Map<Seq<char>, &TypeDefIR>,
    rank: spec_fn(Seq<char>) -> nat,
    ty: TypeIR,
    bound: nat,
)
    requires
        ranked(types, rank),
        refers_below(types, ty, rank, bound),
    ensures
        example(types, ty, bound) is Some,
        schema(types, ty, bound) is Some,
    decreases bound, ty,
{
    match ty {
        TypeIR::List { element } => ranked_types_have_schemas(types, rank, *element, bound),
        TypeIR::Dict { key: _, value } => ranked_types_have_schemas(types, rank, *value, bound),
        TypeIR::Option { inner } => ranked_types_have_schemas(types, rank, *inner, bound),
        TypeIR::Result { ok, err: _ } => ranked_types_have_schemas(types, rank, *ok, bound),
        TypeIR::Struct { fields } => lemma_ranked_fields(types, rank, fields@, bound),
        TypeIR::Named { name } => if types.dom().contains(name@) {
            let definition = types[name@].definition;
            ranked_types_have_schemas(types, rank, definition, rank(name@));
            more_fuel_same_schema(types, definition, rank(name@), (bound - 1) as nat);
        },
        _ => {},
    }
}

proof fn lemma_ranked_fields(
    types: Map<Seq<char>, &TypeDefIR>,
    rank: spec_fn(Seq<char>) -> nat,
    fields: Seq<(String, TypeIR)>,
    bound: nat,
)
    requires
        ranked(types, rank),
        fields_refer_below(types, fields, rank, bound),
    ensures
        example_fields(types, fields, bound) is Some,
        schema_fields(types, fields, bound) is Some,
    decreases bound, fields,
{
    if fields.len() > 0 {
        lemma_ranked_fields(types, rank, fields.drop_last(), bound);
        ranked_types_have_schemas(types, rank, fields.last().1, bound);
    }
}

} // verus!
