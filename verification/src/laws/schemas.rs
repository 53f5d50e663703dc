//! Laws of what language models are told of types.
use vstd::prelude::*;
use vstd::string::*;
use crate::ir::{TypeDefIR, TypeIR};
use crate::json::JsonView;
use crate::schema::{
    example, example_fields, outline, outline_fields, required_name, required_names, schema,
    schema_fields,
};

verus! {

proof fn lemma_keys()
    ensures
        "type"@ != "format"@,
        "type"@ != "items"@,
        "type"@ != "properties"@,
        "type"@ != "required"@,
        "type"@ != "additionalProperties"@,
        "properties"@ != "required"@,
{
    reveal_strlit("type");
    reveal_strlit("format");
    reveal_strlit("items");
    reveal_strlit("properties");
    reveal_strlit("required");
    reveal_strlit("additionalProperties");
    assert("type"@.len() == 4 && "format"@.len() == 6 && "items"@.len() == 5);
    assert("properties"@.len() == 10 && "required"@.len() == 8);
    assert("additionalProperties"@.len() == 20);
}

/// Whether a document is an object with these members and no others: a type of a name, and one
/// more.
pub open spec fn typed_with(
    s: JsonView,
    name: Seq<char>,
    key: Seq<char>,
    value: JsonView,
) -> bool {
    s matches JsonView::Object(m) && {
        &&& forall|k: Seq<char>| #[trigger] m.dom().contains(k) <==> k == "type"@ || k == key
        &&& m["type"@] == JsonView::String(name)
        &&& m[key] == value
    }
}

/// Whether a document is an object that names a type, and nothing else.
pub open spec fn typed(s: JsonView, name: Seq<char>) -> bool {
    s matches JsonView::Object(m) && {
        &&& forall|k: Seq<char>| #[trigger] m.dom().contains(k) <==> k == "type"@
        &&& m["type"@] == JsonView::String(name)
    }
}

/// The schemas of the plain types name their types; bytes are strings of a format; anything goes
/// where the type is any.
pub proof fn plain_types_name_their_type(types: Map<Seq<char>, &TypeDefIR>, fuel: nat)
    ensures
        schema(types, TypeIR::Bool, fuel) matches Some(s) && typed(s, "boolean"@),
        schema(types, TypeIR::Int, fuel) matches Some(s) && typed(s, "integer"@),
        schema(types, TypeIR::Float, fuel) matches Some(s) && typed(s, "number"@),
        schema(types, TypeIR::String, fuel) matches Some(s) && typed(s, "string"@),
        schema(types, TypeIR::Bytes, fuel) matches Some(s) && typed_with(
            s,
            "string"@,
            "format"@,
            JsonView::String("byte"@),
        ),
        schema(types, TypeIR::Any, fuel) matches Some(JsonView::Object(m)) && m.dom()
            =~= Set::empty(),
{
    lemma_keys();
}

/// The schema of a list is that of an array of what its elements are, and the schema of a
/// dictionary that of an object whose members are what its values are, whatever its keys are.
pub proof fn containers_have_the_schema_of_their_elements(
    types: Map<Seq<char>, &TypeDefIR>,
    element: Box<TypeIR>,
    key: Box<TypeIR>,
    fuel: nat,
)
    ensures
        match schema(types, *element, fuel) {
            Some(inside) => {
                &&& schema(types, TypeIR::List { element }, fuel) matches Some(s) && typed_with(
                    s,
                    "array"@,
                    "items"@,
                    inside,
                )
                &&& schema(types, TypeIR::Dict { key, value: element }, fuel) matches Some(s)
                    && typed_with(s, "object"@, "additionalProperties"@, inside)
            },
            None => {
                &&& schema(types, TypeIR::List { element }, fuel) is None
                &&& schema(types, TypeIR::Dict { key, value: element }, fuel) is None
            },
        },
{
    lemma_keys();
}

/// The schema of a result is that of what it is when it is no error, whatever the error is.
pub proof fn results_have_the_schema_of_success(
    types: Map<Seq<char>, &TypeDefIR>,
    ok: Box<TypeIR>,
    err: Box<TypeIR>,
    fuel: nat,
)
    ensures
        schema(types, TypeIR::Result { ok, err }, fuel) == schema(types, *ok, fuel),
        example(types, TypeIR::Result { ok, err }, fuel) == example(types, *ok, fuel),
        outline(TypeIR::Result { ok, err }) == outline(*ok),
{
}

/// A named type has the schema and the example of what it stands for, where it is defined; it is
/// some object otherwise.
pub proof fn names_have_the_schema_of_their_definition(
    types: Map<Seq<char>, &TypeDefIR>,
    name: String,
    fuel: nat,
)
    ensures
        types.dom().contains(name@) ==> {
            &&& schema(types, TypeIR::Named { name }, fuel + 1) == schema(
                types,
                types[name@].definition,
                fuel,
            )
            &&& example(types, TypeIR::Named { name }, fuel + 1) == example(
                types,
                types[name@].definition,
                fuel,
            )
            &&& schema(types, TypeIR::Named { name }, 0) is None
            &&& example(types, TypeIR::Named { name }, 0) is None
        },
        !types.dom().contains(name@) ==> {
            &&& schema(types, TypeIR::Named { name }, fuel) matches Some(s) && typed(s, "object"@)
            &&& example(types, TypeIR::Named { name }, fuel) == Some("{}"@)
        },
        outline(TypeIR::Named { name }) == "\""@ + name@ + "\""@,
{
}

/// The schema of an option keeps what the schema inside says. Where that names a type or types,
/// null is put before them, unless it is there, and every other member stays; otherwise null is
/// offered before the schema inside.
pub proof fn options_keep_the_schema_inside(
    types: Map<Seq<char>, &TypeDefIR>,
    inner: Box<TypeIR>,
    fuel: nat,
)
    ensures
        ({
            let null = JsonView::String("null"@);
            match (schema(types, *inner, fuel), schema(types, TypeIR::Option { inner }, fuel)) {
                (None, outside) => outside is None,
                (Some(inside), None) => false,
                (Some(inside), Some(outside)) => {
                    let kept = inside matches JsonView::Object(m) && m.dom().contains("type"@) && (
                    m["type"@] is String || m["type"@] is Array);
                    if kept {
                        let m = inside->Object_0;
                        &&& outside is Object
                        &&& outside->Object_0.remove("type"@) == m.remove("type"@)
                        &&& outside->Object_0.dom().contains("type"@)
                        &&& m["type"@] is String ==> outside->Object_0["type"@] == JsonView::Array(
                            seq![null, m["type"@]],
                        )
                        &&& m["type"@] matches JsonView::Array(a) ==> outside->Object_0["type"@]
                            == if a.contains(null) {
                            JsonView::Array(a)
                        } else {
                            JsonView::Array(seq![null] + a)
                        }
                    } else {
                        outside matches JsonView::Object(o) && {
                            &&& forall|k: Seq<char>| #[trigger]
                                o.dom().contains(k) <==> k == "anyOf"@
                            &&& o["anyOf"@] matches JsonView::Array(choices) && {
                                &&& choices.len() == 2
                                &&& typed(choices[0], "null"@)
                                &&& choices[1] == inside
                            }
                        }
                    }
                },
            }
        }),
{
    if let Some(inside) = schema(types, *inner, fuel) {
        let outside = schema(types, TypeIR::Option { inner }, fuel)->0;
        if let JsonView::Object(m) = inside {
            if m.dom().contains("type"@) && (m["type"@] is String || m["type"@] is Array) {
                assert(outside->Object_0.remove("type"@) =~= m.remove("type"@));
            }
        }
    }
}

/// The place of the last field of a name.
pub open spec fn last_of_name(fields: Seq<(String, TypeIR)>, i: int) -> bool {
    &&& 0 <= i < fields.len()
    &&& forall|j: int| i < j < fields.len() ==> (#[trigger] fields[j]).0@ != fields[i].0@
}

/// Whether the properties of a schema are those of fields: each is a field, each field is one, and
/// each has the schema of its field's type.
pub open spec fn properties_of(
    types: Map<Seq<char>, &TypeDefIR>,
    fields: Seq<(String, TypeIR)>,
    fuel: nat,
    properties: Map<Seq<char>, JsonView>,
) -> bool {
    &&& forall|k: Seq<char>| #[trigger]
        properties.dom().contains(k) <==> exists|i: int|
            0 <= i < fields.len() && (#[trigger] fields[i]).0@ == k
    &&& forall|i: int| #[trigger]
        last_of_name(fields, i) ==> Some(properties[fields[i].0@]) == schema(
            types,
            fields[i].1,
            fuel,
        )
}

proof fn lemma_properties(
    types: Map<Seq<char>, &TypeDefIR>,
    fields: Seq<(String, TypeIR)>,
    fuel: nat,
)
    ensures
        schema_fields(types, fields, fuel) matches Some(p) ==> properties_of(
            types,
            fields,
            fuel,
            p,
        ),
        schema_fields(types, fields, fuel) is None <==> exists|i: int|
            0 <= i < fields.len() && schema(types, (#[trigger] fields[i]).1, fuel) is None,
    decreases fields.len(),
{
    if fields.len() > 0 {
        let shorter = fields.drop_last();
        let last = fields.last();
        lemma_properties(types, shorter, fuel);
        assert(fields[fields.len() - 1] == last);
        assert forall|i: int| 0 <= i < shorter.len() implies fields[i] == #[trigger] shorter[i] by {
        }
        if exists|i: int|
            0 <= i < fields.len() && schema(types, (#[trigger] fields[i]).1, fuel) is None {
            let i = choose|i: int|
                0 <= i < fields.len() && schema(types, (#[trigger] fields[i]).1, fuel) is None;
            if i < shorter.len() {
                assert(shorter[i] == fields[i]);
            }
        }
        if let Some(p) = schema_fields(types, fields, fuel) {
            let before = schema_fields(types, shorter, fuel)->0;
            assert forall|k: Seq<char>| #[trigger] p.dom().contains(k) <==> exists|i: int|
                0 <= i < fields.len() && (#[trigger] fields[i]).0@ == k by {
                if p.dom().contains(k) {
                    if k == last.0@ {
                        assert(fields[fields.len() - 1].0@ == k);
                    } else {
                        assert(before.dom().contains(k));
                        let i = choose|i: int|
                            0 <= i < shorter.len() && (#[trigger] shorter[i]).0@ == k;
                        assert(fields[i].0@ == k);
                    }
                }
                if exists|i: int| 0 <= i < fields.len() && (#[trigger] fields[i]).0@ == k {
                    let i = choose|i: int| 0 <= i < fields.len() && (#[trigger] fields[i]).0@ == k;
                    if i < shorter.len() {
                        assert(shorter[i].0@ == k);
                        assert(before.dom().contains(k));
                    }
                }
            }
            assert forall|i: int| #[trigger] last_of_name(fields, i) implies Some(
                p[fields[i].0@],
            ) == schema(types, fields[i].1, fuel) by {
                if i < shorter.len() {
                    assert(fields[fields.len() - 1].0@ != fields[i].0@);
                    assert forall|j: int| i < j < shorter.len() implies (#[trigger] shorter[j]).0@
                        != shorter[i].0@ by {
                        assert(fields[j].0@ != fields[i].0@);
                    }
                    assert(last_of_name(shorter, i));
                    assert(shorter[i] == fields[i]);
                }
            }
        }
    }
}

/// The schema of a struct is that of an object whose properties are the fields of the struct: each
/// property is a field, each field a property, and a property has the schema of the type of its
/// field. Beside the type and the properties it has nothing but the list of the names that have to
/// be there.
pub proof fn structs_have_their_fields_as_properties(
    types: Map<Seq<char>, &TypeDefIR>,
    fields: Vec<(String, TypeIR)>,
    fuel: nat,
)
    ensures
        match schema(types, TypeIR::Struct { fields }, fuel) {
            Some(s) => s matches JsonView::Object(m) && {
                &&& forall|k: Seq<char>| #[trigger]
                    m.dom().contains(k) <==> k == "type"@ || k == "properties"@ || k == "required"@
                &&& m["type"@] == JsonView::String("object"@)
                &&& m["properties"@] matches JsonView::Object(p) && properties_of(
                    types,
                    fields@,
                    fuel,
                    p,
                )
                &&& m["required"@] == JsonView::Array(required_names(fields@))
            },
            None => exists|i: int|
                0 <= i < fields@.len() && schema(types, (#[trigger] fields@[i]).1, fuel) is None,
        },
{
    lemma_keys();
    lemma_properties(types, fields@, fuel);
}

/// The names that have to be there stand in the order of the fields, and each field that is not an
/// option adds its own.
pub proof fn required_names_stand_in_order(
    fields: Seq<(String, TypeIR)>,
    field: (String, TypeIR),
)
    ensures
        required_names(Seq::empty()).len() == 0,
        required_names(fields.push(field)) == if field.1 is Option {
            required_names(fields)
        } else {
            required_names(fields).push(JsonView::String(field.0@))
        },
{
    let all = fields.push(field);
    assert(all.drop_last() =~= fields);
    assert(all.last() == field);
    assert(required_names(all) == required_names(all.drop_last()) + match required_name(field) {
        Some(n) => seq![n],
        None => Seq::empty(),
    });
    assert(required_names(all) =~= if field.1 is Option {
        required_names(fields)
    } else {
        required_names(fields).push(JsonView::String(field.0@))
    });
}

/// The outlines of types: plain types have their names, an option has the outline of what is
/// inside, a list and a dictionary hold that of their elements, and a struct those of its fields.
pub proof fn outlines_are_made_of_outlines(
    element: Box<TypeIR>,
    key: Box<TypeIR>,
    fields: Vec<(String, TypeIR)>,
)
    ensures
        outline(TypeIR::Bool) == "boolean"@,
        outline(TypeIR::Int) == "integer"@,
        outline(TypeIR::Float) == "number"@,
        outline(TypeIR::String) == "\"string\""@,
        outline(TypeIR::Bytes) == "\"string\""@,
        outline(TypeIR::Any) == "\"any\""@,
        outline(TypeIR::Option { inner: element }) == outline(*element),
        outline(TypeIR::List { element }) == "["@ + outline(*element) + "]"@,
        outline(TypeIR::Dict { key, value: element }) == "{ \"key\": "@ + outline(*element)
            + " }"@,
        outline(TypeIR::Struct { fields }) == "{ "@ + outline_fields(fields@) + " }"@,
{
}

/// Examples of types, likewise.
pub proof fn examples_are_made_of_examples(
    types: Map<Seq<char>, &TypeDefIR>,
    element: Box<TypeIR>,
    key: Box<TypeIR>,
    fields: Vec<(String, TypeIR)>,
    fuel: nat,
)
    ensures
        example(types, TypeIR::Bool, fuel) == Some("true"@),
        example(types, TypeIR::Int, fuel) == Some("42"@),
        example(types, TypeIR::Float, fuel) == Some("3.14"@),
        example(types, TypeIR::String, fuel) == Some("\"your text here\""@),
        example(types, TypeIR::Bytes, fuel) == Some("\"base64data\""@),
        example(types, TypeIR::Any, fuel) == Some("null"@),
        example(types, TypeIR::Option { inner: element }, fuel) == example(types, *element, fuel),
        match example(types, *element, fuel) {
            Some(t) => {
                &&& example(types, TypeIR::List { element }, fuel) == Some("["@ + t + "]"@)
                &&& example(types, TypeIR::Dict { key, value: element }, fuel) == Some(
                    "{\"key\": "@ + t + "}"@,
                )
            },
            None => {
                &&& example(types, TypeIR::List { element }, fuel) is None
                &&& example(types, TypeIR::Dict { key, value: element }, fuel) is None
            },
        },
        example(types, TypeIR::Struct { fields }, fuel) == match example_fields(
            types,
            fields@,
            fuel,
        ) {
            Some(t) => Some("{"@ + t + "}"@),
            None => None,
        },
{
}

/// A field stands behind the fields before it, with a comma between: its name in quotes, a colon,
/// and the outline or the example of its type.
pub proof fn fields_stand_in_order(
    types: Map<Seq<char>, &TypeDefIR>,
    fields: Seq<(String, TypeIR)>,
    field: (String, TypeIR),
    fuel: nat,
)
    ensures
        outline_fields(Seq::empty()).len() == 0,
        outline_fields(seq![field]) == "\""@ + field.0@ + "\": "@ + outline(field.1),
        fields.len() > 0 ==> outline_fields(fields.push(field)) == outline_fields(fields) + ", "@
            + outline_fields(seq![field]),
        example_fields(types, Seq::empty(), fuel) matches Some(t) && t.len() == 0,
        match example(types, field.1, fuel) {
            Some(t) => {
                &&& example_fields(types, seq![field], fuel) == Some(
                    "\""@ + field.0@ + "\": "@ + t,
                )
                &&& fields.len() > 0 ==> match example_fields(types, fields, fuel) {
                    Some(before) => example_fields(types, fields.push(field), fuel) == Some(
                        before + ", "@ + example_fields(types, seq![field], fuel)->0,
                    ),
                    None => example_fields(types, fields.push(field), fuel) is None,
                }
            },
            None => example_fields(types, fields.push(field), fuel) is None,
        },
{
    reveal_with_fuel(outline_fields, 2);
    reveal_with_fuel(example_fields, 2);
    assert(fields.push(field).drop_last() =~= fields);
    assert(seq![field].drop_last() =~= Seq::empty());
    assert(seq![field].last() == field);
}

} // verus!
