//! Examples, outlines and JSON schemas of types.
use scaffold::dict::Dict;
use scaffold::ir::{TypeDefIR, TypeIR};
use scaffold::json::Json;
use scaffold::schema::{
    allow_null, generate_example_json, type_to_json_schema, type_to_json_schema_value,
};
use serde_json::Value as Document;

fn s(text: &str) -> String {
    text.to_string()
}

fn list(element: TypeIR) -> TypeIR {
    TypeIR::List { element: Box::new(element) }
}

fn option(inner: TypeIR) -> TypeIR {
    TypeIR::Option { inner: Box::new(inner) }
}

fn map(value: TypeIR) -> TypeIR {
    TypeIR::Dict { key: Box::new(TypeIR::String), value: Box::new(value) }
}

fn result(ok: TypeIR) -> TypeIR {
    TypeIR::Result { ok: Box::new(ok), err: Box::new(TypeIR::String) }
}

fn record(fields: Vec<(&str, TypeIR)>) -> TypeIR {
    TypeIR::Struct { fields: fields.into_iter().map(|(k, v)| (s(k), v)).collect() }
}

fn named(name: &str) -> TypeIR {
    TypeIR::Named { name: s(name) }
}

fn document(j: &Json) -> Document {
    match j {
        Json::Null => Document::Null,
        Json::Bool(b) => Document::Bool(*b),
        Json::Number { whole, .. } => Document::from(whole.unwrap()),
        Json::String(t) => Document::String(t.clone()),
        Json::Array(a) => Document::Array(a.iter().map(document).collect()),
        Json::Object(d) => {
            Document::Object(d.list().iter().map(|(k, v)| (k.clone(), document(v))).collect())
        }
    }
}

fn read(text: &str) -> Document {
    serde_json::from_str(text).unwrap()
}

fn json(text: &str) -> Json {
    scaffold::json::parse_json(text).unwrap()
}

fn schema(ty: TypeIR) -> Document {
    document(&type_to_json_schema_value(&Dict::new(), &ty, 10).unwrap())
}

fn example(ty: TypeIR) -> String {
    generate_example_json(&Dict::new(), &ty, 10).unwrap()
}

#[test]
fn examples_of_types() {
    assert_eq!(example(TypeIR::Bool), "true");
    assert_eq!(example(TypeIR::Int), "42");
    assert_eq!(example(TypeIR::Float), "3.14");
    assert_eq!(example(TypeIR::String), "\"your text here\"");
    assert_eq!(example(TypeIR::Any), "null");
    assert_eq!(example(TypeIR::Bytes), "\"base64data\"");
    assert_eq!(example(list(TypeIR::Int)), "[42]");
    assert_eq!(example(map(TypeIR::Bool)), "{\"key\": true}");
    assert_eq!(example(option(TypeIR::Int)), "42");
    assert_eq!(example(result(TypeIR::Int)), "42");
    assert_eq!(example(named("Unknown")), "{}");
    assert_eq!(example(record(vec![])), "{}");
    assert_eq!(
        example(record(vec![("a", TypeIR::Int), ("b", list(TypeIR::String))])),
        "{\"a\": 42, \"b\": [\"your text here\"]}"
    );
}

#[test]
fn outlines_of_types() {
    assert_eq!(type_to_json_schema(&TypeIR::Bool), "boolean");
    assert_eq!(type_to_json_schema(&TypeIR::Int), "integer");
    assert_eq!(type_to_json_schema(&TypeIR::Float), "number");
    assert_eq!(type_to_json_schema(&TypeIR::String), "\"string\"");
    assert_eq!(type_to_json_schema(&TypeIR::Any), "\"any\"");
    assert_eq!(type_to_json_schema(&TypeIR::Bytes), "\"string\"");
    assert_eq!(type_to_json_schema(&list(TypeIR::Int)), "[integer]");
    assert_eq!(type_to_json_schema(&map(TypeIR::Bool)), "{ \"key\": boolean }");
    assert_eq!(type_to_json_schema(&option(TypeIR::Int)), "integer");
    assert_eq!(type_to_json_schema(&result(TypeIR::Int)), "integer");
    assert_eq!(type_to_json_schema(&named("Point")), "\"Point\"");
    assert_eq!(type_to_json_schema(&record(vec![])), "{  }");
    assert_eq!(
        type_to_json_schema(&record(vec![("a", TypeIR::Int), ("b", TypeIR::String), ("c", TypeIR::Bool)])),
        "{ \"a\": integer, \"b\": \"string\", \"c\": boolean }"
    );
}

#[test]
fn schemas_of_types() {
    assert_eq!(schema(TypeIR::Bool), read(r#"{"type": "boolean"}"#));
    assert_eq!(schema(TypeIR::Int), read(r#"{"type": "integer"}"#));
    assert_eq!(schema(TypeIR::Float), read(r#"{"type": "number"}"#));
    assert_eq!(schema(TypeIR::String), read(r#"{"type": "string"}"#));
    assert_eq!(schema(TypeIR::Bytes), read(r#"{"type": "string", "format": "byte"}"#));
    assert_eq!(schema(TypeIR::Any), read("{}"));
    assert_eq!(schema(list(TypeIR::Int)), read(r#"{"type": "array", "items": {"type": "integer"}}"#));
    assert_eq!(
        schema(map(TypeIR::Int)),
        read(r#"{"type": "object", "additionalProperties": {"type": "integer"}}"#)
    );
    assert_eq!(schema(result(TypeIR::Int)), read(r#"{"type": "integer"}"#));
    assert_eq!(schema(named("Unknown")), read(r#"{"type": "object"}"#));
}

#[test]
fn schemas_of_structs_require_what_is_no_option() {
    let ty = record(vec![("a", TypeIR::Int), ("b", option(TypeIR::String)), ("c", TypeIR::Bool)]);
    assert_eq!(
        schema(ty),
        read(
            r#"{"type": "object",
                "properties": {"a": {"type": "integer"}, "b": {"type": ["null", "string"]}, "c": {"type": "boolean"}},
                "required": ["a", "c"]}"#
        )
    );
    assert_eq!(
        schema(record(vec![])),
        read(r#"{"type": "object", "properties": {}, "required": []}"#)
    );
}

#[test]
fn schemas_of_options_allow_null() {
    assert_eq!(schema(option(TypeIR::Int)), read(r#"{"type": ["null", "integer"]}"#));
    assert_eq!(schema(option(option(TypeIR::Int))), read(r#"{"type": ["null", "integer"]}"#));
    assert_eq!(schema(option(TypeIR::Any)), read(r#"{"anyOf": [{"type": "null"}, {}]}"#));
    assert_eq!(
        schema(option(list(TypeIR::Int))),
        read(r#"{"type": ["null", "array"], "items": {"type": "integer"}}"#)
    );
    let allow = |text: &str| document(&allow_null(json(text)));
    assert_eq!(
        allow(r#"{"type": ["string", "integer"]}"#),
        read(r#"{"type": ["null", "string", "integer"]}"#)
    );
    assert_eq!(allow(r#"{"type": ["string", "null"]}"#), read(r#"{"type": ["string", "null"]}"#));
    assert_eq!(allow(r#"{"type": 5}"#), read(r#"{"anyOf": [{"type": "null"}, {"type": 5}]}"#));
    assert_eq!(allow("true"), read(r#"{"anyOf": [{"type": "null"}, true]}"#));
}

#[test]
fn named_types_are_looked_up() {
    let defs = vec![
        TypeDefIR { name: s("Inner"), definition: TypeIR::Int },
        TypeDefIR { name: s("Outer"), definition: record(vec![("i", named("Inner"))]) },
    ];
    let mut types: Dict<&TypeDefIR> = Dict::new();
    for d in &defs {
        types.insert(d.name.clone(), d);
    }
    let outer = named("Outer");
    assert_eq!(generate_example_json(&types, &outer, 2).unwrap(), "{\"i\": 42}");
    assert_eq!(generate_example_json(&types, &outer, 5).unwrap(), "{\"i\": 42}");
    assert!(generate_example_json(&types, &outer, 1).is_none());
    assert!(type_to_json_schema_value(&types, &outer, 1).is_none());
    assert_eq!(
        document(&type_to_json_schema_value(&types, &outer, 2).unwrap()),
        read(r#"{"type": "object", "properties": {"i": {"type": "integer"}}, "required": ["i"]}"#)
    );
}

#[test]
fn types_that_hold_themselves_have_no_schema() {
    let defs = vec![TypeDefIR { name: s("Tree"), definition: list(named("Tree")) }];
    let mut types: Dict<&TypeDefIR> = Dict::new();
    types.insert(s("Tree"), &defs[0]);
    assert!(generate_example_json(&types, &named("Tree"), 50).is_none());
    assert!(type_to_json_schema_value(&types, &named("Tree"), 50).is_none());
}
