use jsonschema_valid::error::path_to_string;
use jsonschema_valid::json::Json;
use jsonschema_valid::number::Number;
use jsonschema_valid::schemas::Draft;
use jsonschema_valid::{Config, ValidationError};

fn convert(value: &serde_json::Value) -> Json {
    match value {
        serde_json::Value::Null => Json::Null,
        serde_json::Value::Bool(b) => Json::Bool(*b),
        serde_json::Value::Number(n) => {
            if let Some(u) = n.as_u64() {
                Json::Number(Number::PosInt(u))
            } else if let Some(i) = n.as_i64() {
                Json::Number(Number::NegInt(i))
            } else {
                Json::Number(Number::Float(n.as_f64().unwrap().to_bits()))
            }
        }
        serde_json::Value::String(s) => Json::String(s.clone()),
        serde_json::Value::Array(items) => Json::Array(items.iter().map(convert).collect()),
        serde_json::Value::Object(members) => {
            Json::Object(members.iter().map(|(k, v)| (k.clone(), convert(v))).collect())
        }
    }
}

fn parse(text: &str) -> Json {
    convert(&serde_json::from_str::<serde_json::Value>(text).unwrap())
}

fn errors_of(schema: &str, instance: &str, draft: Draft) -> Vec<ValidationError> {
    let schema = parse(schema);
    let instance = parse(instance);
    let cfg = Config::from_schema(&schema, Some(draft)).unwrap();
    match cfg.validate(&instance) {
        Ok(()) => Vec::new(),
        Err(errors) => errors,
    }
}

#[test]
fn wrong_type_is_one_error_at_the_root() {
    let errors = errors_of(r#"{"type": "integer"}"#, r#""string""#, Draft::Draft7);
    assert_eq!(errors.len(), 1);
    assert_eq!(path_to_string(&errors[0].instance_path), "/");
    assert_eq!(path_to_string(&errors[0].schema_path), "/type");
    assert_eq!(errors[0].msg, "Invalid type.");
}

#[test]
fn wrong_type_of_a_property_names_both_paths() {
    let errors = errors_of(
        r#"{"properties": {"foo": {"type":"integer"}}}"#,
        r#"{"foo":"bar"}"#,
        Draft::Draft7,
    );
    assert_eq!(errors.len(), 1);
    assert_eq!(path_to_string(&errors[0].instance_path), "/foo");
    assert_eq!(path_to_string(&errors[0].schema_path), "/properties/foo/type");
}

#[test]
fn additional_properties_are_named_in_one_error() {
    let errors = errors_of(
        r#"{"properties": {"foo": {"type":"integer"}}, "additionalProperties": false}"#,
        r#"{"foo": 42, "bar": 1, "baz": 2}"#,
        Draft::Draft7,
    );
    assert_eq!(errors.len(), 1);
    assert!(errors[0].msg.contains("\"bar\""));
    assert!(errors[0].msg.contains("\"baz\""));
    assert_eq!(path_to_string(&errors[0].schema_path), "/additionalProperties");
}

#[test]
fn reference_into_the_document_is_followed() {
    let errors = errors_of(
        r##"{"$ref": "#/defs/x", "defs": {"x": {"type": "boolean"}}}"##,
        "true",
        Draft::Draft7,
    );
    assert_eq!(errors.len(), 0);
    let errors = errors_of(
        r##"{"$ref": "#/defs/x", "defs": {"x": {"type": "boolean"}}}"##,
        "1",
        Draft::Draft7,
    );
    assert_eq!(errors.len(), 1);
    assert_eq!(path_to_string(&errors[0].schema_path), "/$ref/type");
    assert_eq!(path_to_string(&errors[0].instance_path), "/");
}

#[test]
fn all_of_puts_the_index_on_the_schema_path() {
    let errors = errors_of(
        r#"{"allOf": [{"type":"integer"}, {"minimum": 10}]}"#,
        "5",
        Draft::Draft7,
    );
    assert_eq!(errors.len(), 1);
    assert_eq!(path_to_string(&errors[0].schema_path), "/allOf/1/minimum");
    assert_eq!(errors[0].msg, "5 < minimum 10");
}

#[test]
fn if_then_else_reports_under_then_and_else() {
    let schema = r#"{"if":{"type":"integer"},"then":{"minimum":10},"else":{"type":"string"}}"#;
    let errors = errors_of(schema, "3", Draft::Draft7);
    assert_eq!(errors.len(), 1);
    assert_eq!(path_to_string(&errors[0].schema_path), "/then/minimum");
    let errors = errors_of(schema, r#""hi""#, Draft::Draft7);
    assert_eq!(errors.len(), 0);
    let errors = errors_of(schema, "true", Draft::Draft7);
    assert_eq!(errors.len(), 1);
    assert_eq!(path_to_string(&errors[0].schema_path), "/else/type");
}
