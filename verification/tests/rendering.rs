use jsonschema_valid::json::Json;
use jsonschema_valid::number::Number;
use jsonschema_valid::schemas;
use jsonschema_valid::Config;

fn convert(value: &serde_json::Value) -> Json {
    match value {
        serde_json::Value::Null => Json::Null,
        serde_json::Value::Bool(b) => Json::Bool(*b),
        serde_json::Value::Number(n) => {
            if let Some(u) = n.as_u64() {
                Json::Number(Number::PosInt(u))
            } else if let Some(i) = n.as_i64() {
                Json::Number(Number::NegInt(i))
            } else {
                Json::Number(Number::Float(n.as_f64().unwrap().to_bits()))
            }
        }
        serde_json::Value::String(s) => Json::String(s.clone()),
        serde_json::Value::Array(items) => Json::Array(items.iter().map(convert).collect()),
        serde_json::Value::Object(members) => {
            Json::Object(members.iter().map(|(k, v)| (k.clone(), convert(v))).collect())
        }
    }
}

fn parse(text: &str) -> Json {
    convert(&serde_json::from_str::<serde_json::Value>(text).unwrap())
}

#[test]
fn test_pretty_print_errors() {
    let schema = parse(
        r#"{ "properties": { "foo": { "type": "integer", "description": "HELLO" } } }"#,
    );
    let instance = parse(r#"{"foo": "string"}"#);
    let cfg = Config::from_schema(&schema, Some(schemas::Draft::Draft6)).unwrap();
    let validation = cfg.validate(&instance);

    if let Err(errors) = validation {
        for error in errors {
            let formatted = error.to_string();
            println!("{}", formatted);
            assert!(error.instance_path == vec!("foo"));
            assert!(error.schema_path == vec!("type", "foo", "properties"));

            assert!(formatted.contains("At instance path /foo"));
            assert!(formatted.contains("At schema path /properties/foo/type"));
            assert!(formatted.contains("Invalid type"));
            assert!(formatted.contains("HELLO"));
        }
    }
}

#[test]
fn test_additional_properties_errors() {
    let schema = parse(
        r#"{
            "properties": { "foo": { "type": "integer" } },
            "additionalProperties": false
        }"#,
    );
    let instance = parse(
        r#"{
            "foo": 42,
            "bar": "additional",
            "baz": "another additional"
        }"#,
    );
    let cfg = Config::from_schema(&schema, Some(schemas::Draft::Draft6)).unwrap();
    let validation = cfg.validate(&instance);

    if let Err(errors) = validation {
        for error in errors {
            let formatted = error.to_string();
            println!("{}", formatted);

            assert!(error.instance_path == (Vec::<String>::new()));
            assert!(error.schema_path == vec!("additionalProperties"));

            assert!(formatted
                .contains("Additional properties are not allowed. Found \"bar\", \"baz\"."));
            assert!(formatted.contains("At instance path /:"));
            assert!(formatted.contains("At schema path /additionalProperties"));
        }
    }
}

#[test]
fn pretty_print_reports_the_one_error() {
    let schema = parse(
        r#"{ "properties": { "foo": { "type": "integer", "description": "HELLO" } } }"#,
    );
    let instance = parse(r#"{"foo": "string"}"#);
    let cfg = Config::from_schema(&schema, Some(schemas::Draft::Draft6)).unwrap();
    let errors = cfg.validate(&instance).unwrap_err();
    assert_eq!(errors.len(), 1);
    let expected = "Invalid type.\nAt instance path /foo:\n  \"string\"\nAt schema path /properties/foo/type:\n  {\n    \"description\": \"HELLO\",\n    \"type\": \"integer\"\n  }\nDocumentation for this node:\n  HELLO\n";
    assert_eq!(errors[0].to_string(), expected);
}

#[test]
fn additional_properties_reports_the_one_error() {
    let schema = parse(
        r#"{"properties": { "foo": { "type": "integer" } }, "additionalProperties": false}"#,
    );
    let instance = parse(r#"{"foo": 42, "bar": "additional", "baz": "another additional"}"#);
    let cfg = Config::from_schema(&schema, Some(schemas::Draft::Draft6)).unwrap();
    let errors = cfg.validate(&instance).unwrap_err();
    assert_eq!(errors.len(), 1);
    assert_eq!(
        errors[0].msg,
        "Additional properties are not allowed. Found \"bar\", \"baz\"."
    );
}

#[test]
fn long_messages_are_wrapped_and_fragments_indented() {
    let schema = parse(r#"{"required": ["alpha_alpha_alpha", "beta_beta_beta_beta", "gamma_gamma_gamma", "delta_delta_delta", "epsilon_epsilon"]}"#);
    let instance = parse(r#"{"a": [1, {"b": null}], "c": "x\"y"}"#);
    let cfg = Config::from_schema(&schema, Some(schemas::Draft::Draft7)).unwrap();
    let errors = cfg.validate(&instance).unwrap_err();
    assert_eq!(errors.len(), 1);
    let text = errors[0].to_string();
    let first_line = text.lines().next().unwrap();
    assert!(first_line.len() <= 78);
    assert!(errors[0].msg.len() > 78);
    assert!(text.contains("At instance path /:\n  {\n    \"a\": [\n      1,\n      {\n        \"b\": null\n      }\n    ],\n    \"c\": \"x\\\"y\"\n  }\n"));
}
