use jsonschema_valid::error::path_to_string;
use jsonschema_valid::json::Json;
use jsonschema_valid::number::Number;
use jsonschema_valid::schemas::Draft;
use jsonschema_valid::{Config, ValidationError};

fn convert(value: &serde_json::Value) -> Json {
    match value {
        serde_json::Value::Null => Json::Null,
        serde_json::Value::Bool(b) => Json::Bool(*b),
        serde_json::Value::Number(n) => {
            if let Some(u) = n.as_u64() {
                Json::Number(Number::PosInt(u))
            } else if let Some(i) = n.as_i64() {
                Json::Number(Number::NegInt(i))
            } else {
                Json::Number(Number::Float(n.as_f64().unwrap().to_bits()))
            }
        }
        serde_json::Value::String(s) => Json::String(s.clone()),
        serde_json::Value::Array(items) => Json::Array(items.iter().map(convert).collect()),
        serde_json::Value::Object(members) => {
            Json::Object(members.iter().map(|(k, v)| (k.clone(), convert(v))).collect())
        }
    }
}

fn parse(text: &str) -> Json {
    convert(&serde_json::from_str::<serde_json::Value>(text).unwrap())
}

fn errors_of(schema: &str, instance: &str, draft: Draft) -> Vec<ValidationError> {
    let schema = parse(schema);
    let instance = parse(instance);
    let cfg = Config::from_schema(&schema, Some(draft)).unwrap();
    match cfg.validate(&instance) {
        Ok(()) => Vec::new(),
        Err(errors) => errors,
    }
}

fn check(draft: Draft, schema: &str, cases: &[(&str, bool)]) {
    let tree = parse(schema);
    let cfg = Config::from_schema(&tree, Some(draft)).unwrap();
    for (instance, expected) in cases.iter() {
        let verdict = cfg.validate(&parse(instance)).is_ok();
        assert_eq!(verdict, *expected, "schema {} instance {}", schema, instance);
    }
}

fn one_message(schema: &str, instance: &str, draft: Draft) -> String {
    let errors = errors_of(schema, instance, draft);
    assert_eq!(errors.len(), 1, "schema {} instance {}", schema, instance);
    errors[0].msg.clone()
}

const DRAFTS: [Draft; 3] = [Draft::Draft4, Draft::Draft6, Draft::Draft7];

#[test]
fn type_keyword() {
    for draft in DRAFTS {
        check(draft, r#"{"type": "integer"}"#, &[("1", true), ("1.0", true), ("1.1", false), (r#""foo""#, false), (r#""1""#, false), ("{}", false), ("[]", false), ("true", false), ("null", false)]);
        check(draft, r#"{"type": "number"}"#, &[("1", true), ("1.0", true), ("1.1", true), (r#""foo""#, false), ("{}", false), ("null", false)]);
        check(draft, r#"{"type": "string"}"#, &[("1", false), (r#""foo""#, true), (r#""""#, true), ("{}", false), ("[]", false)]);
        check(draft, r#"{"type": "object"}"#, &[("1", false), ("{}", true), ("[]", false), ("null", false)]);
        check(draft, r#"{"type": "array"}"#, &[("1", false), ("{}", false), ("[]", true), ("true", false)]);
        check(draft, r#"{"type": "boolean"}"#, &[("0", false), ("true", true), ("false", true), ("null", false), (r#""""#, false)]);
        check(draft, r#"{"type": "null"}"#, &[("0", false), ("false", false), ("null", true), (r#""""#, false)]);
        check(draft, r#"{"type": ["integer", "string"]}"#, &[("1", true), (r#""foo""#, true), ("1.1", false), ("{}", false), ("null", false)]);
        check(draft, r#"{"type": ["array", "object", "null"]}"#, &[("[1,2]", true), ("{}", true), ("null", true), ("123", false), (r#""foo""#, false)]);
    }
}

#[test]
fn enum_and_const_keywords() {
    for draft in DRAFTS {
        check(draft, r#"{"enum": [1, 2, 3]}"#, &[("1", true), ("4", false), ("2.0", true)]);
        check(draft, r#"{"enum": [6, "foo", [], true, {"foo": 12}]}"#, &[("[]", true), ("null", false), (r#"{"foo": false}"#, false), (r#"{"foo": 12}"#, true), (r#"{"foo": 12.0}"#, true)]);
        check(draft, r#"{"enum": [false]}"#, &[("false", true), ("0", false), ("0.0", false)]);
        check(draft, r#"{"enum": [[1]]}"#, &[("[1]", true), ("[1.0]", true), ("[true]", false)]);
    }
    check(Draft::Draft7, r#"{"const": 2}"#, &[("2", true), ("2.0", true), ("5", false), (r#""a""#, false)]);
    check(Draft::Draft6, r#"{"const": {"foo": "bar", "baz": "bax"}}"#, &[(r#"{"foo": "bar", "baz": "bax"}"#, true), (r#"{"baz": "bax", "foo": "bar"}"#, true), (r#"{"foo": "bar"}"#, false), ("[1, 2]", false)]);
    check(Draft::Draft7, r#"{"const": [{"foo": "bar"}]}"#, &[(r#"[{"foo": "bar"}]"#, true), ("[2]", false), ("[1, 2, 3]", false)]);
    check(Draft::Draft7, r#"{"const": null}"#, &[("null", true), ("0", false)]);
    check(Draft::Draft7, r#"{"const": false}"#, &[("false", true), ("0", false), ("0.0", false)]);
    check(Draft::Draft7, r#"{"const": 0}"#, &[("false", false), ("0", true), ("0.0", true), ("-0.0", true), ("{}", false), (r#""""#, false)]);
    check(Draft::Draft7, r#"{"const": -2.0}"#, &[("-2", true), ("2", false), ("-2.0", true), ("-2.00001", false)]);
    check(Draft::Draft7, r#"{"const": 9007199254740992}"#, &[("9007199254740992", true), ("9007199254740992.0", true), ("9007199254740993", true), ("9007199254740990", false)]);
    check(Draft::Draft4, r#"{"const": 2}"#, &[("5", true)]);
}

#[test]
fn numeric_bounds() {
    for draft in DRAFTS {
        check(draft, r#"{"minimum": 1.1}"#, &[("2.6", true), ("1.1", true), ("0.6", false), (r#""x""#, true)]);
        check(draft, r#"{"minimum": -2}"#, &[("-1", true), ("0", true), ("-2", true), ("-2.0", true), ("-2.0001", false), ("-3", false)]);
        check(draft, r#"{"maximum": 3.0}"#, &[("2.6", true), ("3.0", true), ("3", true), ("3.5", false), (r#""x""#, true)]);
        check(draft, r#"{"maximum": 300}"#, &[("299.97", true), ("300", true), ("300.00", true), ("300.5", false)]);
    }
    for draft in [Draft::Draft6, Draft::Draft7] {
        check(draft, r#"{"exclusiveMinimum": 1.1}"#, &[("1.2", true), ("1.1", false), ("0.6", false), (r#""x""#, true)]);
        check(draft, r#"{"exclusiveMaximum": 3.0}"#, &[("2.2", true), ("3.0", false), ("3", false), ("3.5", false), (r#""x""#, true)]);
    }
    check(Draft::Draft4, r#"{"minimum": 1.1, "exclusiveMinimum": true}"#, &[("1.2", true), ("1.1", false)]);
    check(Draft::Draft4, r#"{"minimum": 1.1, "exclusiveMinimum": false}"#, &[("1.2", true), ("1.1", true), ("1.0", false)]);
    check(Draft::Draft4, r#"{"maximum": 3.0, "exclusiveMaximum": true}"#, &[("2.2", true), ("3.0", false)]);
    check(Draft::Draft4, r#"{"maximum": 3.0, "exclusiveMaximum": false}"#, &[("3.0", true), ("3.1", false)]);
    check(Draft::Draft4, r#"{"exclusiveMaximum": 3.0}"#, &[("5", true)]);
}

#[test]
fn numeric_bound_messages() {
    assert_eq!(one_message(r#"{"minimum": 10}"#, "5", Draft::Draft7), "5 < minimum 10");
    assert_eq!(one_message(r#"{"maximum": -10}"#, "-5", Draft::Draft7), "-5 > maximum -10");
    assert_eq!(one_message(r#"{"exclusiveMinimum": 5}"#, "5", Draft::Draft7), "5 <= exclusiveMinimum 5");
    assert_eq!(one_message(r#"{"exclusiveMaximum": 5}"#, "7", Draft::Draft6), "7 >= exclusiveMaximum 5");
    assert_eq!(one_message(r#"{"minimum": 5, "exclusiveMinimum": true}"#, "5", Draft::Draft4), "5 <= exclusiveMinimum 5");
    assert_eq!(one_message(r#"{"maximum": 5, "exclusiveMaximum": true}"#, "5", Draft::Draft4), "5 >= exclusiveMaximum 5");
    assert_eq!(one_message(r#"{"minimum": 5}"#, "4", Draft::Draft4), "4 < minimum 5");
    assert_eq!(one_message(r#"{"maximum": 5}"#, "6", Draft::Draft4), "6 > maximum 5");
    assert_eq!(one_message(r#"{"minimum": 3.0}"#, "2.5", Draft::Draft7), "5*2^-1 < minimum 3.0");
    assert_eq!(one_message(r#"{"maximum": 0.0}"#, "1e10", Draft::Draft7), "10000000000.0 > maximum 0.0");
    assert_eq!(one_message(r#"{"maximum": -0.75}"#, "0", Draft::Draft7), "0 > maximum -3*2^-2");
    assert_eq!(one_message(r#"{"multipleOf": 3}"#, "10", Draft::Draft7), "10 not multipleOf 3");
    assert_eq!(one_message(r#"{"minItems": 2}"#, "[1]", Draft::Draft7), "1 < minItems 2");
    assert_eq!(one_message(r#"{"maxItems": 2}"#, "[1, 2, 3]", Draft::Draft7), "3 > maxItems 2");
    assert_eq!(one_message(r#"{"minLength": 2}"#, r#""a""#, Draft::Draft7), "1 < minLength 2");
    assert_eq!(one_message(r#"{"maxLength": 2}"#, r#""abc""#, Draft::Draft7), "3 > maxLength 2");
    assert_eq!(one_message(r#"{"minProperties": 1}"#, "{}", Draft::Draft7), "0 < minProperties 1");
    assert_eq!(one_message(r#"{"maxProperties": 1}"#, r#"{"a": 1, "b": 2}"#, Draft::Draft7), "2 > maxProperties 1");
}

#[test]
fn multiple_of_keyword() {
    for draft in DRAFTS {
        check(draft, r#"{"multipleOf": 2}"#, &[("10", true), ("7", false), ("-4", true), ("-3", false), ("0", true), (r#""foo""#, true)]);
        check(draft, r#"{"multipleOf": 1.5}"#, &[("0", true), ("4.5", true), ("35", false), ("3", true)]);
        check(draft, r#"{"multipleOf": 0.0001}"#, &[("0.0075", true), ("0.00751", false)]);
        check(draft, r#"{"multipleOf": 0.01}"#, &[("0.07", false), ("0.075", false), ("1", true), ("0.03", true)]);
        check(draft, r#"{"multipleOf": 2}"#, &[("4.0", true), ("5.0", false), ("4.5", false)]);
        check(draft, r#"{"multipleOf": 0}"#, &[("4", false), ("0", false)]);
        check(draft, r#"{"multipleOf": 0.0}"#, &[("4", false), ("4.5", false)]);
        check(draft, r#"{"multipleOf": -3}"#, &[("9", true), ("-9", true), ("10", false)]);
        check(draft, r#"{"multipleOf": 0.5}"#, &[("1e308", true), ("0.75", false), ("-2.5", true)]);
        check(draft, r#"{"multipleOf": 1e308}"#, &[("5e-324", true), ("1e307", false)]);
        check(draft, r#"{"multipleOf": 3.0}"#, &[("9007199254740993", false), ("9007199254740992", false), ("9007199254740990", true)]);
    }
}

#[test]
fn string_lengths_count_characters() {
    for draft in DRAFTS {
        check(draft, r#"{"maxLength": 2}"#, &[(r#""f""#, true), (r#""fo""#, true), (r#""foo""#, false), ("100", true), (r#""\uD83D\uDCA9\uD83D\uDCA9""#, true)]);
        check(draft, r#"{"minLength": 2}"#, &[(r#""foo""#, true), (r#""fo""#, true), (r#""f""#, false), ("1", true), (r#""\uD83D\uDCA9""#, false)]);
        check(draft, r#"{"minLength": 2.0}"#, &[(r#""fo""#, true), (r#""f""#, false)]);
        check(draft, r#"{"maxLength": 2.5}"#, &[(r#""fo""#, true), (r#""foo""#, false)]);
        check(draft, r#"{"minLength": -1}"#, &[(r#""""#, true)]);
    }
}

#[test]
fn pattern_keyword() {
    for draft in DRAFTS {
        check(draft, r#"{"pattern": "^a*$"}"#, &[(r#""aaa""#, true), (r#""abc""#, false), ("true", true), ("123", true)]);
        check(draft, r#"{"pattern": "a+"}"#, &[(r#""xxaayy""#, true), (r#""xxyy""#, false)]);
    }
    assert_eq!(one_message(r#"{"pattern": "^a*$"}"#, r#""abc""#, Draft::Draft7), "Does not match pattern.");
    let errors = errors_of(r#"{"pattern": "(unclosed"}"#, r#""abc""#, Draft::Draft7);
    assert_eq!(errors.len(), 1);
    assert_eq!(errors[0].msg, "Invalid regex.");
    assert!(errors[0].instance.is_none());
    assert_eq!(path_to_string(&errors[0].schema_path), "/pattern");
    assert!(errors_of(r#"{"pattern": "(unclosed"}"#, "3", Draft::Draft7).is_empty());
}

#[test]
fn array_keywords() {
    for draft in DRAFTS {
        check(draft, r#"{"items": {"type": "integer"}}"#, &[("[1, 2, 3]", true), (r#"[1, "x"]"#, false), (r#"{"foo": "bar"}"#, true), ("[]", true)]);
        check(draft, r#"{"items": [{"type": "integer"}, {"type": "string"}]}"#, &[(r#"[1, "foo"]"#, true), (r#"["foo", 1]"#, false), ("[1]", true), (r#"[1, "foo", true]"#, true), ("[]", true)]);
        check(draft, r#"{"items": [{}], "additionalItems": {"type": "integer"}}"#, &[("[null, 2, 3, 4]", true), (r#"[null, 2, 3, "foo"]"#, false)]);
        check(draft, r#"{"items": {}, "additionalItems": false}"#, &[("[1, 2, 3, 4, 5]", true)]);
        check(draft, r#"{"items": [{}, {}, {}], "additionalItems": false}"#, &[("[]", true), ("[1]", true), ("[1, 2, 3]", true), ("[1, 2, 3, 4]", false)]);
        check(draft, r#"{"additionalItems": false}"#, &[("[1, 2, 3, 4, 5]", true)]);
        check(draft, r#"{"items": [{"type": "integer"}]}"#, &[(r#"[1, "foo", false]"#, true)]);
        check(draft, r#"{"uniqueItems": true}"#, &[("[1, 2]", true), ("[1, 1]", false), ("[1.0, 1.00, 1]", false), (r#"[{"foo": "bar"}, {"foo": "baz"}]"#, true), (r#"[{"foo": "bar"}, {"foo": "bar"}]"#, false), (r#"[["foo"], ["foo"]]"#, false), ("[1, true]", true), (r#"[{}, [1], true, null, 1]"#, true), (r#"[{}, [1], true, null, {}, 1]"#, false)]);
    }
    for draft in [Draft::Draft6, Draft::Draft7] {
        check(draft, r#"{"items": true}"#, &[(r#"[1, "foo", true]"#, true), ("[]", true)]);
        check(draft, r#"{"items": false}"#, &[(r#"[1, "foo", true]"#, false), ("[]", true)]);
        check(draft, r#"{"items": [true, false]}"#, &[("[1]", true), (r#"[1, "foo"]"#, false), ("[]", true)]);
        check(draft, r#"{"contains": {"minimum": 5}}"#, &[("[3, 4, 5]", true), ("[3, 4, 6]", true), ("[3, 4, 5, 6]", true), ("[2, 3, 4]", false), ("[]", false), ("{}", true)]);
        check(draft, r#"{"contains": {"const": 5}}"#, &[("[3, 4, 5]", true), ("[3, 4, 5, 5]", true), ("[1, 2, 3, 4]", false)]);
        check(draft, r#"{"contains": true}"#, &[(r#"["foo"]"#, true), ("[]", false)]);
        check(draft, r#"{"contains": false}"#, &[(r#"["foo"]"#, false), ("[]", false), (r#""contains does not apply to strings""#, true)]);
    }
    check(Draft::Draft4, r#"{"items": true}"#, &[(r#"[1, "foo", true]"#, true)]);
    check(Draft::Draft4, r#"{"items": false}"#, &[(r#"[1, "foo", true]"#, true)]);
    assert_eq!(one_message(r#"{"items": [{}], "additionalItems": false}"#, "[1, 2]", Draft::Draft7), "Additional items are not allowed.");
    assert_eq!(one_message(r#"{"uniqueItems": true}"#, "[1, 1]", Draft::Draft7), "Items are not unique");
    assert_eq!(one_message(r#"{"contains": {"const": 5}}"#, "[1]", Draft::Draft7), "No items in array valid under the given schema.");
    let errors = errors_of(r#"{"items": [{"type": "integer"}, {"type": "string"}]}"#, r#"["foo", 1]"#, Draft::Draft7);
    assert_eq!(errors.len(), 2);
    assert_eq!(path_to_string(&errors[0].instance_path), "/0");
    assert_eq!(path_to_string(&errors[0].schema_path), "/items/0/type");
    assert_eq!(path_to_string(&errors[1].instance_path), "/1");
    assert_eq!(path_to_string(&errors[1].schema_path), "/items/1/type");
    let errors = errors_of(r#"{"items": {"type": "integer"}}"#, r#"[1, "a", 2, null]"#, Draft::Draft7);
    assert_eq!(errors.len(), 2);
    assert_eq!(path_to_string(&errors[0].instance_path), "/1");
    assert_eq!(path_to_string(&errors[1].instance_path), "/3");
    assert_eq!(path_to_string(&errors[1].schema_path), "/items/type");
    let errors = errors_of(r#"{"items": [{}], "additionalItems": {"type": "integer"}}"#, r#"[null, 2, "foo", 11, []]"#, Draft::Draft7);
    assert_eq!(errors.len(), 2);
    assert_eq!(path_to_string(&errors[0].instance_path), "/2");
    assert_eq!(path_to_string(&errors[0].schema_path), "/additionalItems/type");
    assert_eq!(path_to_string(&errors[1].instance_path), "/4");
}

#[test]
fn object_keywords() {
    for draft in DRAFTS {
        check(draft, r#"{"properties": {"foo": {"type": "integer"}, "bar": {"type": "string"}}}"#, &[(r#"{"foo": 1, "bar": "baz"}"#, true), (r#"{"foo": 1, "bar": {}}"#, false), (r#"{"foo": [], "bar": {}}"#, false), (r#"{"quux": []}"#, true), ("[]", true), ("12", true)]);
        check(draft, r#"{"required": ["foo"], "properties": {"foo": {}, "bar": {}}}"#, &[(r#"{"foo": 1}"#, true), (r#"{"bar": 1}"#, false), ("[]", true), (r#""""#, true), ("12", true)]);
        check(draft, r#"{"properties": {"foo": {}}}"#, &[("{}", true)]);
        check(draft, r#"{"maxProperties": 2}"#, &[(r#"{"foo": 1}"#, true), (r#"{"foo": 1, "bar": 2}"#, true), (r#"{"foo": 1, "bar": 2, "baz": 3}"#, false), ("[1, 2, 3]", true), (r#""foobar""#, true), ("12", true)]);
        check(draft, r#"{"minProperties": 1}"#, &[(r#"{"foo": 1, "bar": 2}"#, true), (r#"{"foo": 1}"#, true), ("{}", false), ("[]", true), (r#""""#, true), ("12", true)]);
        check(draft, r#"{"patternProperties": {"f.*o": {"type": "integer"}}}"#, &[(r#"{"foo": 1}"#, true), (r#"{"foo": 1, "foooooo": 2}"#, true), (r#"{"foo": "bar", "fooooo": 2}"#, false), (r#"{"foo": "bar", "foooooo": "baz"}"#, false), ("12", true)]);
        check(draft, r#"{"patternProperties": {"a*": {"type": "integer"}, "aaa*": {"maximum": 20}}}"#, &[(r#"{"a": 21}"#, true), (r#"{"aaaa": 18}"#, true), (r#"{"a": 21, "aaaa": 18}"#, true), (r#"{"a": "bar"}"#, false), (r#"{"aaaa": 31}"#, false), (r#"{"aaa": "foo", "aaaa": 31}"#, false)]);
        check(draft, r#"{"properties": {"foo": {}, "bar": {}}, "patternProperties": {"^v": {}}, "additionalProperties": false}"#, &[(r#"{"foo": 1}"#, true), (r#"{"foo": 1, "bar": 2, "quux": "boom"}"#, false), ("[1, 2, 3]", true), (r#""foobarbaz""#, true), ("12", true), (r#"{"foo": 1, "vroom": 2}"#, true)]);
        check(draft, r#"{"properties": {"foo": {}, "bar": {}}, "additionalProperties": {"type": "boolean"}}"#, &[(r#"{"foo": 1}"#, true), (r#"{"foo": 1, "bar": 2, "quux": true}"#, true), (r#"{"foo": 1, "bar": 2, "quux": 12}"#, false)]);
        check(draft, r#"{"additionalProperties": {"type": "boolean"}}"#, &[(r#"{"foo": true}"#, true), (r#"{"foo": 1}"#, false)]);
        check(draft, r#"{"properties": {"foo": {}, "bar": {}}}"#, &[(r#"{"foo": 1, "bar": 2, "quux": true}"#, true)]);
        check(draft, r#"{"dependencies": {"bar": ["foo"]}}"#, &[("{}", true), (r#"{"foo": 1}"#, true), (r#"{"foo": 1, "bar": 2}"#, true), (r#"{"bar": 2}"#, false), (r#"["bar"]"#, true), (r#""foobar""#, true), ("12", true)]);
        check(draft, r#"{"dependencies": {"quux": ["foo", "bar"]}}"#, &[("{}", true), (r#"{"foo": 1, "bar": 2}"#, true), (r#"{"foo": 1, "bar": 2, "quux": 3}"#, true), (r#"{"foo": 1, "quux": 2}"#, false), (r#"{"bar": 1, "quux": 2}"#, false), (r#"{"quux": 1}"#, false)]);
        check(draft, r#"{"dependencies": {"bar": {"properties": {"foo": {"type": "integer"}, "bar": {"type": "integer"}}}}}"#, &[(r#"{"foo": 1, "bar": 2}"#, true), (r#"{"foo": "quux"}"#, true), (r#"{"foo": "quux", "bar": 2}"#, false), (r#"{"foo": 2, "bar": "quux"}"#, false), (r#"{"foo": "quux", "bar": "quux"}"#, false)]);
    }
    for draft in [Draft::Draft6, Draft::Draft7] {
        check(draft, r#"{"propertyNames": {"maxLength": 3}}"#, &[(r#"{"f": {}, "foo": {}}"#, true), (r#"{"foo": {}, "foobar": {}}"#, false), ("{}", true), ("[1, 2, 3, 4]", true), (r#""foobar""#, true), ("12", true)]);
        check(draft, r#"{"propertyNames": true}"#, &[(r#"{"foo": 1}"#, true), ("{}", true)]);
        check(draft, r#"{"propertyNames": false}"#, &[(r#"{"foo": 1}"#, false), ("{}", true)]);
        check(draft, r#"{"dependencies": {"foo": true, "bar": false}}"#, &[(r#"{"foo": 1}"#, true), (r#"{"bar": 2}"#, false), (r#"{"foo": 1, "bar": 2}"#, false), ("{}", true)]);
        check(draft, r#"{"dependencies": {"bar": []}}"#, &[("{}", true), (r#"{"bar": 2}"#, true), ("1", true)]);
        check(draft, r#"{"properties": {"foo": true, "bar": false}}"#, &[("{}", true), (r#"{"foo": 1}"#, true), (r#"{"bar": 2}"#, false), (r#"{"foo": 1, "bar": 2}"#, false)]);
        check(draft, r#"{"patternProperties": {"f.*": true, "b.*": false}}"#, &[(r#"{"foo": 1}"#, true), (r#"{"bar": 2}"#, false), (r#"{"foo": 1, "bar": 2}"#, false), ("{}", true)]);
    }
    assert_eq!(one_message(r#"{"required": ["a", "b", "c"]}"#, r#"{"b": 1}"#, Draft::Draft7), "Required properties \"a\", \"c\" are missing");
    assert_eq!(one_message(r#"{"dependencies": {"bar": ["foo"]}}"#, r#"{"bar": 2}"#, Draft::Draft7), "Invalid dependencies");
    let errors = errors_of(r#"{"dependencies": {"bar": {"required": ["foo"]}}}"#, r#"{"bar": 2}"#, Draft::Draft7);
    assert_eq!(errors.len(), 1);
    assert_eq!(path_to_string(&errors[0].schema_path), "/dependencies/bar/required");
    let errors = errors_of(r#"{"patternProperties": {"^a": {"type": "integer"}}}"#, r#"{"ab": "x", "b": "y", "ac": null}"#, Draft::Draft7);
    assert_eq!(errors.len(), 2);
    assert_eq!(path_to_string(&errors[0].instance_path), "/ab");
    assert_eq!(path_to_string(&errors[0].schema_path), "/patternProperties/^a/type");
    assert_eq!(path_to_string(&errors[1].instance_path), "/ac");
    let errors = errors_of(r#"{"patternProperties": {"(": {"type": "integer"}, "a": {"type": "integer"}}}"#, r#"{"a": "x"}"#, Draft::Draft7);
    assert_eq!(errors.len(), 2);
    assert_eq!(errors[0].msg, "Invalid regex.");
    assert_eq!(path_to_string(&errors[0].schema_path), "/patternProperties/(");
    assert_eq!(errors[1].msg, "Invalid type.");
    let errors = errors_of(r#"{"additionalProperties": {"type": "integer"}, "properties": {"a": {}}, "patternProperties": {"^x": {}, "(": {}}}"#, r#"{"a": "s", "b": "t", "xy": "u", "(": "v"}"#, Draft::Draft7);
    assert_eq!(errors.len(), 3);
    assert_eq!(errors[0].msg, "Invalid type.");
    assert_eq!(path_to_string(&errors[0].instance_path), "/(");
    assert_eq!(path_to_string(&errors[0].schema_path), "/additionalProperties/type");
    assert_eq!(path_to_string(&errors[1].instance_path), "/b");
    assert_eq!(errors[2].msg, "Invalid regex.");
    let errors = errors_of(r#"{"propertyNames": {"maxLength": 1}}"#, r#"{"a": 1, "bc": 2, "def": 3}"#, Draft::Draft7);
    assert_eq!(errors.len(), 2);
    assert_eq!(errors[0].msg, "2 > maxLength 1");
    assert_eq!(path_to_string(&errors[0].instance_path), "/");
    assert_eq!(path_to_string(&errors[0].schema_path), "/propertyNames/maxLength");
    assert!(matches!(errors[1].instance, Some(Json::String(ref s)) if s == "def"));
}

#[test]
fn combining_keywords() {
    for draft in DRAFTS {
        check(draft, r#"{"allOf": [{"properties": {"bar": {"type": "integer"}}, "required": ["bar"]}, {"properties": {"foo": {"type": "string"}}, "required": ["foo"]}]}"#, &[(r#"{"foo": "baz", "bar": 2}"#, true), (r#"{"foo": "baz"}"#, false), (r#"{"bar": 2}"#, false), (r#"{"foo": "baz", "bar": "quux"}"#, false)]);
        check(draft, r#"{"allOf": [{"maximum": 30}, {"minimum": 20}]}"#, &[("25", true), ("35", false)]);
        check(draft, r#"{"anyOf": [{"type": "integer"}, {"minimum": 2}]}"#, &[("1", true), ("2.5", true), ("3", true), ("1.5", false)]);
        check(draft, r#"{"type": "string", "anyOf": [{"maxLength": 2}, {"minLength": 4}]}"#, &[("3", false), (r#""foobar""#, true), (r#""foo""#, false)]);
        check(draft, r#"{"oneOf": [{"type": "integer"}, {"minimum": 2}]}"#, &[("1", true), ("2.5", true), ("3", false), ("1.5", false)]);
        check(draft, r#"{"oneOf": [{"minimum": 0}, {"minimum": 1}, {"minimum": 2}]}"#, &[("0", true), ("1", false), ("2", false), ("-1", false)]);
        check(draft, r#"{"not": {"type": "integer"}}"#, &[(r#""foo""#, true), ("1", false)]);
        check(draft, r#"{"not": {"type": ["integer", "boolean"]}}"#, &[(r#""foo""#, true), ("1", false), ("true", false)]);
        check(draft, r#"{"properties": {"foo": {"not": {}}}}"#, &[(r#"{"foo": 1, "bar": 2}"#, false), (r#"{"bar": 1, "baz": 2}"#, true)]);
        check(draft, r#"{"allOf": []}"#, &[("1", true)]);
        check(draft, r#"{"anyOf": []}"#, &[("1", false)]);
        check(draft, r#"{"oneOf": []}"#, &[("1", false)]);
    }
    for draft in [Draft::Draft6, Draft::Draft7] {
        check(draft, r#"{"allOf": [true, true]}"#, &[(r#""foo""#, true)]);
        check(draft, r#"{"allOf": [true, false]}"#, &[(r#""foo""#, false)]);
        check(draft, r#"{"anyOf": [true, false]}"#, &[(r#""foo""#, true)]);
        check(draft, r#"{"anyOf": [false, false]}"#, &[(r#""foo""#, false)]);
        check(draft, r#"{"oneOf": [true, true, true]}"#, &[(r#""foo""#, false)]);
        check(draft, r#"{"oneOf": [true, false, false]}"#, &[(r#""foo""#, true)]);
        check(draft, r#"{"oneOf": [false, false, false]}"#, &[(r#""foo""#, false)]);
        check(draft, r#"{"not": true}"#, &[(r#""foo""#, false)]);
        check(draft, r#"{"not": false}"#, &[(r#""foo""#, true)]);
    }
    check(Draft::Draft7, "true", &[("1", true), (r#""foo""#, true), ("null", true), ("{}", true), ("[]", true)]);
    check(Draft::Draft7, "false", &[("1", false), (r#""foo""#, false), ("null", false), ("{}", false), ("[]", false)]);
    assert_eq!(one_message("false", "1", Draft::Draft7), "false schema always fails");
    assert_eq!(one_message(r#"{"anyOf": [{"type": "string"}]}"#, "1", Draft::Draft7), "anyOf failed");
    assert_eq!(one_message(r#"{"oneOf": [{"type": "string"}]}"#, "1", Draft::Draft7), "nothing matched in oneOf");
    assert_eq!(one_message(r#"{"oneOf": [{}, {}]}"#, "1", Draft::Draft7), "More than one matched in oneOf");
    assert_eq!(one_message(r#"{"not": {}}"#, "1", Draft::Draft7), "not");
    assert_eq!(one_message(r#"{"enum": [2]}"#, "1", Draft::Draft7), "Value is not in enum.");
    assert_eq!(one_message(r#"{"const": 2}"#, "1", Draft::Draft7), "const doesn't match.");
    let errors = errors_of(r#"{"allOf": [false]}"#, "1", Draft::Draft7);
    assert_eq!(errors.len(), 1);
    assert_eq!(errors[0].msg, "not");
    assert_eq!(path_to_string(&errors[0].schema_path), "/allOf/0/not");
    let errors = errors_of(r#"{"allOf": [false]}"#, "1", Draft::Draft4);
    assert_eq!(errors[0].msg, "false schema always fails");
    assert_eq!(path_to_string(&errors[0].schema_path), "/allOf/0");
    let errors = errors_of(r#"{"properties": {"a": 3}}"#, r#"{"a": 1}"#, Draft::Draft7);
    assert_eq!(errors.len(), 1);
    assert_eq!(errors[0].msg, "Invalid schema. Must be boolean or object.");
    assert!(errors[0].instance.is_none());
}

#[test]
fn if_then_else_keyword() {
    check(Draft::Draft7, r#"{"if": {"const": 0}}"#, &[("0", true), (r#""hello""#, true)]);
    check(Draft::Draft7, r#"{"then": {"const": 0}}"#, &[("0", true), (r#""hello""#, true)]);
    check(Draft::Draft7, r#"{"else": {"const": 0}}"#, &[("0", true), (r#""hello""#, true)]);
    check(Draft::Draft7, r#"{"if": {"exclusiveMaximum": 0}, "then": {"minimum": -10}}"#, &[("-1", true), ("-100", false), ("3", true)]);
    check(Draft::Draft7, r#"{"if": {"exclusiveMaximum": 0}, "else": {"multipleOf": 2}}"#, &[("-1", true), ("4", true), ("3", false)]);
    check(Draft::Draft7, r#"{"if": {"exclusiveMaximum": 0}, "then": {"minimum": -10}, "else": {"multipleOf": 2}}"#, &[("-1", true), ("-100", false), ("4", true), ("3", false)]);
    check(Draft::Draft6, r#"{"if": {"exclusiveMaximum": 0}, "then": {"minimum": -10}, "else": {"multipleOf": 2}}"#, &[("-100", true), ("3", true)]);
}

#[test]
fn unknown_drafts_keywords_are_skipped() {
    check(Draft::Draft4, r#"{"contains": {"const": 1}, "propertyNames": false, "if": false, "exclusiveMinimum": 5}"#, &[("[2]", true), (r#"{"a": 1}"#, true), ("1", true)]);
    check(Draft::Draft6, r#"{"if": true, "then": false}"#, &[("1", true)]);
}

fn negated(times: usize) -> Json {
    let mut schema = Json::Object(Vec::new());
    for _ in 0..times {
        schema = Json::Object(vec![("not".to_string(), schema)]);
    }
    schema
}

#[test]
fn nesting_is_bounded() {
    let deep = negated(600);
    let cfg = Config::from_schema(&deep, Some(Draft::Draft7)).unwrap();
    let first = cfg.validate(&Json::Null).is_ok();
    let deeper = negated(601);
    let cfg = Config::from_schema(&deeper, Some(Draft::Draft7)).unwrap();
    assert_eq!(cfg.validate(&Json::Null).is_ok(), first);
    let shallow = negated(80);
    let cfg = Config::from_schema(&shallow, Some(Draft::Draft7)).unwrap();
    assert!(cfg.validate(&Json::Null).is_ok());
    let shallow = negated(81);
    let cfg = Config::from_schema(&shallow, Some(Draft::Draft7)).unwrap();
    assert!(cfg.validate(&Json::Null).is_err());
    let looping = r##"{"$ref": "#"}"##;
    let errors = errors_of(looping, "1", Draft::Draft7);
    assert_eq!(errors.len(), 1);
    assert_eq!(errors[0].msg, "Schemas are nested too deeply.");
    assert!(path_to_string(&errors[0].schema_path).starts_with("/$ref/$ref/$ref"));
}
