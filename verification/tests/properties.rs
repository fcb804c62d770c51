use jsonschema_valid::json::Json;
use jsonschema_valid::number::Number;
use jsonschema_valid::schemas::Draft;
use jsonschema_valid::unique::{has_unique_elements, hash_value};
use jsonschema_valid::util::json_equal;
use jsonschema_valid::{validate, Config};

fn convert(value: &serde_json::Value) -> Json {
    match value {
        serde_json::Value::Null => Json::Null,
        serde_json::Value::Bool(b) => Json::Bool(*b),
        serde_json::Value::Number(n) => {
            if let Some(u) = n.as_u64() {
                Json::Number(Number::PosInt(u))
            } else if let Some(i) = n.as_i64() {
                Json::Number(Number::NegInt(i))
            } else {
                Json::Number(Number::Float(n.as_f64().unwrap().to_bits()))
            }
        }
        serde_json::Value::String(s) => Json::String(s.clone()),
        serde_json::Value::Array(items) => Json::Array(items.iter().map(convert).collect()),
        serde_json::Value::Object(members) => {
            Json::Object(members.iter().map(|(k, v)| (k.clone(), convert(v))).collect())
        }
    }
}

fn parse(text: &str) -> Json {
    convert(&serde_json::from_str::<serde_json::Value>(text).unwrap())
}

fn is_valid(schema: &str, instance: &str, draft: Draft) -> bool {
    let schema = parse(schema);
    let instance = parse(instance);
    let cfg = Config::from_schema(&schema, Some(draft)).unwrap();
    assert!(cfg.validate_schema().is_ok(), "schema is not valid: {:?}", schema);
    cfg.validate(&instance).is_ok()
}

const DRAFT4: &str = r##"{"id":"http://json-schema.org/draft-04/schema#","$schema":"http://json-schema.org/draft-04/schema#","description":"Core schema meta-schema","definitions":{"schemaArray":{"type":"array","minItems":1,"items":{"$ref":"#"}},"positiveInteger":{"type":"integer","minimum":0},"positiveIntegerDefault0":{"allOf":[{"$ref":"#/definitions/positiveInteger"},{"default":0}]},"simpleTypes":{"enum":["array","boolean","integer","null","number","object","string"]},"stringArray":{"type":"array","items":{"type":"string"},"minItems":1,"uniqueItems":true}},"type":"object","properties":{"id":{"type":"string"},"$schema":{"type":"string"},"title":{"type":"string"},"description":{"type":"string"},"default":{},"multipleOf":{"type":"number","minimum":0,"exclusiveMinimum":true},"maximum":{"type":"number"},"exclusiveMaximum":{"type":"boolean","default":false},"minimum":{"type":"number"},"exclusiveMinimum":{"type":"boolean","default":false},"maxLength":{"$ref":"#/definitions/positiveInteger"},"minLength":{"$ref":"#/definitions/positiveIntegerDefault0"},"pattern":{"type":"string","format":"regex"},"additionalItems":{"anyOf":[{"type":"boolean"},{"$ref":"#"}],"default":{}},"items":{"anyOf":[{"$ref":"#"},{"$ref":"#/definitions/schemaArray"}],"default":{}},"maxItems":{"$ref":"#/definitions/positiveInteger"},"minItems":{"$ref":"#/definitions/positiveIntegerDefault0"},"uniqueItems":{"type":"boolean","default":false},"maxProperties":{"$ref":"#/definitions/positiveInteger"},"minProperties":{"$ref":"#/definitions/positiveIntegerDefault0"},"required":{"$ref":"#/definitions/stringArray"},"additionalProperties":{"anyOf":[{"type":"boolean"},{"$ref":"#"}],"default":{}},"definitions":{"type":"object","additionalProperties":{"$ref":"#"},"default":{}},"properties":{"type":"object","additionalProperties":{"$ref":"#"},"default":{}},"patternProperties":{"type":"object","additionalProperties":{"$ref":"#"},"default":{}},"dependencies":{"type":"object","additionalProperties":{"anyOf":[{"$ref":"#"},{"$ref":"#/definitions/stringArray"}]}},"enum":{"type":"array","minItems":1,"uniqueItems":true},"type":{"anyOf":[{"$ref":"#/definitions/simpleTypes"},{"type":"array","items":{"$ref":"#/definitions/simpleTypes"},"minItems":1,"uniqueItems":true}]},"format":{"type":"string"},"allOf":{"$ref":"#/definitions/schemaArray"},"anyOf":{"$ref":"#/definitions/schemaArray"},"oneOf":{"$ref":"#/definitions/schemaArray"},"not":{"$ref":"#"}},"dependencies":{"exclusiveMaximum":["maximum"],"exclusiveMinimum":["minimum"]},"default":{}}"##;
const DRAFT6: &str = r##"{"$schema":"http://json-schema.org/draft-06/schema#","$id":"http://json-schema.org/draft-06/schema#","title":"Core schema meta-schema","definitions":{"schemaArray":{"type":"array","minItems":1,"items":{"$ref":"#"}},"nonNegativeInteger":{"type":"integer","minimum":0},"nonNegativeIntegerDefault0":{"allOf":[{"$ref":"#/definitions/nonNegativeInteger"},{"default":0}]},"simpleTypes":{"enum":["array","boolean","integer","null","number","object","string"]},"stringArray":{"type":"array","items":{"type":"string"},"uniqueItems":true,"default":[]}},"type":["object","boolean"],"properties":{"$id":{"type":"string","format":"uri-reference"},"$schema":{"type":"string","format":"uri"},"$ref":{"type":"string","format":"uri-reference"},"title":{"type":"string"},"description":{"type":"string"},"default":{},"examples":{"type":"array","items":{}},"multipleOf":{"type":"number","exclusiveMinimum":0},"maximum":{"type":"number"},"exclusiveMaximum":{"type":"number"},"minimum":{"type":"number"},"exclusiveMinimum":{"type":"number"},"maxLength":{"$ref":"#/definitions/nonNegativeInteger"},"minLength":{"$ref":"#/definitions/nonNegativeIntegerDefault0"},"pattern":{"type":"string","format":"regex"},"additionalItems":{"$ref":"#"},"items":{"anyOf":[{"$ref":"#"},{"$ref":"#/definitions/schemaArray"}],"default":{}},"maxItems":{"$ref":"#/definitions/nonNegativeInteger"},"minItems":{"$ref":"#/definitions/nonNegativeIntegerDefault0"},"uniqueItems":{"type":"boolean","default":false},"contains":{"$ref":"#"},"maxProperties":{"$ref":"#/definitions/nonNegativeInteger"},"minProperties":{"$ref":"#/definitions/nonNegativeIntegerDefault0"},"required":{"$ref":"#/definitions/stringArray"},"additionalProperties":{"$ref":"#"},"definitions":{"type":"object","additionalProperties":{"$ref":"#"},"default":{}},"properties":{"type":"object","additionalProperties":{"$ref":"#"},"default":{}},"patternProperties":{"type":"object","additionalProperties":{"$ref":"#"},"default":{}},"dependencies":{"type":"object","additionalProperties":{"anyOf":[{"$ref":"#"},{"$ref":"#/definitions/stringArray"}]}},"propertyNames":{"$ref":"#"},"const":{},"enum":{"type":"array","minItems":1,"uniqueItems":true},"type":{"anyOf":[{"$ref":"#/definitions/simpleTypes"},{"type":"array","items":{"$ref":"#/definitions/simpleTypes"},"minItems":1,"uniqueItems":true}]},"format":{"type":"string"},"allOf":{"$ref":"#/definitions/schemaArray"},"anyOf":{"$ref":"#/definitions/schemaArray"},"oneOf":{"$ref":"#/definitions/schemaArray"},"not":{"$ref":"#"}},"default":{}}"##;
const DRAFT7: &str = r##"{"$schema":"http://json-schema.org/draft-07/schema#","$id":"http://json-schema.org/draft-07/schema#","title":"Core schema meta-schema","definitions":{"schemaArray":{"type":"array","minItems":1,"items":{"$ref":"#"}},"nonNegativeInteger":{"type":"integer","minimum":0},"nonNegativeIntegerDefault0":{"allOf":[{"$ref":"#/definitions/nonNegativeInteger"},{"default":0}]},"simpleTypes":{"enum":["array","boolean","integer","null","number","object","string"]},"stringArray":{"type":"array","items":{"type":"string"},"uniqueItems":true,"default":[]}},"type":["object","boolean"],"properties":{"$id":{"type":"string","format":"uri-reference"},"$schema":{"type":"string","format":"uri"},"$ref":{"type":"string","format":"uri-reference"},"$comment":{"type":"string"},"title":{"type":"string"},"description":{"type":"string"},"default":true,"readOnly":{"type":"boolean","default":false},"examples":{"type":"array","items":true},"multipleOf":{"type":"number","exclusiveMinimum":0},"maximum":{"type":"number"},"exclusiveMaximum":{"type":"number"},"minimum":{"type":"number"},"exclusiveMinimum":{"type":"number"},"maxLength":{"$ref":"#/definitions/nonNegativeInteger"},"minLength":{"$ref":"#/definitions/nonNegativeIntegerDefault0"},"pattern":{"type":"string","format":"regex"},"additionalItems":{"$ref":"#"},"items":{"anyOf":[{"$ref":"#"},{"$ref":"#/definitions/schemaArray"}],"default":true},"maxItems":{"$ref":"#/definitions/nonNegativeInteger"},"minItems":{"$ref":"#/definitions/nonNegativeIntegerDefault0"},"uniqueItems":{"type":"boolean","default":false},"contains":{"$ref":"#"},"maxProperties":{"$ref":"#/definitions/nonNegativeInteger"},"minProperties":{"$ref":"#/definitions/nonNegativeIntegerDefault0"},"required":{"$ref":"#/definitions/stringArray"},"additionalProperties":{"$ref":"#"},"definitions":{"type":"object","additionalProperties":{"$ref":"#"},"default":{}},"properties":{"type":"object","additionalProperties":{"$ref":"#"},"default":{}},"patternProperties":{"type":"object","additionalProperties":{"$ref":"#"},"propertyNames":{"format":"regex"},"default":{}},"dependencies":{"type":"object","additionalProperties":{"anyOf":[{"$ref":"#"},{"$ref":"#/definitions/stringArray"}]}},"propertyNames":{"$ref":"#"},"const":true,"enum":{"type":"array","items":true},"type":{"anyOf":[{"$ref":"#/definitions/simpleTypes"},{"type":"array","items":{"$ref":"#/definitions/simpleTypes"},"minItems":1,"uniqueItems":true}]},"format":{"type":"string"},"contentMediaType":{"type":"string"},"contentEncoding":{"type":"string"},"if":{"$ref":"#"},"then":{"$ref":"#"},"else":{"$ref":"#"},"allOf":{"$ref":"#/definitions/schemaArray"},"anyOf":{"$ref":"#/definitions/schemaArray"},"oneOf":{"$ref":"#/definitions/schemaArray"},"not":{"$ref":"#"}},"default":true}"##;

#[test]
fn validation_gives_the_same_answer_every_time() {
    let schema = parse(r#"{"properties": {"a": {"type": "integer"}, "b": {"minimum": 3}}, "required": ["c"]}"#);
    let instance = parse(r#"{"a": "x", "b": 1}"#);
    let cfg = Config::from_schema(&schema, None).unwrap();
    let first = cfg.validate(&instance).unwrap_err();
    for _ in 0..5 {
        let again = validate(&cfg, &instance).unwrap_err();
        assert_eq!(again.len(), first.len());
        for (a, b) in again.iter().zip(first.iter()) {
            assert_eq!(a.msg, b.msg);
            assert_eq!(a.instance_path, b.instance_path);
            assert_eq!(a.schema_path, b.schema_path);
        }
    }
    assert!(!cfg.is_valid(&instance));
    assert!(cfg.is_valid(&parse(r#"{"a": 1, "b": 3, "c": null}"#)));
    let other = Config::from_schema(&schema, None).unwrap();
    assert_eq!(other.validate(&instance).unwrap_err().len(), first.len());
    assert_eq!(first.len(), 3);
}

#[test]
fn embedded_metaschemas_have_the_expected_text() {
    assert!(json_equal(&Draft::Draft4.get_schema(), &parse(DRAFT4)));
    assert!(json_equal(&Draft::Draft6.get_schema(), &parse(DRAFT6)));
    assert!(json_equal(&Draft::Draft7.get_schema(), &parse(DRAFT7)));
    assert!(!json_equal(&Draft::Draft6.get_schema(), &parse(DRAFT7)));
}

#[test]
fn metaschemas_validate_themselves() {
    for draft in [Draft::Draft4, Draft::Draft6, Draft::Draft7] {
        let metaschema = draft.get_schema();
        let cfg = Config::from_schema(&metaschema, Some(draft)).unwrap();
        assert!(cfg.validate_schema().is_ok());
        assert!(cfg.validate(&metaschema).is_ok());
        assert_eq!(cfg.get_draft_number(), draft.get_draft_number());
        let empty = parse("{}");
        let accepts_all = Config::from_schema(&empty, Some(draft)).unwrap();
        assert!(accepts_all.validate(&metaschema).is_ok());
    }
}

#[test]
fn metaschema_of_the_draft_is_found_by_the_schema_member() {
    let schema = parse(r#"{"$schema": "http://json-schema.org/draft-04/schema"}"#);
    assert_eq!(Config::from_schema(&schema, None).unwrap().get_draft_number(), 4);
    let schema = parse(r#"{"$schema": "http://json-schema.org/draft-06/schema"}"#);
    assert_eq!(Config::from_schema(&schema, None).unwrap().get_draft_number(), 6);
    let schema = parse(r#"{"$schema": "http://json-schema.org/draft-07/schema"}"#);
    assert_eq!(Config::from_schema(&schema, None).unwrap().get_draft_number(), 7);
    let schema = parse(r#"{"$schema": "http://json-schema.org/draft-04/schema/"}"#);
    assert_eq!(Config::from_schema(&schema, None).unwrap().get_draft_number(), 7);
    let schema = parse(r#"{}"#);
    assert_eq!(Config::from_schema(&schema, None).unwrap().get_draft_number(), 7);
    assert_eq!(Config::from_schema(&schema, Some(Draft::Draft6)).unwrap().get_draft_number(), 6);
}

#[test]
fn schema_without_known_keywords_accepts_everything() {
    let schema = r#"{"title": "x", "description": "y", "default": 3, "foo": {"type": "integer"}, "then": false}"#;
    for instance in ["null", "true", "1", "1.5", r#""s""#, "[1, 2]", r#"{"a": {"b": []}}"#] {
        assert!(is_valid(schema, instance, Draft::Draft7));
        assert!(is_valid(schema, instance, Draft::Draft6));
        assert!(is_valid(schema, instance, Draft::Draft4));
    }
    assert!(is_valid(r#"{"const": 1, "contains": {"type": "string"}}"#, "[2]", Draft::Draft4));
    assert!(!is_valid(r#"{"const": 1}"#, "[2]", Draft::Draft6));
}

#[test]
fn integer_one_equals_double_one_and_hashes_alike() {
    let one = parse("1");
    let one_point_zero = parse("1.0");
    assert!(matches!(one, Json::Number(Number::PosInt(1))));
    assert!(matches!(one_point_zero, Json::Number(Number::Float(_))));
    assert!(json_equal(&one, &one_point_zero));
    assert!(json_equal(&one_point_zero, &one));
    assert_eq!(hash_value(&one), hash_value(&one_point_zero));
    assert!(json_equal(&parse("-3"), &parse("-3.0")));
    assert_eq!(hash_value(&parse("-3")), hash_value(&parse("-3.0")));
    assert!(json_equal(&parse("0"), &parse("-0.0")));
    assert_eq!(hash_value(&parse("0")), hash_value(&parse("-0.0")));
    assert!(!json_equal(&one, &parse("1.5")));
    assert!(!json_equal(&one, &parse(r#""1""#)));
    assert!(!json_equal(&one, &parse("true")));
    assert_ne!(hash_value(&one), hash_value(&parse("2")));
}

#[test]
fn arrays_and_objects_compare_deeply() {
    assert!(json_equal(&parse("[1, [2, {\"a\": 3}]]"), &parse("[1.0, [2.0, {\"a\": 3.0}]]")));
    assert_eq!(
        hash_value(&parse("[1, [2, {\"a\": 3}]]")),
        hash_value(&parse("[1.0, [2.0, {\"a\": 3.0}]]"))
    );
    assert!(!json_equal(&parse("[1, 2]"), &parse("[2, 1]")));
    assert!(!json_equal(&parse("[1, 2]"), &parse("[1, 2, 3]")));
    assert!(json_equal(&parse(r#"{"a": 1, "b": [true, null]}"#), &parse(r#"{"b": [true, null], "a": 1.0}"#)));
    let swapped = Json::Object(vec![
        ("b".to_string(), parse("2")),
        ("a".to_string(), parse("1")),
    ]);
    assert!(json_equal(&parse(r#"{"a": 1, "b": 2}"#), &swapped));
    assert!(json_equal(&swapped, &parse(r#"{"a": 1, "b": 2}"#)));
    assert_eq!(hash_value(&swapped), hash_value(&parse(r#"{"a": 1, "b": 2}"#)));
    assert!(!json_equal(&parse(r#"{"a": 1, "b": 2}"#), &parse(r#"{"a": 1, "b": 3}"#)));
    assert!(!json_equal(&parse(r#"{"a": 1, "b": 2}"#), &parse(r#"{"a": 1, "c": 2}"#)));
    assert!(!json_equal(&parse(r#"{"a": 1}"#), &parse(r#"{"a": 1, "c": 2}"#)));
    assert!(!json_equal(&parse(r#"{}"#), &parse(r#"[]"#)));
}

#[test]
fn keyword_and_its_negation_disagree() {
    let cases = [
        (r#"{"type": "integer"}"#, vec!["1", "1.5", r#""a""#]),
        (r#"{"minimum": 3}"#, vec!["2", "3", "4", r#""a""#]),
        (r#"{"maxLength": 2}"#, vec![r#""ab""#, r#""abc""#, "7"]),
        (r#"{"enum": [1, "a", [2]]}"#, vec!["1.0", r#""a""#, "[2]", "[3]", "null"]),
        (r#"{"required": ["a"]}"#, vec![r#"{"a": 1}"#, r#"{"b": 1}"#, "[]"]),
        (r#"{"items": {"type": "string"}}"#, vec![r#"["a"]"#, "[1]", "3"]),
        (r#"{"properties": {"a": {"const": 1}}}"#, vec![r#"{"a": 1}"#, r#"{"a": 2}"#, "{}"]),
        (r#"{"anyOf": [{"type": "string"}, {"minimum": 2}]}"#, vec!["1", "2", r#""x""#]),
        (r#"{"oneOf": [{"type": "integer"}, {"minimum": 2}]}"#, vec!["1", "3", "2.5", "1.5"]),
        (r#"{"not": {"type": "null"}}"#, vec!["null", "0"]),
        (r#"{"uniqueItems": true}"#, vec!["[1, 1]", "[1, 2]"]),
        (r#"{"pattern": "^a+$"}"#, vec![r#""aaa""#, r#""ab""#]),
        (r#"{"multipleOf": 3}"#, vec!["9", "10", "4.5"]),
        (r#"{"contains": {"const": 5}}"#, vec!["[1, 5]", "[1]", "[]"]),
        (r#"{"propertyNames": {"maxLength": 1}}"#, vec![r#"{"a": 1}"#, r#"{"ab": 1}"#]),
        (r#"{"dependencies": {"a": ["b"]}}"#, vec![r#"{"a": 1}"#, r#"{"a": 1, "b": 2}"#, "{}"]),
    ];
    for (schema, instances) in cases.iter() {
        let negated = format!(r#"{{"not": {}}}"#, schema);
        for instance in instances.iter() {
            let plain = is_valid(schema, instance, Draft::Draft7);
            let inverted = is_valid(&negated, instance, Draft::Draft7);
            assert_ne!(plain, inverted, "{} on {}", schema, instance);
        }
    }
}

#[test]
fn item_counts_at_the_bounds() {
    assert!(is_valid(r#"{"minItems": 0}"#, "[]", Draft::Draft7));
    assert!(is_valid(r#"{"minItems": 0}"#, "[1]", Draft::Draft7));
    assert!(is_valid(r#"{"maxItems": 2147483647}"#, "[]", Draft::Draft7));
    let many = Json::Array((0..100_000u64).map(|i| Json::Number(Number::PosInt(i))).collect());
    let schema = parse(r#"{"maxItems": 2147483647, "minItems": 0}"#);
    let cfg = Config::from_schema(&schema, Some(Draft::Draft7)).unwrap();
    assert!(cfg.validate(&many).is_ok());
    assert!(is_valid(r#"{"maxItems": 2}"#, "[1, 2]", Draft::Draft7));
    assert!(!is_valid(r#"{"maxItems": 2}"#, "[1, 2, 3]", Draft::Draft7));
    assert!(is_valid(r#"{"minItems": 1}"#, "[1]", Draft::Draft7));
    assert!(!is_valid(r#"{"minItems": 1}"#, "[]", Draft::Draft7));
}

#[test]
fn integer_type_goes_by_value() {
    let schema = r#"{"type": "integer"}"#;
    assert!(is_valid(schema, "1", Draft::Draft7));
    assert!(is_valid(schema, "1.0", Draft::Draft7));
    assert!(is_valid(schema, "1e10", Draft::Draft7));
    assert!(is_valid(schema, "-7", Draft::Draft7));
    assert!(is_valid(schema, "-0.0", Draft::Draft7));
    assert!(is_valid(schema, "1e300", Draft::Draft7));
    assert!(!is_valid(schema, "1.5", Draft::Draft7));
    assert!(!is_valid(schema, "0.1", Draft::Draft7));
    assert!(!is_valid(schema, "-2.25", Draft::Draft7));
    assert!(!is_valid(schema, "1099511627775.5", Draft::Draft7));
    let schema_tree = parse(schema);
    let cfg = Config::from_schema(&schema_tree, Some(Draft::Draft7)).unwrap();
    let largest_fraction = Json::Number(Number::Float(4503599627370495.5f64.to_bits()));
    assert!(cfg.validate(&largest_fraction).is_err());
    let first_whole = Json::Number(Number::Float(4503599627370496.0f64.to_bits()));
    assert!(cfg.validate(&first_whole).is_ok());
    assert!(!is_valid(schema, "5e-324", Draft::Draft7));
    assert!(!is_valid(schema, r#""1""#, Draft::Draft7));
}

#[test]
fn unique_items_go_by_numeric_equality() {
    let schema = r#"{"uniqueItems": true}"#;
    assert!(!is_valid(schema, "[1, 1.0]", Draft::Draft7));
    assert!(is_valid(schema, r#"[1, "1"]"#, Draft::Draft7));
    assert!(is_valid(schema, "[1, 2, 3]", Draft::Draft7));
    assert!(!is_valid(schema, r#"[{"a": [1]}, 2, {"a": [1.0]}]"#, Draft::Draft7));
    assert!(is_valid(schema, "[[1, 2], [2, 1]]", Draft::Draft7));
    assert!(is_valid(schema, "[1, true]", Draft::Draft7));
    assert!(is_valid(schema, "[0, false, null, \"\", [], {}]", Draft::Draft7));
    assert!(is_valid(r#"{"uniqueItems": false}"#, "[1, 1]", Draft::Draft7));
    assert!(has_unique_elements(&vec![parse("1"), parse("2")]));
    assert!(!has_unique_elements(&vec![parse("1"), parse("2"), parse("1.0")]));
    assert!(has_unique_elements(&Vec::new()));
}

fn schema_is_valid(schema: &str, draft: Draft) -> bool {
    let tree = parse(schema);
    Config::from_schema(&tree, Some(draft)).unwrap().validate_schema().is_ok()
}

#[test]
fn schemas_are_held_to_their_metaschema() {
    for draft in [Draft::Draft4, Draft::Draft6, Draft::Draft7] {
        assert!(schema_is_valid("{}", draft));
        assert!(schema_is_valid(r#"{"type": "object", "properties": {"a": {"type": ["string", "null"]}}, "required": ["a"]}"#, draft));
        assert!(schema_is_valid(r##"{"definitions": {"a": {"items": [{"$ref": "#"}]}}, "allOf": [{"minimum": 2}]}"##, draft));
        assert!(!schema_is_valid(r#"{"type": 12}"#, draft));
        assert!(!schema_is_valid(r#"{"type": "strange"}"#, draft));
        assert!(!schema_is_valid(r#"{"type": ["string", "string"]}"#, draft));
        assert!(!schema_is_valid(r#"{"minLength": -1}"#, draft));
        assert!(!schema_is_valid(r#"{"minLength": 1.5}"#, draft));
        assert!(!schema_is_valid(r#"{"properties": {"a": {"required": "a"}}}"#, draft));
        assert!(!schema_is_valid(r#"{"allOf": []}"#, draft));
        assert!(!schema_is_valid(r#"{"multipleOf": 0}"#, draft));
        assert!(!schema_is_valid(r#"{"pattern": "("}"#, draft));
        assert!(!schema_is_valid(r#"{"items": [{}, 3]}"#, draft));
    }
    assert!(schema_is_valid("true", Draft::Draft7));
    assert!(schema_is_valid("false", Draft::Draft6));
    assert!(!schema_is_valid("true", Draft::Draft4));
    assert!(schema_is_valid(r#"{"exclusiveMinimum": 3}"#, Draft::Draft7));
    assert!(!schema_is_valid(r#"{"exclusiveMinimum": 3}"#, Draft::Draft4));
    assert!(schema_is_valid(r#"{"minimum": 3, "exclusiveMinimum": true}"#, Draft::Draft4));
    assert!(!schema_is_valid(r#"{"exclusiveMinimum": true}"#, Draft::Draft4));
    assert!(!schema_is_valid(r#"{"minimum": 3, "exclusiveMinimum": true}"#, Draft::Draft7));
    assert!(schema_is_valid(r#"{"required": []}"#, Draft::Draft7));
    assert!(!schema_is_valid(r#"{"required": []}"#, Draft::Draft4));
    assert!(schema_is_valid(r#"{"items": true, "additionalItems": false, "contains": {}}"#, Draft::Draft7));
    assert!(!schema_is_valid(r#"{"items": true}"#, Draft::Draft4));
    assert!(!schema_is_valid(r#"{"$id": 3}"#, Draft::Draft7));
    assert!(!schema_is_valid(r#"{"id": 3}"#, Draft::Draft4));
    let tree = parse(r#"{"properties": {"a": {"type": 12}}}"#);
    let cfg = Config::from_schema(&tree, Some(Draft::Draft7)).unwrap();
    let errors = cfg.validate_schema().unwrap_err();
    assert_eq!(errors.len(), 1);
    assert_eq!(errors[0].msg, "anyOf failed");
    assert_eq!(errors[0].instance_path, vec!["type", "a", "properties"]);
    assert_eq!(
        errors[0].schema_path,
        vec!["anyOf", "type", "properties", "$ref", "additionalProperties", "properties", "properties"]
    );
}

#[test]
fn nested_schemas_are_held_to_their_metaschema() {
    let mut schema = String::from(r#"{"type": "integer"}"#);
    for _ in 0..60 {
        schema = format!(r#"{{"properties": {{"a": {}}}}}"#, schema);
    }
    assert!(schema_is_valid(&schema, Draft::Draft7));
    let mut instance = String::from("1.5");
    for _ in 0..60 {
        instance = format!(r#"{{"a": {}}}"#, instance);
    }
    let tree = parse(&schema);
    let cfg = Config::from_schema(&tree, Some(Draft::Draft7)).unwrap();
    let errors = cfg.validate(&parse(&instance)).unwrap_err();
    assert_eq!(errors.len(), 1);
    assert_eq!(errors[0].instance_path.len(), 60);
    assert_eq!(errors[0].schema_path.len(), 121);
}
