use jsonschema_valid::address::{parse_ipv4, parse_ipv6};
use jsonschema_valid::json::Json;
use jsonschema_valid::number::Number;
use jsonschema_valid::schemas::{draft_from_schema, draft_from_url, Draft, FormatChecker, Validator};
use jsonschema_valid::Config;

fn convert(value: &serde_json::Value) -> Json {
    match value {
        serde_json::Value::Null => Json::Null,
        serde_json::Value::Bool(b) => Json::Bool(*b),
        serde_json::Value::Number(n) => {
            if let Some(u) = n.as_u64() {
                Json::Number(Number::PosInt(u))
            } else if let Some(i) = n.as_i64() {
                Json::Number(Number::NegInt(i))
            } else {
                Json::Number(Number::Float(n.as_f64().unwrap().to_bits()))
            }
        }
        serde_json::Value::String(s) => Json::String(s.clone()),
        serde_json::Value::Array(items) => Json::Array(items.iter().map(convert).collect()),
        serde_json::Value::Object(members) => {
            Json::Object(members.iter().map(|(k, v)| (k.clone(), convert(v))).collect())
        }
    }
}

fn parse(text: &str) -> Json {
    convert(&serde_json::from_str::<serde_json::Value>(text).unwrap())
}

fn check(draft: Draft, schema: &str, cases: &[(&str, bool)]) {
    let tree = parse(schema);
    let cfg = Config::from_schema(&tree, Some(draft)).unwrap();
    for (instance, expected) in cases.iter() {
        let verdict = cfg.validate(&parse(instance)).is_ok();
        assert_eq!(verdict, *expected, "schema {} instance {}", schema, instance);
    }
}

#[test]
fn ipv4_addresses() {
    for good in ["192.168.0.1", "0.0.0.0", "255.255.255.255", "1.2.3.4", "127.0.0.1", "10.0.100.9"] {
        assert!(parse_ipv4(good), "{}", good);
    }
    for bad in ["", "127.0.0.0.1", "256.256.256.256", "127.0", "0x7f000001", "1.2.3", "1.2.3.", ".1.2.3", "1..2.3", "01.2.3.4", "1.2.3.04", "1.2.3.4 ", " 1.2.3.4", "1.2.3.256", "1.2.3.1000", "a.b.c.d", "1.2.3.4.", "1,2,3,4", "1.2.3.-4", "٣.2.3.4", "300.1.1.1", "1.2.3.4/8", "00.0.0.0"] {
        assert!(!parse_ipv4(bad), "{}", bad);
    }
}

fn bracketed_is_ipv6(text: &str) -> bool {
    matches!(url::Host::parse(&format!("[{}]", text)), Ok(url::Host::Ipv6(_)))
}

fn step(state: &mut u64) -> u64 {
    *state = state.wrapping_mul(6364136223846793005).wrapping_add(1442695040888963407);
    *state >> 33
}

#[test]
fn ipv6_addresses() {
    for good in ["::1", "::", "1::", "1:2:3:4:5:6:7:8", "12345::".trim_start_matches('1'), "fe80::1", "2001:db8::ff00:42:8329", "::ffff:192.168.0.1", "1:2:3:4:5:6:1.2.3.4", "1::1.2.3.4", "::1.2.3.4", "ABCD:ef01::", "1:2:3:4:5:6:7::", "::2:3:4:5:6:7:8", "0:0:0:0:0:0:0:0", "a:b:c:d:e:f:0:1", "1::8"] {
        assert!(parse_ipv6(good), "{}", good);
        assert!(bracketed_is_ipv6(good), "{}", good);
    }
    for bad in ["", "12345::", "1:2:3:4:5:6:7", "1:2:3:4:5:6:7:8:9", ":::", "1:::2", "::1::", "1::2::3", ":1", "1:", "1:2:3:4:5:6:7:8::", "::1:2:3:4:5:6:7:8", "g::", "1.2.3.4", "1.2.3.4::", "1:2:3:4:5:6:7:1.2.3.4", "::1.2.3", "::1.2.3.4.5", "::1.2.3.4:5", "1::2%eth0", " ::1", "::1 ", "[::1]", "::ffff:256.0.0.1", "1:2:3:4:5:1.2.3.4", "::01.2.3.4", "1::1.2.3.4::"] {
        assert!(!parse_ipv6(bad), "{}", bad);
    }
    let mut state: u64 = 5;
    let mut accepted = 0;
    for _ in 0..60_000 {
        let mut text = String::new();
        let parts = 1 + (step(&mut state) % 9);
        for i in 0..parts {
            if i > 0 {
                text.push(':');
            }
            match step(&mut state) % 12 {
                0 | 1 => {}
                2 => text.push_str("1.2.3.4"),
                3 => text.push_str("0.255.9.10"),
                4 => text.push_str("12345"),
                5 => text.push('.'),
                n => {
                    for _ in 0..(n % 4) + 1 {
                        text.push(b"0123456789abcdefABCDEF"[(step(&mut state) % 22) as usize] as char);
                    }
                }
            }
        }
        let expected = bracketed_is_ipv6(&text);
        if expected {
            accepted += 1;
        }
        assert_eq!(parse_ipv6(&text), expected, "{}", text);
    }
    assert!(accepted > 500);
}

#[test]
fn format_predicates() {
    let schema = parse("{}");
    let cfg = Config::from_schema(&schema, None).unwrap();
    assert!(jsonschema_valid::format::email(&cfg, "joe.bloggs@example.com"));
    assert!(jsonschema_valid::format::email(&cfg, "@"));
    assert!(!jsonschema_valid::format::email(&cfg, "2962"));
    assert!(!jsonschema_valid::format::email(&cfg, ""));
    assert!(jsonschema_valid::format::ipv4(&cfg, "192.168.0.1"));
    assert!(!jsonschema_valid::format::ipv4(&cfg, "192.168.0.256"));
    assert!(jsonschema_valid::format::ipv6(&cfg, "::1"));
    assert!(!jsonschema_valid::format::ipv6(&cfg, "12345::"));
    assert!(jsonschema_valid::format::hostname(&cfg, "www.example.com"));
    assert!(jsonschema_valid::format::hostname(&cfg, "[::1]"));
    assert!(!jsonschema_valid::format::hostname(&cfg, "not a host"));
    assert!(!jsonschema_valid::format::hostname(&cfg, "[::1"));
    assert!(jsonschema_valid::format::uri(&cfg, "http://foo.bar/?baz=qux#quux"));
    assert!(jsonschema_valid::format::uri(&cfg, "urn:oasis:names:specification:docbook:dtd:xml:4.1.2"));
    assert!(!jsonschema_valid::format::uri(&cfg, "//foo.bar/?baz=qux#quux"));
    assert!(!jsonschema_valid::format::uri(&cfg, "\\\\WINDOWS\\fileshare"));
    assert!(!jsonschema_valid::format::uri(&cfg, "abc"));
    assert!(jsonschema_valid::format::uri_reference(&cfg, "anything at all"));
    assert!(jsonschema_valid::format::uri_template(&cfg, "http://example.com/dictionary/{term:1}/{term"));
    assert!(jsonschema_valid::format::iri(&cfg, "http://\u{192}\u{f8}\u{f8}.\u{df}\u{e5}r/?\u{2202}\u{e9}\u{153}=\u{3c0}\u{ee}x"));
    assert!(jsonschema_valid::format::iri(&cfg, "http://example.com/path?query"));
    assert!(!jsonschema_valid::format::iri(&cfg, "http://example.com/path#fragment"));
    assert!(!jsonschema_valid::format::iri(&cfg, "/abc"));
    assert!(jsonschema_valid::format::iri_reference(&cfg, "http://example.com/"));
    assert!(!jsonschema_valid::format::iri_reference(&cfg, "\\\\WINDOWS\\fil\u{eb}\u{df}\u{e5}r\u{e9}"));
    assert!(jsonschema_valid::format::datetime(&cfg, "1963-06-19T08:30:06.283185Z"));
    assert!(jsonschema_valid::format::datetime(&cfg, "1990-12-31T15:59:50.123-08:00"));
    assert!(!jsonschema_valid::format::datetime(&cfg, "06/19/1963 08:30:06 PST"));
    assert!(!jsonschema_valid::format::datetime(&cfg, "1990-02-31T15:59:60.123-08:00"));
    assert!(!jsonschema_valid::format::datetime(&cfg, "2013-350T01:01:01"));
    assert!(jsonschema_valid::format::regex(&cfg, "([abc])+\\s+$"));
    assert!(!jsonschema_valid::format::regex(&cfg, "^(abc]"));
    assert!(!jsonschema_valid::format::date(&cfg, "06/19/1963"));
    assert!(!jsonschema_valid::format::time(&cfg, "8:30 AM"));
    assert!(jsonschema_valid::format::json_pointer(&cfg, "/foo/bar~0/baz~1/%a"));
    assert!(jsonschema_valid::format::json_pointer(&cfg, ""));
    assert!(jsonschema_valid::format::json_pointer(&cfg, "/foo/0"));
    assert!(!jsonschema_valid::format::json_pointer(&cfg, "/foo/bar~"));
    assert!(!jsonschema_valid::format::json_pointer(&cfg, "a"));
    assert!(!jsonschema_valid::format::json_pointer(&cfg, "/~2"));
    assert!(jsonschema_valid::format::check_format(FormatChecker::Email, &cfg, "a@b"));
    assert!(!jsonschema_valid::format::check_format(FormatChecker::Ipv4, &cfg, "a@b"));
    assert!(jsonschema_valid::format::check_format(FormatChecker::UriTemplate, &cfg, "a@b"));
}

#[test]
fn format_keyword_by_draft() {
    check(Draft::Draft7, r#"{"format": "ipv4"}"#, &[(r#""192.168.0.1""#, true), (r#""127.0""#, false), ("12", true), ("null", true)]);
    check(Draft::Draft4, r#"{"format": "ipv6"}"#, &[(r#""::1""#, true), (r#""12345::""#, false), ("12", true)]);
    check(Draft::Draft7, r#"{"format": "email"}"#, &[(r#""joe.bloggs@example.com""#, true), (r#""2962""#, false)]);
    check(Draft::Draft7, r#"{"format": "idn-email"}"#, &[(r#""joe.bloggs@example.com""#, true), (r#""2962""#, false)]);
    check(Draft::Draft6, r#"{"format": "idn-email"}"#, &[(r#""2962""#, true)]);
    check(Draft::Draft4, r#"{"format": "idn-email"}"#, &[(r#""2962""#, true)]);
    check(Draft::Draft7, r#"{"format": "iri"}"#, &[(r#""/abc""#, false), (r#""http://example.com/""#, true)]);
    check(Draft::Draft6, r#"{"format": "iri"}"#, &[(r#""/abc""#, true)]);
    check(Draft::Draft7, r#"{"format": "json-pointer"}"#, &[(r#""/foo/bar~""#, false), (r#""/foo/bar~0""#, true)]);
    check(Draft::Draft6, r#"{"format": "json-pointer"}"#, &[(r#""/foo/bar~""#, false)]);
    check(Draft::Draft4, r#"{"format": "json-pointer"}"#, &[(r#""/foo/bar~""#, true)]);
    check(Draft::Draft4, r#"{"format": "uri-reference"}"#, &[(r#""x y""#, true)]);
    check(Draft::Draft7, r#"{"format": "date-time"}"#, &[(r#""1963-06-19T08:30:06.283185Z""#, true), (r#""1963-06-19""#, false)]);
    check(Draft::Draft7, r#"{"format": "hostname"}"#, &[(r#""www.example.com""#, true), (r#""a b""#, false)]);
    check(Draft::Draft7, r#"{"format": "uri"}"#, &[(r#""http://foo.bar/""#, true), (r#""foo""#, false)]);
    check(Draft::Draft7, r#"{"format": "regex"}"#, &[(r#""a+""#, true), (r#""(""#, false)]);
    check(Draft::Draft7, r#"{"format": "no-such-format"}"#, &[(r#""anything""#, true)]);
    check(Draft::Draft7, r#"{"format": 7}"#, &[(r#""anything""#, true)]);
    let tree = parse(r#"{"format": "ipv4"}"#);
    let cfg = Config::from_schema(&tree, Some(Draft::Draft7)).unwrap();
    let errors = cfg.validate(&parse(r#""nope""#)).unwrap_err();
    assert_eq!(errors.len(), 1);
    assert_eq!(errors[0].msg, "Invalid for format.");
}

#[test]
fn draft_tables() {
    assert_eq!(Draft::Draft4.get_draft_number(), 4);
    assert_eq!(Draft::Draft6.get_draft_number(), 6);
    assert_eq!(Draft::Draft7.get_draft_number(), 7);
    assert_eq!(draft_from_url("http://json-schema.org/draft-07/schema"), Some(Draft::Draft7));
    assert_eq!(draft_from_url("http://json-schema.org/draft-06/schema"), Some(Draft::Draft6));
    assert_eq!(draft_from_url("http://json-schema.org/draft-04/schema"), Some(Draft::Draft4));
    assert_eq!(draft_from_url("http://json-schema.org/draft-07/schema#"), None);
    assert_eq!(draft_from_url("http://json-schema.org/draft-07/schema/"), None);
    assert_eq!(draft_from_url(""), None);
    assert_eq!(draft_from_schema(&parse(r#"{"$schema": "http://json-schema.org/draft-06/schema"}"#)), Some(Draft::Draft6));
    assert_eq!(draft_from_schema(&parse(r#"{"$schema": 6}"#)), None);
    assert_eq!(draft_from_schema(&parse(r#"["$schema"]"#)), None);
    assert_eq!(draft_from_schema(&parse(r#"{}"#)), None);
    let all = [
        ("$ref", Validator::Ref), ("additionalItems", Validator::AdditionalItems), ("additionalProperties", Validator::AdditionalProperties),
        ("allOf", Validator::AllOf), ("anyOf", Validator::AnyOf), ("const", Validator::Const), ("contains", Validator::Contains),
        ("dependencies", Validator::Dependencies), ("enum", Validator::Enum), ("exclusiveMaximum", Validator::ExclusiveMaximum),
        ("exclusiveMinimum", Validator::ExclusiveMinimum), ("format", Validator::Format), ("if", Validator::If), ("items", Validator::Items),
        ("maxItems", Validator::MaxItems), ("maxLength", Validator::MaxLength), ("maxProperties", Validator::MaxProperties),
        ("maximum", Validator::Maximum), ("minItems", Validator::MinItems), ("minLength", Validator::MinLength),
        ("minProperties", Validator::MinProperties), ("minimum", Validator::Minimum), ("multipleOf", Validator::MultipleOf),
        ("not", Validator::Not), ("oneOf", Validator::OneOf), ("pattern", Validator::Pattern),
        ("patternProperties", Validator::PatternProperties), ("properties", Validator::Properties),
        ("propertyNames", Validator::PropertyNames), ("required", Validator::Required), ("type", Validator::Type),
        ("uniqueItems", Validator::UniqueItems),
    ];
    for (key, validator) in all {
        assert_eq!(Draft::Draft7.get_validator(key), Some(validator));
        let in_six = if key == "if" { None } else { Some(validator) };
        assert_eq!(Draft::Draft6.get_validator(key), in_six);
        let in_four = match key {
            "if" | "const" | "contains" | "propertyNames" | "exclusiveMaximum" | "exclusiveMinimum" => None,
            "maximum" => Some(Validator::MaximumDraft4),
            "minimum" => Some(Validator::MinimumDraft4),
            _ => Some(validator),
        };
        assert_eq!(Draft::Draft4.get_validator(key), in_four);
    }
    for key in ["then", "else", "title", "", "Type", "$id", "definitions", "ref"] {
        assert_eq!(Draft::Draft7.get_validator(key), None);
    }
    let formats = [
        ("date", FormatChecker::Date, true, false), ("date-time", FormatChecker::DateTime, true, true),
        ("email", FormatChecker::Email, true, true), ("hostname", FormatChecker::Hostname, true, true),
        ("idn-email", FormatChecker::Email, false, false), ("ipv4", FormatChecker::Ipv4, true, true),
        ("ipv6", FormatChecker::Ipv6, true, true), ("iri", FormatChecker::Iri, false, false),
        ("iri-reference", FormatChecker::IriReference, false, false), ("json-pointer", FormatChecker::JsonPointer, true, false),
        ("regex", FormatChecker::Regex, true, true), ("time", FormatChecker::Time, true, false),
        ("uri", FormatChecker::Uri, true, true), ("uri-reference", FormatChecker::UriReference, true, false),
        ("uri-template", FormatChecker::UriTemplate, true, false),
    ];
    for (name, checker, six, four) in formats {
        assert_eq!(Draft::Draft7.get_format_checker(name), Some(checker));
        assert_eq!(Draft::Draft6.get_format_checker(name), if six { Some(checker) } else { None });
        assert_eq!(Draft::Draft4.get_format_checker(name), if four { Some(checker) } else { None });
    }
    assert_eq!(Draft::Draft7.get_format_checker("color"), None);
    let schema = parse("{}");
    let cfg = Config::from_schema(&schema, Some(Draft::Draft4)).unwrap();
    assert_eq!(cfg.get_validator("minimum"), Some(Validator::MinimumDraft4));
    assert_eq!(cfg.get_format_checker("date"), None);
    assert_eq!(cfg.get_draft(), Draft::Draft4);
    assert!(cfg.get_metaschema().get("id").is_some());
    assert!(cfg.get_schema().is_object());
    assert!(cfg.get_resolver().metaschema(Draft::Draft7).get("$id").is_some());
}
