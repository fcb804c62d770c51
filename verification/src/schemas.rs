//! The drafts of JSON Schema: which keywords and formats each one knows.

use vstd::prelude::*;
use crate::foreign::str_eq;
use crate::json::{Json, JsonValue};

verus! {

/// The validator can validate JSON data against different versions of JSON Schema.
#[derive(Debug, Copy, Clone, PartialEq, Eq, Structural)]
pub enum Draft {
    /// JSON Schema draft 4.
    Draft4,
    /// JSON Schema draft 6.
    Draft6,
    /// JSON Schema draft 7.
    Draft7,
}

/// The identity of a keyword's validation function. `MaximumDraft4` and `MinimumDraft4`
/// are the bounds of draft 4, which read a sibling `exclusiveMaximum` or
/// `exclusiveMinimum`.
#[derive(Debug, Copy, Clone, PartialEq, Eq, Structural)]
pub enum Validator {
    Ref,
    AdditionalItems,
    AdditionalProperties,
    AllOf,
    AnyOf,
    Const,
    Contains,
    Dependencies,
    Enum,
    ExclusiveMaximum,
    ExclusiveMinimum,
    Format,
    If,
    Items,
    MaxItems,
    MaxLength,
    MaxProperties,
    Maximum,
    MinItems,
    MinLength,
    MinProperties,
    Minimum,
    MultipleOf,
    Not,
    OneOf,
    Pattern,
    PatternProperties,
    Properties,
    PropertyNames,
    Required,
    Type,
    UniqueItems,
    MaximumDraft4,
    MinimumDraft4,
}

/// The identity of a string format's predicate.
#[derive(Debug, Copy, Clone, PartialEq, Eq, Structural)]
pub enum FormatChecker {
    Date,
    DateTime,
    Email,
    Hostname,
    Ipv4,
    Ipv6,
    Iri,
    IriReference,
    JsonPointer,
    Regex,
    Time,
    Uri,
    UriReference,
    UriTemplate,
}

/// The validator that the latest draft has for a keyword.
pub open spec fn keyword_validator(key: Seq<char>) -> Option<Validator> {
    if key == "$ref"@ {
        Some(Validator::Ref)
    } else if key == "additionalItems"@ {
        Some(Validator::AdditionalItems)
    } else if key == "additionalProperties"@ {
        Some(Validator::AdditionalProperties)
    } else if key == "allOf"@ {
        Some(Validator::AllOf)
    } else if key == "anyOf"@ {
        Some(Validator::AnyOf)
    } else if key == "const"@ {
        Some(Validator::Const)
    } else if key == "contains"@ {
        Some(Validator::Contains)
    } else if key == "dependencies"@ {
        Some(Validator::Dependencies)
    } else if key == "enum"@ {
        Some(Validator::Enum)
    } else if key == "exclusiveMaximum"@ {
        Some(Validator::ExclusiveMaximum)
    } else if key == "exclusiveMinimum"@ {
        Some(Validator::ExclusiveMinimum)
    } else if key == "format"@ {
        Some(Validator::Format)
    } else if key == "if"@ {
        Some(Validator::If)
    } else if key == "items"@ {
        Some(Validator::Items)
    } else if key == "maxItems"@ {
        Some(Validator::MaxItems)
    } else if key == "maxLength"@ {
        Some(Validator::MaxLength)
    } else if key == "maxProperties"@ {
        Some(Validator::MaxProperties)
    } else if key == "maximum"@ {
        Some(Validator::Maximum)
    } else if key == "minItems"@ {
        Some(Validator::MinItems)
    } else if key == "minLength"@ {
        Some(Validator::MinLength)
    } else if key == "minProperties"@ {
        Some(Validator::MinProperties)
    } else if key == "minimum"@ {
        Some(Validator::Minimum)
    } else if key == "multipleOf"@ {
        Some(Validator::MultipleOf)
    } else if key == "not"@ {
        Some(Validator::Not)
    } else if key == "oneOf"@ {
        Some(Validator::OneOf)
    } else if key == "pattern"@ {
        Some(Validator::Pattern)
    } else if key == "patternProperties"@ {
        Some(Validator::PatternProperties)
    } else if key == "properties"@ {
        Some(Validator::Properties)
    } else if key == "propertyNames"@ {
        Some(Validator::PropertyNames)
    } else if key == "required"@ {
        Some(Validator::Required)
    } else if key == "type"@ {
        Some(Validator::Type)
    } else if key == "uniqueItems"@ {
        Some(Validator::UniqueItems)
    } else {
        None
    }
}

/// The validator that a draft has for a keyword. Draft 6 lacks `if`; draft 4 also lacks
/// `const`, `contains`, `propertyNames` and the numeric `exclusiveMaximum` and
/// `exclusiveMinimum`, and has its own `maximum` and `minimum`.
pub open spec fn validator_for(draft: Draft, key: Seq<char>) -> Option<Validator> {
    match keyword_validator(key) {
        None => None,
        Some(v) => match draft {
            Draft::Draft7 => Some(v),
            Draft::Draft6 => if v == Validator::If {
                None
            } else {
                Some(v)
            },
            Draft::Draft4 => if v == Validator::If || v == Validator::Const || v
                == Validator::Contains || v == Validator::PropertyNames || v
                == Validator::ExclusiveMaximum || v == Validator::ExclusiveMinimum {
                None
            } else if v == Validator::Maximum {
                Some(Validator::MaximumDraft4)
            } else if v == Validator::Minimum {
                Some(Validator::MinimumDraft4)
            } else {
                Some(v)
            },
        },
    }
}

/// The predicate that the latest draft has for a format name.
pub open spec fn named_format(name: Seq<char>) -> Option<FormatChecker> {
    if name == "date"@ {
        Some(FormatChecker::Date)
    } else if name == "date-time"@ {
        Some(FormatChecker::DateTime)
    } else if name == "email"@ {
        Some(FormatChecker::Email)
    } else if name == "hostname"@ {
        Some(FormatChecker::Hostname)
    } else if name == "idn-email"@ {
        Some(FormatChecker::Email)
    } else if name == "ipv4"@ {
        Some(FormatChecker::Ipv4)
    } else if name == "ipv6"@ {
        Some(FormatChecker::Ipv6)
    } else if name == "iri"@ {
        Some(FormatChecker::Iri)
    } else if name == "iri-reference"@ {
        Some(FormatChecker::IriReference)
    } else if name == "json-pointer"@ {
        Some(FormatChecker::JsonPointer)
    } else if name == "regex"@ {
        Some(FormatChecker::Regex)
    } else if name == "time"@ {
        Some(FormatChecker::Time)
    } else if name == "uri"@ {
        Some(FormatChecker::Uri)
    } else if name == "uri-reference"@ {
        Some(FormatChecker::UriReference)
    } else if name == "uri-template"@ {
        Some(FormatChecker::UriTemplate)
    } else {
        None
    }
}

/// Whether draft 4 knows the format.
pub open spec fn in_draft4(f: FormatChecker) -> bool {
    f == FormatChecker::DateTime || f == FormatChecker::Email || f == FormatChecker::Hostname || f
        == FormatChecker::Ipv4 || f == FormatChecker::Ipv6 || f == FormatChecker::Regex || f
        == FormatChecker::Uri
}

/// The predicate that a draft has for a format name. Draft 6 lacks `idn-email`, `iri` and
/// `iri-reference`; draft 4 has `date-time`, `email`, `hostname`, `ipv4`, `ipv6`, `regex`
/// and `uri` only.
pub open spec fn format_for(draft: Draft, name: Seq<char>) -> Option<FormatChecker> {
    match named_format(name) {
        None => None,
        Some(f) => match draft {
            Draft::Draft7 => Some(f),
            Draft::Draft6 => if name == "idn-email"@ || f == FormatChecker::Iri || f
                == FormatChecker::IriReference {
                None
            } else {
                Some(f)
            },
            Draft::Draft4 => if name == "idn-email"@ || !in_draft4(f) {
                None
            } else {
                Some(f)
            },
        },
    }
}

/// The draft whose meta-schema has this URL.
pub open spec fn draft_of_url(url: Seq<char>) -> Option<Draft> {
    if url == "http://json-schema.org/draft-07/schema"@ {
        Some(Draft::Draft7)
    } else if url == "http://json-schema.org/draft-06/schema"@ {
        Some(Draft::Draft6)
    } else if url == "http://json-schema.org/draft-04/schema"@ {
        Some(Draft::Draft4)
    } else {
        None
    }
}

/// The draft that a schema names in its `$schema` member.
pub open spec fn draft_of_schema(schema: JsonValue) -> Option<Draft> {
    match schema.get("$schema"@) {
        Some(JsonValue::String(url)) => draft_of_url(url),
        _ => None,
    }
}

fn keyword_lookup(key: &str) -> (r: Option<Validator>)
    ensures
        r == keyword_validator(key@),
{
    if str_eq(key, "$ref") {
        Some(Validator::Ref)
    } else if str_eq(key, "additionalItems") {
        Some(Validator::AdditionalItems)
    } else if str_eq(key, "additionalProperties") {
        Some(Validator::AdditionalProperties)
    } else if str_eq(key, "allOf") {
        Some(Validator::AllOf)
    } else if str_eq(key, "anyOf") {
        Some(Validator::AnyOf)
    } else if str_eq(key, "const") {
        Some(Validator::Const)
    } else if str_eq(key, "contains") {
        Some(Validator::Contains)
    } else if str_eq(key, "dependencies") {
        Some(Validator::Dependencies)
    } else if str_eq(key, "enum") {
        Some(Validator::Enum)
    } else if str_eq(key, "exclusiveMaximum") {
        Some(Validator::ExclusiveMaximum)
    } else if str_eq(key, "exclusiveMinimum") {
        Some(Validator::ExclusiveMinimum)
    } else if str_eq(key, "format") {
        Some(Validator::Format)
    } else if str_eq(key, "if") {
        Some(Validator::If)
    } else if str_eq(key, "items") {
        Some(Validator::Items)
    } else if str_eq(key, "maxItems") {
        Some(Validator::MaxItems)
    } else if str_eq(key, "maxLength") {
        Some(Validator::MaxLength)
    } else if str_eq(key, "maxProperties") {
        Some(Validator::MaxProperties)
    } else if str_eq(key, "maximum") {
        Some(Validator::Maximum)
    } else if str_eq(key, "minItems") {
        Some(Validator::MinItems)
    } else if str_eq(key, "minLength") {
        Some(Validator::MinLength)
    } else if str_eq(key, "minProperties") {
        Some(Validator::MinProperties)
    } else if str_eq(key, "minimum") {
        Some(Validator::Minimum)
    } else if str_eq(key, "multipleOf") {
        Some(Validator::MultipleOf)
    } else if str_eq(key, "not") {
        Some(Validator::Not)
    } else if str_eq(key, "oneOf") {
        Some(Validator::OneOf)
    } else if str_eq(key, "pattern") {
        Some(Validator::Pattern)
    } else if str_eq(key, "patternProperties") {
        Some(Validator::PatternProperties)
    } else if str_eq(key, "properties") {
        Some(Validator::Properties)
    } else if str_eq(key, "propertyNames") {
        Some(Validator::PropertyNames)
    } else if str_eq(key, "required") {
        Some(Validator::Required)
    } else if str_eq(key, "type") {
        Some(Validator::Type)
    } else if str_eq(key, "uniqueItems") {
        Some(Validator::UniqueItems)
    } else {
        None
    }
}

fn format_lookup(name: &str) -> (r: Option<FormatChecker>)
    ensures
        r == named_format(name@),
{
    if str_eq(name, "date") {
        Some(FormatChecker::Date)
    } else if str_eq(name, "date-time") {
        Some(FormatChecker::DateTime)
    } else if str_eq(name, "email") {
        Some(FormatChecker::Email)
    } else if str_eq(name, "hostname") {
        Some(FormatChecker::Hostname)
    } else if str_eq(name, "idn-email") {
        Some(FormatChecker::Email)
    } else if str_eq(name, "ipv4") {
        Some(FormatChecker::Ipv4)
    } else if str_eq(name, "ipv6") {
        Some(FormatChecker::Ipv6)
    } else if str_eq(name, "iri") {
        Some(FormatChecker::Iri)
    } else if str_eq(name, "iri-reference") {
        Some(FormatChecker::IriReference)
    } else if str_eq(name, "json-pointer") {
        Some(FormatChecker::JsonPointer)
    } else if str_eq(name, "regex") {
        Some(FormatChecker::Regex)
    } else if str_eq(name, "time") {
        Some(FormatChecker::Time)
    } else if str_eq(name, "uri") {
        Some(FormatChecker::Uri)
    } else if str_eq(name, "uri-reference") {
        Some(FormatChecker::UriReference)
    } else if str_eq(name, "uri-template") {
        Some(FormatChecker::UriTemplate)
    } else {
        None
    }
}

impl Draft {
    /// The validator that this draft has for a keyword, if it knows the keyword.
    pub fn get_validator(self, key: &str) -> (r: Option<Validator>)
        ensures
            r == validator_for(self, key@),
    {
        match keyword_lookup(key) {
            None => None,
            Some(v) => match self {
                Draft::Draft7 => Some(v),
                Draft::Draft6 => match v {
                    Validator::If => None,
                    _ => Some(v),
                },
                Draft::Draft4 => match v {
                    Validator::If => None,
                    Validator::Const => None,
                    Validator::Contains => None,
                    Validator::PropertyNames => None,
                    Validator::ExclusiveMaximum => None,
                    Validator::ExclusiveMinimum => None,
                    Validator::Maximum => Some(Validator::MaximumDraft4),
                    Validator::Minimum => Some(Validator::MinimumDraft4),
                    _ => Some(v),
                },
            },
        }
    }

    /// Get a format check function.
    pub fn get_format_checker(self, format: &str) -> (r: Option<FormatChecker>)
        ensures
            r == format_for(self, format@),
    {
        match format_lookup(format) {
            None => None,
            Some(f) => match self {
                Draft::Draft7 => Some(f),
                Draft::Draft6 => if str_eq(format, "idn-email") {
                    None
                } else {
                    match f {
                        FormatChecker::Iri => None,
                        FormatChecker::IriReference => None,
                        _ => Some(f),
                    }
                },
                Draft::Draft4 => if str_eq(format, "idn-email") {
                    None
                } else {
                    match f {
                        FormatChecker::DateTime => Some(f),
                        FormatChecker::Email => Some(f),
                        FormatChecker::Hostname => Some(f),
                        FormatChecker::Ipv4 => Some(f),
                        FormatChecker::Ipv6 => Some(f),
                        FormatChecker::Regex => Some(f),
                        FormatChecker::Uri => Some(f),
                        _ => None,
                    }
                },
            },
        }
    }

    /// Return the draft's number.
    pub fn get_draft_number(self) -> (r: u8)
        ensures
            r == self.number(),
    {
        match self {
            Draft::Draft4 => 4,
            Draft::Draft6 => 6,
            Draft::Draft7 => 7,
        }
    }

    /// The draft's number: 4, 6 or 7.
    pub open spec fn number(self) -> u8 {
        match self {
            Draft::Draft4 => 4,
            Draft::Draft6 => 6,
            Draft::Draft7 => 7,
        }
    }
}

/// Get the `Draft` from a JSON Schema URL.
pub fn draft_from_url(url: &str) -> (r: Option<Draft>)
    ensures
        r == draft_of_url(url@),
{
    if str_eq(url, "http://json-schema.org/draft-07/schema") {
        Some(Draft::Draft7)
    } else if str_eq(url, "http://json-schema.org/draft-06/schema") {
        Some(Draft::Draft6)
    } else if str_eq(url, "http://json-schema.org/draft-04/schema") {
        Some(Draft::Draft4)
    } else {
        None
    }
}

/// Get the `Draft` from a JSON Schema.
pub fn draft_from_schema(schema: &Json) -> (r: Option<Draft>)
    ensures
        r == draft_of_schema(schema@),
{
    match schema.get("$schema") {
        Some(value) => match value.as_str() {
            Some(url) => draft_from_url(url),
            None => None,
        },
        None => None,
    }
}

} // verus!
