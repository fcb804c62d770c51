//! The meta-schemas of the three drafts: the schemas that say what a schema of each
//! draft looks like. They are part of the library and built in memory.
//!
//! Every document is given twice: as the model that contracts speak of, and as the code
//! that builds it. The members of each object stand in the order of their names.

use vstd::prelude::*;
use vstd::string::*;
use crate::json::{json_views, member_views, Json, JsonValue};
use crate::number::Number;
use crate::schemas::Draft;

verus! {

/// The members of an object under construction.
struct Members {
    list: Vec<(String, Json)>,
}

/// The elements of an array under construction.
struct Items {
    list: Vec<Json>,
}

impl Members {
    spec fn model(self) -> Seq<(Seq<char>, JsonValue)> {
        member_views(self.list@)
    }

    fn new() -> (r: Members)
        ensures
            r.model() == Seq::<(Seq<char>, JsonValue)>::empty(),
    {
        let r = Members { list: Vec::new() };
        assert(r.model() =~= Seq::empty());
        r
    }

    fn with(self, name: &str, value: Json) -> (r: Members)
        ensures
            r.model() == self.model().push((name@, value@)),
    {
        let mut list = self.list;
        list.push((name.to_string(), value));
        let r = Members { list };
        assert(r.model() =~= self.model().push((name@, value@)));
        r
    }

    fn build(self) -> (r: Json)
        ensures
            r@ == JsonValue::Object(self.model()),
    {
        Json::Object(self.list)
    }
}

impl Items {
    spec fn model(self) -> Seq<JsonValue> {
        json_views(self.list@)
    }

    fn new() -> (r: Items)
        ensures
            r.model() == Seq::<JsonValue>::empty(),
    {
        let r = Items { list: Vec::new() };
        assert(r.model() =~= Seq::empty());
        r
    }

    fn with(self, value: Json) -> (r: Items)
        ensures
            r.model() == self.model().push(value@),
    {
        let mut list = self.list;
        list.push(value);
        let r = Items { list };
        assert(r.model() =~= self.model().push(value@));
        r
    }

    fn build(self) -> (r: Json)
        ensures
            r@ == JsonValue::Array(self.model()),
    {
        Json::Array(self.list)
    }
}

fn text(s: &str) -> (r: Json)
    ensures
        r@ == JsonValue::String(s@),
{
    Json::String(s.to_string())
}

/// The schema that refers to another: `{"$ref": target}`.
pub open spec fn reference_model(target: Seq<char>) -> JsonValue {
    JsonValue::Object(Seq::empty().push(("$ref"@, JsonValue::String(target))))
}

/// The schema that asks for one type: `{"type": name}`.
pub open spec fn typed_model(name: Seq<char>) -> JsonValue {
    JsonValue::Object(Seq::empty().push(("type"@, JsonValue::String(name))))
}

fn reference(target: &str) -> (r: Json)
    ensures
        r@ == reference_model(target@),
{
    Members::new().with("$ref", text(target)).build()
}

fn typed(name: &str) -> (r: Json)
    ensures
        r@ == typed_model(name@),
{
    Members::new().with("type", text(name)).build()
}

/// The model of the definitions in the meta-schema of draft 4.
pub open spec fn draft4_definitions_model() -> JsonValue {
    JsonValue::Object(
        Seq::empty()
            .push(("positiveInteger"@, JsonValue::Object(
                Seq::empty()
                    .push(("minimum"@, JsonValue::Number(Number::PosInt(0))))
                    .push(("type"@, JsonValue::String("integer"@))),
            )))
            .push(("positiveIntegerDefault0"@, JsonValue::Object(
                Seq::empty()
                    .push(("allOf"@, JsonValue::Array(
                        Seq::empty()
                            .push(reference_model("#/definitions/positiveInteger"@))
                            .push(JsonValue::Object(
                                Seq::empty()
                                    .push(("default"@, JsonValue::Number(Number::PosInt(0)))),
                            )),
                    ))),
            )))
            .push(("schemaArray"@, JsonValue::Object(
                Seq::empty()
                    .push(("items"@, reference_model("#"@)))
                    .push(("minItems"@, JsonValue::Number(Number::PosInt(1))))
                    .push(("type"@, JsonValue::String("array"@))),
            )))
            .push(("simpleTypes"@, JsonValue::Object(
                Seq::empty()
                    .push(("enum"@, JsonValue::Array(
                        Seq::empty()
                            .push(JsonValue::String("array"@))
                            .push(JsonValue::String("boolean"@))
                            .push(JsonValue::String("integer"@))
                            .push(JsonValue::String("null"@))
                            .push(JsonValue::String("number"@))
                            .push(JsonValue::String("object"@))
                            .push(JsonValue::String("string"@)),
                    ))),
            )))
            .push(("stringArray"@, JsonValue::Object(
                Seq::empty()
                    .push(("items"@, typed_model("string"@)))
                    .push(("minItems"@, JsonValue::Number(Number::PosInt(1))))
                    .push(("type"@, JsonValue::String("array"@)))
                    .push(("uniqueItems"@, JsonValue::Bool(true))),
            ))),
    )
}

fn draft4_definitions() -> (r: Json)
    ensures
        r@ == draft4_definitions_model(),
{
    Members::new()
        .with("positiveInteger", Members::new()
            .with("minimum", Json::Number(Number::PosInt(0)))
            .with("type", text("integer"))
            .build())
        .with("positiveIntegerDefault0", Members::new()
            .with("allOf", Items::new()
                .with(reference("#/definitions/positiveInteger"))
                .with(Members::new()
                    .with("default", Json::Number(Number::PosInt(0)))
                    .build())
                .build())
            .build())
        .with("schemaArray", Members::new()
            .with("items", reference("#"))
            .with("minItems", Json::Number(Number::PosInt(1)))
            .with("type", text("array"))
            .build())
        .with("simpleTypes", Members::new()
            .with("enum", Items::new()
                .with(text("array"))
                .with(text("boolean"))
                .with(text("integer"))
                .with(text("null"))
                .with(text("number"))
                .with(text("object"))
                .with(text("string"))
                .build())
            .build())
        .with("stringArray", Members::new()
            .with("items", typed("string"))
            .with("minItems", Json::Number(Number::PosInt(1)))
            .with("type", text("array"))
            .with("uniqueItems", Json::Bool(true))
            .build())
        .build()
}

/// The model of the keywords that the meta-schema describes, each with the schema of its value, of draft 4.
pub open spec fn draft4_properties_model() -> JsonValue {
    JsonValue::Object(
        Seq::empty()
            .push(("$schema"@, typed_model("string"@)))
            .push(("additionalItems"@, JsonValue::Object(
                Seq::empty()
                    .push(("anyOf"@, JsonValue::Array(
                        Seq::empty()
                            .push(typed_model("boolean"@))
                            .push(reference_model("#"@)),
                    )))
                    .push(("default"@, JsonValue::Object(
                        Seq::empty(),
                    ))),
            )))
            .push(("additionalProperties"@, JsonValue::Object(
                Seq::empty()
                    .push(("anyOf"@, JsonValue::Array(
                        Seq::empty()
                            .push(typed_model("boolean"@))
                            .push(reference_model("#"@)),
                    )))
                    .push(("default"@, JsonValue::Object(
                        Seq::empty(),
                    ))),
            )))
            .push(("allOf"@, reference_model("#/definitions/schemaArray"@)))
            .push(("anyOf"@, reference_model("#/definitions/schemaArray"@)))
            .push(("default"@, JsonValue::Object(
                Seq::empty(),
            )))
            .push(("definitions"@, JsonValue::Object(
                Seq::empty()
                    .push(("additionalProperties"@, reference_model("#"@)))
                    .push(("default"@, JsonValue::Object(
                        Seq::empty(),
                    )))
                    .push(("type"@, JsonValue::String("object"@))),
            )))
            .push(("dependencies"@, JsonValue::Object(
                Seq::empty()
                    .push(("additionalProperties"@, JsonValue::Object(
                        Seq::empty()
                            .push(("anyOf"@, JsonValue::Array(
                                Seq::empty()
                                    .push(reference_model("#"@))
                                    .push(reference_model("#/definitions/stringArray"@)),
                            ))),
                    )))
                    .push(("type"@, JsonValue::String("object"@))),
            )))
            .push(("description"@, typed_model("string"@)))
            .push(("enum"@, JsonValue::Object(
                Seq::empty()
                    .push(("minItems"@, JsonValue::Number(Number::PosInt(1))))
                    .push(("type"@, JsonValue::String("array"@)))
                    .push(("uniqueItems"@, JsonValue::Bool(true))),
            )))
            .push(("exclusiveMaximum"@, JsonValue::Object(
                Seq::empty()
                    .push(("default"@, JsonValue::Bool(false)))
                    .push(("type"@, JsonValue::String("boolean"@))),
            )))
            .push(("exclusiveMinimum"@, JsonValue::Object(
                Seq::empty()
                    .push(("default"@, JsonValue::Bool(false)))
                    .push(("type"@, JsonValue::String("boolean"@))),
            )))
            .push(("format"@, typed_model("string"@)))
            .push(("id"@, typed_model("string"@)))
            .push(("items"@, JsonValue::Object(
                Seq::empty()
                    .push(("anyOf"@, JsonValue::Array(
                        Seq::empty()
                            .push(reference_model("#"@))
                            .push(reference_model("#/definitions/schemaArray"@)),
                    )))
                    .push(("default"@, JsonValue::Object(
                        Seq::empty(),
                    ))),
            )))
            .push(("maxItems"@, reference_model("#/definitions/positiveInteger"@)))
            .push(("maxLength"@, reference_model("#/definitions/positiveInteger"@)))
            .push(("maxProperties"@, reference_model("#/definitions/positiveInteger"@)))
            .push(("maximum"@, typed_model("number"@)))
            .push(("minItems"@, reference_model("#/definitions/positiveIntegerDefault0"@)))
            .push(("minLength"@, reference_model("#/definitions/positiveIntegerDefault0"@)))
            .push(("minProperties"@, reference_model("#/definitions/positiveIntegerDefault0"@)))
            .push(("minimum"@, typed_model("number"@)))
            .push(("multipleOf"@, JsonValue::Object(
                Seq::empty()
                    .push(("exclusiveMinimum"@, JsonValue::Bool(true)))
                    .push(("minimum"@, JsonValue::Number(Number::PosInt(0))))
                    .push(("type"@, JsonValue::String("number"@))),
            )))
            .push(("not"@, reference_model("#"@)))
            .push(("oneOf"@, reference_model("#/definitions/schemaArray"@)))
            .push(("pattern"@, JsonValue::Object(
                Seq::empty()
                    .push(("format"@, JsonValue::String("regex"@)))
                    .push(("type"@, JsonValue::String("string"@))),
            )))
            .push(("patternProperties"@, JsonValue::Object(
                Seq::empty()
                    .push(("additionalProperties"@, reference_model("#"@)))
                    .push(("default"@, JsonValue::Object(
                        Seq::empty(),
                    )))
                    .push(("type"@, JsonValue::String("object"@))),
            )))
            .push(("properties"@, JsonValue::Object(
                Seq::empty()
                    .push(("additionalProperties"@, reference_model("#"@)))
                    .push(("default"@, JsonValue::Object(
                        Seq::empty(),
                    )))
                    .push(("type"@, JsonValue::String("object"@))),
            )))
            .push(("required"@, reference_model("#/definitions/stringArray"@)))
            .push(("title"@, typed_model("string"@)))
            .push(("type"@, JsonValue::Object(
                Seq::empty()
                    .push(("anyOf"@, JsonValue::Array(
                        Seq::empty()
                            .push(reference_model("#/definitions/simpleTypes"@))
                            .push(JsonValue::Object(
                                Seq::empty()
                                    .push(("items"@, reference_model("#/definitions/simpleTypes"@)))
                                    .push(("minItems"@, JsonValue::Number(Number::PosInt(1))))
                                    .push(("type"@, JsonValue::String("array"@)))
                                    .push(("uniqueItems"@, JsonValue::Bool(true))),
                            )),
                    ))),
            )))
            .push(("uniqueItems"@, JsonValue::Object(
                Seq::empty()
                    .push(("default"@, JsonValue::Bool(false)))
                    .push(("type"@, JsonValue::String("boolean"@))),
            ))),
    )
}

fn draft4_properties() -> (r: Json)
    ensures
        r@ == draft4_properties_model(),
{
    Members::new()
        .with("$schema", typed("string"))
        .with("additionalItems", Members::new()
            .with("anyOf", Items::new()
                .with(typed("boolean"))
                .with(reference("#"))
                .build())
            .with("default", Members::new()
                .build())
            .build())
        .with("additionalProperties", Members::new()
            .with("anyOf", Items::new()
                .with(typed("boolean"))
                .with(reference("#"))
                .build())
            .with("default", Members::new()
                .build())
            .build())
        .with("allOf", reference("#/definitions/schemaArray"))
        .with("anyOf", reference("#/definitions/schemaArray"))
        .with("default", Members::new()
            .build())
        .with("definitions", Members::new()
            .with("additionalProperties", reference("#"))
            .with("default", Members::new()
                .build())
            .with("type", text("object"))
            .build())
        .with("dependencies", Members::new()
            .with("additionalProperties", Members::new()
                .with("anyOf", Items::new()
                    .with(reference("#"))
                    .with(reference("#/definitions/stringArray"))
                    .build())
                .build())
            .with("type", text("object"))
            .build())
        .with("description", typed("string"))
        .with("enum", Members::new()
            .with("minItems", Json::Number(Number::PosInt(1)))
            .with("type", text("array"))
            .with("uniqueItems", Json::Bool(true))
            .build())
        .with("exclusiveMaximum", Members::new()
            .with("default", Json::Bool(false))
            .with("type", text("boolean"))
            .build())
        .with("exclusiveMinimum", Members::new()
            .with("default", Json::Bool(false))
            .with("type", text("boolean"))
            .build())
        .with("format", typed("string"))
        .with("id", typed("string"))
        .with("items", Members::new()
            .with("anyOf", Items::new()
                .with(reference("#"))
                .with(reference("#/definitions/schemaArray"))
                .build())
            .with("default", Members::new()
                .build())
            .build())
        .with("maxItems", reference("#/definitions/positiveInteger"))
        .with("maxLength", reference("#/definitions/positiveInteger"))
        .with("maxProperties", reference("#/definitions/positiveInteger"))
        .with("maximum", typed("number"))
        .with("minItems", reference("#/definitions/positiveIntegerDefault0"))
        .with("minLength", reference("#/definitions/positiveIntegerDefault0"))
        .with("minProperties", reference("#/definitions/positiveIntegerDefault0"))
        .with("minimum", typed("number"))
        .with("multipleOf", Members::new()
            .with("exclusiveMinimum", Json::Bool(true))
            .with("minimum", Json::Number(Number::PosInt(0)))
            .with("type", text("number"))
            .build())
        .with("not", reference("#"))
        .with("oneOf", reference("#/definitions/schemaArray"))
        .with("pattern", Members::new()
            .with("format", text("regex"))
            .with("type", text("string"))
            .build())
        .with("patternProperties", Members::new()
            .with("additionalProperties", reference("#"))
            .with("default", Members::new()
                .build())
            .with("type", text("object"))
            .build())
        .with("properties", Members::new()
            .with("additionalProperties", reference("#"))
            .with("default", Members::new()
                .build())
            .with("type", text("object"))
            .build())
        .with("required", reference("#/definitions/stringArray"))
        .with("title", typed("string"))
        .with("type", Members::new()
            .with("anyOf", Items::new()
                .with(reference("#/definitions/simpleTypes"))
                .with(Members::new()
                    .with("items", reference("#/definitions/simpleTypes"))
                    .with("minItems", Json::Number(Number::PosInt(1)))
                    .with("type", text("array"))
                    .with("uniqueItems", Json::Bool(true))
                    .build())
                .build())
            .build())
        .with("uniqueItems", Members::new()
            .with("default", Json::Bool(false))
            .with("type", text("boolean"))
            .build())
        .build()
}

/// The model of the meta-schema of draft 4.
pub open spec fn draft4_model() -> JsonValue {
    JsonValue::Object(
        Seq::empty()
            .push(("$schema"@, JsonValue::String("http://json-schema.org/draft-04/schema#"@)))
            .push(("default"@, JsonValue::Object(
                Seq::empty(),
            )))
            .push(("definitions"@, draft4_definitions_model()))
            .push(("dependencies"@, JsonValue::Object(
                Seq::empty()
                    .push(("exclusiveMaximum"@, JsonValue::Array(
                        Seq::empty()
                            .push(JsonValue::String("maximum"@)),
                    )))
                    .push(("exclusiveMinimum"@, JsonValue::Array(
                        Seq::empty()
                            .push(JsonValue::String("minimum"@)),
                    ))),
            )))
            .push(("description"@, JsonValue::String("Core schema meta-schema"@)))
            .push(("id"@, JsonValue::String("http://json-schema.org/draft-04/schema#"@)))
            .push(("properties"@, draft4_properties_model()))
            .push(("type"@, JsonValue::String("object"@))),
    )
}

fn draft4() -> (r: Json)
    ensures
        r@ == draft4_model(),
{
    Members::new()
        .with("$schema", text("http://json-schema.org/draft-04/schema#"))
        .with("default", Members::new()
            .build())
        .with("definitions", draft4_definitions())
        .with("dependencies", Members::new()
            .with("exclusiveMaximum", Items::new()
                .with(text("maximum"))
                .build())
            .with("exclusiveMinimum", Items::new()
                .with(text("minimum"))
                .build())
            .build())
        .with("description", text("Core schema meta-schema"))
        .with("id", text("http://json-schema.org/draft-04/schema#"))
        .with("properties", draft4_properties())
        .with("type", text("object"))
        .build()
}

/// The model of the definitions in the meta-schema of draft 6.
pub open spec fn draft6_definitions_model() -> JsonValue {
    JsonValue::Object(
        Seq::empty()
            .push(("nonNegativeInteger"@, JsonValue::Object(
                Seq::empty()
                    .push(("minimum"@, JsonValue::Number(Number::PosInt(0))))
                    .push(("type"@, JsonValue::String("integer"@))),
            )))
            .push(("nonNegativeIntegerDefault0"@, JsonValue::Object(
                Seq::empty()
                    .push(("allOf"@, JsonValue::Array(
                        Seq::empty()
                            .push(reference_model("#/definitions/nonNegativeInteger"@))
                            .push(JsonValue::Object(
                                Seq::empty()
                                    .push(("default"@, JsonValue::Number(Number::PosInt(0)))),
                            )),
                    ))),
            )))
            .push(("schemaArray"@, JsonValue::Object(
                Seq::empty()
                    .push(("items"@, reference_model("#"@)))
                    .push(("minItems"@, JsonValue::Number(Number::PosInt(1))))
                    .push(("type"@, JsonValue::String("array"@))),
            )))
            .push(("simpleTypes"@, JsonValue::Object(
                Seq::empty()
                    .push(("enum"@, JsonValue::Array(
                        Seq::empty()
                            .push(JsonValue::String("array"@))
                            .push(JsonValue::String("boolean"@))
                            .push(JsonValue::String("integer"@))
                            .push(JsonValue::String("null"@))
                            .push(JsonValue::String("number"@))
                            .push(JsonValue::String("object"@))
                            .push(JsonValue::String("string"@)),
                    ))),
            )))
            .push(("stringArray"@, JsonValue::Object(
                Seq::empty()
                    .push(("default"@, JsonValue::Array(
                        Seq::empty(),
                    )))
                    .push(("items"@, typed_model("string"@)))
                    .push(("type"@, JsonValue::String("array"@)))
                    .push(("uniqueItems"@, JsonValue::Bool(true))),
            ))),
    )
}

fn draft6_definitions() -> (r: Json)
    ensures
        r@ == draft6_definitions_model(),
{
    Members::new()
        .with("nonNegativeInteger", Members::new()
            .with("minimum", Json::Number(Number::PosInt(0)))
            .with("type", text("integer"))
            .build())
        .with("nonNegativeIntegerDefault0", Members::new()
            .with("allOf", Items::new()
                .with(reference("#/definitions/nonNegativeInteger"))
                .with(Members::new()
                    .with("default", Json::Number(Number::PosInt(0)))
                    .build())
                .build())
            .build())
        .with("schemaArray", Members::new()
            .with("items", reference("#"))
            .with("minItems", Json::Number(Number::PosInt(1)))
            .with("type", text("array"))
            .build())
        .with("simpleTypes", Members::new()
            .with("enum", Items::new()
                .with(text("array"))
                .with(text("boolean"))
                .with(text("integer"))
                .with(text("null"))
                .with(text("number"))
                .with(text("object"))
                .with(text("string"))
                .build())
            .build())
        .with("stringArray", Members::new()
            .with("default", Items::new()
                .build())
            .with("items", typed("string"))
            .with("type", text("array"))
            .with("uniqueItems", Json::Bool(true))
            .build())
        .build()
}

/// The model of the keywords that the meta-schema describes, each with the schema of its value, of draft 6.
pub open spec fn draft6_properties_model() -> JsonValue {
    JsonValue::Object(
        Seq::empty()
            .push(("$id"@, JsonValue::Object(
                Seq::empty()
                    .push(("format"@, JsonValue::String("uri-reference"@)))
                    .push(("type"@, JsonValue::String("string"@))),
            )))
            .push(("$ref"@, JsonValue::Object(
                Seq::empty()
                    .push(("format"@, JsonValue::String("uri-reference"@)))
                    .push(("type"@, JsonValue::String("string"@))),
            )))
            .push(("$schema"@, JsonValue::Object(
                Seq::empty()
                    .push(("format"@, JsonValue::String("uri"@)))
                    .push(("type"@, JsonValue::String("string"@))),
            )))
            .push(("additionalItems"@, reference_model("#"@)))
            .push(("additionalProperties"@, reference_model("#"@)))
            .push(("allOf"@, reference_model("#/definitions/schemaArray"@)))
            .push(("anyOf"@, reference_model("#/definitions/schemaArray"@)))
            .push(("const"@, JsonValue::Object(
                Seq::empty(),
            )))
            .push(("contains"@, reference_model("#"@)))
            .push(("default"@, JsonValue::Object(
                Seq::empty(),
            )))
            .push(("definitions"@, JsonValue::Object(
                Seq::empty()
                    .push(("additionalProperties"@, reference_model("#"@)))
                    .push(("default"@, JsonValue::Object(
                        Seq::empty(),
                    )))
                    .push(("type"@, JsonValue::String("object"@))),
            )))
            .push(("dependencies"@, JsonValue::Object(
                Seq::empty()
                    .push(("additionalProperties"@, JsonValue::Object(
                        Seq::empty()
                            .push(("anyOf"@, JsonValue::Array(
                                Seq::empty()
                                    .push(reference_model("#"@))
                                    .push(reference_model("#/definitions/stringArray"@)),
                            ))),
                    )))
                    .push(("type"@, JsonValue::String("object"@))),
            )))
            .push(("description"@, typed_model("string"@)))
            .push(("enum"@, JsonValue::Object(
                Seq::empty()
                    .push(("minItems"@, JsonValue::Number(Number::PosInt(1))))
                    .push(("type"@, JsonValue::String("array"@)))
                    .push(("uniqueItems"@, JsonValue::Bool(true))),
            )))
            .push(("examples"@, JsonValue::Object(
                Seq::empty()
                    .push(("items"@, JsonValue::Object(
                        Seq::empty(),
                    )))
                    .push(("type"@, JsonValue::String("array"@))),
            )))
            .push(("exclusiveMaximum"@, typed_model("number"@)))
            .push(("exclusiveMinimum"@, typed_model("number"@)))
            .push(("format"@, typed_model("string"@)))
            .push(("items"@, JsonValue::Object(
                Seq::empty()
                    .push(("anyOf"@, JsonValue::Array(
                        Seq::empty()
                            .push(reference_model("#"@))
                            .push(reference_model("#/definitions/schemaArray"@)),
                    )))
                    .push(("default"@, JsonValue::Object(
                        Seq::empty(),
                    ))),
            )))
            .push(("maxItems"@, reference_model("#/definitions/nonNegativeInteger"@)))
            .push(("maxLength"@, reference_model("#/definitions/nonNegativeInteger"@)))
            .push(("maxProperties"@, reference_model("#/definitions/nonNegativeInteger"@)))
            .push(("maximum"@, typed_model("number"@)))
            .push(("minItems"@, reference_model("#/definitions/nonNegativeIntegerDefault0"@)))
            .push(("minLength"@, reference_model("#/definitions/nonNegativeIntegerDefault0"@)))
            .push(("minProperties"@, reference_model("#/definitions/nonNegativeIntegerDefault0"@)))
            .push(("minimum"@, typed_model("number"@)))
            .push(("multipleOf"@, JsonValue::Object(
                Seq::empty()
                    .push(("exclusiveMinimum"@, JsonValue::Number(Number::PosInt(0))))
                    .push(("type"@, JsonValue::String("number"@))),
            )))
            .push(("not"@, reference_model("#"@)))
            .push(("oneOf"@, reference_model("#/definitions/schemaArray"@)))
            .push(("pattern"@, JsonValue::Object(
                Seq::empty()
                    .push(("format"@, JsonValue::String("regex"@)))
                    .push(("type"@, JsonValue::String("string"@))),
            )))
            .push(("patternProperties"@, JsonValue::Object(
                Seq::empty()
                    .push(("additionalProperties"@, reference_model("#"@)))
                    .push(("default"@, JsonValue::Object(
                        Seq::empty(),
                    )))
                    .push(("type"@, JsonValue::String("object"@))),
            )))
            .push(("properties"@, JsonValue::Object(
                Seq::empty()
                    .push(("additionalProperties"@, reference_model("#"@)))
                    .push(("default"@, JsonValue::Object(
                        Seq::empty(),
                    )))
                    .push(("type"@, JsonValue::String("object"@))),
            )))
            .push(("propertyNames"@, reference_model("#"@)))
            .push(("required"@, reference_model("#/definitions/stringArray"@)))
            .push(("title"@, typed_model("string"@)))
            .push(("type"@, JsonValue::Object(
                Seq::empty()
                    .push(("anyOf"@, JsonValue::Array(
                        Seq::empty()
                            .push(reference_model("#/definitions/simpleTypes"@))
                            .push(JsonValue::Object(
                                Seq::empty()
                                    .push(("items"@, reference_model("#/definitions/simpleTypes"@)))
                                    .push(("minItems"@, JsonValue::Number(Number::PosInt(1))))
                                    .push(("type"@, JsonValue::String("array"@)))
                                    .push(("uniqueItems"@, JsonValue::Bool(true))),
                            )),
                    ))),
            )))
            .push(("uniqueItems"@, JsonValue::Object(
                Seq::empty()
                    .push(("default"@, JsonValue::Bool(false)))
                    .push(("type"@, JsonValue::String("boolean"@))),
            ))),
    )
}

fn draft6_properties() -> (r: Json)
    ensures
        r@ == draft6_properties_model(),
{
    Members::new()
        .with("$id", Members::new()
            .with("format", text("uri-reference"))
            .with("type", text("string"))
            .build())
        .with("$ref", Members::new()
            .with("format", text("uri-reference"))
            .with("type", text("string"))
            .build())
        .with("$schema", Members::new()
            .with("format", text("uri"))
            .with("type", text("string"))
            .build())
        .with("additionalItems", reference("#"))
        .with("additionalProperties", reference("#"))
        .with("allOf", reference("#/definitions/schemaArray"))
        .with("anyOf", reference("#/definitions/schemaArray"))
        .with("const", Members::new()
            .build())
        .with("contains", reference("#"))
        .with("default", Members::new()
            .build())
        .with("definitions", Members::new()
            .with("additionalProperties", reference("#"))
            .with("default", Members::new()
                .build())
            .with("type", text("object"))
            .build())
        .with("dependencies", Members::new()
            .with("additionalProperties", Members::new()
                .with("anyOf", Items::new()
                    .with(reference("#"))
                    .with(reference("#/definitions/stringArray"))
                    .build())
                .build())
            .with("type", text("object"))
            .build())
        .with("description", typed("string"))
        .with("enum", Members::new()
            .with("minItems", Json::Number(Number::PosInt(1)))
            .with("type", text("array"))
            .with("uniqueItems", Json::Bool(true))
            .build())
        .with("examples", Members::new()
            .with("items", Members::new()
                .build())
            .with("type", text("array"))
            .build())
        .with("exclusiveMaximum", typed("number"))
        .with("exclusiveMinimum", typed("number"))
        .with("format", typed("string"))
        .with("items", Members::new()
            .with("anyOf", Items::new()
                .with(reference("#"))
                .with(reference("#/definitions/schemaArray"))
                .build())
            .with("default", Members::new()
                .build())
            .build())
        .with("maxItems", reference("#/definitions/nonNegativeInteger"))
        .with("maxLength", reference("#/definitions/nonNegativeInteger"))
        .with("maxProperties", reference("#/definitions/nonNegativeInteger"))
        .with("maximum", typed("number"))
        .with("minItems", reference("#/definitions/nonNegativeIntegerDefault0"))
        .with("minLength", reference("#/definitions/nonNegativeIntegerDefault0"))
        .with("minProperties", reference("#/definitions/nonNegativeIntegerDefault0"))
        .with("minimum", typed("number"))
        .with("multipleOf", Members::new()
            .with("exclusiveMinimum", Json::Number(Number::PosInt(0)))
            .with("type", text("number"))
            .build())
        .with("not", reference("#"))
        .with("oneOf", reference("#/definitions/schemaArray"))
        .with("pattern", Members::new()
            .with("format", text("regex"))
            .with("type", text("string"))
            .build())
        .with("patternProperties", Members::new()
            .with("additionalProperties", reference("#"))
            .with("default", Members::new()
                .build())
            .with("type", text("object"))
            .build())
        .with("properties", Members::new()
            .with("additionalProperties", reference("#"))
            .with("default", Members::new()
                .build())
            .with("type", text("object"))
            .build())
        .with("propertyNames", reference("#"))
        .with("required", reference("#/definitions/stringArray"))
        .with("title", typed("string"))
        .with("type", Members::new()
            .with("anyOf", Items::new()
                .with(reference("#/definitions/simpleTypes"))
                .with(Members::new()
                    .with("items", reference("#/definitions/simpleTypes"))
                    .with("minItems", Json::Number(Number::PosInt(1)))
                    .with("type", text("array"))
                    .with("uniqueItems", Json::Bool(true))
                    .build())
                .build())
            .build())
        .with("uniqueItems", Members::new()
            .with("default", Json::Bool(false))
            .with("type", text("boolean"))
            .build())
        .build()
}

/// The model of the meta-schema of draft 6.
pub open spec fn draft6_model() -> JsonValue {
    JsonValue::Object(
        Seq::empty()
            .push(("$id"@, JsonValue::String("http://json-schema.org/draft-06/schema#"@)))
            .push(("$schema"@, JsonValue::String("http://json-schema.org/draft-06/schema#"@)))
            .push(("default"@, JsonValue::Object(
                Seq::empty(),
            )))
            .push(("definitions"@, draft6_definitions_model()))
            .push(("properties"@, draft6_properties_model()))
            .push(("title"@, JsonValue::String("Core schema meta-schema"@)))
            .push(("type"@, JsonValue::Array(
                Seq::empty()
                    .push(JsonValue::String("object"@))
                    .push(JsonValue::String("boolean"@)),
            ))),
    )
}

fn draft6() -> (r: Json)
    ensures
        r@ == draft6_model(),
{
    Members::new()
        .with("$id", text("http://json-schema.org/draft-06/schema#"))
        .with("$schema", text("http://json-schema.org/draft-06/schema#"))
        .with("default", Members::new()
            .build())
        .with("definitions", draft6_definitions())
        .with("properties", draft6_properties())
        .with("title", text("Core schema meta-schema"))
        .with("type", Items::new()
            .with(text("object"))
            .with(text("boolean"))
            .build())
        .build()
}

/// The model of the definitions in the meta-schema of draft 7.
pub open spec fn draft7_definitions_model() -> JsonValue {
    JsonValue::Object(
        Seq::empty()
            .push(("nonNegativeInteger"@, JsonValue::Object(
                Seq::empty()
                    .push(("minimum"@, JsonValue::Number(Number::PosInt(0))))
                    .push(("type"@, JsonValue::String("integer"@))),
            )))
            .push(("nonNegativeIntegerDefault0"@, JsonValue::Object(
                Seq::empty()
                    .push(("allOf"@, JsonValue::Array(
                        Seq::empty()
                            .push(reference_model("#/definitions/nonNegativeInteger"@))
                            .push(JsonValue::Object(
                                Seq::empty()
                                    .push(("default"@, JsonValue::Number(Number::PosInt(0)))),
                            )),
                    ))),
            )))
            .push(("schemaArray"@, JsonValue::Object(
                Seq::empty()
                    .push(("items"@, reference_model("#"@)))
                    .push(("minItems"@, JsonValue::Number(Number::PosInt(1))))
                    .push(("type"@, JsonValue::String("array"@))),
            )))
            .push(("simpleTypes"@, JsonValue::Object(
                Seq::empty()
                    .push(("enum"@, JsonValue::Array(
                        Seq::empty()
                            .push(JsonValue::String("array"@))
                            .push(JsonValue::String("boolean"@))
                            .push(JsonValue::String("integer"@))
                            .push(JsonValue::String("null"@))
                            .push(JsonValue::String("number"@))
                            .push(JsonValue::String("object"@))
                            .push(JsonValue::String("string"@)),
                    ))),
            )))
            .push(("stringArray"@, JsonValue::Object(
                Seq::empty()
                    .push(("default"@, JsonValue::Array(
                        Seq::empty(),
                    )))
                    .push(("items"@, typed_model("string"@)))
                    .push(("type"@, JsonValue::String("array"@)))
                    .push(("uniqueItems"@, JsonValue::Bool(true))),
            ))),
    )
}

fn draft7_definitions() -> (r: Json)
    ensures
        r@ == draft7_definitions_model(),
{
    Members::new()
        .with("nonNegativeInteger", Members::new()
            .with("minimum", Json::Number(Number::PosInt(0)))
            .with("type", text("integer"))
            .build())
        .with("nonNegativeIntegerDefault0", Members::new()
            .with("allOf", Items::new()
                .with(reference("#/definitions/nonNegativeInteger"))
                .with(Members::new()
                    .with("default", Json::Number(Number::PosInt(0)))
                    .build())
                .build())
            .build())
        .with("schemaArray", Members::new()
            .with("items", reference("#"))
            .with("minItems", Json::Number(Number::PosInt(1)))
            .with("type", text("array"))
            .build())
        .with("simpleTypes", Members::new()
            .with("enum", Items::new()
                .with(text("array"))
                .with(text("boolean"))
                .with(text("integer"))
                .with(text("null"))
                .with(text("number"))
                .with(text("object"))
                .with(text("string"))
                .build())
            .build())
        .with("stringArray", Members::new()
            .with("default", Items::new()
                .build())
            .with("items", typed("string"))
            .with("type", text("array"))
            .with("uniqueItems", Json::Bool(true))
            .build())
        .build()
}

/// The model of the keywords that the meta-schema describes, each with the schema of its value, of draft 7.
pub open spec fn draft7_properties_model() -> JsonValue {
    JsonValue::Object(
        Seq::empty()
            .push(("$comment"@, typed_model("string"@)))
            .push(("$id"@, JsonValue::Object(
                Seq::empty()
                    .push(("format"@, JsonValue::String("uri-reference"@)))
                    .push(("type"@, JsonValue::String("string"@))),
            )))
            .push(("$ref"@, JsonValue::Object(
                Seq::empty()
                    .push(("format"@, JsonValue::String("uri-reference"@)))
                    .push(("type"@, JsonValue::String("string"@))),
            )))
            .push(("$schema"@, JsonValue::Object(
                Seq::empty()
                    .push(("format"@, JsonValue::String("uri"@)))
                    .push(("type"@, JsonValue::String("string"@))),
            )))
            .push(("additionalItems"@, reference_model("#"@)))
            .push(("additionalProperties"@, reference_model("#"@)))
            .push(("allOf"@, reference_model("#/definitions/schemaArray"@)))
            .push(("anyOf"@, reference_model("#/definitions/schemaArray"@)))
            .push(("const"@, JsonValue::Bool(true)))
            .push(("contains"@, reference_model("#"@)))
            .push(("contentEncoding"@, typed_model("string"@)))
            .push(("contentMediaType"@, typed_model("string"@)))
            .push(("default"@, JsonValue::Bool(true)))
            .push(("definitions"@, JsonValue::Object(
                Seq::empty()
                    .push(("additionalProperties"@, reference_model("#"@)))
                    .push(("default"@, JsonValue::Object(
                        Seq::empty(),
                    )))
                    .push(("type"@, JsonValue::String("object"@))),
            )))
            .push(("dependencies"@, JsonValue::Object(
                Seq::empty()
                    .push(("additionalProperties"@, JsonValue::Object(
                        Seq::empty()
                            .push(("anyOf"@, JsonValue::Array(
                                Seq::empty()
                                    .push(reference_model("#"@))
                                    .push(reference_model("#/definitions/stringArray"@)),
                            ))),
                    )))
                    .push(("type"@, JsonValue::String("object"@))),
            )))
            .push(("description"@, typed_model("string"@)))
            .push(("else"@, reference_model("#"@)))
            .push(("enum"@, JsonValue::Object(
                Seq::empty()
                    .push(("items"@, JsonValue::Bool(true)))
                    .push(("type"@, JsonValue::String("array"@))),
            )))
            .push(("examples"@, JsonValue::Object(
                Seq::empty()
                    .push(("items"@, JsonValue::Bool(true)))
                    .push(("type"@, JsonValue::String("array"@))),
            )))
            .push(("exclusiveMaximum"@, typed_model("number"@)))
            .push(("exclusiveMinimum"@, typed_model("number"@)))
            .push(("format"@, typed_model("string"@)))
            .push(("if"@, reference_model("#"@)))
            .push(("items"@, JsonValue::Object(
                Seq::empty()
                    .push(("anyOf"@, JsonValue::Array(
                        Seq::empty()
                            .push(reference_model("#"@))
                            .push(reference_model("#/definitions/schemaArray"@)),
                    )))
                    .push(("default"@, JsonValue::Bool(true))),
            )))
            .push(("maxItems"@, reference_model("#/definitions/nonNegativeInteger"@)))
            .push(("maxLength"@, reference_model("#/definitions/nonNegativeInteger"@)))
            .push(("maxProperties"@, reference_model("#/definitions/nonNegativeInteger"@)))
            .push(("maximum"@, typed_model("number"@)))
            .push(("minItems"@, reference_model("#/definitions/nonNegativeIntegerDefault0"@)))
            .push(("minLength"@, reference_model("#/definitions/nonNegativeIntegerDefault0"@)))
            .push(("minProperties"@, reference_model("#/definitions/nonNegativeIntegerDefault0"@)))
            .push(("minimum"@, typed_model("number"@)))
            .push(("multipleOf"@, JsonValue::Object(
                Seq::empty()
                    .push(("exclusiveMinimum"@, JsonValue::Number(Number::PosInt(0))))
                    .push(("type"@, JsonValue::String("number"@))),
            )))
            .push(("not"@, reference_model("#"@)))
            .push(("oneOf"@, reference_model("#/definitions/schemaArray"@)))
            .push(("pattern"@, JsonValue::Object(
                Seq::empty()
                    .push(("format"@, JsonValue::String("regex"@)))
                    .push(("type"@, JsonValue::String("string"@))),
            )))
            .push(("patternProperties"@, JsonValue::Object(
                Seq::empty()
                    .push(("additionalProperties"@, reference_model("#"@)))
                    .push(("default"@, JsonValue::Object(
                        Seq::empty(),
                    )))
                    .push(("propertyNames"@, JsonValue::Object(
                        Seq::empty()
                            .push(("format"@, JsonValue::String("regex"@))),
                    )))
                    .push(("type"@, JsonValue::String("object"@))),
            )))
            .push(("properties"@, JsonValue::Object(
                Seq::empty()
                    .push(("additionalProperties"@, reference_model("#"@)))
                    .push(("default"@, JsonValue::Object(
                        Seq::empty(),
                    )))
                    .push(("type"@, JsonValue::String("object"@))),
            )))
            .push(("propertyNames"@, reference_model("#"@)))
            .push(("readOnly"@, JsonValue::Object(
                Seq::empty()
                    .push(("default"@, JsonValue::Bool(false)))
                    .push(("type"@, JsonValue::String("boolean"@))),
            )))
            .push(("required"@, reference_model("#/definitions/stringArray"@)))
            .push(("then"@, reference_model("#"@)))
            .push(("title"@, typed_model("string"@)))
            .push(("type"@, JsonValue::Object(
                Seq::empty()
                    .push(("anyOf"@, JsonValue::Array(
                        Seq::empty()
                            .push(reference_model("#/definitions/simpleTypes"@))
                            .push(JsonValue::Object(
                                Seq::empty()
                                    .push(("items"@, reference_model("#/definitions/simpleTypes"@)))
                                    .push(("minItems"@, JsonValue::Number(Number::PosInt(1))))
                                    .push(("type"@, JsonValue::String("array"@)))
                                    .push(("uniqueItems"@, JsonValue::Bool(true))),
                            )),
                    ))),
            )))
            .push(("uniqueItems"@, JsonValue::Object(
                Seq::empty()
                    .push(("default"@, JsonValue::Bool(false)))
                    .push(("type"@, JsonValue::String("boolean"@))),
            ))),
    )
}

fn draft7_properties() -> (r: Json)
    ensures
        r@ == draft7_properties_model(),
{
    Members::new()
        .with("$comment", typed("string"))
        .with("$id", Members::new()
            .with("format", text("uri-reference"))
            .with("type", text("string"))
            .build())
        .with("$ref", Members::new()
            .with("format", text("uri-reference"))
            .with("type", text("string"))
            .build())
        .with("$schema", Members::new()
            .with("format", text("uri"))
            .with("type", text("string"))
            .build())
        .with("additionalItems", reference("#"))
        .with("additionalProperties", reference("#"))
        .with("allOf", reference("#/definitions/schemaArray"))
        .with("anyOf", reference("#/definitions/schemaArray"))
        .with("const", Json::Bool(true))
        .with("contains", reference("#"))
        .with("contentEncoding", typed("string"))
        .with("contentMediaType", typed("string"))
        .with("default", Json::Bool(true))
        .with("definitions", Members::new()
            .with("additionalProperties", reference("#"))
            .with("default", Members::new()
                .build())
            .with("type", text("object"))
            .build())
        .with("dependencies", Members::new()
            .with("additionalProperties", Members::new()
                .with("anyOf", Items::new()
                    .with(reference("#"))
                    .with(reference("#/definitions/stringArray"))
                    .build())
                .build())
            .with("type", text("object"))
            .build())
        .with("description", typed("string"))
        .with("else", reference("#"))
        .with("enum", Members::new()
            .with("items", Json::Bool(true))
            .with("type", text("array"))
            .build())
        .with("examples", Members::new()
            .with("items", Json::Bool(true))
            .with("type", text("array"))
            .build())
        .with("exclusiveMaximum", typed("number"))
        .with("exclusiveMinimum", typed("number"))
        .with("format", typed("string"))
        .with("if", reference("#"))
        .with("items", Members::new()
            .with("anyOf", Items::new()
                .with(reference("#"))
                .with(reference("#/definitions/schemaArray"))
                .build())
            .with("default", Json::Bool(true))
            .build())
        .with("maxItems", reference("#/definitions/nonNegativeInteger"))
        .with("maxLength", reference("#/definitions/nonNegativeInteger"))
        .with("maxProperties", reference("#/definitions/nonNegativeInteger"))
        .with("maximum", typed("number"))
        .with("minItems", reference("#/definitions/nonNegativeIntegerDefault0"))
        .with("minLength", reference("#/definitions/nonNegativeIntegerDefault0"))
        .with("minProperties", reference("#/definitions/nonNegativeIntegerDefault0"))
        .with("minimum", typed("number"))
        .with("multipleOf", Members::new()
            .with("exclusiveMinimum", Json::Number(Number::PosInt(0)))
            .with("type", text("number"))
            .build())
        .with("not", reference("#"))
        .with("oneOf", reference("#/definitions/schemaArray"))
        .with("pattern", Members::new()
            .with("format", text("regex"))
            .with("type", text("string"))
            .build())
        .with("patternProperties", Members::new()
            .with("additionalProperties", reference("#"))
            .with("default", Members::new()
                .build())
            .with("propertyNames", Members::new()
                .with("format", text("regex"))
                .build())
            .with("type", text("object"))
            .build())
        .with("properties", Members::new()
            .with("additionalProperties", reference("#"))
            .with("default", Members::new()
                .build())
            .with("type", text("object"))
            .build())
        .with("propertyNames", reference("#"))
        .with("readOnly", Members::new()
            .with("default", Json::Bool(false))
            .with("type", text("boolean"))
            .build())
        .with("required", reference("#/definitions/stringArray"))
        .with("then", reference("#"))
        .with("title", typed("string"))
        .with("type", Members::new()
            .with("anyOf", Items::new()
                .with(reference("#/definitions/simpleTypes"))
                .with(Members::new()
                    .with("items", reference("#/definitions/simpleTypes"))
                    .with("minItems", Json::Number(Number::PosInt(1)))
                    .with("type", text("array"))
                    .with("uniqueItems", Json::Bool(true))
                    .build())
                .build())
            .build())
        .with("uniqueItems", Members::new()
            .with("default", Json::Bool(false))
            .with("type", text("boolean"))
            .build())
        .build()
}

/// The model of the meta-schema of draft 7.
pub open spec fn draft7_model() -> JsonValue {
    JsonValue::Object(
        Seq::empty()
            .push(("$id"@, JsonValue::String("http://json-schema.org/draft-07/schema#"@)))
            .push(("$schema"@, JsonValue::String("http://json-schema.org/draft-07/schema#"@)))
            .push(("default"@, JsonValue::Bool(true)))
            .push(("definitions"@, draft7_definitions_model()))
            .push(("properties"@, draft7_properties_model()))
            .push(("title"@, JsonValue::String("Core schema meta-schema"@)))
            .push(("type"@, JsonValue::Array(
                Seq::empty()
                    .push(JsonValue::String("object"@))
                    .push(JsonValue::String("boolean"@)),
            ))),
    )
}

fn draft7() -> (r: Json)
    ensures
        r@ == draft7_model(),
{
    Members::new()
        .with("$id", text("http://json-schema.org/draft-07/schema#"))
        .with("$schema", text("http://json-schema.org/draft-07/schema#"))
        .with("default", Json::Bool(true))
        .with("definitions", draft7_definitions())
        .with("properties", draft7_properties())
        .with("title", text("Core schema meta-schema"))
        .with("type", Items::new()
            .with(text("object"))
            .with(text("boolean"))
            .build())
        .build()
}

/// The meta-schema of a draft.
pub open spec fn metaschema_model(draft: Draft) -> JsonValue {
    match draft {
        Draft::Draft4 => draft4_model(),
        Draft::Draft6 => draft6_model(),
        Draft::Draft7 => draft7_model(),
    }
}

/// Builds the meta-schema of a draft.
pub fn build_metaschema(draft: Draft) -> (r: Json)
    ensures
        r@ == metaschema_model(draft),
{
    match draft {
        Draft::Draft4 => draft4(),
        Draft::Draft6 => draft6(),
        Draft::Draft7 => draft7(),
    }
}

impl Draft {
    /// Get the JSON representation of the schema document.
    pub fn get_schema(self) -> (r: Json)
        ensures
            r@ == metaschema_model(self),
    {
        build_metaschema(self)
    }
}

} // verus!
