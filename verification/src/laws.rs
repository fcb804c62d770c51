//! Laws of the validation: what holds of every schema and every instance.

use vstd::prelude::*;
use vstd::string::*;
use crate::config::{validation_errors, ConfigModel};
use crate::error::with_schema_ctx;
use crate::json::{
    json_equal_model, lemma_lookup_absent, lemma_lookup_of_member, lookup_from, member_matches, JsonValue,
};
use crate::number::{lemma_small_integers_keep_order, Number, POW52};
use crate::schemas::{keyword_validator, validator_for, Draft, Validator};
use crate::semantics::{
    descend_errors, is_valid, is_valid_under, keyword_errors, max_items_errors, member_errors, members_errors,
    min_items_errors, none, not_errors,
};
use crate::validators::MAX_DEPTH;

verus! {

proof fn lemma_unknown_members_give_no_error(
    cfg: ConfigModel,
    instance: JsonValue,
    schema: JsonValue,
    scope: Seq<JsonValue>,
    depth: nat,
    n: nat,
)
    requires
        n <= schema.members().len(),
        forall|i: int|
            0 <= i < schema.members().len() ==> validator_for(cfg.draft, (#[trigger] schema.members()[i]).0)
                is None,
    ensures
        members_errors(cfg, instance, schema, scope, depth, n) == none(),
    decreases n,
{
    if n > 0 {
        lemma_unknown_members_give_no_error(cfg, instance, schema, scope, depth, (n - 1) as nat);
        assert(schema.members()[n - 1].0 == schema.members()[n - 1].0);
        assert(member_errors(cfg, instance, schema, scope, depth, n - 1) == none());
        assert(none() + none() =~= none());
    }
}

/// A schema object none of whose members is a keyword that the draft knows accepts every
/// instance.
pub proof fn lemma_unknown_keywords_accept(
    cfg: ConfigModel,
    instance: JsonValue,
    schema: JsonValue,
    scope: Seq<JsonValue>,
    depth: nat,
)
    requires
        depth > 0,
        schema is Object,
        forall|i: int|
            0 <= i < schema.members().len() ==> validator_for(cfg.draft, (#[trigger] schema.members()[i]).0)
                is None,
    ensures
        descend_errors(cfg, instance, schema, scope, depth) == none(),
        is_valid(cfg, instance, schema, scope, depth),
{
    assert(validator_for(cfg.draft, "$ref"@) is Some);
    assert forall|i: int| 0 <= i < schema.members().len() implies (#[trigger] schema.members()[i]).0
        != "$ref"@ by {
        assert(validator_for(cfg.draft, schema.members()[i].0) is None);
    }
    lemma_lookup_absent(schema.members(), "$ref"@, 0);
    lemma_unknown_members_give_no_error(
        cfg,
        instance,
        schema,
        scope,
        (depth - 1) as nat,
        schema.members().len(),
    );
}

/// A configuration whose schema is an object without a keyword that the draft knows
/// finds every instance valid.
pub proof fn lemma_unknown_keywords_validate(cfg: ConfigModel, instance: JsonValue)
    requires
        cfg.schema is Object,
        forall|i: int|
            0 <= i < cfg.schema.members().len() ==> validator_for(
                cfg.draft,
                (#[trigger] cfg.schema.members()[i]).0,
            ) is None,
    ensures
        validation_errors(cfg, instance) == none(),
{
    lemma_unknown_keywords_accept(cfg, instance, cfg.schema, seq![cfg.schema], MAX_DEPTH as nat);
}

/// Every document that a JSON parser hands out equals itself: equality by the value of
/// numbers is reflexive on well-formed documents.
pub proof fn lemma_equal_to_itself(value: JsonValue)
    requires
        value.wf(),
    ensures
        json_equal_model(value, value),
    decreases value,
{
    match value {
        JsonValue::Array(items) => {
            assert forall|i: int| 0 <= i < items.len() implies json_equal_model(#[trigger] items[i], items[i]) by {
                lemma_equal_to_itself(items[i]);
            }
        },
        JsonValue::Object(members) => {
            assert forall|i: int| 0 <= i < members.len() implies member_matches(
                #[trigger] members[i],
                members,
            ) by {
                lemma_lookup_of_member(members, i, 0);
                lemma_equal_to_itself(members[i].1);
            }
        },
        _ => {},
    }
}

/// The schema that negates another: `{"not": schema}`.
pub open spec fn negation(schema: JsonValue) -> JsonValue {
    JsonValue::Object(seq![("not"@, schema)])
}

proof fn lemma_not_is_a_keyword(draft: Draft)
    ensures
        validator_for(draft, "not"@) == Some(Validator::Not),
        "not"@ != "$ref"@,
{
    reveal_strlit("not");
    reveal_strlit("$ref");
    reveal_strlit("additionalItems");
    reveal_strlit("additionalProperties");
    reveal_strlit("allOf");
    reveal_strlit("anyOf");
    reveal_strlit("const");
    reveal_strlit("contains");
    reveal_strlit("dependencies");
    reveal_strlit("enum");
    reveal_strlit("exclusiveMaximum");
    reveal_strlit("exclusiveMinimum");
    reveal_strlit("format");
    reveal_strlit("if");
    reveal_strlit("items");
    reveal_strlit("maxItems");
    reveal_strlit("maxLength");
    reveal_strlit("maxProperties");
    reveal_strlit("maximum");
    reveal_strlit("minItems");
    reveal_strlit("minLength");
    reveal_strlit("minProperties");
    reveal_strlit("minimum");
    reveal_strlit("multipleOf");
    assert("not"@.len() == 3);
    assert("not"@[0] == 'n');
    assert("not"@[1] == 'o');
    assert("$ref"@.len() == 4);
    assert("additionalItems"@.len() == 15);
    assert("additionalProperties"@.len() == 20);
    assert("allOf"@.len() == 5);
    assert("anyOf"@.len() == 5);
    assert("const"@.len() == 5);
    assert("contains"@.len() == 8);
    assert("dependencies"@.len() == 12);
    assert("enum"@.len() == 4);
    assert("exclusiveMaximum"@.len() == 16);
    assert("exclusiveMinimum"@.len() == 16);
    assert("format"@.len() == 6);
    assert("if"@.len() == 2);
    assert("items"@.len() == 5);
    assert("maxItems"@.len() == 8);
    assert("maxLength"@.len() == 9);
    assert("maxProperties"@.len() == 13);
    assert("maximum"@.len() == 7);
    assert("minItems"@.len() == 8);
    assert("minLength"@.len() == 9);
    assert("minProperties"@.len() == 13);
    assert("minimum"@.len() == 7);
    assert("multipleOf"@.len() == 10);
    assert(keyword_validator("not"@) == Some(Validator::Not));
}

/// An instance is valid under the negation of a schema exactly when it is not valid
/// under the schema itself. The negation holds the schema one level down, so it is
/// given one level more.
pub proof fn lemma_not_inverts(
    cfg: ConfigModel,
    instance: JsonValue,
    schema: JsonValue,
    scope: Seq<JsonValue>,
    depth: nat,
)
    ensures
        is_valid(cfg, instance, negation(schema), scope, depth + 1) <==> !is_valid(
            cfg,
            instance,
            schema,
            scope,
            depth,
        ),
{
    let outer = negation(schema);
    lemma_not_is_a_keyword(cfg.draft);
    assert(outer.members() =~= seq![("not"@, schema)]);
    assert(outer.members()[0] == ("not"@, schema));
    assert(lookup_from(outer.members(), "$ref"@, 1) is None);
    assert(lookup_from(outer.members(), "$ref"@, 0) is None);
    assert(outer.get("$ref"@) is None);
    let inner = not_errors(cfg, instance, schema, scope, depth);
    assert(keyword_errors(cfg, Validator::Not, instance, schema, Some(outer), scope, depth) == inner);
    assert(member_errors(cfg, instance, outer, scope, depth, 0) == with_schema_ctx(inner, "not"@));
    assert(members_errors(cfg, instance, outer, scope, depth, 0) == none());
    assert(members_errors(cfg, instance, outer, scope, depth, 1) =~= with_schema_ctx(inner, "not"@));
    assert(descend_errors(cfg, instance, outer, scope, depth + 1) == members_errors(
        cfg,
        instance,
        outer,
        scope,
        depth,
        1,
    ));
    assert(with_schema_ctx(inner, "not"@).len() == inner.len());
    assert(is_valid_under(cfg, instance, schema, scope, depth) == is_valid(cfg, instance, schema, scope, depth));
}

/// `minItems: 0` accepts every array, the empty one too.
pub proof fn lemma_min_items_zero_accepts(instance: JsonValue)
    ensures
        min_items_errors(instance, JsonValue::Number(Number::PosInt(0))) == none(),
{
}

/// `maxItems` accepts every array that is no longer than it allows: with a bound of
/// `2^31 - 1`, an array of two billion elements.
pub proof fn lemma_max_items_accepts(instance: JsonValue, bound: u64)
    requires
        instance.items().len() <= bound < POW52,
    ensures
        max_items_errors(instance, JsonValue::Number(Number::PosInt(bound))) == none(),
{
    lemma_small_integers_keep_order(instance.items().len(), bound as nat);
}

/// The schema `true` gives no error and the schema `false` exactly one, wherever they
/// are descended into.
pub proof fn lemma_boolean_schemas(cfg: ConfigModel, instance: JsonValue, scope: Seq<JsonValue>, depth: nat)
    requires
        depth > 0,
    ensures
        descend_errors(cfg, instance, JsonValue::Bool(true), scope, depth).len() == 0,
        descend_errors(cfg, instance, JsonValue::Bool(false), scope, depth).len() == 1,
{
}

/// Whether a validator looks at the instance and its own schema alone: it descends into
/// no subschema and follows no reference.
pub open spec fn is_flat(validator: Validator) -> bool {
    match validator {
        Validator::Const => true,
        Validator::Enum => true,
        Validator::ExclusiveMaximum => true,
        Validator::ExclusiveMinimum => true,
        Validator::Format => true,
        Validator::MaxItems => true,
        Validator::MaxLength => true,
        Validator::MaxProperties => true,
        Validator::Maximum => true,
        Validator::MinItems => true,
        Validator::MinLength => true,
        Validator::MinProperties => true,
        Validator::Minimum => true,
        Validator::MultipleOf => true,
        Validator::Pattern => true,
        Validator::Required => true,
        Validator::Type => true,
        Validator::UniqueItems => true,
        Validator::MaximumDraft4 => true,
        Validator::MinimumDraft4 => true,
        _ => false,
    }
}

/// The schema of one keyword: `{key: value}`.
pub open spec fn single_keyword(key: Seq<char>, value: JsonValue) -> JsonValue {
    JsonValue::Object(seq![(key, value)])
}

/// The errors of a flat validator depend on the draft, the instance, the keyword's value
/// and the schema around it, and on nothing else.
pub proof fn lemma_flat_validator_is_local(
    first: ConfigModel,
    second: ConfigModel,
    validator: Validator,
    instance: JsonValue,
    schema: JsonValue,
    parent: Option<JsonValue>,
    first_scope: Seq<JsonValue>,
    second_scope: Seq<JsonValue>,
    first_depth: nat,
    second_depth: nat,
)
    requires
        is_flat(validator),
        first.draft == second.draft,
    ensures
        keyword_errors(first, validator, instance, schema, parent, first_scope, first_depth) == keyword_errors(
            second,
            validator,
            instance,
            schema,
            parent,
            second_scope,
            second_depth,
        ),
{
}

proof fn lemma_single_keyword_errors(
    cfg: ConfigModel,
    validator: Validator,
    instance: JsonValue,
    key: Seq<char>,
    value: JsonValue,
    scope: Seq<JsonValue>,
    depth: nat,
)
    requires
        validator_for(cfg.draft, key) == Some(validator),
        is_flat(validator),
    ensures
        descend_errors(cfg, instance, single_keyword(key, value), scope, depth + 1) == with_schema_ctx(
            keyword_errors(cfg, validator, instance, value, Some(single_keyword(key, value)), scope, depth),
            key,
        ),
{
    let schema = single_keyword(key, value);
    assert(schema.members() =~= seq![(key, value)]);
    assert(schema.members()[0] == (key, value));
    assert(validator_for(cfg.draft, "$ref"@) == Some(Validator::Ref));
    assert(key != "$ref"@);
    assert(lookup_from(schema.members(), "$ref"@, 1) is None);
    assert(lookup_from(schema.members(), "$ref"@, 0) is None);
    let inner = keyword_errors(cfg, validator, instance, value, Some(schema), scope, depth);
    assert(member_errors(cfg, instance, schema, scope, depth, 0) == with_schema_ctx(inner, key));
    assert(members_errors(cfg, instance, schema, scope, depth, 0) == none());
    assert(members_errors(cfg, instance, schema, scope, depth, 1) =~= with_schema_ctx(inner, key));
}

/// For a keyword whose validator is flat, validation under the schema `{key: value}`
/// succeeds exactly when validation under `{"not": {key: value}}` fails, each schema
/// under a configuration of its own of the same draft.
pub proof fn lemma_keyword_and_negation_disagree(
    plain: ConfigModel,
    negated: ConfigModel,
    validator: Validator,
    instance: JsonValue,
    key: Seq<char>,
    value: JsonValue,
)
    requires
        plain.draft == negated.draft,
        validator_for(plain.draft, key) == Some(validator),
        is_flat(validator),
        plain.schema == single_keyword(key, value),
        negated.schema == negation(plain.schema),
    ensures
        validation_errors(plain, instance).len() == 0 <==> validation_errors(negated, instance).len() != 0,
{
    let schema = plain.schema;
    let depth = (MAX_DEPTH - 2) as nat;
    lemma_single_keyword_errors(plain, validator, instance, key, value, seq![schema], depth + 1);
    lemma_single_keyword_errors(negated, validator, instance, key, value, seq![negated.schema], depth);
    lemma_flat_validator_is_local(
        plain,
        negated,
        validator,
        instance,
        value,
        Some(schema),
        seq![schema],
        seq![negated.schema],
        depth + 1,
        depth,
    );
    lemma_not_inverts(negated, instance, schema, seq![negated.schema], depth + 1);
    let found = keyword_errors(plain, validator, instance, value, Some(schema), seq![schema], depth + 1);
    assert(with_schema_ctx(found, key).len() == found.len());
}

} // verus!
