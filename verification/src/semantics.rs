//! What validation means: for every keyword, and for the descent that applies them, the
//! errors that an instance has under a schema, in their order.
//!
//! These are the models that the contracts of the validation functions speak of.

use vstd::prelude::*;
use crate::config::ConfigModel;
use crate::error::{one_error, with_ctx, with_instance_ctx, with_schema_ctx, ErrorModel};
use crate::foreign::{regex_compiles, regex_matches};
use crate::format::format_valid;
use crate::json::{json_equal_model, Json, JsonValue};
use crate::number::{is_multiple_of, number_text, Number};
use crate::resolver::{id_keyword, resolve_fragment_model};
use crate::schemas::{format_for, validator_for, Draft, Validator};
use crate::text::{decimal, format_list_model};
use crate::unique::all_distinct;
use crate::util::{alternatives, object_schema};

verus! {

/// No error.
pub open spec fn none() -> Seq<ErrorModel> {
    Seq::empty()
}

/// The model of an optional borrowed document.
pub open spec fn borrowed_view(j: Option<&Json>) -> Option<JsonValue> {
    match j {
        Some(v) => Some(v@),
        None => None,
    }
}

/// The member of an optional object.
pub open spec fn sibling(parent: Option<JsonValue>, key: Seq<char>) -> Option<JsonValue> {
    match parent {
        Some(p) => p.get(key),
        None => None,
    }
}

/// The schema that a subschema stands for in a draft: from draft 6 on a boolean stands
/// for its object form.
pub open spec fn normalized(draft: Draft, schema: JsonValue) -> JsonValue {
    if draft.number() >= 6 {
        object_schema(schema)
    } else {
        schema
    }
}

/// Whether an instance has the type that a type name stands for. `integer` takes every
/// number without a fractional part; a name that is none of the seven takes everything.
pub open spec fn single_type_model(instance: JsonValue, schema: JsonValue) -> bool {
    match schema {
        JsonValue::String(name) => if name == "array"@ {
            instance is Array
        } else if name == "object"@ {
            instance is Object
        } else if name == "null"@ {
            instance is Null
        } else if name == "number"@ {
            instance is Number
        } else if name == "string"@ {
            instance is String
        } else if name == "integer"@ {
            match instance {
                JsonValue::Number(n) => n.is_integral(),
                _ => false,
            }
        } else if name == "boolean"@ {
            instance is Bool
        } else {
            true
        },
        _ => true,
    }
}

/// Whether an instance has one of the listed types.
pub open spec fn any_type_matches(instance: JsonValue, types: Seq<JsonValue>) -> bool {
    exists|i: int| 0 <= i < types.len() && single_type_model(instance, #[trigger] types[i])
}

/// `type`: the instance must have the type, or one of the types.
pub open spec fn type_errors(instance: JsonValue, schema: JsonValue, parent: Option<JsonValue>) -> Seq<ErrorModel> {
    if any_type_matches(instance, alternatives(schema)) {
        none()
    } else {
        one_error("Invalid type."@, Some(instance), parent)
    }
}

/// Whether a value equals one of the listed ones.
pub open spec fn any_equal(instance: JsonValue, values: Seq<JsonValue>) -> bool {
    exists|i: int| 0 <= i < values.len() && json_equal_model(#[trigger] values[i], instance)
}

/// `enum`: the instance must equal one of the listed values.
pub open spec fn enum_errors(instance: JsonValue, schema: JsonValue) -> Seq<ErrorModel> {
    match schema {
        JsonValue::Array(values) => if any_equal(instance, values) {
            none()
        } else {
            one_error("Value is not in enum."@, Some(instance), Some(schema))
        },
        _ => none(),
    }
}

/// `const`: the instance must equal the value.
pub open spec fn const_errors(instance: JsonValue, schema: JsonValue) -> Seq<ErrorModel> {
    if json_equal_model(instance, schema) {
        none()
    } else {
        one_error("const doesn't match."@, Some(instance), Some(schema))
    }
}

/// The message of a bound that a number breaks: the number, the relation with the
/// keyword, the bound.
pub open spec fn bound_message(value: Seq<char>, relation: Seq<char>, bound: Number) -> Seq<char> {
    value + relation + number_text(bound)
}

/// A bound on a number: an error where the instance and the bound are numbers and
/// `broken` holds of them.
pub open spec fn number_bound_errors(
    instance: JsonValue,
    schema: JsonValue,
    broken: bool,
    relation: Seq<char>,
) -> Seq<ErrorModel> {
    match (instance, schema) {
        (JsonValue::Number(a), JsonValue::Number(b)) => if broken {
            one_error(bound_message(number_text(a), relation, b), Some(instance), Some(schema))
        } else {
            none()
        },
        _ => none(),
    }
}

/// The place of a number in the numeric order; 0 for what is no number.
pub open spec fn key_of(value: JsonValue) -> int {
    match value {
        JsonValue::Number(n) => n.key(),
        _ => 0,
    }
}

/// `exclusiveMinimum` as a number: the instance must be above it.
pub open spec fn exclusive_minimum_errors(instance: JsonValue, schema: JsonValue) -> Seq<ErrorModel> {
    number_bound_errors(instance, schema, key_of(instance) <= key_of(schema), " <= exclusiveMinimum "@)
}

/// `exclusiveMaximum` as a number: the instance must be below it.
pub open spec fn exclusive_maximum_errors(instance: JsonValue, schema: JsonValue) -> Seq<ErrorModel> {
    number_bound_errors(instance, schema, key_of(instance) >= key_of(schema), " >= exclusiveMaximum "@)
}

/// `minimum`: the instance must not be below it.
pub open spec fn minimum_errors(instance: JsonValue, schema: JsonValue) -> Seq<ErrorModel> {
    number_bound_errors(instance, schema, key_of(instance) < key_of(schema), " < minimum "@)
}

/// `maximum`: the instance must not be above it.
pub open spec fn maximum_errors(instance: JsonValue, schema: JsonValue) -> Seq<ErrorModel> {
    number_bound_errors(instance, schema, key_of(instance) > key_of(schema), " > maximum "@)
}

/// Whether the schema beside a bound makes it exclusive, as draft 4 writes it.
pub open spec fn exclusive_flag(parent: Option<JsonValue>, key: Seq<char>) -> bool {
    sibling(parent, key) == Some(JsonValue::Bool(true))
}

/// `minimum` in draft 4: exclusive where a sibling `exclusiveMinimum` is true.
pub open spec fn minimum_draft4_errors(
    instance: JsonValue,
    schema: JsonValue,
    parent: Option<JsonValue>,
) -> Seq<
    ErrorModel,
> {
    if exclusive_flag(parent, "exclusiveMinimum"@) {
        exclusive_minimum_errors(instance, schema)
    } else {
        minimum_errors(instance, schema)
    }
}

/// `maximum` in draft 4: exclusive where a sibling `exclusiveMaximum` is true.
pub open spec fn maximum_draft4_errors(
    instance: JsonValue,
    schema: JsonValue,
    parent: Option<JsonValue>,
) -> Seq<
    ErrorModel,
> {
    if exclusive_flag(parent, "exclusiveMaximum"@) {
        exclusive_maximum_errors(instance, schema)
    } else {
        maximum_errors(instance, schema)
    }
}

/// `multipleOf`: the instance must be a multiple of the number.
pub open spec fn multiple_of_errors(instance: JsonValue, schema: JsonValue) -> Seq<ErrorModel> {
    match (instance, schema) {
        (JsonValue::Number(a), JsonValue::Number(b)) => if is_multiple_of(a, b) {
            none()
        } else {
            one_error(bound_message(number_text(a), " not multipleOf "@, b), Some(instance), Some(schema))
        },
        _ => none(),
    }
}

/// A bound on a count: an error where the bound is a number and `broken` holds.
pub open spec fn count_bound_errors(
    instance: JsonValue,
    schema: JsonValue,
    count: nat,
    broken: bool,
    relation: Seq<char>,
) -> Seq<ErrorModel> {
    match schema {
        JsonValue::Number(b) => if broken {
            one_error(bound_message(decimal(count), relation, b), Some(instance), Some(schema))
        } else {
            none()
        },
        _ => none(),
    }
}

/// The place of a count in the numeric order.
pub open spec fn count_key(count: nat) -> int {
    Number::PosInt(count as u64).key()
}

/// `minItems`: an array must have at least so many elements.
pub open spec fn min_items_errors(instance: JsonValue, schema: JsonValue) -> Seq<ErrorModel> {
    match instance {
        JsonValue::Array(items) => count_bound_errors(
            instance,
            schema,
            items.len(),
            count_key(items.len()) < key_of(schema),
            " < minItems "@,
        ),
        _ => none(),
    }
}

/// `maxItems`: an array must have at most so many elements.
pub open spec fn max_items_errors(instance: JsonValue, schema: JsonValue) -> Seq<ErrorModel> {
    match instance {
        JsonValue::Array(items) => count_bound_errors(
            instance,
            schema,
            items.len(),
            count_key(items.len()) > key_of(schema),
            " > maxItems "@,
        ),
        _ => none(),
    }
}

/// `minLength`: a string must have at least so many characters.
pub open spec fn min_length_errors(instance: JsonValue, schema: JsonValue) -> Seq<ErrorModel> {
    match instance {
        JsonValue::String(s) => count_bound_errors(
            instance,
            schema,
            s.len(),
            count_key(s.len()) < key_of(schema),
            " < minLength "@,
        ),
        _ => none(),
    }
}

/// `maxLength`: a string must have at most so many characters.
pub open spec fn max_length_errors(instance: JsonValue, schema: JsonValue) -> Seq<ErrorModel> {
    match instance {
        JsonValue::String(s) => count_bound_errors(
            instance,
            schema,
            s.len(),
            count_key(s.len()) > key_of(schema),
            " > maxLength "@,
        ),
        _ => none(),
    }
}

/// `minProperties`: an object must have at least so many members.
pub open spec fn min_properties_errors(instance: JsonValue, schema: JsonValue) -> Seq<ErrorModel> {
    match instance {
        JsonValue::Object(members) => count_bound_errors(
            instance,
            schema,
            members.len(),
            count_key(members.len()) < key_of(schema),
            " < minProperties "@,
        ),
        _ => none(),
    }
}

/// `maxProperties`: an object must have at most so many members.
pub open spec fn max_properties_errors(instance: JsonValue, schema: JsonValue) -> Seq<ErrorModel> {
    match instance {
        JsonValue::Object(members) => count_bound_errors(
            instance,
            schema,
            members.len(),
            count_key(members.len()) > key_of(schema),
            " > maxProperties "@,
        ),
        _ => none(),
    }
}

/// `uniqueItems`: where it is true, no two elements of an array may be equal.
pub open spec fn unique_items_errors(instance: JsonValue, schema: JsonValue) -> Seq<ErrorModel> {
    match (instance, schema) {
        (JsonValue::Array(items), JsonValue::Bool(true)) => if all_distinct(items) {
            none()
        } else {
            one_error("Items are not unique"@, Some(instance), None)
        },
        _ => none(),
    }
}

/// What a regular expression makes of a text: whether it matches, or nothing where the
/// expression does not compile.
pub open spec fn pattern_match(pattern: Seq<char>, text: Seq<char>) -> Option<bool> {
    if regex_compiles(pattern) {
        Some(regex_matches(pattern, text))
    } else {
        None
    }
}

/// The errors of `pattern`, given what the regular expression made of the string: an
/// expression that does not compile is an error of its own.
pub open spec fn pattern_outcome_errors(matched: Option<bool>, instance: JsonValue, schema: JsonValue) -> Seq<
    ErrorModel,
> {
    match matched {
        None => one_error("Invalid regex."@, None, Some(schema)),
        Some(true) => none(),
        Some(false) => one_error("Does not match pattern."@, Some(instance), Some(schema)),
    }
}

/// `pattern`: a string must match the regular expression.
pub open spec fn pattern_errors(instance: JsonValue, schema: JsonValue) -> Seq<ErrorModel> {
    match (instance, schema) {
        (JsonValue::String(s), JsonValue::String(p)) => pattern_outcome_errors(
            pattern_match(p, s),
            instance,
            schema,
        ),
        _ => none(),
    }
}

/// The errors of `format`, given whether the string has the format.
pub open spec fn format_outcome_errors(valid: bool, instance: JsonValue, schema: JsonValue) -> Seq<ErrorModel> {
    if valid {
        none()
    } else {
        one_error("Invalid for format."@, Some(instance), Some(schema))
    }
}

/// `format`: a string must have the format, where the draft knows it.
pub open spec fn format_errors(draft: Draft, instance: JsonValue, schema: JsonValue) -> Seq<ErrorModel> {
    match (instance, schema) {
        (JsonValue::String(s), JsonValue::String(name)) => match format_for(draft, name) {
            Some(f) => format_outcome_errors(format_valid(f, s), instance, schema),
            None => none(),
        },
        _ => none(),
    }
}

/// The names among the first `n` required ones that the instance lacks, in their order.
pub open spec fn missing_properties(instance: JsonValue, names: Seq<JsonValue>, n: nat) -> Seq<Seq<char>>
    decreases n,
{
    if n == 0 || n > names.len() {
        Seq::empty()
    } else {
        match names[n - 1] {
            JsonValue::String(name) => if instance.has_key(name) {
                missing_properties(instance, names, (n - 1) as nat)
            } else {
                missing_properties(instance, names, (n - 1) as nat).push(name)
            },
            _ => missing_properties(instance, names, (n - 1) as nat),
        }
    }
}

/// `required`: an object must have every listed member; one error names all it lacks.
pub open spec fn required_errors(instance: JsonValue, schema: JsonValue) -> Seq<ErrorModel> {
    match (instance, schema) {
        (JsonValue::Object(_), JsonValue::Array(names)) => {
            let missing = missing_properties(instance, names, names.len());
            if missing.len() == 0 {
                none()
            } else {
                one_error(
                    "Required properties "@ + format_list_model(missing) + " are missing"@,
                    Some(instance),
                    Some(schema),
                )
            }
        },
        _ => none(),
    }
}

/// The errors of an instance under a schema: the heart of the engine.
///
/// `true` accepts, `false` gives one error. An object with `$ref` is its reference and
/// nothing else. Any other object gives, member by member, the errors of each keyword
/// that the draft knows, each with the keyword on its schema path; what it does not know
/// it passes over. `scope` is the chain of frames under which references are resolved.
/// `depth` bounds how many schemas may still be nested in this one.
pub open spec fn descend_errors(
    cfg: ConfigModel,
    instance: JsonValue,
    schema: JsonValue,
    scope: Seq<JsonValue>,
    depth: nat,
) -> Seq<ErrorModel>
    decreases depth, 0nat, 0nat,
{
    if depth == 0 {
        one_error("Schemas are nested too deeply."@, Some(instance), Some(schema))
    } else {
        match schema {
            JsonValue::Bool(b) => if b {
                none()
            } else {
                one_error("false schema always fails"@, Some(instance), Some(schema))
            },
            JsonValue::Object(members) => match schema.get("$ref"@) {
                Some(reference) => with_schema_ctx(
                    keyword_errors(
                        cfg,
                        Validator::Ref,
                        instance,
                        reference,
                        Some(schema),
                        scope,
                        (depth - 1) as nat,
                    ),
                    "$ref"@,
                ),
                None => members_errors(cfg, instance, schema, scope, (depth - 1) as nat, members.len()),
            },
            _ => one_error("Invalid schema. Must be boolean or object."@, None, Some(schema)),
        }
    }
}

/// The errors of the keyword that a member of a schema object stands for. The errors of
/// `if` come from its siblings `then` and `else` and carry their names; all others get
/// the keyword on their schema path.
pub open spec fn member_errors(
    cfg: ConfigModel,
    instance: JsonValue,
    schema: JsonValue,
    scope: Seq<JsonValue>,
    depth: nat,
    index: int,
) -> Seq<ErrorModel>
    decreases depth, 5nat, 0nat,
{
    let key = schema.members()[index].0;
    let value = schema.members()[index].1;
    match validator_for(cfg.draft, key) {
        Some(Validator::If) => keyword_errors(cfg, Validator::If, instance, value, Some(schema), scope, depth),
        Some(v) => with_schema_ctx(keyword_errors(cfg, v, instance, value, Some(schema), scope, depth), key),
        None => none(),
    }
}

/// The errors of the first `n` members of a schema object.
pub open spec fn members_errors(
    cfg: ConfigModel,
    instance: JsonValue,
    schema: JsonValue,
    scope: Seq<JsonValue>,
    depth: nat,
    n: nat,
) -> Seq<ErrorModel>
    decreases depth, 6nat, n,
{
    if n == 0 || n > schema.members().len() {
        none()
    } else {
        members_errors(cfg, instance, schema, scope, depth, (n - 1) as nat) + member_errors(
            cfg,
            instance,
            schema,
            scope,
            depth,
            n - 1,
        )
    }
}

/// The errors of one keyword: `schema` is the keyword's value, `parent` the schema object
/// that it stands in.
pub open spec fn keyword_errors(
    cfg: ConfigModel,
    validator: Validator,
    instance: JsonValue,
    schema: JsonValue,
    parent: Option<JsonValue>,
    scope: Seq<JsonValue>,
    depth: nat,
) -> Seq<ErrorModel>
    decreases depth, 4nat, 0nat,
{
    match validator {
        Validator::Ref => ref_errors(cfg, instance, schema, scope, depth),
        Validator::AdditionalItems => additional_items_errors(cfg, instance, schema, parent, scope, depth),
        Validator::AdditionalProperties => additional_properties_errors(
            cfg,
            instance,
            schema,
            parent,
            scope,
            depth,
        ),
        Validator::AllOf => all_of_errors(cfg, instance, schema, scope, depth),
        Validator::AnyOf => any_of_errors(cfg, instance, schema, scope, depth),
        Validator::Const => const_errors(instance, schema),
        Validator::Contains => contains_errors(cfg, instance, schema, scope, depth),
        Validator::Dependencies => dependencies_errors(cfg, instance, schema, scope, depth),
        Validator::Enum => enum_errors(instance, schema),
        Validator::ExclusiveMaximum => exclusive_maximum_errors(instance, schema),
        Validator::ExclusiveMinimum => exclusive_minimum_errors(instance, schema),
        Validator::Format => format_errors(cfg.draft, instance, schema),
        Validator::If => if_errors(cfg, instance, schema, parent, scope, depth),
        Validator::Items => items_errors(cfg, instance, schema, scope, depth),
        Validator::MaxItems => max_items_errors(instance, schema),
        Validator::MaxLength => max_length_errors(instance, schema),
        Validator::MaxProperties => max_properties_errors(instance, schema),
        Validator::Maximum => maximum_errors(instance, schema),
        Validator::MinItems => min_items_errors(instance, schema),
        Validator::MinLength => min_length_errors(instance, schema),
        Validator::MinProperties => min_properties_errors(instance, schema),
        Validator::Minimum => minimum_errors(instance, schema),
        Validator::MultipleOf => multiple_of_errors(instance, schema),
        Validator::Not => not_errors(cfg, instance, schema, scope, depth),
        Validator::OneOf => one_of_errors(cfg, instance, schema, scope, depth),
        Validator::Pattern => pattern_errors(instance, schema),
        Validator::PatternProperties => pattern_properties_errors(cfg, instance, schema, scope, depth),
        Validator::Properties => properties_errors(cfg, instance, schema, scope, depth),
        Validator::PropertyNames => property_names_errors(cfg, instance, schema, scope, depth),
        Validator::Required => required_errors(instance, schema),
        Validator::Type => type_errors(instance, schema, parent),
        Validator::UniqueItems => unique_items_errors(instance, schema),
        Validator::MaximumDraft4 => maximum_draft4_errors(instance, schema, parent),
        Validator::MinimumDraft4 => minimum_draft4_errors(instance, schema, parent),
    }
}

/// Whether an instance is valid under a schema: the descent finds no error.
pub open spec fn is_valid(cfg: ConfigModel, instance: JsonValue, schema: JsonValue, scope: Seq<JsonValue>, depth: nat) -> bool {
    descend_errors(cfg, instance, schema, scope, depth).len() == 0
}

/// The frame that a followed reference puts on the scope chain: a schema whose
/// identifier is the URL of the resource.
pub open spec fn scope_frame(draft: Draft, resource: Seq<char>) -> JsonValue {
    JsonValue::Object(seq![(id_keyword(draft), JsonValue::String(resource))])
}

/// The errors of a reference, given what it names: the URL of the resource and the
/// subschema. The descent goes on in the subschema with the resource as the new base; a
/// reference that names nothing is an error.
pub open spec fn followed_errors(
    cfg: ConfigModel,
    instance: JsonValue,
    reference: Seq<char>,
    resolved: Option<(Seq<char>, JsonValue)>,
    scope: Seq<JsonValue>,
    depth: nat,
) -> Seq<ErrorModel>
    decreases depth, 1nat, 0nat,
{
    match resolved {
        Some((resource, target)) => descend_errors(
            cfg,
            instance,
            target,
            scope.push(scope_frame(cfg.draft, resource)),
            depth,
        ),
        None => one_error("Couldn't resolve reference "@ + reference, Some(instance), None),
    }
}

/// What a reference names under a configuration and a scope chain, if it names anything.
pub open spec fn resolved_reference(cfg: ConfigModel, reference: Seq<char>, scope: Seq<JsonValue>) -> Option<
    (Seq<char>, JsonValue),
> {
    match resolve_fragment_model(cfg.resolver, cfg.draft, reference, scope, cfg.schema) {
        Ok(found) => Some(found),
        Err(_) => None,
    }
}

/// `$ref`: the instance must be valid under the subschema that the reference names.
pub open spec fn ref_errors(
    cfg: ConfigModel,
    instance: JsonValue,
    schema: JsonValue,
    scope: Seq<JsonValue>,
    depth: nat,
) -> Seq<ErrorModel>
    decreases depth, 3nat, 0nat,
{
    match schema {
        JsonValue::String(reference) => followed_errors(
            cfg,
            instance,
            reference,
            resolved_reference(cfg, reference, scope),
            scope,
            depth,
        ),
        _ => none(),
    }
}

/// The errors of the first `n` subschemas of `allOf`, each with its index on the schema
/// path.
pub open spec fn all_of_upto(
    cfg: ConfigModel,
    instance: JsonValue,
    subschemas: Seq<JsonValue>,
    scope: Seq<JsonValue>,
    depth: nat,
    n: nat,
) -> Seq<ErrorModel>
    decreases depth, 1nat, n,
{
    if n == 0 || n > subschemas.len() {
        none()
    } else {
        all_of_upto(cfg, instance, subschemas, scope, depth, (n - 1) as nat) + with_schema_ctx(
            descend_errors(cfg, instance, normalized(cfg.draft, subschemas[n - 1]), scope, depth),
            decimal((n - 1) as nat),
        )
    }
}

/// `allOf`: the instance must be valid under every subschema.
pub open spec fn all_of_errors(
    cfg: ConfigModel,
    instance: JsonValue,
    schema: JsonValue,
    scope: Seq<JsonValue>,
    depth: nat,
) -> Seq<ErrorModel>
    decreases depth, 3nat, 0nat,
{
    match schema {
        JsonValue::Array(subschemas) => all_of_upto(cfg, instance, subschemas, scope, depth, subschemas.len()),
        _ => none(),
    }
}

/// How many of the first `n` subschemas the instance is valid under.
pub open spec fn count_valid(
    cfg: ConfigModel,
    instance: JsonValue,
    subschemas: Seq<JsonValue>,
    scope: Seq<JsonValue>,
    depth: nat,
    n: nat,
) -> nat
    decreases depth, 1nat, n,
{
    if n == 0 || n > subschemas.len() {
        0
    } else {
        count_valid(cfg, instance, subschemas, scope, depth, (n - 1) as nat) + if is_valid_under(
            cfg,
            instance,
            normalized(cfg.draft, subschemas[n - 1]),
            scope,
            depth,
        ) {
            1nat
        } else {
            0nat
        }
    }
}

/// Whether the descent finds no error; the same as `is_valid`, named inside the
/// recursion.
pub open spec fn is_valid_under(
    cfg: ConfigModel,
    instance: JsonValue,
    schema: JsonValue,
    scope: Seq<JsonValue>,
    depth: nat,
) -> bool
    decreases depth, 0nat, 1nat,
{
    descend_errors(cfg, instance, schema, scope, depth).len() == 0
}

/// `anyOf`: the instance must be valid under some subschema. The errors of the
/// subschemas are not passed on.
pub open spec fn any_of_errors(
    cfg: ConfigModel,
    instance: JsonValue,
    schema: JsonValue,
    scope: Seq<JsonValue>,
    depth: nat,
) -> Seq<ErrorModel>
    decreases depth, 3nat, 0nat,
{
    match schema {
        JsonValue::Array(subschemas) => if count_valid(
            cfg,
            instance,
            subschemas,
            scope,
            depth,
            subschemas.len(),
        ) > 0 {
            none()
        } else {
            one_error("anyOf failed"@, Some(instance), Some(schema))
        },
        _ => none(),
    }
}

/// `oneOf`: the instance must be valid under exactly one subschema.
pub open spec fn one_of_errors(
    cfg: ConfigModel,
    instance: JsonValue,
    schema: JsonValue,
    scope: Seq<JsonValue>,
    depth: nat,
) -> Seq<ErrorModel>
    decreases depth, 3nat, 0nat,
{
    match schema {
        JsonValue::Array(subschemas) => {
            let count = count_valid(cfg, instance, subschemas, scope, depth, subschemas.len());
            if count == 0 {
                one_error("nothing matched in oneOf"@, Some(instance), Some(schema))
            } else if count == 1 {
                none()
            } else {
                one_error("More than one matched in oneOf"@, Some(instance), Some(schema))
            }
        },
        _ => none(),
    }
}

/// `not`: the instance must not be valid under the subschema.
pub open spec fn not_errors(
    cfg: ConfigModel,
    instance: JsonValue,
    schema: JsonValue,
    scope: Seq<JsonValue>,
    depth: nat,
) -> Seq<ErrorModel>
    decreases depth, 1nat, 0nat,
{
    if is_valid_under(cfg, instance, schema, scope, depth) {
        one_error("not"@, Some(instance), Some(schema))
    } else {
        none()
    }
}

/// The errors under a sibling of `if`, where it is an object; they carry its name.
pub open spec fn branch_errors(
    cfg: ConfigModel,
    instance: JsonValue,
    parent: Option<JsonValue>,
    name: Seq<char>,
    scope: Seq<JsonValue>,
    depth: nat,
) -> Seq<ErrorModel>
    decreases depth, 1nat, 0nat,
{
    match sibling(parent, name) {
        Some(JsonValue::Object(members)) => with_schema_ctx(
            descend_errors(cfg, instance, JsonValue::Object(members), scope, depth),
            name,
        ),
        _ => none(),
    }
}

/// `if`: where the instance is valid under it, the sibling `then` applies, otherwise the
/// sibling `else`. The errors of `if` itself are not passed on.
pub open spec fn if_errors(
    cfg: ConfigModel,
    instance: JsonValue,
    schema: JsonValue,
    parent: Option<JsonValue>,
    scope: Seq<JsonValue>,
    depth: nat,
) -> Seq<ErrorModel>
    decreases depth, 3nat, 0nat,
{
    if is_valid_under(cfg, instance, schema, scope, depth) {
        branch_errors(cfg, instance, parent, "then"@, scope, depth)
    } else {
        branch_errors(cfg, instance, parent, "else"@, scope, depth)
    }
}

/// Whether one of the first `n` elements is valid under the schema.
pub open spec fn count_valid_items(
    cfg: ConfigModel,
    items: Seq<JsonValue>,
    schema: JsonValue,
    scope: Seq<JsonValue>,
    depth: nat,
    n: nat,
) -> nat
    decreases depth, 1nat, n,
{
    if n == 0 || n > items.len() {
        0
    } else {
        count_valid_items(cfg, items, schema, scope, depth, (n - 1) as nat) + if is_valid_under(
            cfg,
            items[n - 1],
            schema,
            scope,
            depth,
        ) {
            1nat
        } else {
            0nat
        }
    }
}

/// `contains`: some element of an array must be valid under the schema.
pub open spec fn contains_errors(
    cfg: ConfigModel,
    instance: JsonValue,
    schema: JsonValue,
    scope: Seq<JsonValue>,
    depth: nat,
) -> Seq<ErrorModel>
    decreases depth, 3nat, 0nat,
{
    match instance {
        JsonValue::Array(items) => if count_valid_items(cfg, items, schema, scope, depth, items.len()) > 0 {
            none()
        } else {
            one_error("No items in array valid under the given schema."@, Some(instance), Some(schema))
        },
        _ => none(),
    }
}

/// The errors of the elements from `from` up to `n` under one schema, each with its index
/// on the instance path.
pub open spec fn each_item_errors(
    cfg: ConfigModel,
    items: Seq<JsonValue>,
    schema: JsonValue,
    scope: Seq<JsonValue>,
    depth: nat,
    from: nat,
    n: nat,
) -> Seq<ErrorModel>
    decreases depth, 1nat, n,
{
    if n <= from || n > items.len() {
        none()
    } else {
        each_item_errors(cfg, items, schema, scope, depth, from, (n - 1) as nat) + with_instance_ctx(
            descend_errors(cfg, items[n - 1], schema, scope, depth),
            decimal((n - 1) as nat),
        )
    }
}

/// The errors of the first `n` elements, each under the subschema of its place, with the
/// index on both paths.
pub open spec fn tuple_items_errors(
    cfg: ConfigModel,
    items: Seq<JsonValue>,
    subschemas: Seq<JsonValue>,
    scope: Seq<JsonValue>,
    depth: nat,
    n: nat,
) -> Seq<ErrorModel>
    decreases depth, 1nat, n,
{
    if n == 0 || n > items.len() || n > subschemas.len() {
        none()
    } else {
        tuple_items_errors(cfg, items, subschemas, scope, depth, (n - 1) as nat) + with_ctx(
            descend_errors(cfg, items[n - 1], subschemas[n - 1], scope, depth),
            decimal((n - 1) as nat),
            decimal((n - 1) as nat),
        )
    }
}

/// The smaller of two counts.
pub open spec fn smaller(a: nat, b: nat) -> nat {
    if a <= b {
        a
    } else {
        b
    }
}

/// `items`: under an object every element of an array must be valid; under an array the
/// elements are valid one by one under the subschemas of their places, as far as both
/// reach.
pub open spec fn items_errors(
    cfg: ConfigModel,
    instance: JsonValue,
    schema: JsonValue,
    scope: Seq<JsonValue>,
    depth: nat,
) -> Seq<ErrorModel>
    decreases depth, 3nat, 0nat,
{
    match instance {
        JsonValue::Array(items) => match normalized(cfg.draft, schema) {
            JsonValue::Object(members) => each_item_errors(
                cfg,
                items,
                JsonValue::Object(members),
                scope,
                depth,
                0,
                items.len(),
            ),
            JsonValue::Array(subschemas) => tuple_items_errors(
                cfg,
                items,
                subschemas,
                scope,
                depth,
                smaller(items.len(), subschemas.len()),
            ),
            _ => none(),
        },
        _ => none(),
    }
}

/// `additionalItems`: where the sibling `items` is an array, the elements beyond it must
/// be valid under the schema; under `false` there may be none.
pub open spec fn additional_items_errors(
    cfg: ConfigModel,
    instance: JsonValue,
    schema: JsonValue,
    parent: Option<JsonValue>,
    scope: Seq<JsonValue>,
    depth: nat,
) -> Seq<ErrorModel>
    decreases depth, 3nat, 0nat,
{
    match (instance, sibling(parent, "items"@)) {
        (JsonValue::Array(items), Some(JsonValue::Array(subschemas))) => match schema {
            JsonValue::Object(_) => each_item_errors(
                cfg,
                items,
                schema,
                scope,
                depth,
                smaller(subschemas.len(), items.len()),
                items.len(),
            ),
            JsonValue::Bool(false) => if items.len() > subschemas.len() {
                one_error("Additional items are not allowed."@, Some(instance), parent)
            } else {
                none()
            },
            _ => none(),
        },
        _ => none(),
    }
}

/// The errors of the first `n` members of a `properties` schema: where the instance has
/// a member of that name, its value must be valid under the subschema; the name goes on
/// both paths.
pub open spec fn properties_upto(
    cfg: ConfigModel,
    instance: JsonValue,
    properties: Seq<(Seq<char>, JsonValue)>,
    scope: Seq<JsonValue>,
    depth: nat,
    n: nat,
) -> Seq<ErrorModel>
    decreases depth, 1nat, n,
{
    if n == 0 || n > properties.len() {
        none()
    } else {
        properties_upto(cfg, instance, properties, scope, depth, (n - 1) as nat) + match instance.get(
            properties[n - 1].0,
        ) {
            Some(value) => with_ctx(
                descend_errors(cfg, value, properties[n - 1].1, scope, depth),
                properties[n - 1].0,
                properties[n - 1].0,
            ),
            None => none(),
        }
    }
}

/// `properties`: the members of an object that the schema names must be valid under
/// their subschemas.
pub open spec fn properties_errors(
    cfg: ConfigModel,
    instance: JsonValue,
    schema: JsonValue,
    scope: Seq<JsonValue>,
    depth: nat,
) -> Seq<ErrorModel>
    decreases depth, 3nat, 0nat,
{
    match (instance, schema) {
        (JsonValue::Object(_), JsonValue::Object(properties)) => properties_upto(
            cfg,
            instance,
            properties,
            scope,
            depth,
            properties.len(),
        ),
        _ => none(),
    }
}

/// For each member of an object, whether the pattern matches its name.
pub open spec fn match_flags(pattern: Seq<char>, members: Seq<(Seq<char>, JsonValue)>) -> Seq<bool> {
    Seq::new(members.len(), |k: int| regex_matches(pattern, members[k].0))
}

/// The errors of the first `n` members of an object that are flagged, each with the name
/// on its instance path. A member without a flag counts as not flagged.
pub open spec fn flagged_members_errors(
    cfg: ConfigModel,
    members: Seq<(Seq<char>, JsonValue)>,
    flags: Seq<bool>,
    schema: JsonValue,
    scope: Seq<JsonValue>,
    depth: nat,
    n: nat,
) -> Seq<ErrorModel>
    decreases depth, 1nat, n,
{
    if n == 0 || n > members.len() {
        none()
    } else {
        flagged_members_errors(cfg, members, flags, schema, scope, depth, (n - 1) as nat) + if n - 1
            < flags.len() && flags[n - 1] {
            with_instance_ctx(descend_errors(cfg, members[n - 1].1, schema, scope, depth), members[n - 1].0)
        } else {
            none()
        }
    }
}

/// The errors of the first `n` patterns of a `patternProperties` schema, each with the
/// pattern on the schema path. A pattern that does not compile is one error.
pub open spec fn pattern_properties_upto(
    cfg: ConfigModel,
    members: Seq<(Seq<char>, JsonValue)>,
    patterns: Seq<(Seq<char>, JsonValue)>,
    scope: Seq<JsonValue>,
    depth: nat,
    n: nat,
) -> Seq<ErrorModel>
    decreases depth, 2nat, n,
{
    if n == 0 || n > patterns.len() {
        none()
    } else {
        pattern_properties_upto(cfg, members, patterns, scope, depth, (n - 1) as nat) + with_schema_ctx(
            if regex_compiles(patterns[n - 1].0) {
                flagged_members_errors(
                    cfg,
                    members,
                    match_flags(patterns[n - 1].0, members),
                    patterns[n - 1].1,
                    scope,
                    depth,
                    members.len(),
                )
            } else {
                one_error("Invalid regex."@, None, Some(JsonValue::String(patterns[n - 1].0)))
            },
            patterns[n - 1].0,
        )
    }
}

/// `patternProperties`: every member of an object whose name matches a pattern must be
/// valid under the subschema of that pattern.
pub open spec fn pattern_properties_errors(
    cfg: ConfigModel,
    instance: JsonValue,
    schema: JsonValue,
    scope: Seq<JsonValue>,
    depth: nat,
) -> Seq<ErrorModel>
    decreases depth, 3nat, 0nat,
{
    match (instance, schema) {
        (JsonValue::Object(members), JsonValue::Object(patterns)) => pattern_properties_upto(
            cfg,
            members,
            patterns,
            scope,
            depth,
            patterns.len(),
        ),
        _ => none(),
    }
}

/// The errors of the names of the first `n` members, each taken as a string instance.
pub open spec fn property_names_upto(
    cfg: ConfigModel,
    members: Seq<(Seq<char>, JsonValue)>,
    schema: JsonValue,
    scope: Seq<JsonValue>,
    depth: nat,
    n: nat,
) -> Seq<ErrorModel>
    decreases depth, 1nat, n,
{
    if n == 0 || n > members.len() {
        none()
    } else {
        property_names_upto(cfg, members, schema, scope, depth, (n - 1) as nat) + descend_errors(
            cfg,
            JsonValue::String(members[n - 1].0),
            schema,
            scope,
            depth,
        )
    }
}

/// `propertyNames`: every member name of an object must be valid under the schema.
pub open spec fn property_names_errors(
    cfg: ConfigModel,
    instance: JsonValue,
    schema: JsonValue,
    scope: Seq<JsonValue>,
    depth: nat,
) -> Seq<ErrorModel>
    decreases depth, 3nat, 0nat,
{
    match instance {
        JsonValue::Object(members) => property_names_upto(cfg, members, schema, scope, depth, members.len()),
        _ => none(),
    }
}

/// Whether one of the patterns that compile matches the name.
pub open spec fn some_pattern_matches(patterns: Seq<(Seq<char>, JsonValue)>, name: Seq<char>) -> bool {
    exists|i: int|
        0 <= i < patterns.len() && regex_compiles((#[trigger] patterns[i]).0) && regex_matches(patterns[i].0, name)
}

/// The patterns of the `patternProperties` of a schema, where it has them.
pub open spec fn patterns_of(parent: JsonValue) -> Seq<(Seq<char>, JsonValue)> {
    match parent.get("patternProperties"@) {
        Some(JsonValue::Object(patterns)) => patterns,
        _ => Seq::empty(),
    }
}

/// Whether the `properties` of a schema have a member of this name.
pub open spec fn is_named(parent: JsonValue, name: Seq<char>) -> bool {
    match parent.get("properties"@) {
        Some(JsonValue::Object(properties)) => JsonValue::Object(properties).has_key(name),
        _ => false,
    }
}

/// For each member of an object, whether one of the patterns that compile matches its
/// name.
pub open spec fn any_pattern_flags(
    patterns: Seq<(Seq<char>, JsonValue)>,
    members: Seq<(Seq<char>, JsonValue)>,
) -> Seq<
    bool,
> {
    Seq::new(members.len(), |k: int| some_pattern_matches(patterns, members[k].0))
}

/// The names among the first `n` members of an object that the `properties` of a schema
/// do not have and that are not flagged, in their order. A member without a flag counts
/// as not flagged.
pub open spec fn unflagged_names(
    members: Seq<(Seq<char>, JsonValue)>,
    parent: JsonValue,
    flags: Seq<bool>,
    n: nat,
) -> Seq<Seq<char>>
    decreases n,
{
    if n == 0 || n > members.len() {
        Seq::empty()
    } else if !is_named(parent, members[n - 1].0) && !(n - 1 < flags.len() && flags[n - 1]) {
        unflagged_names(members, parent, flags, (n - 1) as nat).push(members[n - 1].0)
    } else {
        unflagged_names(members, parent, flags, (n - 1) as nat)
    }
}

/// The names among the first `n` members of an object that are additional to a schema:
/// its `properties` do not have them and no pattern of its `patternProperties` matches
/// them.
pub open spec fn additional_names(members: Seq<(Seq<char>, JsonValue)>, parent: JsonValue, n: nat) -> Seq<
    Seq<char>,
> {
    unflagged_names(members, parent, any_pattern_flags(patterns_of(parent), members), n)
}

/// The errors of the values under the first `n` names, each with the name on its instance
/// path.
pub open spec fn named_values_errors(
    cfg: ConfigModel,
    instance: JsonValue,
    names: Seq<Seq<char>>,
    schema: JsonValue,
    scope: Seq<JsonValue>,
    depth: nat,
    n: nat,
) -> Seq<ErrorModel>
    decreases depth, 1nat, n,
{
    if n == 0 || n > names.len() {
        none()
    } else {
        named_values_errors(cfg, instance, names, schema, scope, depth, (n - 1) as nat) + match instance.get(
            names[n - 1],
        ) {
            Some(value) => with_instance_ctx(descend_errors(cfg, value, schema, scope, depth), names[n - 1]),
            None => none(),
        }
    }
}

/// `additionalProperties`: the members of an object that are additional to the schema it
/// stands in must be valid under it; under `false` there may be none, and one error
/// names all there are.
pub open spec fn additional_properties_errors(
    cfg: ConfigModel,
    instance: JsonValue,
    schema: JsonValue,
    parent: Option<JsonValue>,
    scope: Seq<JsonValue>,
    depth: nat,
) -> Seq<ErrorModel>
    decreases depth, 3nat, 0nat,
{
    match (instance, parent) {
        (JsonValue::Object(members), Some(JsonValue::Object(siblings))) => {
            let extras = additional_names(members, JsonValue::Object(siblings), members.len());
            match schema {
                JsonValue::Object(_) => named_values_errors(
                    cfg,
                    instance,
                    extras,
                    schema,
                    scope,
                    depth,
                    extras.len(),
                ),
                JsonValue::Bool(false) => if extras.len() == 0 {
                    none()
                } else {
                    one_error(
                        "Additional properties are not allowed. Found "@ + format_list_model(extras) + "."@,
                        Some(instance),
                        parent,
                    )
                },
                _ => none(),
            }
        },
        _ => none(),
    }
}

/// Whether an object lacks one of the names that a dependency lists. What is no string
/// in the list is passed over.
pub open spec fn lacks_dependency(instance: JsonValue, names: Seq<JsonValue>) -> bool {
    exists|i: int|
        0 <= i < names.len() && (#[trigger] names[i]) is String && !instance.has_key(names[i]->String_0)
}

/// The errors of the first `n` dependencies. A dependency counts where the object has the
/// member that it is named after. As a schema the object must be valid under it, and the
/// name goes on the schema path; as a list of names the object must have them all.
pub open spec fn dependencies_upto(
    cfg: ConfigModel,
    instance: JsonValue,
    schema: JsonValue,
    scope: Seq<JsonValue>,
    depth: nat,
    n: nat,
) -> Seq<ErrorModel>
    decreases depth, 1nat, n,
{
    if n == 0 || n > schema.members().len() {
        none()
    } else {
        let property = schema.members()[n - 1].0;
        let dependency = object_schema(schema.members()[n - 1].1);
        dependencies_upto(cfg, instance, schema, scope, depth, (n - 1) as nat) + if !instance.has_key(
            property,
        ) {
            none()
        } else if dependency is Object {
            with_schema_ctx(descend_errors(cfg, instance, dependency, scope, depth), property)
        } else if lacks_dependency(instance, alternatives(dependency)) {
            one_error("Invalid dependencies"@, Some(instance), Some(schema))
        } else {
            none()
        }
    }
}

/// `dependencies`: what an object must be or have where it has certain members.
pub open spec fn dependencies_errors(
    cfg: ConfigModel,
    instance: JsonValue,
    schema: JsonValue,
    scope: Seq<JsonValue>,
    depth: nat,
) -> Seq<ErrorModel>
    decreases depth, 3nat, 0nat,
{
    match (instance, schema) {
        (JsonValue::Object(_), JsonValue::Object(dependencies)) => dependencies_upto(
            cfg,
            instance,
            schema,
            scope,
            depth,
            dependencies.len(),
        ),
        _ => none(),
    }
}

/// Whether the first `n` patterns hold one that compiles and matches the name.
pub open spec fn pattern_matches_upto(patterns: Seq<(Seq<char>, JsonValue)>, name: Seq<char>, n: int) -> bool {
    exists|i: int| 0 <= i < n && regex_compiles((#[trigger] patterns[i]).0) && regex_matches(patterns[i].0, name)
}

/// Whether the first `n` names hold one that the object lacks.
pub open spec fn lacks_upto(instance: JsonValue, names: Seq<JsonValue>, n: int) -> bool {
    exists|i: int| 0 <= i < n && (#[trigger] names[i]) is String && !instance.has_key(names[i]->String_0)
}

} // verus!
