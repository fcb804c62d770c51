//! The validation engine: one function per keyword, and the descent that walks a schema
//! and calls the validators that the draft has for its keywords.
//!
//! All of the keyword functions take the configuration, the part of the instance under
//! inspection, the value of the keyword, the schema object that the keyword stands in,
//! the scope chain for references, and the number of schemas that may still be nested
//! below. Each hands out the errors that its model in `semantics` names.

#![allow(non_snake_case)]
#![verifier::loop_isolation(false)]

use vstd::prelude::*;
use vstd::string::*;
use crate::config::Config;
use crate::context::Context;
use crate::error::{
    add_ctx, add_instance_ctx, add_schema_ctx, append_errors, error_views, make_error, no_error, one_error,
    ValidationError,
};
use crate::foreign::{regex_compiles, regex_is_match, regex_matches, regex_new, str_eq, Pattern};
use crate::format::check_format;
use crate::json::{json_equal_model, json_views, member_views, Json, JsonValue};
use crate::number::Number;
use crate::resolver::id_key;
use crate::schemas::Validator;
use crate::semantics::{
    additional_items_errors, additional_names, additional_properties_errors, all_of_errors, all_of_upto,
    any_of_errors, any_pattern_flags, borrowed_view, bound_message, branch_errors, const_errors,
    contains_errors, count_valid, count_valid_items, dependencies_errors, dependencies_upto, descend_errors,
    each_item_errors, enum_errors, exclusive_flag, exclusive_maximum_errors, exclusive_minimum_errors,
    flagged_members_errors, followed_errors, format_errors, format_outcome_errors, if_errors, is_valid_under,
    items_errors, keyword_errors, lacks_dependency, lacks_upto, match_flags, max_items_errors,
    max_length_errors, max_properties_errors, maximum_draft4_errors, maximum_errors, member_errors,
    members_errors, min_items_errors, min_length_errors, min_properties_errors, minimum_draft4_errors,
    minimum_errors, missing_properties, multiple_of_errors, named_values_errors, none, normalized,
    not_errors, one_of_errors, pattern_errors, pattern_matches_upto, pattern_outcome_errors,
    pattern_properties_errors, pattern_properties_upto, patterns_of, properties_errors, properties_upto,
    property_names_errors, property_names_upto, ref_errors, required_errors, sibling, single_type_model,
    some_pattern_matches, tuple_items_errors, type_errors, unflagged_names, unique_items_errors,
};
use crate::text::{concat, string_views, usize_to_string};
use crate::unique::has_unique_elements;
use crate::util::{alternatives, bool_to_object_schema, borrowed_views, format_list, iter_or_once, json_equal};

verus! {

/// How many schemas may be nested in one another, references followed, before the
/// validation gives up with an error.
pub const MAX_DEPTH: usize = 256;

fn bound_error(value: String, relation: &str, bound: &Number, instance: &Json, schema: &Json) -> (errors: Vec<
    ValidationError,
>)
    ensures
        error_views(errors@) == one_error(
            bound_message(value@, relation@, *bound),
            Some(instance@),
            Some(schema@),
        ),
{
    let mut msg = value;
    msg.append(relation);
    let text = bound.to_text();
    msg.append(text.as_str());
    make_error(msg.as_str(), Some(instance), Some(schema))
}

fn single_type(instance: &Json, schema: &Json) -> (r: bool)
    ensures
        r == single_type_model(instance@, schema@),
{
    match schema.as_str() {
        Some(name) => {
            if str_eq(name, "array") {
                instance.as_array().is_some()
            } else if str_eq(name, "object") {
                instance.is_object()
            } else if str_eq(name, "null") {
                instance.is_null()
            } else if str_eq(name, "number") {
                instance.as_number().is_some()
            } else if str_eq(name, "string") {
                instance.as_str().is_some()
            } else if str_eq(name, "integer") {
                match instance.as_number() {
                    Some(n) => n.integral(),
                    None => false,
                }
            } else if str_eq(name, "boolean") {
                instance.as_bool().is_some()
            } else {
                true
            }
        },
        None => true,
    }
}

/// `type`: the instance must have the type, or one of the types.
pub fn type_(
    _cfg: &Config,
    instance: &Json,
    schema: &Json,
    parent_schema: Option<&Json>,
    _ref_context: &Context,
    _depth: usize,
) -> (errors: Vec<ValidationError>)
    ensures
        error_views(errors@) == type_errors(instance@, schema@, borrowed_view(parent_schema)),
{
    let types = iter_or_once(schema);
    let mut i: usize = 0;
    while i < types.len()
        invariant
            i <= types.len(),
            borrowed_views(types@) == alternatives(schema@),
            forall|k: int| 0 <= k < i ==> !single_type_model(instance@, #[trigger] alternatives(schema@)[k]),
        decreases types.len() - i,
    {
        assert(borrowed_views(types@)[i as int] == types@[i as int]@);
        if single_type(instance, types[i]) {
            return no_error();
        }
        i += 1;
    }
    assert(borrowed_views(types@).len() == types.len());
    make_error("Invalid type.", Some(instance), parent_schema)
}

/// `enum`: the instance must equal one of the listed values.
pub fn enum_(
    _cfg: &Config,
    instance: &Json,
    schema: &Json,
    _parent_schema: Option<&Json>,
    _ref_context: &Context,
    _depth: usize,
) -> (errors: Vec<ValidationError>)
    ensures
        error_views(errors@) == enum_errors(instance@, schema@),
{
    match schema.as_array() {
        Some(values) => {
            let ghost models = json_views(values@);
            let mut i: usize = 0;
            while i < values.len()
                invariant
                    i <= values.len(),
                    models == json_views(values@),
                    forall|k: int| 0 <= k < i ==> !json_equal_model(#[trigger] models[k], instance@),
                decreases values.len() - i,
            {
                assert(models[i as int] == values@[i as int]@);
                if json_equal(&values[i], instance) {
                    return no_error();
                }
                i += 1;
            }
            assert(models.len() == values.len());
            make_error("Value is not in enum.", Some(instance), Some(schema))
        },
        None => no_error(),
    }
}

/// `const`: the instance must equal the value.
pub fn const_(
    _cfg: &Config,
    instance: &Json,
    schema: &Json,
    _parent_schema: Option<&Json>,
    _ref_context: &Context,
    _depth: usize,
) -> (errors: Vec<ValidationError>)
    ensures
        error_views(errors@) == const_errors(instance@, schema@),
{
    if !json_equal(instance, schema) {
        make_error("const doesn't match.", Some(instance), Some(schema))
    } else {
        no_error()
    }
}

/// `exclusiveMinimum` as a number: the instance must be above it.
pub fn exclusiveMinimum(
    _cfg: &Config,
    instance: &Json,
    schema: &Json,
    _parent_schema: Option<&Json>,
    _ref_context: &Context,
    _depth: usize,
) -> (errors: Vec<ValidationError>)
    ensures
        error_views(errors@) == exclusive_minimum_errors(instance@, schema@),
{
    match (instance.as_number(), schema.as_number()) {
        (Some(a), Some(b)) => {
            if a.le(&b) {
                return bound_error(a.to_text(), " <= exclusiveMinimum ", &b, instance, schema);
            }
            no_error()
        },
        _ => no_error(),
    }
}

/// `exclusiveMaximum` as a number: the instance must be below it.
pub fn exclusiveMaximum(
    _cfg: &Config,
    instance: &Json,
    schema: &Json,
    _parent_schema: Option<&Json>,
    _ref_context: &Context,
    _depth: usize,
) -> (errors: Vec<ValidationError>)
    ensures
        error_views(errors@) == exclusive_maximum_errors(instance@, schema@),
{
    match (instance.as_number(), schema.as_number()) {
        (Some(a), Some(b)) => {
            if b.le(&a) {
                return bound_error(a.to_text(), " >= exclusiveMaximum ", &b, instance, schema);
            }
            no_error()
        },
        _ => no_error(),
    }
}

/// `minimum`: the instance must not be below it.
pub fn minimum(
    _cfg: &Config,
    instance: &Json,
    schema: &Json,
    _parent_schema: Option<&Json>,
    _ref_context: &Context,
    _depth: usize,
) -> (errors: Vec<ValidationError>)
    ensures
        error_views(errors@) == minimum_errors(instance@, schema@),
{
    match (instance.as_number(), schema.as_number()) {
        (Some(a), Some(b)) => {
            if a.lt(&b) {
                return bound_error(a.to_text(), " < minimum ", &b, instance, schema);
            }
            no_error()
        },
        _ => no_error(),
    }
}

/// `maximum`: the instance must not be above it.
pub fn maximum(
    _cfg: &Config,
    instance: &Json,
    schema: &Json,
    _parent_schema: Option<&Json>,
    _ref_context: &Context,
    _depth: usize,
) -> (errors: Vec<ValidationError>)
    ensures
        error_views(errors@) == maximum_errors(instance@, schema@),
{
    match (instance.as_number(), schema.as_number()) {
        (Some(a), Some(b)) => {
            if b.lt(&a) {
                return bound_error(a.to_text(), " > maximum ", &b, instance, schema);
            }
            no_error()
        },
        _ => no_error(),
    }
}

fn sibling_is_true(parent_schema: Option<&Json>, key: &str) -> (r: bool)
    ensures
        r == exclusive_flag(borrowed_view(parent_schema), key@),
{
    match parent_schema {
        Some(parent) => match parent.get(key) {
            Some(flag) => match flag.as_bool() {
                Some(b) => b,
                None => false,
            },
            None => false,
        },
        None => false,
    }
}

/// `minimum` in draft 4: exclusive where a sibling `exclusiveMinimum` is true.
pub fn minimum_draft4(
    cfg: &Config,
    instance: &Json,
    schema: &Json,
    parent_schema: Option<&Json>,
    ref_context: &Context,
    depth: usize,
) -> (errors: Vec<ValidationError>)
    ensures
        error_views(errors@) == minimum_draft4_errors(instance@, schema@, borrowed_view(parent_schema)),
{
    if sibling_is_true(parent_schema, "exclusiveMinimum") {
        exclusiveMinimum(cfg, instance, schema, parent_schema, ref_context, depth)
    } else {
        minimum(cfg, instance, schema, parent_schema, ref_context, depth)
    }
}

/// `maximum` in draft 4: exclusive where a sibling `exclusiveMaximum` is true.
pub fn maximum_draft4(
    cfg: &Config,
    instance: &Json,
    schema: &Json,
    parent_schema: Option<&Json>,
    ref_context: &Context,
    depth: usize,
) -> (errors: Vec<ValidationError>)
    ensures
        error_views(errors@) == maximum_draft4_errors(instance@, schema@, borrowed_view(parent_schema)),
{
    if sibling_is_true(parent_schema, "exclusiveMaximum") {
        exclusiveMaximum(cfg, instance, schema, parent_schema, ref_context, depth)
    } else {
        maximum(cfg, instance, schema, parent_schema, ref_context, depth)
    }
}

/// `multipleOf`: the instance must be a multiple of the number.
pub fn multipleOf(
    _cfg: &Config,
    instance: &Json,
    schema: &Json,
    _parent_schema: Option<&Json>,
    _ref_context: &Context,
    _depth: usize,
) -> (errors: Vec<ValidationError>)
    ensures
        error_views(errors@) == multiple_of_errors(instance@, schema@),
{
    match (instance.as_number(), schema.as_number()) {
        (Some(a), Some(b)) => {
            if !a.multiple_of(&b) {
                return bound_error(a.to_text(), " not multipleOf ", &b, instance, schema);
            }
            no_error()
        },
        _ => no_error(),
    }
}

/// `minItems`: an array must have at least so many elements.
pub fn minItems(
    _cfg: &Config,
    instance: &Json,
    schema: &Json,
    _parent_schema: Option<&Json>,
    _ref_context: &Context,
    _depth: usize,
) -> (errors: Vec<ValidationError>)
    ensures
        error_views(errors@) == min_items_errors(instance@, schema@),
{
    match (instance.as_array(), schema.as_number()) {
        (Some(value), Some(bound)) => {
            let count: usize = value.len();
            let counted = Number::PosInt(count as u64);
            if counted.lt(&bound) {
                return bound_error(usize_to_string(count), " < minItems ", &bound, instance, schema);
            }
            no_error()
        },
        _ => no_error(),
    }
}

/// `maxItems`: an array must have at most so many elements.
pub fn maxItems(
    _cfg: &Config,
    instance: &Json,
    schema: &Json,
    _parent_schema: Option<&Json>,
    _ref_context: &Context,
    _depth: usize,
) -> (errors: Vec<ValidationError>)
    ensures
        error_views(errors@) == max_items_errors(instance@, schema@),
{
    match (instance.as_array(), schema.as_number()) {
        (Some(value), Some(bound)) => {
            let count: usize = value.len();
            let counted = Number::PosInt(count as u64);
            if bound.lt(&counted) {
                return bound_error(usize_to_string(count), " > maxItems ", &bound, instance, schema);
            }
            no_error()
        },
        _ => no_error(),
    }
}

/// `minLength`: a string must have at least so many characters.
pub fn minLength(
    _cfg: &Config,
    instance: &Json,
    schema: &Json,
    _parent_schema: Option<&Json>,
    _ref_context: &Context,
    _depth: usize,
) -> (errors: Vec<ValidationError>)
    ensures
        error_views(errors@) == min_length_errors(instance@, schema@),
{
    match (instance.as_str(), schema.as_number()) {
        (Some(value), Some(bound)) => {
            let count: usize = value.unicode_len();
            let counted = Number::PosInt(count as u64);
            if counted.lt(&bound) {
                return bound_error(usize_to_string(count), " < minLength ", &bound, instance, schema);
            }
            no_error()
        },
        _ => no_error(),
    }
}

/// `maxLength`: a string must have at most so many characters.
pub fn maxLength(
    _cfg: &Config,
    instance: &Json,
    schema: &Json,
    _parent_schema: Option<&Json>,
    _ref_context: &Context,
    _depth: usize,
) -> (errors: Vec<ValidationError>)
    ensures
        error_views(errors@) == max_length_errors(instance@, schema@),
{
    match (instance.as_str(), schema.as_number()) {
        (Some(value), Some(bound)) => {
            let count: usize = value.unicode_len();
            let counted = Number::PosInt(count as u64);
            if bound.lt(&counted) {
                return bound_error(usize_to_string(count), " > maxLength ", &bound, instance, schema);
            }
            no_error()
        },
        _ => no_error(),
    }
}

/// `minProperties`: an object must have at least so many members.
pub fn minProperties(
    _cfg: &Config,
    instance: &Json,
    schema: &Json,
    _parent_schema: Option<&Json>,
    _ref_context: &Context,
    _depth: usize,
) -> (errors: Vec<ValidationError>)
    ensures
        error_views(errors@) == min_properties_errors(instance@, schema@),
{
    match (instance.as_object(), schema.as_number()) {
        (Some(value), Some(bound)) => {
            let count: usize = value.len();
            let counted = Number::PosInt(count as u64);
            if counted.lt(&bound) {
                return bound_error(usize_to_string(count), " < minProperties ", &bound, instance, schema);
            }
            no_error()
        },
        _ => no_error(),
    }
}

/// `maxProperties`: an object must have at most so many members.
pub fn maxProperties(
    _cfg: &Config,
    instance: &Json,
    schema: &Json,
    _parent_schema: Option<&Json>,
    _ref_context: &Context,
    _depth: usize,
) -> (errors: Vec<ValidationError>)
    ensures
        error_views(errors@) == max_properties_errors(instance@, schema@),
{
    match (instance.as_object(), schema.as_number()) {
        (Some(value), Some(bound)) => {
            let count: usize = value.len();
            let counted = Number::PosInt(count as u64);
            if bound.lt(&counted) {
                return bound_error(usize_to_string(count), " > maxProperties ", &bound, instance, schema);
            }
            no_error()
        },
        _ => no_error(),
    }
}

/// `uniqueItems`: where it is true, no two elements of an array may be equal.
pub fn uniqueItems(
    _cfg: &Config,
    instance: &Json,
    schema: &Json,
    _parent_schema: Option<&Json>,
    _ref_context: &Context,
    _depth: usize,
) -> (errors: Vec<ValidationError>)
    ensures
        error_views(errors@) == unique_items_errors(instance@, schema@),
{
    match (instance.as_array(), schema.as_bool()) {
        (Some(items), Some(wanted)) => {
            if wanted && !has_unique_elements(items) {
                return make_error("Items are not unique", Some(instance), None);
            }
            no_error()
        },
        _ => no_error(),
    }
}

/// `pattern`: a string must match the regular expression; an expression that does not
/// compile is an error of its own.
pub fn pattern(
    _cfg: &Config,
    instance: &Json,
    schema: &Json,
    _parent_schema: Option<&Json>,
    _ref_context: &Context,
    _depth: usize,
) -> (errors: Vec<ValidationError>)
    ensures
        error_views(errors@) == pattern_errors(instance@, schema@),
{
    match (instance.as_str(), schema.as_str()) {
        (Some(text), Some(source)) => {
            let matched = match regex_new(source) {
                Some(re) => Some(regex_is_match(&re, text)),
                None => None,
            };
            pattern_outcome(matched, instance, schema)
        },
        _ => no_error(),
    }
}

/// The errors of `pattern`, given what the regular expression made of the string:
/// whether it matches, or nothing where the expression does not compile.
pub fn pattern_outcome(matched: Option<bool>, instance: &Json, schema: &Json) -> (errors: Vec<ValidationError>)
    ensures
        error_views(errors@) == pattern_outcome_errors(matched, instance@, schema@),
{
    match matched {
        None => make_error("Invalid regex.", None, Some(schema)),
        Some(true) => no_error(),
        Some(false) => make_error("Does not match pattern.", Some(instance), Some(schema)),
    }
}

/// `format`: a string must have the format, where the draft knows it.
pub fn format(
    cfg: &Config,
    instance: &Json,
    schema: &Json,
    _parent_schema: Option<&Json>,
    _ref_context: &Context,
    _depth: usize,
) -> (errors: Vec<ValidationError>)
    ensures
        error_views(errors@) == format_errors(cfg@.draft, instance@, schema@),
{
    match (instance.as_str(), schema.as_str()) {
        (Some(text), Some(name)) => match cfg.get_format_checker(name) {
            Some(checker) => format_outcome(check_format(checker, cfg, text), instance, schema),
            None => no_error(),
        },
        _ => no_error(),
    }
}

/// The errors of `format`, given whether the string has the format.
pub fn format_outcome(valid: bool, instance: &Json, schema: &Json) -> (errors: Vec<ValidationError>)
    ensures
        error_views(errors@) == format_outcome_errors(valid, instance@, schema@),
{
    if valid {
        no_error()
    } else {
        make_error("Invalid for format.", Some(instance), Some(schema))
    }
}

/// `required`: an object must have every listed member; one error names all it lacks.
pub fn required(
    _cfg: &Config,
    instance: &Json,
    schema: &Json,
    _parent_schema: Option<&Json>,
    _ref_context: &Context,
    _depth: usize,
) -> (errors: Vec<ValidationError>)
    ensures
        error_views(errors@) == required_errors(instance@, schema@),
{
    match (instance.as_object(), schema.as_array()) {
        (Some(_), Some(names)) => {
            let ghost models = json_views(names@);
            let mut missing: Vec<String> = Vec::new();
            let mut i: usize = 0;
            assert(string_views(missing@) =~= Seq::empty());
            while i < names.len()
                invariant
                    i <= names.len(),
                    models == json_views(names@),
                    string_views(missing@) == missing_properties(instance@, models, i as nat),
                decreases names.len() - i,
            {
                assert(models[i as int] == names@[i as int]@);
                let ghost before = missing@;
                match names[i].as_str() {
                    Some(name) => {
                        if !instance.contains_key(name) {
                            missing.push(name.to_string());
                            assert(string_views(missing@) =~= string_views(before).push(name@));
                        }
                    },
                    None => {},
                }
                i += 1;
            }
            if missing.len() > 0 {
                let mut msg = "Required properties ".to_string();
                let list = format_list(&missing);
                msg.append(list.as_str());
                msg.append(" are missing");
                return make_error(msg.as_str(), Some(instance), Some(schema));
            }
            no_error()
        },
        _ => no_error(),
    }
}


/// The top-level validation function that performs all of the concrete validation
/// functions at a given instance/schema pair.
pub fn descend(
    cfg: &Config,
    instance: &Json,
    schema: &Json,
    _parent_schema: Option<&Json>,
    ref_context: &Context,
    depth: usize,
) -> (errors: Vec<ValidationError>)
    ensures
        error_views(errors@) == descend_errors(cfg@, instance@, schema@, ref_context@, depth as nat),
    decreases depth, 0nat,
{
    if depth == 0 {
        return make_error("Schemas are nested too deeply.", Some(instance), Some(schema));
    }
    match schema {
        Json::Bool(b) => {
            if *b {
                no_error()
            } else {
                make_error("false schema always fails", Some(instance), Some(schema))
            }
        },
        Json::Object(members) => {
            assert(schema@ == JsonValue::Object(member_views(members@)));
            match schema.get("$ref") {
                Some(reference) => {
                    let mut errors = apply(
                        Validator::Ref,
                        cfg,
                        instance,
                        reference,
                        Some(schema),
                        ref_context,
                        depth - 1,
                    );
                    add_schema_ctx(&mut errors, "$ref");
                    errors
                },
                None => {
                    let mut errors = no_error();
                    let mut i: usize = 0;
                    while i < members.len()
                        invariant
                            i <= members.len(),
                            depth > 0,
                            error_views(errors@) == members_errors(
                                cfg@,
                                instance@,
                                schema@,
                                ref_context@,
                                (depth - 1) as nat,
                                i as nat,
                            ),
                        decreases members.len() - i,
                    {
                        let key = members[i].0.as_str();
                        assert(schema@.members()[i as int] == (members@[i as int].0@, members@[i as int].1@));
                        match cfg.get_validator(key) {
                            Some(validator) => {
                                let mut found = apply(
                                    validator,
                                    cfg,
                                    instance,
                                    &members[i].1,
                                    Some(schema),
                                    ref_context,
                                    depth - 1,
                                );
                                match validator {
                                    Validator::If => {},
                                    _ => {
                                        add_schema_ctx(&mut found, key);
                                    },
                                }
                                assert(error_views(found@) == member_errors(
                                    cfg@,
                                    instance@,
                                    schema@,
                                    ref_context@,
                                    (depth - 1) as nat,
                                    i as int,
                                ));
                                append_errors(&mut errors, found);
                            },
                            None => {
                                assert(member_errors(
                                    cfg@,
                                    instance@,
                                    schema@,
                                    ref_context@,
                                    (depth - 1) as nat,
                                    i as int,
                                ) == none());
                                assert(error_views(errors@) + none() =~= error_views(errors@));
                            },
                        }
                        i += 1;
                    }
                    errors
                },
            }
        },
        _ => make_error("Invalid schema. Must be boolean or object.", None, Some(schema)),
    }
}

/// The descent into a subschema that may be a boolean: from draft 6 on a boolean stands
/// for its object form.
fn descend_normalized(
    cfg: &Config,
    instance: &Json,
    schema: &Json,
    parent_schema: Option<&Json>,
    ref_context: &Context,
    depth: usize,
) -> (errors: Vec<ValidationError>)
    ensures
        error_views(errors@) == descend_errors(
            cfg@,
            instance@,
            normalized(cfg@.draft, schema@),
            ref_context@,
            depth as nat,
        ),
    decreases depth, 1nat,
{
    if cfg.get_draft_number() >= 6 {
        match schema {
            Json::Bool(_) => {
                let object = bool_to_object_schema(schema);
                descend(cfg, instance, &object, parent_schema, ref_context, depth)
            },
            _ => descend(cfg, instance, schema, parent_schema, ref_context, depth),
        }
    } else {
        descend(cfg, instance, schema, parent_schema, ref_context, depth)
    }
}

/// Whether the instance is valid under the subschema, a boolean taken as its draft
/// has it.
fn valid_under(
    cfg: &Config,
    instance: &Json,
    schema: &Json,
    parent_schema: Option<&Json>,
    ref_context: &Context,
    depth: usize,
) -> (r: bool)
    ensures
        r == is_valid_under(cfg@, instance@, normalized(cfg@.draft, schema@), ref_context@, depth as nat),
    decreases depth, 2nat,
{
    let errors = descend_normalized(cfg, instance, schema, parent_schema, ref_context, depth);
    assert(error_views(errors@).len() == errors.len());
    errors.len() == 0
}

/// Whether the instance is valid under the schema as it stands.
fn valid_plainly(
    cfg: &Config,
    instance: &Json,
    schema: &Json,
    parent_schema: Option<&Json>,
    ref_context: &Context,
    depth: usize,
) -> (r: bool)
    ensures
        r == is_valid_under(cfg@, instance@, schema@, ref_context@, depth as nat),
    decreases depth, 2nat,
{
    let errors = descend(cfg, instance, schema, parent_schema, ref_context, depth);
    assert(error_views(errors@).len() == errors.len());
    errors.len() == 0
}

/// The errors of the elements from `from` on under one schema, each with its index on
/// the instance path.
fn each_item(
    cfg: &Config,
    items: &Vec<Json>,
    schema: &Json,
    parent_schema: Option<&Json>,
    ref_context: &Context,
    depth: usize,
    from: usize,
) -> (errors: Vec<ValidationError>)
    requires
        from <= items.len(),
    ensures
        error_views(errors@) == each_item_errors(
            cfg@,
            json_views(items@),
            schema@,
            ref_context@,
            depth as nat,
            from as nat,
            items.len() as nat,
        ),
    decreases depth, 2nat,
{
    let mut errors = no_error();
    let mut i: usize = from;
    while i < items.len()
        invariant
            from <= i <= items.len(),
            error_views(errors@) == each_item_errors(
                cfg@,
                json_views(items@),
                schema@,
                ref_context@,
                depth as nat,
                from as nat,
                i as nat,
            ),
        decreases items.len() - i,
    {
        assert(json_views(items@)[i as int] == items@[i as int]@);
        let mut found = descend(cfg, &items[i], schema, parent_schema, ref_context, depth);
        let index = usize_to_string(i);
        add_instance_ctx(&mut found, index.as_str());
        append_errors(&mut errors, found);
        i += 1;
    }
    errors
}

/// The errors of a reference, given what it names: the URL of the resource and the
/// subschema, or nothing.
pub fn follow_reference(
    cfg: &Config,
    instance: &Json,
    reference: &str,
    resolved: Option<(&str, &Json)>,
    parent_schema: Option<&Json>,
    ref_context: &Context,
    depth: usize,
) -> (errors: Vec<ValidationError>)
    ensures
        error_views(errors@) == followed_errors(
            cfg@,
            instance@,
            reference@,
            match resolved {
                Some((resource, target)) => Some((resource@, target@)),
                None => None,
            },
            ref_context@,
            depth as nat,
        ),
    decreases depth, 2nat,
{
    match resolved {
        Some((resource, target)) => {
            let key = id_key(cfg.get_draft());
            let mut members: Vec<(String, Json)> = Vec::new();
            members.push((key.to_string(), Json::String(resource.to_string())));
            assert(member_views(members@) =~= seq![(key@, JsonValue::String(resource@))]);
            let scope_schema = Json::Object(members);
            let scope = ref_context.push(&scope_schema);
            descend(cfg, instance, target, parent_schema, &scope, depth)
        },
        None => {
            let msg = concat("Couldn't resolve reference ", reference);
            make_error(msg.as_str(), Some(instance), None)
        },
    }
}

/// `$ref`: the instance must be valid under the subschema that the reference names.
pub fn ref_(
    cfg: &Config,
    instance: &Json,
    schema: &Json,
    _parent_schema: Option<&Json>,
    ref_context: &Context,
    depth: usize,
) -> (errors: Vec<ValidationError>)
    ensures
        error_views(errors@) == ref_errors(cfg@, instance@, schema@, ref_context@, depth as nat),
    decreases depth, 3nat,
{
    match schema.as_str() {
        Some(reference) => match cfg.get_resolver().resolve_fragment(
            cfg.get_draft(),
            reference,
            ref_context,
            cfg.get_schema(),
        ) {
            Ok((resource, resolved)) => follow_reference(
                cfg,
                instance,
                reference,
                Some((resource.as_str(), resolved)),
                Some(schema),
                ref_context,
                depth,
            ),
            Err(_) => follow_reference(cfg, instance, reference, None, Some(schema), ref_context, depth),
        },
        None => no_error(),
    }
}

/// `allOf`: the instance must be valid under every subschema.
pub fn allOf(
    cfg: &Config,
    instance: &Json,
    schema: &Json,
    _parent_schema: Option<&Json>,
    ref_context: &Context,
    depth: usize,
) -> (errors: Vec<ValidationError>)
    ensures
        error_views(errors@) == all_of_errors(cfg@, instance@, schema@, ref_context@, depth as nat),
    decreases depth, 3nat,
{
    match schema.as_array() {
        Some(subschemas) => {
            let mut errors = no_error();
            let mut i: usize = 0;
            while i < subschemas.len()
                invariant
                    i <= subschemas.len(),
                    error_views(errors@) == all_of_upto(
                        cfg@,
                        instance@,
                        json_views(subschemas@),
                        ref_context@,
                        depth as nat,
                        i as nat,
                    ),
                decreases subschemas.len() - i,
            {
                assert(json_views(subschemas@)[i as int] == subschemas@[i as int]@);
                let mut found = descend_normalized(cfg, instance, &subschemas[i], Some(schema), ref_context, depth);
                let index = usize_to_string(i);
                add_schema_ctx(&mut found, index.as_str());
                append_errors(&mut errors, found);
                i += 1;
            }
            errors
        },
        None => no_error(),
    }
}

/// How many of the subschemas the instance is valid under.
fn count_matches(
    cfg: &Config,
    instance: &Json,
    subschemas: &Vec<Json>,
    parent_schema: Option<&Json>,
    ref_context: &Context,
    depth: usize,
) -> (count: usize)
    ensures
        count == count_valid(
            cfg@,
            instance@,
            json_views(subschemas@),
            ref_context@,
            depth as nat,
            subschemas.len() as nat,
        ),
    decreases depth, 3nat,
{
    let mut count: usize = 0;
    let mut i: usize = 0;
    while i < subschemas.len()
        invariant
            i <= subschemas.len(),
            count <= i,
            count == count_valid(cfg@, instance@, json_views(subschemas@), ref_context@, depth as nat, i as nat),
        decreases subschemas.len() - i,
    {
        assert(json_views(subschemas@)[i as int] == subschemas@[i as int]@);
        if valid_under(cfg, instance, &subschemas[i], parent_schema, ref_context, depth) {
            count += 1;
        }
        i += 1;
    }
    count
}

/// `anyOf`: the instance must be valid under some subschema.
pub fn anyOf(
    cfg: &Config,
    instance: &Json,
    schema: &Json,
    _parent_schema: Option<&Json>,
    ref_context: &Context,
    depth: usize,
) -> (errors: Vec<ValidationError>)
    ensures
        error_views(errors@) == any_of_errors(cfg@, instance@, schema@, ref_context@, depth as nat),
    decreases depth, 4nat,
{
    match schema.as_array() {
        Some(subschemas) => {
            if count_matches(cfg, instance, subschemas, Some(schema), ref_context, depth) > 0 {
                no_error()
            } else {
                make_error("anyOf failed", Some(instance), Some(schema))
            }
        },
        None => no_error(),
    }
}

/// `oneOf`: the instance must be valid under exactly one subschema.
pub fn oneOf(
    cfg: &Config,
    instance: &Json,
    schema: &Json,
    _parent_schema: Option<&Json>,
    ref_context: &Context,
    depth: usize,
) -> (errors: Vec<ValidationError>)
    ensures
        error_views(errors@) == one_of_errors(cfg@, instance@, schema@, ref_context@, depth as nat),
    decreases depth, 4nat,
{
    match schema.as_array() {
        Some(subschemas) => {
            let count = count_matches(cfg, instance, subschemas, Some(schema), ref_context, depth);
            if count == 0 {
                make_error("nothing matched in oneOf", Some(instance), Some(schema))
            } else if count == 1 {
                no_error()
            } else {
                make_error("More than one matched in oneOf", Some(instance), Some(schema))
            }
        },
        None => no_error(),
    }
}

/// `not`: the instance must not be valid under the subschema.
pub fn not(
    cfg: &Config,
    instance: &Json,
    schema: &Json,
    parent_schema: Option<&Json>,
    ref_context: &Context,
    depth: usize,
) -> (errors: Vec<ValidationError>)
    ensures
        error_views(errors@) == not_errors(cfg@, instance@, schema@, ref_context@, depth as nat),
    decreases depth, 3nat,
{
    if valid_plainly(cfg, instance, schema, parent_schema, ref_context, depth) {
        make_error("not", Some(instance), Some(schema))
    } else {
        no_error()
    }
}

fn branch(
    cfg: &Config,
    instance: &Json,
    schema: &Json,
    parent_schema: Option<&Json>,
    name: &str,
    ref_context: &Context,
    depth: usize,
) -> (errors: Vec<ValidationError>)
    ensures
        error_views(errors@) == branch_errors(
            cfg@,
            instance@,
            borrowed_view(parent_schema),
            name@,
            ref_context@,
            depth as nat,
        ),
    decreases depth, 3nat,
{
    match parent_schema {
        Some(parent) => match parent.get(name) {
            Some(chosen) => {
                if chosen.is_object() {
                    let mut found = descend(cfg, instance, chosen, Some(schema), ref_context, depth);
                    add_schema_ctx(&mut found, name);
                    found
                } else {
                    no_error()
                }
            },
            None => no_error(),
        },
        None => no_error(),
    }
}

/// `if`: where the instance is valid under it, the sibling `then` applies, otherwise the
/// sibling `else`.
pub fn if_(
    cfg: &Config,
    instance: &Json,
    schema: &Json,
    parent_schema: Option<&Json>,
    ref_context: &Context,
    depth: usize,
) -> (errors: Vec<ValidationError>)
    ensures
        error_views(errors@) == if_errors(
            cfg@,
            instance@,
            schema@,
            borrowed_view(parent_schema),
            ref_context@,
            depth as nat,
        ),
    decreases depth, 4nat,
{
    if valid_plainly(cfg, instance, schema, parent_schema, ref_context, depth) {
        branch(cfg, instance, schema, parent_schema, "then", ref_context, depth)
    } else {
        branch(cfg, instance, schema, parent_schema, "else", ref_context, depth)
    }
}

/// `contains`: some element of an array must be valid under the schema.
pub fn contains(
    cfg: &Config,
    instance: &Json,
    schema: &Json,
    parent_schema: Option<&Json>,
    ref_context: &Context,
    depth: usize,
) -> (errors: Vec<ValidationError>)
    ensures
        error_views(errors@) == contains_errors(cfg@, instance@, schema@, ref_context@, depth as nat),
    decreases depth, 3nat,
{
    match instance.as_array() {
        Some(items) => {
            let mut count: usize = 0;
            let mut i: usize = 0;
            while i < items.len()
                invariant
                    i <= items.len(),
                    count <= i,
                    count == count_valid_items(
                        cfg@,
                        json_views(items@),
                        schema@,
                        ref_context@,
                        depth as nat,
                        i as nat,
                    ),
                decreases items.len() - i,
            {
                assert(json_views(items@)[i as int] == items@[i as int]@);
                if valid_plainly(cfg, &items[i], schema, parent_schema, ref_context, depth) {
                    count += 1;
                }
                i += 1;
            }
            if count > 0 {
                no_error()
            } else {
                make_error("No items in array valid under the given schema.", Some(instance), Some(schema))
            }
        },
        None => no_error(),
    }
}

/// `items`: under an object every element of an array must be valid; under an array the
/// elements are valid one by one under the subschemas of their places.
pub fn items(
    cfg: &Config,
    instance: &Json,
    schema: &Json,
    _parent_schema: Option<&Json>,
    ref_context: &Context,
    depth: usize,
) -> (errors: Vec<ValidationError>)
    ensures
        error_views(errors@) == items_errors(cfg@, instance@, schema@, ref_context@, depth as nat),
    decreases depth, 3nat,
{
    let elements = match instance.as_array() {
        Some(elements) => elements,
        None => {
            return no_error();
        },
    };
    match schema {
        Json::Bool(_) => {
            if cfg.get_draft_number() >= 6 {
                let object = bool_to_object_schema(schema);
                each_item(cfg, elements, &object, Some(schema), ref_context, depth, 0)
            } else {
                no_error()
            }
        },
        Json::Object(_) => each_item(cfg, elements, schema, Some(schema), ref_context, depth, 0),
        Json::Array(subschemas) => {
            assert(schema@ == JsonValue::Array(json_views(subschemas@)));
            let n = if elements.len() <= subschemas.len() {
                elements.len()
            } else {
                subschemas.len()
            };
            let mut errors = no_error();
            let mut i: usize = 0;
            while i < n
                invariant
                    i <= n,
                    n <= elements.len(),
                    n <= subschemas.len(),
                    error_views(errors@) == tuple_items_errors(
                        cfg@,
                        json_views(elements@),
                        json_views(subschemas@),
                        ref_context@,
                        depth as nat,
                        i as nat,
                    ),
                decreases n - i,
            {
                assert(json_views(elements@)[i as int] == elements@[i as int]@);
                assert(json_views(subschemas@)[i as int] == subschemas@[i as int]@);
                let mut found = descend(cfg, &elements[i], &subschemas[i], Some(schema), ref_context, depth);
                let index = usize_to_string(i);
                add_ctx(&mut found, index.as_str(), index.as_str());
                append_errors(&mut errors, found);
                i += 1;
            }
            errors
        },
        _ => no_error(),
    }
}

/// `additionalItems`: where the sibling `items` is an array, the elements beyond it must
/// be valid under the schema; under `false` there may be none.
pub fn additionalItems(
    cfg: &Config,
    instance: &Json,
    schema: &Json,
    parent_schema: Option<&Json>,
    ref_context: &Context,
    depth: usize,
) -> (errors: Vec<ValidationError>)
    ensures
        error_views(errors@) == additional_items_errors(
            cfg@,
            instance@,
            schema@,
            borrowed_view(parent_schema),
            ref_context@,
            depth as nat,
        ),
    decreases depth, 3nat,
{
    let parent = match parent_schema {
        Some(parent) => parent,
        None => {
            return no_error();
        },
    };
    let elements = match instance.as_array() {
        Some(elements) => elements,
        None => {
            return no_error();
        },
    };
    let subschemas = match parent.get("items") {
        Some(tuple) => match tuple.as_array() {
            Some(subschemas) => subschemas,
            None => {
                return no_error();
            },
        },
        None => {
            return no_error();
        },
    };
    match schema {
        Json::Object(_) => {
            let from = if subschemas.len() <= elements.len() {
                subschemas.len()
            } else {
                elements.len()
            };
            each_item(cfg, elements, schema, Some(parent), ref_context, depth, from)
        },
        Json::Bool(allowed) => {
            if !*allowed && elements.len() > subschemas.len() {
                make_error("Additional items are not allowed.", Some(instance), Some(parent))
            } else {
                no_error()
            }
        },
        _ => no_error(),
    }
}

/// `properties`: the members of an object that the schema names must be valid under
/// their subschemas.
pub fn properties(
    cfg: &Config,
    instance: &Json,
    schema: &Json,
    _parent_schema: Option<&Json>,
    ref_context: &Context,
    depth: usize,
) -> (errors: Vec<ValidationError>)
    ensures
        error_views(errors@) == properties_errors(cfg@, instance@, schema@, ref_context@, depth as nat),
    decreases depth, 3nat,
{
    match (instance.as_object(), schema.as_object()) {
        (Some(_), Some(subschemas)) => {
            let ghost models = member_views(subschemas@);
            let mut errors = no_error();
            let mut i: usize = 0;
            while i < subschemas.len()
                invariant
                    i <= subschemas.len(),
                    error_views(errors@) == properties_upto(
                        cfg@,
                        instance@,
                        models,
                        ref_context@,
                        depth as nat,
                        i as nat,
                    ),
                decreases subschemas.len() - i,
            {
                assert(models[i as int] == (subschemas@[i as int].0@, subschemas@[i as int].1@));
                let name = subschemas[i].0.as_str();
                match instance.get(name) {
                    Some(value) => {
                        let mut found = descend(cfg, value, &subschemas[i].1, Some(schema), ref_context, depth);
                        add_ctx(&mut found, name, name);
                        append_errors(&mut errors, found);
                    },
                    None => {
                        assert(error_views(errors@) + none() =~= error_views(errors@));
                    },
                }
                i += 1;
            }
            errors
        },
        _ => no_error(),
    }
}

/// For each member, whether the regular expression matches its name.
fn name_flags(re: &Pattern, members: &Vec<(String, Json)>) -> (flags: Vec<bool>)
    ensures
        flags@ == match_flags(re.source(), member_views(members@)),
{
    let mut flags: Vec<bool> = Vec::new();
    let mut k: usize = 0;
    while k < members.len()
        invariant
            k <= members.len(),
            flags@.len() == k,
            forall|j: int| 0 <= j < k ==> flags@[j] == regex_matches(re.source(), members@[j].0@),
        decreases members.len() - k,
    {
        flags.push(regex_is_match(re, members[k].0.as_str()));
        k += 1;
    }
    assert(flags@ =~= match_flags(re.source(), member_views(members@)));
    flags
}

/// The errors of the members of an object that are flagged, each under the schema and
/// with its name on the instance path. A member without a flag counts as not flagged.
pub fn flagged_members(
    cfg: &Config,
    members: &Vec<(String, Json)>,
    flags: &Vec<bool>,
    schema: &Json,
    parent_schema: Option<&Json>,
    ref_context: &Context,
    depth: usize,
) -> (errors: Vec<ValidationError>)
    ensures
        error_views(errors@) == flagged_members_errors(
            cfg@,
            member_views(members@),
            flags@,
            schema@,
            ref_context@,
            depth as nat,
            members.len() as nat,
        ),
    decreases depth, 2nat,
{
    let ghost models = member_views(members@);
    let mut errors = no_error();
    let mut k: usize = 0;
    while k < members.len()
        invariant
            k <= members.len(),
            error_views(errors@) == flagged_members_errors(
                cfg@,
                models,
                flags@,
                schema@,
                ref_context@,
                depth as nat,
                k as nat,
            ),
        decreases members.len() - k,
    {
        assert(models[k as int] == (members@[k as int].0@, members@[k as int].1@));
        if k < flags.len() && flags[k] {
            let mut below = descend(cfg, &members[k].1, schema, parent_schema, ref_context, depth);
            add_instance_ctx(&mut below, members[k].0.as_str());
            append_errors(&mut errors, below);
        } else {
            assert(error_views(errors@) + none() =~= error_views(errors@));
        }
        k += 1;
    }
    errors
}

/// `patternProperties`: every member of an object whose name matches a pattern must be
/// valid under the subschema of that pattern.
pub fn patternProperties(
    cfg: &Config,
    instance: &Json,
    schema: &Json,
    _parent_schema: Option<&Json>,
    ref_context: &Context,
    depth: usize,
) -> (errors: Vec<ValidationError>)
    ensures
        error_views(errors@) == pattern_properties_errors(cfg@, instance@, schema@, ref_context@, depth as nat),
    decreases depth, 3nat,
{
    match (instance.as_object(), schema.as_object()) {
        (Some(members), Some(patterns)) => {
            let ghost member_models = member_views(members@);
            let ghost pattern_models = member_views(patterns@);
            let mut errors = no_error();
            let mut i: usize = 0;
            while i < patterns.len()
                invariant
                    i <= patterns.len(),
                    error_views(errors@) == pattern_properties_upto(
                        cfg@,
                        member_models,
                        pattern_models,
                        ref_context@,
                        depth as nat,
                        i as nat,
                    ),
                decreases patterns.len() - i,
            {
                assert(pattern_models[i as int] == (patterns@[i as int].0@, patterns@[i as int].1@));
                let source = patterns[i].0.as_str();
                let mut found = match regex_new(source) {
                    Some(re) => {
                        let flags = name_flags(&re, members);
                        flagged_members(cfg, members, &flags, &patterns[i].1, Some(schema), ref_context, depth)
                    },
                    None => {
                        let invalid = Json::String(source.to_string());
                        make_error("Invalid regex.", None, Some(&invalid))
                    },
                };
                add_schema_ctx(&mut found, source);
                append_errors(&mut errors, found);
                i += 1;
            }
            errors
        },
        _ => no_error(),
    }
}

/// `propertyNames`: every member name of an object must be valid under the schema.
pub fn propertyNames(
    cfg: &Config,
    instance: &Json,
    schema: &Json,
    parent_schema: Option<&Json>,
    ref_context: &Context,
    depth: usize,
) -> (errors: Vec<ValidationError>)
    ensures
        error_views(errors@) == property_names_errors(cfg@, instance@, schema@, ref_context@, depth as nat),
    decreases depth, 3nat,
{
    match instance.as_object() {
        Some(members) => {
            let ghost models = member_views(members@);
            let mut errors = no_error();
            let mut i: usize = 0;
            while i < members.len()
                invariant
                    i <= members.len(),
                    error_views(errors@) == property_names_upto(
                        cfg@,
                        models,
                        schema@,
                        ref_context@,
                        depth as nat,
                        i as nat,
                    ),
                decreases members.len() - i,
            {
                assert(models[i as int] == (members@[i as int].0@, members@[i as int].1@));
                let key = Json::String(members[i].0.clone());
                let found = descend(cfg, &key, schema, parent_schema, ref_context, depth);
                append_errors(&mut errors, found);
                i += 1;
            }
            errors
        },
        None => no_error(),
    }
}


/// The names of the members of an object that the `properties` of a schema do not have
/// and that are not flagged, in their order. A member without a flag counts as not
/// flagged.
pub fn unflagged_members(members: &Vec<(String, Json)>, schema: &Json, flags: &Vec<bool>) -> (names: Vec<
    String,
>)
    ensures
        string_views(names@) == unflagged_names(member_views(members@), schema@, flags@, members.len() as nat),
{
    let named: Option<&Json> = match schema.get("properties") {
        Some(properties) => {
            if properties.is_object() {
                Some(properties)
            } else {
                None
            }
        },
        None => None,
    };
    let ghost models = member_views(members@);
    let mut names: Vec<String> = Vec::new();
    assert(string_views(names@) =~= Seq::empty());
    let mut i: usize = 0;
    while i < members.len()
        invariant
            i <= members.len(),
            string_views(names@) == unflagged_names(models, schema@, flags@, i as nat),
        decreases members.len() - i,
    {
        assert(models[i as int] == (members@[i as int].0@, members@[i as int].1@));
        let name = members[i].0.as_str();
        let in_properties = match named {
            Some(properties) => properties.contains_key(name),
            None => false,
        };
        let flagged = i < flags.len() && flags[i];
        let ghost before = names@;
        if !in_properties && !flagged {
            names.push(name.to_string());
            assert(string_views(names@) =~= string_views(before).push(name@));
        }
        i += 1;
    }
    names
}

/// The names of the members of an object that are additional to a schema: those that its
/// `properties` do not have and that no pattern of its `patternProperties` matches.
fn find_additional_properties(members: &Vec<(String, Json)>, schema: &Json) -> (extras: Vec<String>)
    ensures
        string_views(extras@) == additional_names(member_views(members@), schema@, members.len() as nat),
{
    let patterns: Option<&Vec<(String, Json)>> = match schema.get("patternProperties") {
        Some(patterns) => patterns.as_object(),
        None => None,
    };
    let ghost pattern_models = patterns_of(schema@);
    let mut compiled: Vec<Option<Pattern>> = Vec::new();
    match patterns {
        Some(p) => {
            let mut i: usize = 0;
            while i < p.len()
                invariant
                    i <= p.len(),
                    compiled@.len() == i,
                    forall|k: int|
                        0 <= k < i ==> (#[trigger] compiled@[k]) is Some == regex_compiles(p@[k].0@),
                    forall|k: int|
                        0 <= k < i && (#[trigger] compiled@[k]) is Some ==> compiled@[k]->0.source()
                            == p@[k].0@,
                decreases p.len() - i,
            {
                compiled.push(regex_new(p[i].0.as_str()));
                i += 1;
            }
        },
        None => {},
    }
    let ghost models = member_views(members@);
    let mut flags: Vec<bool> = Vec::new();
    let mut i: usize = 0;
    while i < members.len()
        invariant
            i <= members.len(),
            flags@.len() == i,
            compiled@.len() == pattern_models.len(),
            forall|j: int| 0 <= j < i ==> flags@[j] == some_pattern_matches(pattern_models, models[j].0),
        decreases members.len() - i,
    {
        assert(models[i as int] == (members@[i as int].0@, members@[i as int].1@));
        let name = members[i].0.as_str();
        let mut matched = false;
        let mut k: usize = 0;
        while k < compiled.len()
            invariant
                k <= compiled.len(),
                compiled@.len() == pattern_models.len(),
                matched == pattern_matches_upto(pattern_models, name@, k as int),
            decreases compiled.len() - k,
        {
            assert(pattern_models[k as int].0 == patterns->0@[k as int].0@);
            let hit = match &compiled[k] {
                Some(re) => regex_is_match(re, name),
                None => false,
            };
            if hit {
                matched = true;
            }
            k += 1;
        }
        assert(matched == some_pattern_matches(pattern_models, name@));
        flags.push(matched);
        i += 1;
    }
    assert(flags@ =~= any_pattern_flags(pattern_models, models));
    unflagged_members(members, schema, &flags)
}

/// `additionalProperties`: the members of an object that are additional to the schema it
/// stands in must be valid under it; under `false` there may be none.
pub fn additionalProperties(
    cfg: &Config,
    instance: &Json,
    schema: &Json,
    parent_schema: Option<&Json>,
    ref_context: &Context,
    depth: usize,
) -> (errors: Vec<ValidationError>)
    ensures
        error_views(errors@) == additional_properties_errors(
            cfg@,
            instance@,
            schema@,
            borrowed_view(parent_schema),
            ref_context@,
            depth as nat,
        ),
    decreases depth, 3nat,
{
    let members = match instance.as_object() {
        Some(members) => members,
        None => {
            return no_error();
        },
    };
    let parent = match parent_schema {
        Some(parent) => {
            if parent.is_object() {
                parent
            } else {
                return no_error();
            }
        },
        None => {
            return no_error();
        },
    };
    match schema {
        Json::Object(_) => {
            let extras = find_additional_properties(members, parent);
            let ghost names = string_views(extras@);
            let mut errors = no_error();
            let mut i: usize = 0;
            while i < extras.len()
                invariant
                    i <= extras.len(),
                    names == string_views(extras@),
                    error_views(errors@) == named_values_errors(
                        cfg@,
                        instance@,
                        names,
                        schema@,
                        ref_context@,
                        depth as nat,
                        i as nat,
                    ),
                decreases extras.len() - i,
            {
                assert(names[i as int] == extras@[i as int]@);
                let name = extras[i].as_str();
                match instance.get(name) {
                    Some(value) => {
                        let mut found = descend(cfg, value, schema, parent_schema, ref_context, depth);
                        add_instance_ctx(&mut found, name);
                        append_errors(&mut errors, found);
                    },
                    None => {
                        assert(error_views(errors@) + none() =~= error_views(errors@));
                    },
                }
                i += 1;
            }
            errors
        },
        Json::Bool(allowed) => {
            if *allowed {
                return no_error();
            }
            let extras = find_additional_properties(members, parent);
            if extras.len() == 0 {
                return no_error();
            }
            let mut msg = "Additional properties are not allowed. Found ".to_string();
            let list = format_list(&extras);
            msg.append(list.as_str());
            msg.append(".");
            make_error(msg.as_str(), Some(instance), parent_schema)
        },
        _ => no_error(),
    }
}

/// `dependencies`: what an object must be or have where it has certain members.
pub fn dependencies(
    cfg: &Config,
    instance: &Json,
    schema: &Json,
    _parent_schema: Option<&Json>,
    ref_context: &Context,
    depth: usize,
) -> (errors: Vec<ValidationError>)
    ensures
        error_views(errors@) == dependencies_errors(cfg@, instance@, schema@, ref_context@, depth as nat),
    decreases depth, 3nat,
{
    match (instance.as_object(), schema.as_object()) {
        (Some(_), Some(entries)) => {
            let mut errors = no_error();
            let mut i: usize = 0;
            while i < entries.len()
                invariant
                    i <= entries.len(),
                    error_views(errors@) == dependencies_upto(
                        cfg@,
                        instance@,
                        schema@,
                        ref_context@,
                        depth as nat,
                        i as nat,
                    ),
                decreases entries.len() - i,
            {
                assert(schema@.members()[i as int] == (entries@[i as int].0@, entries@[i as int].1@));
                let property = entries[i].0.as_str();
                let dependency = &entries[i].1;
                if !instance.contains_key(property) {
                    assert(error_views(errors@) + none() =~= error_views(errors@));
                } else {
                    match dependency {
                        Json::Bool(_) => {
                            let object = bool_to_object_schema(dependency);
                            let mut found = descend(cfg, instance, &object, Some(schema), ref_context, depth);
                            add_schema_ctx(&mut found, property);
                            append_errors(&mut errors, found);
                        },
                        Json::Object(_) => {
                            let mut found = descend(cfg, instance, dependency, Some(schema), ref_context, depth);
                            add_schema_ctx(&mut found, property);
                            append_errors(&mut errors, found);
                        },
                        _ => {
                            let names = iter_or_once(dependency);
                            let ghost models = alternatives(dependency@);
                            let mut lacking = false;
                            let mut k: usize = 0;
                            while k < names.len()
                                invariant
                                    k <= names.len(),
                                    models == borrowed_views(names@),
                                    lacking == lacks_upto(instance@, models, k as int),
                                decreases names.len() - k,
                            {
                                assert(models[k as int] == names@[k as int]@);
                                match names[k].as_str() {
                                    Some(name) => {
                                        if !instance.contains_key(name) {
                                            lacking = true;
                                        }
                                    },
                                    None => {},
                                }
                                k += 1;
                            }
                            assert(lacking == lacks_dependency(instance@, models));
                            if lacking {
                                let found = make_error("Invalid dependencies", Some(instance), Some(schema));
                                append_errors(&mut errors, found);
                            } else {
                                assert(error_views(errors@) + none() =~= error_views(errors@));
                            }
                        },
                    }
                }
                i += 1;
            }
            errors
        },
        _ => no_error(),
    }
}

/// Calls the validation function that a validator stands for.
pub fn apply(
    validator: Validator,
    cfg: &Config,
    instance: &Json,
    schema: &Json,
    parent_schema: Option<&Json>,
    ref_context: &Context,
    depth: usize,
) -> (errors: Vec<ValidationError>)
    ensures
        error_views(errors@) == keyword_errors(
            cfg@,
            validator,
            instance@,
            schema@,
            borrowed_view(parent_schema),
            ref_context@,
            depth as nat,
        ),
    decreases depth, 5nat,
{
    match validator {
        Validator::Ref => ref_(cfg, instance, schema, parent_schema, ref_context, depth),
        Validator::AdditionalItems => additionalItems(cfg, instance, schema, parent_schema, ref_context, depth),
        Validator::AdditionalProperties => additionalProperties(
            cfg,
            instance,
            schema,
            parent_schema,
            ref_context,
            depth,
        ),
        Validator::AllOf => allOf(cfg, instance, schema, parent_schema, ref_context, depth),
        Validator::AnyOf => anyOf(cfg, instance, schema, parent_schema, ref_context, depth),
        Validator::Const => const_(cfg, instance, schema, parent_schema, ref_context, depth),
        Validator::Contains => contains(cfg, instance, schema, parent_schema, ref_context, depth),
        Validator::Dependencies => dependencies(cfg, instance, schema, parent_schema, ref_context, depth),
        Validator::Enum => enum_(cfg, instance, schema, parent_schema, ref_context, depth),
        Validator::ExclusiveMaximum => exclusiveMaximum(cfg, instance, schema, parent_schema, ref_context, depth),
        Validator::ExclusiveMinimum => exclusiveMinimum(cfg, instance, schema, parent_schema, ref_context, depth),
        Validator::Format => format(cfg, instance, schema, parent_schema, ref_context, depth),
        Validator::If => if_(cfg, instance, schema, parent_schema, ref_context, depth),
        Validator::Items => items(cfg, instance, schema, parent_schema, ref_context, depth),
        Validator::MaxItems => maxItems(cfg, instance, schema, parent_schema, ref_context, depth),
        Validator::MaxLength => maxLength(cfg, instance, schema, parent_schema, ref_context, depth),
        Validator::MaxProperties => maxProperties(cfg, instance, schema, parent_schema, ref_context, depth),
        Validator::Maximum => maximum(cfg, instance, schema, parent_schema, ref_context, depth),
        Validator::MinItems => minItems(cfg, instance, schema, parent_schema, ref_context, depth),
        Validator::MinLength => minLength(cfg, instance, schema, parent_schema, ref_context, depth),
        Validator::MinProperties => minProperties(cfg, instance, schema, parent_schema, ref_context, depth),
        Validator::Minimum => minimum(cfg, instance, schema, parent_schema, ref_context, depth),
        Validator::MultipleOf => multipleOf(cfg, instance, schema, parent_schema, ref_context, depth),
        Validator::Not => not(cfg, instance, schema, parent_schema, ref_context, depth),
        Validator::OneOf => oneOf(cfg, instance, schema, parent_schema, ref_context, depth),
        Validator::Pattern => pattern(cfg, instance, schema, parent_schema, ref_context, depth),
        Validator::PatternProperties => patternProperties(cfg, instance, schema, parent_schema, ref_context, depth),
        Validator::Properties => properties(cfg, instance, schema, parent_schema, ref_context, depth),
        Validator::PropertyNames => propertyNames(cfg, instance, schema, parent_schema, ref_context, depth),
        Validator::Required => required(cfg, instance, schema, parent_schema, ref_context, depth),
        Validator::Type => type_(cfg, instance, schema, parent_schema, ref_context, depth),
        Validator::UniqueItems => uniqueItems(cfg, instance, schema, parent_schema, ref_context, depth),
        Validator::MaximumDraft4 => maximum_draft4(cfg, instance, schema, parent_schema, ref_context, depth),
        Validator::MinimumDraft4 => minimum_draft4(cfg, instance, schema, parent_schema, ref_context, depth),
    }
}

} // verus!
