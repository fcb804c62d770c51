//! Validation under a schema without references is local: the errors depend on the draft,
//! the instance and the schema, and neither on the rest of the configuration, nor on the
//! scope chain, nor on how deep the descent may still go, as long as that is deep enough
//! for the schema.

use vstd::prelude::*;
use vstd::string::*;
use crate::config::{validation_errors, ConfigModel};
use crate::json::{lemma_lookup_absent, lemma_lookup_found, JsonValue};
use crate::laws::{lemma_not_inverts, negation};
use crate::schemas::{validator_for, Validator};
use crate::semantics::{
    additional_items_errors, additional_properties_errors, all_of_errors, all_of_upto, any_of_errors,
    branch_errors, contains_errors, count_valid, count_valid_items, dependencies_errors, dependencies_upto,
    descend_errors, each_item_errors, flagged_members_errors, if_errors, is_valid_under, items_errors,
    keyword_errors, member_errors, members_errors, named_values_errors, normalized, not_errors,
    one_of_errors, pattern_properties_errors, pattern_properties_upto, properties_errors, properties_upto,
    additional_names, match_flags, property_names_errors, property_names_upto, sibling, smaller,
    tuple_items_errors,
};
use crate::util::object_schema;
use crate::validators::MAX_DEPTH;

verus! {

/// The larger of two counts.
pub open spec fn larger(a: nat, b: nat) -> nat {
    if a >= b {
        a
    } else {
        b
    }
}

/// How deep a descent through a document can go: one level for the document and as many
/// as its deepest part needs. A boolean counts for three, the levels of its object form.
pub open spec fn nesting(value: JsonValue) -> nat
    decreases value, 0nat,
{
    match value {
        JsonValue::Bool(_) => 3,
        JsonValue::Array(items) => 1 + items_nesting(items, items.len()),
        JsonValue::Object(members) => 1 + members_nesting(members, members.len()),
        _ => 1,
    }
}

/// The nesting of the deepest of the first `n` elements.
pub open spec fn items_nesting(items: Seq<JsonValue>, n: nat) -> nat
    decreases items, n,
{
    if n == 0 || n > items.len() {
        0
    } else {
        larger(items_nesting(items, (n - 1) as nat), nesting(items[n - 1]))
    }
}

/// The nesting of the deepest of the first `n` member values.
pub open spec fn members_nesting(members: Seq<(Seq<char>, JsonValue)>, n: nat) -> nat
    decreases members, n,
{
    if n == 0 || n > members.len() {
        0
    } else {
        larger(members_nesting(members, (n - 1) as nat), nesting(members[n - 1].1))
    }
}

/// Whether no object in the document has a member named `$ref`.
pub open spec fn reference_free(value: JsonValue) -> bool
    decreases value,
{
    match value {
        JsonValue::Array(items) => forall|i: int| 0 <= i < items.len() ==> reference_free(#[trigger] items[i]),
        JsonValue::Object(members) => forall|i: int|
            0 <= i < members.len() ==> (#[trigger] members[i]).0 != "$ref"@ && reference_free(members[i].1),
        _ => true,
    }
}

/// Whether a schema has no reference and nests no deeper than `bound`.
pub open spec fn fits(schema: JsonValue, bound: nat) -> bool {
    reference_free(schema) && nesting(schema) <= bound
}

/// Whether every member value of a schema object, where there is one, fits.
pub open spec fn members_fit(parent: Option<JsonValue>, bound: nat) -> bool {
    match parent {
        Some(p) => forall|i: int| 0 <= i < p.members().len() ==> fits((#[trigger] p.members()[i]).1, bound),
        None => true,
    }
}

/// Two runs of the descent: each under a configuration, a scope chain and a depth of its
/// own.
pub struct TwoRuns {
    pub first: ConfigModel,
    pub second: ConfigModel,
    pub first_scope: Seq<JsonValue>,
    pub second_scope: Seq<JsonValue>,
    pub first_depth: nat,
    pub second_depth: nat,
}

impl TwoRuns {
    /// Whether the runs are of one draft and both may go at least `bound` levels deep.
    pub open spec fn deep_enough(self, bound: nat) -> bool {
        &&& self.first.draft == self.second.draft
        &&& self.first_depth >= bound
        &&& self.second_depth >= bound
    }

    /// The runs one level further down.
    pub open spec fn below(self) -> TwoRuns {
        TwoRuns {
            first_depth: (self.first_depth - 1) as nat,
            second_depth: (self.second_depth - 1) as nat,
            ..self
        }
    }

    /// Whether the two runs find the same errors under a schema.
    pub open spec fn agree(self, instance: JsonValue, schema: JsonValue) -> bool {
        descend_errors(self.first, instance, schema, self.first_scope, self.first_depth) == descend_errors(
            self.second,
            instance,
            schema,
            self.second_scope,
            self.second_depth,
        )
    }

    /// Whether the two runs find an instance valid under a schema alike.
    pub open spec fn agree_on_validity(self, instance: JsonValue, schema: JsonValue) -> bool {
        is_valid_under(self.first, instance, schema, self.first_scope, self.first_depth) == is_valid_under(
            self.second,
            instance,
            schema,
            self.second_scope,
            self.second_depth,
        )
    }
}

proof fn lemma_item_nesting(items: Seq<JsonValue>, i: int, n: nat)
    requires
        0 <= i < n <= items.len(),
    ensures
        nesting(items[i]) <= items_nesting(items, n),
    decreases n,
{
    if i < n - 1 {
        lemma_item_nesting(items, i, (n - 1) as nat);
    }
}

proof fn lemma_member_nesting(members: Seq<(Seq<char>, JsonValue)>, i: int, n: nat)
    requires
        0 <= i < n <= members.len(),
    ensures
        nesting(members[i].1) <= members_nesting(members, n),
    decreases n,
{
    if i < n - 1 {
        lemma_member_nesting(members, i, (n - 1) as nat);
    }
}

/// The parts of a schema that fits fit one level further down.
pub proof fn lemma_parts_fit(schema: JsonValue, bound: nat)
    requires
        fits(schema, bound),
    ensures
        bound >= 1,
        forall|i: int| 0 <= i < schema.items().len() ==> fits(#[trigger] schema.items()[i], (bound - 1) as nat),
        members_fit(Some(schema), (bound - 1) as nat),
{
    assert forall|i: int| 0 <= i < schema.items().len() implies fits(
        #[trigger] schema.items()[i],
        (bound - 1) as nat,
    ) by {
        lemma_item_nesting(schema.items(), i, schema.items().len());
    }
    assert forall|i: int| 0 <= i < schema.members().len() implies fits(
        (#[trigger] schema.members()[i]).1,
        (bound - 1) as nat,
    ) by {
        lemma_member_nesting(schema.members(), i, schema.members().len());
    }
}

/// The object form of a schema that fits fits too.
pub proof fn lemma_object_form_fits(schema: JsonValue, bound: nat)
    requires
        fits(schema, bound),
    ensures
        fits(object_schema(schema), bound),
{
    reveal_strlit("not");
    reveal_strlit("$ref");
    assert("not"@.len() == 3);
    assert("$ref"@.len() == 4);
    let empty = JsonValue::Object(Seq::empty());
    let inverse = JsonValue::Object(seq![("not"@, empty)]);
    assert(nesting(empty) == 1);
    assert(reference_free(empty));
    assert(members_nesting(inverse.members(), 0) == 0);
    assert(members_nesting(inverse.members(), 1) == 1);
    assert(nesting(inverse) == 2);
    assert(reference_free(inverse));
}

/// A schema that fits under a bound fits under every larger one.
pub proof fn lemma_fits_more(schema: JsonValue, bound: nat, more: nat)
    requires
        fits(schema, bound),
        bound <= more,
    ensures
        fits(schema, more),
{
}

/// Two runs that are deep enough for a schema without references find the same errors
/// under it, whatever their configurations, scope chains and depths.
pub proof fn lemma_descent_is_local(runs: TwoRuns, instance: JsonValue, schema: JsonValue, bound: nat)
    requires
        runs.deep_enough(bound),
        fits(schema, bound),
    ensures
        runs.agree(instance, schema),
    decreases bound, 0nat, 0nat,
{
    lemma_parts_fit(schema, bound);
    match schema {
        JsonValue::Object(members) => {
            lemma_lookup_absent(members, "$ref"@, 0);
            lemma_members_are_local(runs.below(), instance, schema, (bound - 1) as nat, members.len());
        },
        _ => {},
    }
}

/// Two runs that are deep enough for a schema without references find an instance valid
/// under it alike.
pub proof fn lemma_validity_is_local(runs: TwoRuns, instance: JsonValue, schema: JsonValue, bound: nat)
    requires
        runs.deep_enough(bound),
        fits(schema, bound),
    ensures
        runs.agree_on_validity(instance, schema),
    decreases bound, 0nat, 1nat,
{
    lemma_descent_is_local(runs, instance, schema, bound);
}

proof fn lemma_members_are_local(runs: TwoRuns, instance: JsonValue, schema: JsonValue, bound: nat, n: nat)
    requires
        runs.deep_enough(bound),
        members_fit(Some(schema), bound),
        n <= schema.members().len(),
        forall|i: int| 0 <= i < schema.members().len() ==> (#[trigger] schema.members()[i]).0 != "$ref"@,
    ensures
        members_errors(runs.first, instance, schema, runs.first_scope, runs.first_depth, n) == members_errors(
            runs.second,
            instance,
            schema,
            runs.second_scope,
            runs.second_depth,
            n,
        ),
    decreases bound, 5nat, n,
{
    if n > 0 {
        lemma_members_are_local(runs, instance, schema, bound, (n - 1) as nat);
        let key = schema.members()[n - 1].0;
        let value = schema.members()[n - 1].1;
        assert(fits(value, bound));
        match validator_for(runs.first.draft, key) {
            Some(validator) => {
                assert(validator != Validator::Ref);
                lemma_keyword_is_local(runs, validator, instance, value, Some(schema), bound);
            },
            None => {},
        }
        assert(member_errors(runs.first, instance, schema, runs.first_scope, runs.first_depth, n - 1)
            == member_errors(runs.second, instance, schema, runs.second_scope, runs.second_depth, n - 1));
    }
}

proof fn lemma_keyword_is_local(
    runs: TwoRuns,
    validator: Validator,
    instance: JsonValue,
    schema: JsonValue,
    parent: Option<JsonValue>,
    bound: nat,
)
    requires
        runs.deep_enough(bound),
        fits(schema, bound),
        members_fit(parent, bound),
        validator != Validator::Ref,
    ensures
        keyword_errors(
            runs.first,
            validator,
            instance,
            schema,
            parent,
            runs.first_scope,
            runs.first_depth,
        ) == keyword_errors(
            runs.second,
            validator,
            instance,
            schema,
            parent,
            runs.second_scope,
            runs.second_depth,
        ),
    decreases bound, 4nat, 0nat,
{
    match validator {
        Validator::AdditionalItems => lemma_additional_items(runs, instance, schema, parent, bound),
        Validator::AdditionalProperties => lemma_additional_properties(runs, instance, schema, parent, bound),
        Validator::AllOf => lemma_all_of(runs, instance, schema, bound),
        Validator::AnyOf => lemma_any_of(runs, instance, schema, bound),
        Validator::Contains => lemma_contains(runs, instance, schema, bound),
        Validator::Dependencies => lemma_dependencies(runs, instance, schema, bound),
        Validator::If => lemma_if(runs, instance, schema, parent, bound),
        Validator::Items => lemma_items(runs, instance, schema, bound),
        Validator::Not => lemma_not(runs, instance, schema, bound),
        Validator::OneOf => lemma_one_of(runs, instance, schema, bound),
        Validator::PatternProperties => lemma_pattern_properties(runs, instance, schema, bound),
        Validator::Properties => lemma_properties(runs, instance, schema, bound),
        Validator::PropertyNames => lemma_property_names(runs, instance, schema, bound),
        _ => {},
    }
}

proof fn lemma_elements_fit(schema: JsonValue, bound: nat)
    requires
        fits(schema, bound),
    ensures
        forall|i: int| 0 <= i < schema.items().len() ==> fits(#[trigger] schema.items()[i], bound),
        forall|i: int|
            0 <= i < schema.items().len() ==> fits(object_schema(#[trigger] schema.items()[i]), bound),
        members_fit(Some(schema), bound),
        forall|i: int|
            0 <= i < schema.members().len() ==> fits(object_schema((#[trigger] schema.members()[i]).1), bound),
{
    lemma_parts_fit(schema, bound);
    assert forall|i: int| 0 <= i < schema.items().len() implies fits(
        object_schema(#[trigger] schema.items()[i]),
        bound,
    ) by {
        lemma_object_form_fits(schema.items()[i], bound);
    }
    assert forall|i: int| 0 <= i < schema.members().len() implies fits(
        object_schema((#[trigger] schema.members()[i]).1),
        bound,
    ) by {
        lemma_object_form_fits(schema.members()[i].1, bound);
    }
}

proof fn lemma_all_of_upto(
    runs: TwoRuns,
    instance: JsonValue,
    subschemas: Seq<JsonValue>,
    bound: nat,
    n: nat,
)
    requires
        runs.deep_enough(bound),
        forall|i: int| 0 <= i < subschemas.len() ==> fits(normalized(runs.first.draft, #[trigger] subschemas[i]), bound),
    ensures
        all_of_upto(
            runs.first,
            instance,
            subschemas,
            runs.first_scope,
            runs.first_depth,
            n,
        ) == all_of_upto(
            runs.second,
            instance,
            subschemas,
            runs.second_scope,
            runs.second_depth,
            n,
        ),
    decreases bound, 1nat, n,
{
    if n > 0 && n <= subschemas.len() {
        lemma_all_of_upto(runs, instance, subschemas, bound, (n - 1) as nat);
        assert(fits(normalized(runs.first.draft, subschemas[n - 1]), bound));
        lemma_descent_is_local(runs, instance, normalized(runs.first.draft, subschemas[n - 1]), bound);
    }
}

proof fn lemma_count_valid(
    runs: TwoRuns,
    instance: JsonValue,
    subschemas: Seq<JsonValue>,
    bound: nat,
    n: nat,
)
    requires
        runs.deep_enough(bound),
        forall|i: int| 0 <= i < subschemas.len() ==> fits(normalized(runs.first.draft, #[trigger] subschemas[i]), bound),
    ensures
        count_valid(
            runs.first,
            instance,
            subschemas,
            runs.first_scope,
            runs.first_depth,
            n,
        ) == count_valid(
            runs.second,
            instance,
            subschemas,
            runs.second_scope,
            runs.second_depth,
            n,
        ),
    decreases bound, 1nat, n,
{
    if n > 0 && n <= subschemas.len() {
        lemma_count_valid(runs, instance, subschemas, bound, (n - 1) as nat);
        assert(fits(normalized(runs.first.draft, subschemas[n - 1]), bound));
        lemma_validity_is_local(runs, instance, normalized(runs.first.draft, subschemas[n - 1]), bound);
    }
}

proof fn lemma_count_valid_items(
    runs: TwoRuns,
    items: Seq<JsonValue>,
    schema: JsonValue,
    bound: nat,
    n: nat,
)
    requires
        runs.deep_enough(bound),
        fits(schema, bound),
    ensures
        count_valid_items(
            runs.first,
            items,
            schema,
            runs.first_scope,
            runs.first_depth,
            n,
        ) == count_valid_items(
            runs.second,
            items,
            schema,
            runs.second_scope,
            runs.second_depth,
            n,
        ),
    decreases bound, 1nat, n,
{
    if n > 0 && n <= items.len() {
        lemma_count_valid_items(runs, items, schema, bound, (n - 1) as nat);
        lemma_validity_is_local(runs, items[n - 1], schema, bound);
    }
}

proof fn lemma_each_item(
    runs: TwoRuns,
    items: Seq<JsonValue>,
    schema: JsonValue,
    from: nat,
    bound: nat,
    n: nat,
)
    requires
        runs.deep_enough(bound),
        fits(schema, bound),
    ensures
        each_item_errors(
            runs.first,
            items,
            schema,
            runs.first_scope,
            runs.first_depth,
            from,
            n,
        ) == each_item_errors(
            runs.second,
            items,
            schema,
            runs.second_scope,
            runs.second_depth,
            from,
            n,
        ),
    decreases bound, 1nat, n,
{
    if n > from && n <= items.len() {
        lemma_each_item(runs, items, schema, from, bound, (n - 1) as nat);
        lemma_descent_is_local(runs, items[n - 1], schema, bound);
    }
}

proof fn lemma_tuple_items(
    runs: TwoRuns,
    items: Seq<JsonValue>,
    subschemas: Seq<JsonValue>,
    bound: nat,
    n: nat,
)
    requires
        runs.deep_enough(bound),
        forall|i: int| 0 <= i < subschemas.len() ==> fits(#[trigger] subschemas[i], bound),
    ensures
        tuple_items_errors(
            runs.first,
            items,
            subschemas,
            runs.first_scope,
            runs.first_depth,
            n,
        ) == tuple_items_errors(
            runs.second,
            items,
            subschemas,
            runs.second_scope,
            runs.second_depth,
            n,
        ),
    decreases bound, 1nat, n,
{
    if n > 0 && n <= items.len() && n <= subschemas.len() {
        lemma_tuple_items(runs, items, subschemas, bound, (n - 1) as nat);
        assert(fits(subschemas[n - 1], bound));
        lemma_descent_is_local(runs, items[n - 1], subschemas[n - 1], bound);
    }
}

proof fn lemma_properties_upto(
    runs: TwoRuns,
    instance: JsonValue,
    properties: Seq<(Seq<char>, JsonValue)>,
    bound: nat,
    n: nat,
)
    requires
        runs.deep_enough(bound),
        forall|i: int| 0 <= i < properties.len() ==> fits((#[trigger] properties[i]).1, bound),
    ensures
        properties_upto(
            runs.first,
            instance,
            properties,
            runs.first_scope,
            runs.first_depth,
            n,
        ) == properties_upto(
            runs.second,
            instance,
            properties,
            runs.second_scope,
            runs.second_depth,
            n,
        ),
    decreases bound, 1nat, n,
{
    if n > 0 && n <= properties.len() {
        lemma_properties_upto(runs, instance, properties, bound, (n - 1) as nat);
        assert(fits(properties[n - 1].1, bound));
        match instance.get(properties[n - 1].0) {
            Some(value) => {
                lemma_descent_is_local(runs, value, properties[n - 1].1, bound);
            },
            None => {},
        }
    }
}

proof fn lemma_flagged_members(
    runs: TwoRuns,
    members: Seq<(Seq<char>, JsonValue)>,
    flags: Seq<bool>,
    schema: JsonValue,
    bound: nat,
    n: nat,
)
    requires
        runs.deep_enough(bound),
        fits(schema, bound),
    ensures
        flagged_members_errors(
            runs.first,
            members,
            flags,
            schema,
            runs.first_scope,
            runs.first_depth,
            n,
        ) == flagged_members_errors(
            runs.second,
            members,
            flags,
            schema,
            runs.second_scope,
            runs.second_depth,
            n,
        ),
    decreases bound, 1nat, n,
{
    if n > 0 && n <= members.len() {
        lemma_flagged_members(runs, members, flags, schema, bound, (n - 1) as nat);
        lemma_descent_is_local(runs, members[n - 1].1, schema, bound);
    }
}

proof fn lemma_pattern_properties_upto(
    runs: TwoRuns,
    members: Seq<(Seq<char>, JsonValue)>,
    patterns: Seq<(Seq<char>, JsonValue)>,
    bound: nat,
    n: nat,
)
    requires
        runs.deep_enough(bound),
        forall|i: int| 0 <= i < patterns.len() ==> fits((#[trigger] patterns[i]).1, bound),
    ensures
        pattern_properties_upto(
            runs.first,
            members,
            patterns,
            runs.first_scope,
            runs.first_depth,
            n,
        ) == pattern_properties_upto(
            runs.second,
            members,
            patterns,
            runs.second_scope,
            runs.second_depth,
            n,
        ),
    decreases bound, 2nat, n,
{
    if n > 0 && n <= patterns.len() {
        lemma_pattern_properties_upto(runs, members, patterns, bound, (n - 1) as nat);
        assert(fits(patterns[n - 1].1, bound));
        lemma_flagged_members(
            runs,
            members,
            match_flags(patterns[n - 1].0, members),
            patterns[n - 1].1,
            bound,
            members.len(),
        );
    }
}

proof fn lemma_property_names_upto(
    runs: TwoRuns,
    members: Seq<(Seq<char>, JsonValue)>,
    schema: JsonValue,
    bound: nat,
    n: nat,
)
    requires
        runs.deep_enough(bound),
        fits(schema, bound),
    ensures
        property_names_upto(
            runs.first,
            members,
            schema,
            runs.first_scope,
            runs.first_depth,
            n,
        ) == property_names_upto(
            runs.second,
            members,
            schema,
            runs.second_scope,
            runs.second_depth,
            n,
        ),
    decreases bound, 1nat, n,
{
    if n > 0 && n <= members.len() {
        lemma_property_names_upto(runs, members, schema, bound, (n - 1) as nat);
        lemma_descent_is_local(runs, JsonValue::String(members[n - 1].0), schema, bound);
    }
}

proof fn lemma_named_values(
    runs: TwoRuns,
    instance: JsonValue,
    names: Seq<Seq<char>>,
    schema: JsonValue,
    bound: nat,
    n: nat,
)
    requires
        runs.deep_enough(bound),
        fits(schema, bound),
    ensures
        named_values_errors(
            runs.first,
            instance,
            names,
            schema,
            runs.first_scope,
            runs.first_depth,
            n,
        ) == named_values_errors(
            runs.second,
            instance,
            names,
            schema,
            runs.second_scope,
            runs.second_depth,
            n,
        ),
    decreases bound, 1nat, n,
{
    if n > 0 && n <= names.len() {
        lemma_named_values(runs, instance, names, schema, bound, (n - 1) as nat);
        match instance.get(names[n - 1]) {
            Some(value) => {
                lemma_descent_is_local(runs, value, schema, bound);
            },
            None => {},
        }
    }
}

proof fn lemma_dependencies_upto(
    runs: TwoRuns,
    instance: JsonValue,
    schema: JsonValue,
    bound: nat,
    n: nat,
)
    requires
        runs.deep_enough(bound),
        forall|i: int|
            0 <= i < schema.members().len() ==> fits(object_schema((#[trigger] schema.members()[i]).1), bound),
    ensures
        dependencies_upto(
            runs.first,
            instance,
            schema,
            runs.first_scope,
            runs.first_depth,
            n,
        ) == dependencies_upto(
            runs.second,
            instance,
            schema,
            runs.second_scope,
            runs.second_depth,
            n,
        ),
    decreases bound, 1nat, n,
{
    if n > 0 && n <= schema.members().len() {
        lemma_dependencies_upto(runs, instance, schema, bound, (n - 1) as nat);
        let dependency = object_schema(schema.members()[n - 1].1);
        assert(fits(dependency, bound));
        lemma_descent_is_local(runs, instance, dependency, bound);
    }
}

proof fn lemma_all_of(
    runs: TwoRuns,
    instance: JsonValue,
    schema: JsonValue,
    bound: nat,
)
    requires
        runs.deep_enough(bound),
        fits(schema, bound),
    ensures
        all_of_errors(
            runs.first,
            instance,
            schema,
            runs.first_scope,
            runs.first_depth,
        ) == all_of_errors(
            runs.second,
            instance,
            schema,
            runs.second_scope,
            runs.second_depth,
        ),
    decreases bound, 3nat, 0nat,
{
    lemma_elements_fit(schema, bound);
    match schema {
        JsonValue::Array(subschemas) => {
            lemma_all_of_upto(runs, instance, subschemas, bound, subschemas.len());
        },
        _ => {},
    }
}

proof fn lemma_any_of(
    runs: TwoRuns,
    instance: JsonValue,
    schema: JsonValue,
    bound: nat,
)
    requires
        runs.deep_enough(bound),
        fits(schema, bound),
    ensures
        any_of_errors(
            runs.first,
            instance,
            schema,
            runs.first_scope,
            runs.first_depth,
        ) == any_of_errors(
            runs.second,
            instance,
            schema,
            runs.second_scope,
            runs.second_depth,
        ),
    decreases bound, 3nat, 0nat,
{
    lemma_elements_fit(schema, bound);
    match schema {
        JsonValue::Array(subschemas) => {
            lemma_count_valid(runs, instance, subschemas, bound, subschemas.len());
        },
        _ => {},
    }
}

proof fn lemma_one_of(
    runs: TwoRuns,
    instance: JsonValue,
    schema: JsonValue,
    bound: nat,
)
    requires
        runs.deep_enough(bound),
        fits(schema, bound),
    ensures
        one_of_errors(
            runs.first,
            instance,
            schema,
            runs.first_scope,
            runs.first_depth,
        ) == one_of_errors(
            runs.second,
            instance,
            schema,
            runs.second_scope,
            runs.second_depth,
        ),
    decreases bound, 3nat, 0nat,
{
    lemma_elements_fit(schema, bound);
    match schema {
        JsonValue::Array(subschemas) => {
            lemma_count_valid(runs, instance, subschemas, bound, subschemas.len());
        },
        _ => {},
    }
}

proof fn lemma_not(
    runs: TwoRuns,
    instance: JsonValue,
    schema: JsonValue,
    bound: nat,
)
    requires
        runs.deep_enough(bound),
        fits(schema, bound),
    ensures
        not_errors(
            runs.first,
            instance,
            schema,
            runs.first_scope,
            runs.first_depth,
        ) == not_errors(
            runs.second,
            instance,
            schema,
            runs.second_scope,
            runs.second_depth,
        ),
    decreases bound, 3nat, 0nat,
{
    lemma_validity_is_local(runs, instance, schema, bound);
}

proof fn lemma_contains(
    runs: TwoRuns,
    instance: JsonValue,
    schema: JsonValue,
    bound: nat,
)
    requires
        runs.deep_enough(bound),
        fits(schema, bound),
    ensures
        contains_errors(
            runs.first,
            instance,
            schema,
            runs.first_scope,
            runs.first_depth,
        ) == contains_errors(
            runs.second,
            instance,
            schema,
            runs.second_scope,
            runs.second_depth,
        ),
    decreases bound, 3nat, 0nat,
{
    match instance {
        JsonValue::Array(items) => {
            lemma_count_valid_items(runs, items, schema, bound, items.len());
        },
        _ => {},
    }
}

proof fn lemma_items(
    runs: TwoRuns,
    instance: JsonValue,
    schema: JsonValue,
    bound: nat,
)
    requires
        runs.deep_enough(bound),
        fits(schema, bound),
    ensures
        items_errors(
            runs.first,
            instance,
            schema,
            runs.first_scope,
            runs.first_depth,
        ) == items_errors(
            runs.second,
            instance,
            schema,
            runs.second_scope,
            runs.second_depth,
        ),
    decreases bound, 3nat, 0nat,
{
    lemma_object_form_fits(schema, bound);
    let form = normalized(runs.first.draft, schema);
    lemma_elements_fit(form, bound);
    match instance {
        JsonValue::Array(items) => match form {
            JsonValue::Object(members) => {
                lemma_each_item(runs, items, form, 0, bound, items.len());
            },
            JsonValue::Array(subschemas) => {
                lemma_tuple_items(runs, items, subschemas, bound, smaller(items.len(), subschemas.len()));
            },
            _ => {},
        },
        _ => {},
    }
}

proof fn lemma_additional_items(
    runs: TwoRuns,
    instance: JsonValue,
    schema: JsonValue,
    parent: Option<JsonValue>,
    bound: nat,
)
    requires
        runs.deep_enough(bound),
        fits(schema, bound),
    ensures
        additional_items_errors(
            runs.first,
            instance,
            schema,
            parent,
            runs.first_scope,
            runs.first_depth,
        ) == additional_items_errors(
            runs.second,
            instance,
            schema,
            parent,
            runs.second_scope,
            runs.second_depth,
        ),
    decreases bound, 3nat, 0nat,
{
    match (instance, sibling(parent, "items"@)) {
        (JsonValue::Array(items), Some(JsonValue::Array(subschemas))) => {
            lemma_each_item(runs, items, schema, smaller(subschemas.len(), items.len()), bound, items.len());
        },
        _ => {},
    }
}

proof fn lemma_properties(
    runs: TwoRuns,
    instance: JsonValue,
    schema: JsonValue,
    bound: nat,
)
    requires
        runs.deep_enough(bound),
        fits(schema, bound),
    ensures
        properties_errors(
            runs.first,
            instance,
            schema,
            runs.first_scope,
            runs.first_depth,
        ) == properties_errors(
            runs.second,
            instance,
            schema,
            runs.second_scope,
            runs.second_depth,
        ),
    decreases bound, 3nat, 0nat,
{
    lemma_elements_fit(schema, bound);
    match schema {
        JsonValue::Object(properties) => {
            lemma_properties_upto(runs, instance, properties, bound, properties.len());
        },
        _ => {},
    }
}

proof fn lemma_pattern_properties(
    runs: TwoRuns,
    instance: JsonValue,
    schema: JsonValue,
    bound: nat,
)
    requires
        runs.deep_enough(bound),
        fits(schema, bound),
    ensures
        pattern_properties_errors(
            runs.first,
            instance,
            schema,
            runs.first_scope,
            runs.first_depth,
        ) == pattern_properties_errors(
            runs.second,
            instance,
            schema,
            runs.second_scope,
            runs.second_depth,
        ),
    decreases bound, 3nat, 0nat,
{
    lemma_elements_fit(schema, bound);
    match (instance, schema) {
        (JsonValue::Object(members), JsonValue::Object(patterns)) => {
            lemma_pattern_properties_upto(runs, members, patterns, bound, patterns.len());
        },
        _ => {},
    }
}

proof fn lemma_property_names(
    runs: TwoRuns,
    instance: JsonValue,
    schema: JsonValue,
    bound: nat,
)
    requires
        runs.deep_enough(bound),
        fits(schema, bound),
    ensures
        property_names_errors(
            runs.first,
            instance,
            schema,
            runs.first_scope,
            runs.first_depth,
        ) == property_names_errors(
            runs.second,
            instance,
            schema,
            runs.second_scope,
            runs.second_depth,
        ),
    decreases bound, 3nat, 0nat,
{
    match instance {
        JsonValue::Object(members) => {
            lemma_property_names_upto(runs, members, schema, bound, members.len());
        },
        _ => {},
    }
}

proof fn lemma_additional_properties(
    runs: TwoRuns,
    instance: JsonValue,
    schema: JsonValue,
    parent: Option<JsonValue>,
    bound: nat,
)
    requires
        runs.deep_enough(bound),
        fits(schema, bound),
    ensures
        additional_properties_errors(
            runs.first,
            instance,
            schema,
            parent,
            runs.first_scope,
            runs.first_depth,
        ) == additional_properties_errors(
            runs.second,
            instance,
            schema,
            parent,
            runs.second_scope,
            runs.second_depth,
        ),
    decreases bound, 3nat, 0nat,
{
    match (instance, parent) {
        (JsonValue::Object(members), Some(JsonValue::Object(siblings))) => {
            let extras = additional_names(members, JsonValue::Object(siblings), members.len());
            lemma_named_values(runs, instance, extras, schema, bound, extras.len());
        },
        _ => {},
    }
}

proof fn lemma_dependencies(
    runs: TwoRuns,
    instance: JsonValue,
    schema: JsonValue,
    bound: nat,
)
    requires
        runs.deep_enough(bound),
        fits(schema, bound),
    ensures
        dependencies_errors(
            runs.first,
            instance,
            schema,
            runs.first_scope,
            runs.first_depth,
        ) == dependencies_errors(
            runs.second,
            instance,
            schema,
            runs.second_scope,
            runs.second_depth,
        ),
    decreases bound, 3nat, 0nat,
{
    lemma_elements_fit(schema, bound);
    match (instance, schema) {
        (JsonValue::Object(_), JsonValue::Object(dependencies)) => {
            lemma_dependencies_upto(runs, instance, schema, bound, dependencies.len());
        },
        _ => {},
    }
}

proof fn lemma_branch(
    runs: TwoRuns,
    instance: JsonValue,
    parent: Option<JsonValue>,
    name: Seq<char>,
    bound: nat,
)
    requires
        runs.deep_enough(bound),
        members_fit(parent, bound),
    ensures
        branch_errors(runs.first, instance, parent, name, runs.first_scope, runs.first_depth) == branch_errors(
            runs.second,
            instance,
            parent,
            name,
            runs.second_scope,
            runs.second_depth,
        ),
    decreases bound, 1nat, 0nat,
{
    match sibling(parent, name) {
        Some(JsonValue::Object(members)) => {
            let i = lemma_lookup_found(parent->0.members(), name, 0);
            assert(fits(parent->0.members()[i].1, bound));
            lemma_descent_is_local(runs, instance, JsonValue::Object(members), bound);
        },
        _ => {},
    }
}

proof fn lemma_if(runs: TwoRuns, instance: JsonValue, schema: JsonValue, parent: Option<JsonValue>, bound: nat)
    requires
        runs.deep_enough(bound),
        fits(schema, bound),
        members_fit(parent, bound),
    ensures
        if_errors(runs.first, instance, schema, parent, runs.first_scope, runs.first_depth) == if_errors(
            runs.second,
            instance,
            schema,
            parent,
            runs.second_scope,
            runs.second_depth,
        ),
    decreases bound, 3nat, 0nat,
{
    lemma_validity_is_local(runs, instance, schema, bound);
    lemma_branch(runs, instance, parent, "then"@, bound);
    lemma_branch(runs, instance, parent, "else"@, bound);
}

/// Two configurations of one draft for the same schema find the same errors in every
/// instance, where the schema has no reference and validation goes deep enough for it:
/// nothing but the draft, the schema and the instance counts.
pub proof fn lemma_validation_is_local(first: ConfigModel, second: ConfigModel, instance: JsonValue)
    requires
        first.draft == second.draft,
        first.schema == second.schema,
        fits(first.schema, MAX_DEPTH as nat),
    ensures
        validation_errors(first, instance) == validation_errors(second, instance),
{
    let runs = TwoRuns {
        first,
        second,
        first_scope: seq![first.schema],
        second_scope: seq![second.schema],
        first_depth: MAX_DEPTH as nat,
        second_depth: MAX_DEPTH as nat,
    };
    lemma_descent_is_local(runs, instance, first.schema, MAX_DEPTH as nat);
}

/// Validation under a schema succeeds exactly when validation under its negation fails,
/// each under a configuration of its own of the same draft, where the schema has no
/// reference and nests less deep than validation goes.
pub proof fn lemma_schema_and_negation_disagree(plain: ConfigModel, negated: ConfigModel, instance: JsonValue)
    requires
        plain.draft == negated.draft,
        negated.schema == negation(plain.schema),
        fits(plain.schema, (MAX_DEPTH - 1) as nat),
    ensures
        validation_errors(plain, instance).len() == 0 <==> validation_errors(negated, instance).len() != 0,
{
    let depth = (MAX_DEPTH - 1) as nat;
    let runs = TwoRuns {
        first: plain,
        second: negated,
        first_scope: seq![plain.schema],
        second_scope: seq![negated.schema],
        first_depth: MAX_DEPTH as nat,
        second_depth: depth,
    };
    lemma_descent_is_local(runs, instance, plain.schema, depth);
    lemma_not_inverts(negated, instance, plain.schema, seq![negated.schema], depth);
}

} // verus!
