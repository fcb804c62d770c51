//! The configuration of a validation run: the schema, its draft and its resolver.

use vstd::prelude::*;
use crate::context::Context;
use crate::error::{error_views, ErrorModel, ValidationError};
use crate::json::{Json, JsonValue};
use crate::metaschema::metaschema_model;
use crate::resolver::{resolver_of, Resolver, ResolverModel};
use crate::schemas::{
    draft_from_schema, draft_of_schema, format_for, validator_for, Draft, FormatChecker, Validator,
};
use crate::semantics::descend_errors;
use crate::validators::{descend, MAX_DEPTH};

verus! {

/// A structure to hold configuration for a validation run.
pub struct Config<'a> {
    schema: &'a Json,
    resolver: Resolver<'a>,
    pub(crate) draft: Draft,
}

/// The mathematical model of a configuration.
pub struct ConfigModel {
    pub schema: JsonValue,
    pub resolver: ResolverModel,
    pub draft: Draft,
}

/// The draft that a validation uses: the one asked for, else the one that the schema
/// names in `$schema`, else draft 7.
pub open spec fn chosen_draft(schema: JsonValue, draft: Option<Draft>) -> Draft {
    match draft {
        Some(d) => d,
        None => match draft_of_schema(schema) {
            Some(d) => d,
            None => Draft::Draft7,
        },
    }
}

/// The configuration of a schema, or the error of an identifier that is no URL.
pub open spec fn config_of(schema: JsonValue, draft: Option<Draft>) -> Result<ConfigModel, ErrorModel> {
    match resolver_of(chosen_draft(schema, draft), schema) {
        Ok(resolver) => Ok(ConfigModel { schema, resolver, draft: chosen_draft(schema, draft) }),
        Err(e) => Err(e),
    }
}

/// The errors of an instance under the schema of a configuration. References are
/// resolved under the schema itself as the root of the scope chain.
pub open spec fn validation_errors(cfg: ConfigModel, instance: JsonValue) -> Seq<ErrorModel> {
    descend_errors(cfg, instance, cfg.schema, seq![cfg.schema], MAX_DEPTH as nat)
}

/// The errors of the schema of a configuration under the meta-schema of its draft.
pub open spec fn schema_errors(cfg: ConfigModel) -> Seq<ErrorModel> {
    descend_errors(
        cfg,
        cfg.schema,
        metaschema_model(cfg.draft),
        seq![metaschema_model(cfg.draft)],
        MAX_DEPTH as nat,
    )
}

/// Whether a result is the verdict on a sequence of errors: `Ok` where there is none,
/// else all of them in their order.
pub open spec fn is_verdict(r: Result<(), Vec<ValidationError>>, errors: Seq<ErrorModel>) -> bool {
    match r {
        Ok(_) => errors.len() == 0,
        Err(found) => errors.len() > 0 && error_views(found@) == errors,
    }
}

/// Two verdicts on the same errors agree: both accept, or both reject with the same
/// errors. So validation gives the same answer however often it is run.
pub proof fn lemma_verdicts_agree(
    first: Result<(), Vec<ValidationError>>,
    second: Result<(), Vec<ValidationError>>,
    errors: Seq<ErrorModel>,
)
    requires
        is_verdict(first, errors),
        is_verdict(second, errors),
    ensures
        first is Ok == second is Ok,
        first is Err ==> error_views(first->Err_0@) == error_views(second->Err_0@),
{
}

fn verdict(errors: Vec<ValidationError>) -> (r: Result<(), Vec<ValidationError>>)
    ensures
        is_verdict(r, error_views(errors@)),
{
    assert(error_views(errors@).len() == errors.len());
    if errors.len() == 0 {
        Ok(())
    } else {
        Err(errors)
    }
}

impl<'a> View for Config<'a> {
    type V = ConfigModel;

    closed spec fn view(&self) -> ConfigModel {
        ConfigModel { schema: self.schema@, resolver: self.resolver@, draft: self.draft }
    }
}

impl<'a> Config<'a> {
    /// Get the validator object for the draft in use.
    pub fn get_validator(&self, key: &str) -> (r: Option<Validator>)
        ensures
            r == validator_for(self@.draft, key@),
    {
        self.draft.get_validator(key)
    }

    /// Get the string format checker for the draft in use.
    pub fn get_format_checker(&self, key: &str) -> (r: Option<FormatChecker>)
        ensures
            r == format_for(self@.draft, key@),
    {
        self.draft.get_format_checker(key)
    }

    /// Get the draft number in use.
    pub fn get_draft_number(&self) -> (r: u8)
        ensures
            r == self@.draft.number(),
    {
        self.draft.get_draft_number()
    }

    /// The draft in use.
    pub fn get_draft(&self) -> (r: Draft)
        ensures
            r == self@.draft,
    {
        self.draft
    }

    /// Get the metaschema associated with the draft in use.
    pub fn get_metaschema(&self) -> (r: &Json)
        ensures
            r@ == metaschema_model(self@.draft),
    {
        self.resolver.metaschema(self.draft)
    }

    /// Get the resolver for the parsing context.
    pub fn get_resolver(&self) -> (r: &Resolver<'a>)
        ensures
            r@ == self@.resolver,
    {
        &self.resolver
    }

    /// Get the schema currently being checked against.
    pub fn get_schema(&self) -> (r: &Json)
        ensures
            r@ == self@.schema,
    {
        self.schema
    }

    /// Create a new Config object from a given schema.
    ///
    /// Will use the Draft of JSON schema specified by `draft`. If `draft` is `None`, it
    /// will be automatically determined from the `$schema` entry in the given `schema`.
    /// If no `$schema` entry is present Draft 7 will be used by default. Fails where an
    /// identifier in the schema is no URL.
    pub fn from_schema(schema: &'a Json, draft: Option<Draft>) -> (r: Result<Config<'a>, ValidationError>)
        ensures
            match r {
                Ok(cfg) => config_of(schema@, draft) == Ok::<ConfigModel, ErrorModel>(cfg@),
                Err(e) => config_of(schema@, draft) == Err::<ConfigModel, ErrorModel>(e@),
            },
    {
        let draft = match draft {
            Some(d) => d,
            None => match draft_from_schema(schema) {
                Some(d) => d,
                None => Draft::Draft7,
            },
        };
        match Resolver::from_schema(draft, schema) {
            Ok(resolver) => Ok(Config { schema, resolver, draft }),
            Err(e) => Err(e),
        }
    }

    /// Validate the given JSON instance against the schema: `Ok` where it is valid, else
    /// every error in the order in which the schema is walked.
    pub fn validate(&self, instance: &Json) -> (r: Result<(), Vec<ValidationError>>)
        ensures
            is_verdict(r, validation_errors(self@, instance@)),
    {
        let root = Context::new_from(self.schema);
        verdict(descend(self, instance, self.schema, None, &root, MAX_DEPTH))
    }

    /// Whether the given JSON instance is valid against the schema: the answer for a
    /// caller who wants no errors.
    pub fn is_valid(&self, instance: &Json) -> (r: bool)
        ensures
            r == (validation_errors(self@, instance@).len() == 0),
    {
        self.validate(instance).is_ok()
    }

    /// Validate the schema in this Config object against the metaschema.
    pub fn validate_schema(&self) -> (r: Result<(), Vec<ValidationError>>)
        ensures
            is_verdict(r, schema_errors(self@)),
    {
        let metaschema = self.get_metaschema();
        let root = Context::new_from(metaschema);
        verdict(descend(self, self.schema, metaschema, None, &root, MAX_DEPTH))
    }
}

} // verus!
