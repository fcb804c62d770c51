//! A simple crate to perform JSON Schema validation.
//!
//! Supports JSON Schema drafts 4, 6, and 7. A schema and an instance are given as
//! in-memory JSON trees; the answer is `Ok`, or every validation error with the paths of
//! the instance and schema fragments that it is about.
//!
//! The pieces, leaves first: `number` and `json` hold the documents, `error` the errors,
//! `context` the scope chain, `schemas` and `metaschema` the drafts, `resolver` what a
//! reference names, `validators` the engine, `config` the entry points. `semantics` says
//! what validation means; every function of the engine is proved against it. `laws` and
//! `locality` hold what follows for all schemas and instances. `foreign` holds the calls
//! into other crates, whose contracts are taken on trust.

use vstd::prelude::*;

pub mod address;
pub mod config;
pub mod context;
pub mod error;
pub mod foreign;
pub mod format;
pub mod json;
pub mod laws;
pub mod locality;
pub mod metaschema;
pub mod number;
pub mod pointer;
pub mod pretty;
pub mod resolver;
pub mod schemas;
pub mod semantics;
pub mod text;
pub mod unique;
pub mod util;
pub mod validators;

pub use crate::config::Config;
pub use crate::error::{ErrorIterator, ValidationError};

use crate::config::{is_verdict, validation_errors};
use crate::json::Json;

verus! {

/// Validates a given JSON instance against the schema of a configuration, returning the
/// errors, if any.
///
/// If `Ok(())`, the `instance` is valid against the schema. If `Err(e)`, `e` holds all of
/// the validation errors.
pub fn validate(cfg: &Config, instance: &Json) -> (r: Result<(), Vec<ValidationError>>)
    ensures
        is_verdict(r, validation_errors(cfg@, instance@)),
{
    cfg.validate(instance)
}

} // verus!
