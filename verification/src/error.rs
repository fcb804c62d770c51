//! Validation errors: what went wrong, on which part of the instance, under which part of
//! the schema, and where both lie.

use vstd::prelude::*;
use vstd::string::*;
use crate::foreign::{fill, filled, indent, indented};
use crate::json::{Json, JsonValue};
use crate::pretty::{pretty_model, to_string_pretty};
use crate::text::string_views;

verus! {

/// An error that can occur during validation.
#[derive(Debug)]
pub struct ValidationError {
    /// The error message.
    pub msg: String,
    /// The JSON instance fragment that had the issue.
    pub instance: Option<Json>,
    /// The JSON schema fragment that had the issue.
    pub schema: Option<Json>,
    /// The path to the instance fragment within the whole instance, innermost step first.
    pub instance_path: Vec<String>,
    /// The path to the schema fragment within the whole schema, innermost step first.
    pub schema_path: Vec<String>,
}

/// The mathematical model of a validation error.
pub struct ErrorModel {
    pub msg: Seq<char>,
    pub instance: Option<JsonValue>,
    pub schema: Option<JsonValue>,
    pub instance_path: Seq<Seq<char>>,
    pub schema_path: Seq<Seq<char>>,
}

/// The model of an optional document.
pub open spec fn option_view(j: Option<Json>) -> Option<JsonValue> {
    match j {
        Some(v) => Some(v@),
        None => None,
    }
}

impl View for ValidationError {
    type V = ErrorModel;

    open spec fn view(&self) -> ErrorModel {
        ErrorModel {
            msg: self.msg@,
            instance: option_view(self.instance),
            schema: option_view(self.schema),
            instance_path: string_views(self.instance_path@),
            schema_path: string_views(self.schema_path@),
        }
    }
}

impl ErrorModel {
    /// An error with empty paths.
    pub open spec fn new(msg: Seq<char>, instance: Option<JsonValue>, schema: Option<JsonValue>) -> ErrorModel {
        ErrorModel { msg, instance, schema, instance_path: Seq::empty(), schema_path: Seq::empty() }
    }

    /// The error with one more step on its instance path.
    pub open spec fn instance_ctx(self, step: Seq<char>) -> ErrorModel {
        ErrorModel { instance_path: self.instance_path.push(step), ..self }
    }

    /// The error with one more step on its schema path.
    pub open spec fn schema_ctx(self, step: Seq<char>) -> ErrorModel {
        ErrorModel { schema_path: self.schema_path.push(step), ..self }
    }

    /// The error with one more step on both paths.
    pub open spec fn add_ctx(self, instance_step: Seq<char>, schema_step: Seq<char>) -> ErrorModel {
        self.instance_ctx(instance_step).schema_ctx(schema_step)
    }
}

/// The models of a sequence of errors.
pub open spec fn error_views(errors: Seq<ValidationError>) -> Seq<ErrorModel> {
    errors.map_values(|e: ValidationError| e@)
}

/// Every error with one more step on its instance path.
pub open spec fn with_instance_ctx(errors: Seq<ErrorModel>, step: Seq<char>) -> Seq<ErrorModel> {
    errors.map_values(|e: ErrorModel| e.instance_ctx(step))
}

/// Every error with one more step on its schema path.
pub open spec fn with_schema_ctx(errors: Seq<ErrorModel>, step: Seq<char>) -> Seq<ErrorModel> {
    errors.map_values(|e: ErrorModel| e.schema_ctx(step))
}

/// Every error with one more step on both paths.
pub open spec fn with_ctx(errors: Seq<ErrorModel>, instance_step: Seq<char>, schema_step: Seq<char>) -> Seq<
    ErrorModel,
> {
    errors.map_values(|e: ErrorModel| e.add_ctx(instance_step, schema_step))
}

/// The single error that `make_error` hands out.
pub open spec fn one_error(msg: Seq<char>, instance: Option<JsonValue>, schema: Option<JsonValue>) -> Seq<
    ErrorModel,
> {
    seq![ErrorModel::new(msg, instance, schema)]
}

fn clone_option(j: Option<&Json>) -> (r: Option<Json>)
    ensures
        option_view(r) == match j {
            Some(v) => Some(v@),
            None => None,
        },
{
    match j {
        Some(v) => Some(v.clone()),
        None => None,
    }
}

impl Default for ValidationError {
    /// An error without message, fragments or paths.
    fn default() -> (r: ValidationError)
        ensures
            r@ == ErrorModel::new(Seq::empty(), None, None),
    {
        let r = ValidationError {
            msg: String::new(),
            instance: None,
            schema: None,
            instance_path: Vec::new(),
            schema_path: Vec::new(),
        };
        assert(r@.instance_path =~= Seq::empty());
        assert(r@.schema_path =~= Seq::empty());
        r
    }
}

impl Clone for ValidationError {
    /// A copy of the error, fragments included.
    fn clone(&self) -> (r: ValidationError)
        ensures
            r@ == self@,
    {
        let r = ValidationError {
            msg: self.msg.clone(),
            instance: clone_option(self.instance.as_ref()),
            schema: clone_option(self.schema.as_ref()),
            instance_path: clone_strings(&self.instance_path),
            schema_path: clone_strings(&self.schema_path),
        };
        r
    }
}

fn clone_strings(v: &Vec<String>) -> (r: Vec<String>)
    ensures
        string_views(r@) == string_views(v@),
{
    let mut out: Vec<String> = Vec::new();
    let mut i: usize = 0;
    while i < v.len()
        invariant
            i <= v.len(),
            out@.len() == i,
            forall|k: int| 0 <= k < i ==> out@[k]@ == v@[k]@,
        decreases v.len() - i,
    {
        out.push(v[i].clone());
        i += 1;
    }
    assert(string_views(out@) =~= string_views(v@));
    out
}

impl ValidationError {
    /// Create a new validation error with the given error message. The fragments are
    /// copied, so the error outlives the documents.
    pub fn new(msg: &str, instance: Option<&Json>, schema: Option<&Json>) -> (r: ValidationError)
        ensures
            r@ == ErrorModel::new(
                msg@,
                match instance {
                    Some(v) => Some(v@),
                    None => None,
                },
                match schema {
                    Some(v) => Some(v@),
                    None => None,
                },
            ),
    {
        let r = ValidationError {
            msg: msg.to_string(),
            instance: clone_option(instance),
            schema: clone_option(schema),
            instance_path: Vec::new(),
            schema_path: Vec::new(),
        };
        assert(r@.instance_path =~= Seq::empty());
        assert(r@.schema_path =~= Seq::empty());
        r
    }

    /// Update the instance and schema context for the error.
    pub fn add_ctx(self, instance_context: String, schema_context: String) -> (r: ValidationError)
        ensures
            r@ == self@.add_ctx(instance_context@, schema_context@),
    {
        let mut r = self;
        r.instance_path.push(instance_context);
        r.schema_path.push(schema_context);
        assert(r@.instance_path =~= self@.instance_path.push(instance_context@));
        assert(r@.schema_path =~= self@.schema_path.push(schema_context@));
        r
    }

    /// Update the instance context for the error.
    pub fn instance_ctx(self, instance_context: String) -> (r: ValidationError)
        ensures
            r@ == self@.instance_ctx(instance_context@),
    {
        let mut r = self;
        r.instance_path.push(instance_context);
        assert(r@.instance_path =~= self@.instance_path.push(instance_context@));
        r
    }

    /// Update the schema context for the error.
    pub fn schema_ctx(self, schema_context: String) -> (r: ValidationError)
        ensures
            r@ == self@.schema_ctx(schema_context@),
    {
        let mut r = self;
        r.schema_path.push(schema_context);
        assert(r@.schema_path =~= self@.schema_path.push(schema_context@));
        r
    }
}

/// The errors of a validation, in the order in which the schema is walked.
pub type ErrorIterator = Vec<ValidationError>;

/// One error with the given message and fragments.
pub fn make_error(message: &str, instance: Option<&Json>, schema: Option<&Json>) -> (r: Vec<ValidationError>)
    ensures
        error_views(r@) == one_error(
            message@,
            match instance {
                Some(v) => Some(v@),
                None => None,
            },
            match schema {
                Some(v) => Some(v@),
                None => None,
            },
        ),
{
    let mut r: Vec<ValidationError> = Vec::new();
    let e = ValidationError::new(message, instance, schema);
    r.push(e);
    assert(error_views(r@) =~= seq![e@]);
    r
}

/// No error.
pub fn no_error() -> (r: Vec<ValidationError>)
    ensures
        error_views(r@) == Seq::<ErrorModel>::empty(),
        r@.len() == 0,
{
    let r: Vec<ValidationError> = Vec::new();
    assert(error_views(r@) =~= Seq::<ErrorModel>::empty());
    r
}

/// Moves the errors of `more` to the end of `errors`.
pub fn append_errors(errors: &mut Vec<ValidationError>, more: Vec<ValidationError>)
    ensures
        error_views(final(errors)@) == error_views(old(errors)@) + error_views(more@),
{
    let mut more = more;
    let ghost before = errors@;
    let ghost added = more@;
    errors.append(&mut more);
    assert(error_views(errors@) =~= error_views(before) + error_views(added));
}

/// Puts one more step on the instance path of every error.
pub fn add_instance_ctx(errors: &mut Vec<ValidationError>, step: &str)
    ensures
        error_views(final(errors)@) == with_instance_ctx(error_views(old(errors)@), step@),
{
    let mut i: usize = 0;
    while i < errors.len()
        invariant
            i <= errors.len(),
            errors.len() == old(errors).len(),
            forall|k: int| i <= k < errors.len() ==> errors[k] == old(errors)[k],
            forall|k: int| 0 <= k < i ==> (#[trigger] errors[k])@ == old(errors)[k]@.instance_ctx(step@),
        decreases errors.len() - i,
    {
        let ghost before = errors[i as int];
        errors[i].instance_path.push(step.to_string());
        assert(errors[i as int]@.instance_path =~= before@.instance_path.push(step@));
        i += 1;
    }
    assert(error_views(errors@) =~= with_instance_ctx(error_views(old(errors)@), step@));
}

/// Puts one more step on the schema path of every error.
pub fn add_schema_ctx(errors: &mut Vec<ValidationError>, step: &str)
    ensures
        error_views(final(errors)@) == with_schema_ctx(error_views(old(errors)@), step@),
{
    let mut i: usize = 0;
    while i < errors.len()
        invariant
            i <= errors.len(),
            errors.len() == old(errors).len(),
            forall|k: int| i <= k < errors.len() ==> errors[k] == old(errors)[k],
            forall|k: int| 0 <= k < i ==> (#[trigger] errors[k])@ == old(errors)[k]@.schema_ctx(step@),
        decreases errors.len() - i,
    {
        let ghost before = errors[i as int];
        errors[i].schema_path.push(step.to_string());
        assert(errors[i as int]@.schema_path =~= before@.schema_path.push(step@));
        i += 1;
    }
    assert(error_views(errors@) =~= with_schema_ctx(error_views(old(errors)@), step@));
}

/// Puts one more step on both paths of every error.
pub fn add_ctx(errors: &mut Vec<ValidationError>, instance_step: &str, schema_step: &str)
    ensures
        error_views(final(errors)@) == with_ctx(error_views(old(errors)@), instance_step@, schema_step@),
{
    add_instance_ctx(errors, instance_step);
    add_schema_ctx(errors, schema_step);
    assert(error_views(errors@) =~= with_ctx(error_views(old(errors)@), instance_step@, schema_step@));
}

/// The path as text: the steps from the outermost to the innermost, each after a slash;
/// a single slash for the empty path.
pub open spec fn path_text(path: Seq<Seq<char>>) -> Seq<char>
    decreases path.len(),
{
    if path.len() == 0 {
        "/"@
    } else if path.len() == 1 {
        "/"@ + path[0]
    } else {
        "/"@ + path.last() + path_text(path.drop_last())
    }
}

/// Renders a path, held innermost step first, as `/a/b/c`, and the empty path as `/`.
pub fn path_to_string(path: &Vec<String>) -> (r: String)
    ensures
        r@ == path_text(string_views(path@)),
{
    if path.len() == 0 {
        return "/".to_string();
    }
    let mut out = String::new();
    let mut i: usize = 0;
    while i < path.len()
        invariant
            i <= path.len(),
            path.len() > 0,
            i > 0 ==> out@ == path_text(string_views(path@).take(i as int)),
            i == 0 ==> out@ == Seq::<char>::empty(),
        decreases path.len() - i,
    {
        let ghost prefix = string_views(path@).take(i as int);
        let ghost next = string_views(path@).take(i as int + 1);
        let mut step = "/".to_string();
        step.append(path[i].as_str());
        step.append(out.as_str());
        proof {
            assert(next.drop_last() =~= prefix);
            assert(next.last() == path@[i as int]@);
            if i == 0 {
                assert(step@ =~= "/"@ + next[0]);
            } else {
                assert(step@ =~= "/"@ + next.last() + path_text(prefix));
            }
        }
        out = step;
        i += 1;
    }
    assert(string_views(path@).take(path.len() as int) =~= string_views(path@));
    out
}

/// The part of a rendering that shows a fragment: the heading with the path, then the
/// indented text of the fragment.
pub open spec fn fragment_text(heading: Seq<char>, shown: Option<(Seq<Seq<char>>, Seq<char>)>) -> Seq<char> {
    match shown {
        Some((path, text)) => heading + path_text(path) + ":\n"@ + text + "\n"@,
        None => Seq::empty(),
    }
}

/// The part of a rendering that shows the description of a schema fragment.
pub open spec fn documentation_text(description: Option<Seq<char>>) -> Seq<char> {
    match description {
        Some(text) => "Documentation for this node:\n"@ + text + "\n"@,
        None => Seq::empty(),
    }
}

/// A rendering put together from its parts: the wrapped message; the instance fragment
/// under its path; the schema fragment under its path; the description of the schema.
/// The fragments and the description come as indented text.
pub open spec fn composed(
    message: Seq<char>,
    instance: Option<(Seq<Seq<char>>, Seq<char>)>,
    schema: Option<(Seq<Seq<char>>, Seq<char>)>,
    description: Option<Seq<char>>,
) -> Seq<char> {
    message + "\n"@ + fragment_text("At instance path "@, instance) + fragment_text(
        "At schema path "@,
        schema,
    ) + documentation_text(description)
}

/// A fragment as it is shown: its path and its indented JSON text.
pub open spec fn shown_fragment(path: Seq<Seq<char>>, fragment: Option<JsonValue>) -> Option<
    (Seq<Seq<char>>, Seq<char>),
> {
    match fragment {
        Some(value) => Some((path, indented(pretty_model(value, 0), "  "@))),
        None => None,
    }
}

/// The description of a schema fragment as it is shown: indented, where the fragment
/// has a `description` that is a string.
pub open spec fn shown_description(schema: Option<JsonValue>) -> Option<Seq<char>> {
    match schema {
        Some(value) => match value.get("description"@) {
            Some(JsonValue::String(description)) => Some(indented(description, "  "@)),
            _ => None,
        },
        None => None,
    }
}

/// How an error is written out: the message wrapped to 78 columns; the instance fragment
/// under its path; the schema fragment under its path; the schema's description.
pub open spec fn rendered(error: ErrorModel) -> Seq<char> {
    composed(
        filled(error.msg, 78),
        shown_fragment(error.instance_path, error.instance),
        shown_fragment(error.schema_path, error.schema),
        shown_description(error.schema),
    )
}

fn write_fragment(out: &mut String, heading: &str, shown: Option<(&Vec<String>, &str)>)
    ensures
        final(out)@ == old(out)@ + fragment_text(
            heading@,
            match shown {
                Some((path, text)) => Some((string_views(path@), text@)),
                None => None,
            },
        ),
{
    match shown {
        Some((path, text)) => {
            out.append(heading);
            let location = path_to_string(path);
            out.append(location.as_str());
            out.append(":\n");
            out.append(text);
            out.append("\n");
            assert(out@ =~= old(out)@ + fragment_text(heading@, Some((string_views(path@), text@))));
        },
        None => {
            assert(out@ =~= old(out)@ + Seq::empty());
        },
    }
}

/// Puts a rendering together from its parts: the wrapped message; the instance fragment
/// under its path; the schema fragment under its path; the description of the schema.
/// The fragments and the description come as indented text.
pub fn compose(
    message: &str,
    instance: Option<(&Vec<String>, &str)>,
    schema: Option<(&Vec<String>, &str)>,
    description: Option<&str>,
) -> (r: String)
    ensures
        r@ == composed(
            message@,
            match instance {
                Some((path, text)) => Some((string_views(path@), text@)),
                None => None,
            },
            match schema {
                Some((path, text)) => Some((string_views(path@), text@)),
                None => None,
            },
            match description {
                Some(text) => Some(text@),
                None => None,
            },
        ),
{
    let mut out = message.to_string();
    out.append("\n");
    write_fragment(&mut out, "At instance path ", instance);
    write_fragment(&mut out, "At schema path ", schema);
    let ghost before = out@;
    match description {
        Some(text) => {
            out.append("Documentation for this node:\n");
            out.append(text);
            out.append("\n");
            assert(out@ =~= before + documentation_text(Some(text@)));
        },
        None => {
            assert(out@ =~= before + Seq::empty());
        },
    }
    out
}

fn indented_fragment(fragment: &Option<Json>) -> (r: Option<String>)
    ensures
        match r {
            Some(text) => fragment is Some && text@ == indented(pretty_model(fragment->0@, 0), "  "@),
            None => fragment is None,
        },
{
    match fragment {
        Some(value) => {
            let content = to_string_pretty(value);
            Some(indent(content.as_str(), "  "))
        },
        None => None,
    }
}

impl ValidationError {
    /// Writes the error out for a reader: the message, then the fragments that it is
    /// about, each under its path.
    pub fn to_string(&self) -> (r: String)
        ensures
            r@ == rendered(self@),
    {
        let message = fill(self.msg.as_str(), 78);
        let instance_text = indented_fragment(&self.instance);
        let schema_text = indented_fragment(&self.schema);
        let description: Option<String> = match &self.schema {
            Some(schema) => match schema.get("description") {
                Some(value) => match value.as_str() {
                    Some(text) => Some(indent(text, "  ")),
                    None => None,
                },
                None => None,
            },
            None => None,
        };
        compose(
            message.as_str(),
            match &instance_text {
                Some(text) => Some((&self.instance_path, text.as_str())),
                None => None,
            },
            match &schema_text {
                Some(text) => Some((&self.schema_path, text.as_str())),
                None => None,
            },
            match &description {
                Some(text) => Some(text.as_str()),
                None => None,
            },
        )
    }
}

} // verus!
