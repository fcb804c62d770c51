//! The calls into other crates, and into the two functions of the standard library that
//! come without a contract. Verus takes the contracts in this file on trust; each says no
//! more than the documentation and the source of what it calls give.

use vstd::prelude::*;

verus! {

/// A compiled regular expression of the `regex` crate.
#[verifier::external_type_specification]
#[verifier::external_body]
pub struct ExRegex(regex::Regex);

/// A regular expression that compiled, kept beside the pattern that it was compiled
/// from. `regex_new` alone makes one.
pub struct Pattern {
    source: String,
    compiled: regex::Regex,
}

impl Pattern {
    /// The pattern that the expression was compiled from.
    pub closed spec fn source(&self) -> Seq<char> {
        self.source@
    }
}

/// Whether `Regex::new` accepts the pattern.
pub uninterp spec fn regex_compiles(pattern: Seq<char>) -> bool;

/// Whether the expression compiled from `pattern` matches somewhere in `text`.
pub uninterp spec fn regex_matches(pattern: Seq<char>, text: Seq<char>) -> bool;

/// What `Url::parse` makes of a text: the serialization of the URL, or the name of the
/// error as `Debug` writes it.
pub uninterp spec fn url_parse_result(text: Seq<char>) -> Result<Seq<char>, Seq<char>>;

/// What `Url::join` makes of a reference against the URL that `base` parses to: the
/// serialization of the joined URL, or the name of the error of either step.
pub uninterp spec fn url_join_result(base: Seq<char>, reference: Seq<char>) -> Result<Seq<char>, Seq<char>>;

/// The fragment of the URL that the text parses to, as `Url::fragment` gives it; nothing
/// where the text is no URL.
pub uninterp spec fn url_fragment_part(url: Seq<char>) -> Option<Seq<char>>;

/// The serialization of the URL that the text parses to once `Url::set_fragment` has
/// taken its fragment away; the text itself where it is no URL.
pub uninterp spec fn url_without_fragment(url: Seq<char>) -> Seq<char>;

/// Whether `Host::parse` accepts the text.
pub uninterp spec fn host_parses(text: Seq<char>) -> bool;

/// The text with its percent-encoded bytes decoded and the whole read as UTF-8, where
/// that is well formed.
pub uninterp spec fn percent_decoded(text: Seq<char>) -> Option<Seq<char>>;

/// Whether `DateTime::parse_from_rfc3339` accepts the text.
pub uninterp spec fn rfc3339_parses(text: Seq<char>) -> bool;

/// Whether `DateTime::parse_from_str` reads a date, a time and an offset from the text
/// under the format.
pub uninterp spec fn datetime_parses(text: Seq<char>, format: Seq<char>) -> bool;

/// Whether the text is an absolute IRI to `IriAbsoluteStr::new`.
pub uninterp spec fn iri_absolute_parses(text: Seq<char>) -> bool;

/// Whether the text parses as a `JsonPointer`.
pub uninterp spec fn json_pointer_parses(text: Seq<char>) -> bool;

/// The text as `textwrap::fill` wraps it to lines of at most `width` columns.
pub uninterp spec fn filled(text: Seq<char>, width: usize) -> Seq<char>;

/// The text as `textwrap::indent` puts `prefix` before its lines.
pub uninterp spec fn indented(text: Seq<char>, prefix: Seq<char>) -> Seq<char>;

/// `regex::Regex::new`: compiles the pattern, or fails on one that the crate does not
/// accept. The pattern is kept beside the compiled expression.
#[verifier::external_body]
pub(crate) fn regex_new(pattern: &str) -> (r: Option<Pattern>)
    ensures
        r is Some == regex_compiles(pattern@),
        r is Some ==> r->0.source() == pattern@,
{
    match regex::Regex::new(pattern) {
        Ok(compiled) => Some(Pattern { source: pattern.to_string(), compiled }),
        Err(_) => None,
    }
}

/// `regex::Regex::is_match`: whether the expression matches somewhere in the text. The
/// answer depends on the pattern and the text alone.
#[verifier::external_body]
pub(crate) fn regex_is_match(pattern: &Pattern, text: &str) -> (r: bool)
    ensures
        r == regex_matches(pattern.source(), text@),
{
    pattern.compiled.is_match(text)
}

/// `url::Url::parse`: parses an absolute URL and hands out its serialization, as
/// `String::from` gives it, or the name of the error.
#[verifier::external_body]
pub(crate) fn url_parse(text: &str) -> (r: Result<String, String>)
    ensures
        match r {
            Ok(url) => url_parse_result(text@) == Ok::<Seq<char>, Seq<char>>(url@),
            Err(name) => url_parse_result(text@) == Err::<Seq<char>, Seq<char>>(name@),
        },
{
    match url::Url::parse(text) {
        Ok(url) => Ok(String::from(url)),
        Err(e) => Err(format!("{:?}", e)),
    }
}

/// `url::Url::join`: parses a reference with the URL that `base` parses to as its base
/// URL and hands out the serialization of the result, or the name of the error.
#[verifier::external_body]
pub(crate) fn url_join(base: &str, reference: &str) -> (r: Result<String, String>)
    ensures
        match r {
            Ok(url) => url_join_result(base@, reference@) == Ok::<Seq<char>, Seq<char>>(url@),
            Err(name) => url_join_result(base@, reference@) == Err::<Seq<char>, Seq<char>>(name@),
        },
{
    match url::Url::parse(base) {
        Ok(parsed) => match parsed.join(reference) {
            Ok(url) => Ok(String::from(url)),
            Err(e) => Err(format!("{:?}", e)),
        },
        Err(e) => Err(format!("{:?}", e)),
    }
}

/// `url::Url::fragment`: what follows the `#` in the URL that the text parses to, if it
/// has one.
#[verifier::external_body]
pub(crate) fn url_fragment(url: &str) -> (r: Option<String>)
    ensures
        match r {
            Some(fragment) => url_fragment_part(url@) == Some(fragment@),
            None => url_fragment_part(url@) is None,
        },
{
    match url::Url::parse(url) {
        Ok(parsed) => match parsed.fragment() {
            Some(fragment) => Some(fragment.to_string()),
            None => None,
        },
        Err(_) => None,
    }
}

/// `url::Url::set_fragment` with `None`: the serialization of the URL that the text
/// parses to without its fragment.
#[verifier::external_body]
pub(crate) fn url_strip_fragment(url: &str) -> (r: String)
    ensures
        r@ == url_without_fragment(url@),
{
    match url::Url::parse(url) {
        Ok(mut parsed) => {
            parsed.set_fragment(None);
            String::from(parsed)
        },
        Err(_) => url.to_string(),
    }
}

/// `url::Host::parse`: whether the text is a domain or an IP address.
#[verifier::external_body]
pub(crate) fn host_parse_ok(text: &str) -> (r: bool)
    ensures
        r == host_parses(text@),
{
    url::Host::parse(text).is_ok()
}

/// `percent_encoding::percent_decode` and `PercentDecode::decode_utf8`: every `%` with
/// two hexadecimal digits behind it becomes the byte they write, and the bytes are read
/// as UTF-8. `None` where they are not well formed.
#[verifier::external_body]
pub(crate) fn percent_decode(text: &str) -> (r: Option<String>)
    ensures
        match r {
            Some(decoded) => percent_decoded(text@) == Some(decoded@),
            None => percent_decoded(text@) is None,
        },
{
    match percent_encoding::percent_decode(text.as_bytes()).decode_utf8() {
        Ok(decoded) => Some(decoded.into_owned()),
        Err(_) => None,
    }
}

/// `chrono::DateTime::parse_from_rfc3339`: whether the text is an RFC 3339 date and time.
#[verifier::external_body]
pub(crate) fn rfc3339_ok(text: &str) -> (r: bool)
    ensures
        r == rfc3339_parses(text@),
{
    chrono::DateTime::parse_from_rfc3339(text).is_ok()
}

/// `chrono::DateTime::parse_from_str`: whether the text gives a date, a time and an
/// offset under the format.
#[verifier::external_body]
pub(crate) fn datetime_format_ok(text: &str, format: &str) -> (r: bool)
    ensures
        r == datetime_parses(text@, format@),
{
    chrono::DateTime::parse_from_str(text, format).is_ok()
}

/// `iri_string::types::IriAbsoluteStr::new`: whether the text is an absolute IRI.
#[verifier::external_body]
pub(crate) fn iri_absolute_ok(text: &str) -> (r: bool)
    ensures
        r == iri_absolute_parses(text@),
{
    iri_string::types::IriAbsoluteStr::new(text).is_ok()
}

/// `json_pointer::JsonPointer`'s `FromStr`: whether the text parses as a JSON pointer.
#[verifier::external_body]
pub(crate) fn json_pointer_ok(text: &str) -> (r: bool)
    ensures
        r == json_pointer_parses(text@),
{
    text.parse::<json_pointer::JsonPointer<String, Vec<String>>>().is_ok()
}

/// `textwrap::fill`: the text wrapped to lines of at most `width` columns.
#[verifier::external_body]
pub(crate) fn fill(text: &str, width: usize) -> (r: String)
    ensures
        r@ == filled(text@, width),
{
    textwrap::fill(text, width)
}

/// `textwrap::indent`: the text with `prefix` before each line that is not blank.
#[verifier::external_body]
pub(crate) fn indent(text: &str, prefix: &str) -> (r: String)
    ensures
        r@ == indented(text@, prefix@),
{
    textwrap::indent(text, prefix)
}

/// Compares two string slices with `str`'s `==`: true exactly when they hold the same
/// characters.
#[verifier::external_body]
pub(crate) fn str_eq(a: &str, b: &str) -> (r: bool)
    ensures
        r == (a@ == b@),
{
    a == b
}

/// Puts a character at the end of a text, with `String::push`.
#[verifier::external_body]
pub(crate) fn push_char(text: &mut String, c: char)
    ensures
        final(text)@ == old(text)@.push(c),
{
    text.push(c);
}

} // verus!
