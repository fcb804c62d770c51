//! The predicates of the string formats.

use vstd::prelude::*;
use vstd::string::*;
use crate::address::{is_ipv4, is_ipv6, parse_ipv4, parse_ipv6};
use crate::config::Config;
use crate::foreign::{
    datetime_format_ok, datetime_parses, host_parse_ok, host_parses, iri_absolute_ok, iri_absolute_parses,
    json_pointer_ok, json_pointer_parses, regex_compiles, regex_new, rfc3339_ok, rfc3339_parses, url_parse,
    url_parse_result,
};
use crate::schemas::FormatChecker;

verus! {

/// Whether a text has a format.
pub open spec fn format_valid(format: FormatChecker, value: Seq<char>) -> bool {
    match format {
        FormatChecker::Date => datetime_parses(value, "%Y-%m-%d"@),
        FormatChecker::DateTime => rfc3339_parses(value),
        FormatChecker::Email => value.contains('@'),
        FormatChecker::Hostname => host_parses(value),
        FormatChecker::Ipv4 => is_ipv4(value),
        FormatChecker::Ipv6 => is_ipv6(value),
        FormatChecker::Iri => iri_absolute_parses(value),
        FormatChecker::IriReference => iri_absolute_parses(value),
        FormatChecker::JsonPointer => json_pointer_parses(value),
        FormatChecker::Regex => regex_compiles(value),
        FormatChecker::Time => datetime_parses(value, "%H:%M:%S"@),
        FormatChecker::Uri => url_parse_result(value) is Ok,
        FormatChecker::UriReference => true,
        FormatChecker::UriTemplate => true,
    }
}

/// An e-mail address: a text with an `@` in it.
pub fn email(_cfg: &Config, value: &str) -> (r: bool)
    ensures
        r == format_valid(FormatChecker::Email, value@),
{
    let mut found = false;
    for c in it: value.chars()
        invariant
            it.seq() == value@,
            found <==> exists|k: int| 0 <= k < it.index() && value@[k] == '@',
    {
        if c == '@' {
            found = true;
        }
    }
    found
}

/// An IPv4 address.
pub fn ipv4(_cfg: &Config, value: &str) -> (r: bool)
    ensures
        r == format_valid(FormatChecker::Ipv4, value@),
{
    parse_ipv4(value)
}

/// An IPv6 address.
pub fn ipv6(_cfg: &Config, value: &str) -> (r: bool)
    ensures
        r == format_valid(FormatChecker::Ipv6, value@),
{
    parse_ipv6(value)
}

/// A host name: what the `url` crate takes for a host.
pub fn hostname(_cfg: &Config, value: &str) -> (r: bool)
    ensures
        r == format_valid(FormatChecker::Hostname, value@),
{
    host_parse_ok(value)
}

/// A URI: what the `url` crate parses as an absolute URL.
pub fn uri(_cfg: &Config, value: &str) -> (r: bool)
    ensures
        r == format_valid(FormatChecker::Uri, value@),
{
    url_parse(value).is_ok()
}

/// A URI reference: any text.
pub fn uri_reference(_cfg: &Config, _value: &str) -> (r: bool)
    ensures
        r == format_valid(FormatChecker::UriReference, _value@),
{
    true
}

/// An IRI: what the `iri-string` crate takes for an absolute IRI.
pub fn iri(_cfg: &Config, value: &str) -> (r: bool)
    ensures
        r == format_valid(FormatChecker::Iri, value@),
{
    iri_absolute_ok(value)
}

/// An IRI reference: what the `iri-string` crate takes for an absolute IRI.
pub fn iri_reference(_cfg: &Config, value: &str) -> (r: bool)
    ensures
        r == format_valid(FormatChecker::IriReference, value@),
{
    iri_absolute_ok(value)
}

/// A date and time as RFC 3339 writes them.
pub fn datetime(_cfg: &Config, value: &str) -> (r: bool)
    ensures
        r == format_valid(FormatChecker::DateTime, value@),
{
    rfc3339_ok(value)
}

/// A regular expression that the `regex` crate compiles.
pub fn regex(_cfg: &Config, value: &str) -> (r: bool)
    ensures
        r == format_valid(FormatChecker::Regex, value@),
{
    regex_new(value).is_some()
}

/// A date: what `chrono` reads a date, a time and an offset from under `%Y-%m-%d`.
pub fn date(_cfg: &Config, value: &str) -> (r: bool)
    ensures
        r == format_valid(FormatChecker::Date, value@),
{
    datetime_format_ok(value, "%Y-%m-%d")
}

/// A time: what `chrono` reads a date, a time and an offset from under `%H:%M:%S`.
pub fn time(_cfg: &Config, value: &str) -> (r: bool)
    ensures
        r == format_valid(FormatChecker::Time, value@),
{
    datetime_format_ok(value, "%H:%M:%S")
}

/// A JSON pointer that the `json-pointer` crate parses.
pub fn json_pointer(_cfg: &Config, value: &str) -> (r: bool)
    ensures
        r == format_valid(FormatChecker::JsonPointer, value@),
{
    json_pointer_ok(value)
}

/// A URI template: any text.
pub fn uri_template(_cfg: &Config, _value: &str) -> (r: bool)
    ensures
        r == format_valid(FormatChecker::UriTemplate, _value@),
{
    true
}

/// Applies a format's predicate to a text.
pub fn check_format(checker: FormatChecker, cfg: &Config, value: &str) -> (r: bool)
    ensures
        r == format_valid(checker, value@),
{
    match checker {
        FormatChecker::Date => date(cfg, value),
        FormatChecker::DateTime => datetime(cfg, value),
        FormatChecker::Email => email(cfg, value),
        FormatChecker::Hostname => hostname(cfg, value),
        FormatChecker::Ipv4 => ipv4(cfg, value),
        FormatChecker::Ipv6 => ipv6(cfg, value),
        FormatChecker::Iri => iri(cfg, value),
        FormatChecker::IriReference => iri_reference(cfg, value),
        FormatChecker::JsonPointer => json_pointer(cfg, value),
        FormatChecker::Regex => regex(cfg, value),
        FormatChecker::Time => time(cfg, value),
        FormatChecker::Uri => uri(cfg, value),
        FormatChecker::UriReference => uri_reference(cfg, value),
        FormatChecker::UriTemplate => uri_template(cfg, value),
    }
}

} // verus!
