//! The two user-defined scalar functions installed into the relational
//! engine: `regexp(pattern, value)` and
//! `regexp_extract(pattern, value, replacement)`. Pattern matching and
//! capture-group expansion are the regex crate's; the result handling is
//! verified against named results.

use vstd::prelude::*;
use vstd::string::StringExecFns;
use crate::errors::UdfError;

verus! {

#[verifier::external_type_specification]
#[verifier::external_body]
pub struct ExRegex(regex::Regex);

/// Whether the pattern text compiles as a regular expression.
pub uninterp spec fn regex_valid(p: Seq<char>) -> bool;

/// The pattern text a compiled regular expression was built from.
pub uninterp spec fn pattern_of(re: regex::Regex) -> Seq<char>;

/// Whether the pattern matches somewhere in the text.
pub uninterp spec fn regex_match(p: Seq<char>, text: Seq<char>) -> bool;

/// The replacement expanded with the capture groups of the pattern's first
/// match in the text.
pub uninterp spec fn regex_expand(p: Seq<char>, text: Seq<char>, rewrite: Seq<char>) -> Seq<char>;

/// Relies on regex::Regex::new: compiling succeeds or fails on the pattern
/// text alone.
#[verifier::external_body]
fn regex_new(p: &str) -> (r: Result<regex::Regex, UdfError>)
    ensures
        match r {
            Ok(re) => regex_valid(p@) && pattern_of(re) == p@,
            Err(_) => !regex_valid(p@),
        },
{
    match regex::Regex::new(p) {
        Ok(re) => Ok(re),
        Err(_) => Err(UdfError::InvalidPattern),
    }
}

/// Relies on regex::Regex::is_match: a function of the pattern and the text.
#[verifier::external_body]
fn regex_is_match(re: &regex::Regex, text: &str) -> (r: bool)
    ensures
        r == regex_match(pattern_of(*re), text@),
{
    re.is_match(text)
}

/// Relies on regex::Regex::captures and regex::Captures::expand: a capture is
/// found exactly when the pattern matches, and the expansion is a function of
/// pattern, text and replacement.
#[verifier::external_body]
fn regex_captures_expand(re: &regex::Regex, text: &str, rewrite: &str) -> (r: Option<String>)
    ensures
        match r {
            Some(s) => regex_match(pattern_of(*re), text@) && s@ == regex_expand(
                pattern_of(*re),
                text@,
                rewrite@,
            ),
            None => !regex_match(pattern_of(*re), text@),
        },
{
    match re.captures(text) {
        Some(caps) => {
            let mut dst = String::new();
            caps.expand(rewrite, &mut dst);
            Some(dst)
        },
        None => None,
    }
}

/// Compiles a UDF pattern argument, failing on an invalid regular expression.
pub fn compile_pattern(p: &str) -> (r: Result<regex::Regex, UdfError>)
    ensures
        match r {
            Ok(re) => regex_valid(p@) && pattern_of(re) == p@,
            Err(_) => !regex_valid(p@),
        },
{
    regex_new(p)
}

/// `regexp(pattern, value)`: true exactly when the value matches the compiled
/// pattern.
pub fn udf_regexp(re: &regex::Regex, value: &str) -> (r: bool)
    ensures
        r == regex_match(pattern_of(*re), value@),
{
    regex_is_match(re, value)
}

/// `regexp_extract(pattern, value, replacement)`: the replacement expanded
/// with the first match's capture groups, or the empty string when the value
/// does not match.
pub fn udf_regexp_extract(re: &regex::Regex, value: &str, replacement: &str) -> (r: String)
    ensures
        regex_match(pattern_of(*re), value@) ==> r@ == regex_expand(
            pattern_of(*re),
            value@,
            replacement@,
        ),
        !regex_match(pattern_of(*re), value@) ==> r@ == Seq::<char>::empty(),
{
    match regex_captures_expand(re, value, replacement) {
        Some(s) => s,
        None => String::new(),
    }
}

} // verus!
