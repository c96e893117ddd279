//! Searching text with regular expressions.
//!
//! The expressions are compiled and run by the `regex` crate. What a search
//! returns is not computed here, so it is given a name, and the functions of
//! this module state their results through these names.

use crate::packages::ParseError;
use crate::text::texts;
use vstd::prelude::*;

verus! {

/// `regex::Error`, the error of a pattern that does not compile. The type is
/// declared so that a call can hand it back; nothing is stated of its
/// values.
#[verifier::external_type_specification]
#[verifier::external_body]
pub struct ExPatternError(regex::Error);

/// Whether `regex::Regex::new` accepts `pattern`.
pub uninterp spec fn pattern_compiles(pattern: Seq<char>) -> bool;

/// The pieces that `regex::Regex::split` yields for `text`, in order, where
/// the expression was compiled from `pattern`.
pub uninterp spec fn split_by(pattern: Seq<char>, text: Seq<char>) -> Seq<Seq<char>>;

/// What `regex::Regex::replace_all` returns for `text` and the replacement
/// `with`, where the expression was compiled from `pattern`.
pub uninterp spec fn replaced_by(pattern: Seq<char>, text: Seq<char>, with: Seq<char>) -> Seq<
    char,
>;

/// Calls `regex::Regex::new` on `pattern` and `regex::Regex::split` on
/// `text`. Trusted: the call fails exactly where the pattern does not
/// compile, and otherwise returns the pieces that `split` yields, each
/// copied into a string of its own.
#[verifier::external_body]
fn regex_split(pattern: &str, text: &str) -> (r: Result<Vec<String>, regex::Error>)
    ensures
        r is Ok <==> pattern_compiles(pattern@),
        r matches Ok(parts) ==> texts(parts@) == split_by(pattern@, text@),
{
    let compiled = regex::Regex::new(pattern)?;
    Ok(compiled.split(text).map(|part| part.to_string()).collect())
}

/// Calls `regex::Regex::new` on `pattern` and `regex::Regex::replace_all` on
/// `text` and `with`. Trusted: the call fails exactly where the pattern does
/// not compile, and otherwise returns what `replace_all` returns, as an
/// owned string.
#[verifier::external_body]
fn regex_replace_all(pattern: &str, text: &str, with: &str) -> (r: Result<String, regex::Error>)
    ensures
        r is Ok <==> pattern_compiles(pattern@),
        r matches Ok(s) ==> s@ == replaced_by(pattern@, text@, with@),
{
    let compiled = regex::Regex::new(pattern)?;
    Ok(compiled.replace_all(text, with).into_owned())
}

/// The pieces of `text` between the matches of `pattern`, or `BadPattern`.
pub open spec fn split_matches(pattern: Seq<char>, text: Seq<char>) -> Result<
    Seq<Seq<char>>,
    ParseError,
> {
    if pattern_compiles(pattern) {
        Ok(split_by(pattern, text))
    } else {
        Err(ParseError::BadPattern)
    }
}

/// `text` without the matches of `pattern`, or `BadPattern`.
pub open spec fn without_matches(pattern: Seq<char>, text: Seq<char>) -> Result<
    Seq<char>,
    ParseError,
> {
    if pattern_compiles(pattern) {
        Ok(replaced_by(pattern, text, Seq::empty()))
    } else {
        Err(ParseError::BadPattern)
    }
}

/// Splits `text` at the matches of `pattern`.
pub fn split_at_matches(pattern: &str, text: &str) -> (r: Result<Vec<String>, ParseError>)
    ensures
        match r {
            Ok(parts) => split_matches(pattern@, text@) == Ok::<Seq<Seq<char>>, ParseError>(
                texts(parts@),
            ),
            Err(e) => split_matches(pattern@, text@) == Err::<Seq<Seq<char>>, ParseError>(e),
        },
{
    match regex_split(pattern, text) {
        Ok(parts) => Ok(parts),
        Err(_) => Err(ParseError::BadPattern),
    }
}

/// Removes the matches of `pattern` from `text`.
pub fn remove_matches(pattern: &str, text: &str) -> (r: Result<String, ParseError>)
    ensures
        match r {
            Ok(s) => without_matches(pattern@, text@) == Ok::<Seq<char>, ParseError>(s@),
            Err(e) => without_matches(pattern@, text@) == Err::<Seq<char>, ParseError>(e),
        },
{
    let nothing = "";
    proof {
        reveal_strlit("");
        assert(nothing@ =~= Seq::<char>::empty());
    }
    match regex_replace_all(pattern, text, nothing) {
        Ok(s) => Ok(s),
        Err(_) => Err(ParseError::BadPattern),
    }
}

} // verus!
