//! Regular expressions over executable paths.

use regex::Regex;
use vstd::prelude::*;

verus! {

/// A compiled regular expression.
#[verifier::external_type_specification]
#[verifier::external_body]
pub struct ExRegex(regex::Regex);

/// The texts in which a compiled expression finds a match.
pub uninterp spec fn matched_texts(r: Regex) -> Set<Seq<char>>;

/// The texts in which the expression that `pattern` writes finds a match, or the text of the
/// error where `Regex::new` refuses the pattern.
pub uninterp spec fn pattern_texts(pattern: Seq<char>) -> Result<Set<Seq<char>>, Seq<char>>;

/// `Regex::new` depends on the pattern alone: it either gives the expression that the pattern
/// writes, or refuses it with an error whose text the pattern decides.
#[verifier::external_body]
pub(crate) fn compile(pattern: &str) -> (r: Result<Regex, String>)
    ensures
        match r {
            Ok(compiled) => pattern_texts(pattern@) == Ok::<_, Seq<char>>(matched_texts(compiled)),
            Err(why) => pattern_texts(pattern@) == Err::<Set<Seq<char>>, _>(why@),
        },
{
    match Regex::new(pattern) {
        Ok(compiled) => Ok(compiled),
        Err(err) => Err(err.to_string()),
    }
}

/// `Regex::is_match` tells whether there is a match anywhere in the text.
pub assume_specification[ Regex::is_match ](r: &Regex, haystack: &str) -> (b: bool)
    ensures
        b == matched_texts(*r).contains(haystack@),
;

/// The clone of an expression matches the same texts.
pub assume_specification[ <Regex as Clone>::clone ](r: &Regex) -> (c: Regex)
    ensures
        matched_texts(c) == matched_texts(*r),
;

/// The texts that an optional expression matches.
pub open spec fn texts_matched_by(r: Option<Regex>) -> Option<Set<Seq<char>>> {
    match r {
        Some(compiled) => Some(matched_texts(compiled)),
        None => None,
    }
}

/// A copy of an optional expression.
pub fn copy_pattern(r: &Option<Regex>) -> (c: Option<Regex>)
    ensures
        texts_matched_by(c) == texts_matched_by(*r),
{
    match r {
        Some(compiled) => Some(compiled.clone()),
        None => None,
    }
}

} // verus!
