//! Regular expressions.

use vstd::prelude::*;
use crate::text;

verus! {

/// Why `regex::Regex::new` refuses an expression, `None` where it compiles.
pub uninterp spec fn regex_error(expression: Seq<char>) -> Option<Seq<char>>;

/// Whether an expression compiles and matches somewhere in a text.
pub uninterp spec fn regex_matches(expression: Seq<char>, haystack: Seq<char>) -> bool;

/// `regex::Regex::new`: the text of its error, `None` where the expression
/// compiles. The syntax it accepts is left to the crate.
#[verifier::external_body]
pub(crate) fn refusal(expression: &str) -> (r: Option<String>)
    ensures
        text::option_view(r) == regex_error(expression@),
{
    regex::Regex::new(expression).err().map(|error| error.to_string())
}

/// `regex::Regex::is_match` of a compiled expression, false for one that does
/// not compile. What an expression matches is left to the crate.
#[verifier::external_body]
pub(crate) fn is_match(expression: &str, haystack: &str) -> (r: bool)
    ensures
        r == regex_matches(expression@, haystack@),
        regex_error(expression@) is Some ==> !r,
{
    regex::Regex::new(expression).is_ok_and(|regex| regex.is_match(haystack))
}

/// One of the expressions matches.
pub open spec fn any_matches(expressions: Seq<Seq<char>>, haystack: Seq<char>) -> bool {
    exists|i: int| 0 <= i < expressions.len() && regex_matches(#[trigger] expressions[i], haystack)
}

pub fn any_match(expressions: &Vec<String>, haystack: &str) -> (r: bool)
    ensures
        r == any_matches(text::texts(expressions@), haystack@),
{
    let ghost all = text::texts(expressions@);
    let mut i: usize = 0;
    while i < expressions.len()
        invariant
            i <= expressions.len(),
            forall|j: int| 0 <= j < i ==> !regex_matches(#[trigger] all[j], haystack@),
        decreases expressions.len() - i,
    {
        assert(all[i as int] == expressions@[i as int]@);
        if is_match(&expressions[i], haystack) {
            return true;
        }
        i += 1;
    }
    false
}

} // verus!
