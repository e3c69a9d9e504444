//! Regular expressions, left to the `regex` crate.

use crate::provider::ListError;
use vstd::prelude::*;

verus! {

/// What the first capture group of `pattern` holds in the leftmost match in
/// `text`: `None` where `pattern` is no regular expression, `Some(None)`
/// where nothing matches or the group took no part in the match.
pub uninterp spec fn first_group(pattern: Seq<char>, text: Seq<char>) -> Option<Option<Seq<char>>>;

/// Calls `Regex::new`, `Regex::captures`, `Captures::get` and
/// `Match::as_str`. The contract only gives the outcome its name: the same
/// pattern and text always yield the same capture.
#[verifier::external_body]
fn capture_first_group(pattern: &str, text: &str) -> (found: Option<Option<String>>)
    ensures
        found.deep_view() == first_group(pattern@, text@),
{
    let compiled = regex::Regex::new(pattern).ok()?;
    let group = compiled.captures(text).and_then(|found| found.get(1));
    Some(group.map(|found| found.as_str().to_string()))
}

/// What the first capture group of `pattern` holds in the leftmost match in
/// `text`, if anything; an error where `pattern` is no regular expression.
pub fn capture(pattern: &str, text: &str) -> (found: Result<Option<String>, ListError>)
    ensures
        match found {
            Ok(group) => first_group(pattern@, text@) == Some(group.deep_view()),
            Err(e) => e == ListError::Pattern && first_group(pattern@, text@) is None,
        },
{
    match capture_first_group(pattern, text) {
        Some(group) => Ok(group),
        None => Err(ListError::Pattern),
    }
}

} // verus!
