//! Regular-expression matching, provided by the `regex` crate.

use vstd::prelude::*;

verus! {

/// The text of each capture group, or `None` for a group that did not take part.
pub open spec fn group_texts(groups: Seq<Option<String>>) -> Seq<Option<Seq<char>>> {
    groups.map_values(
        |g: Option<String>|
            match g {
                Some(t) => Some(t@),
                None => None,
            },
    )
}

/// The capture groups, group 0 first, of the first match of `pattern` in
/// `haystack`; `None` where the pattern does not compile or does not match.
pub uninterp spec fn regex_captures_of(pattern: Seq<char>, haystack: Seq<char>) -> Option<
    Seq<Option<Seq<char>>>,
>;

/// Relies on `regex::Regex::new` to compile `pattern` and on
/// `regex::Regex::captures` for the capture groups of its first match in
/// `haystack`, which depend on the two texts alone.
#[verifier::external_body]
pub(crate) fn regex_captures(pattern: &str, haystack: &str) -> (r: Option<Vec<Option<String>>>)
    ensures
        (match r {
            Some(v) => regex_captures_of(pattern@, haystack@) == Some(group_texts(v@)),
            None => regex_captures_of(pattern@, haystack@) is None,
        }),
{
    match regex::Regex::new(pattern) {
        Ok(re) => re.captures(haystack).map(
            |caps| caps.iter().map(|m| m.map(|m| m.as_str().to_string())).collect(),
        ),
        Err(_) => None,
    }
}

} // verus!
