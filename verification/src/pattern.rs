//! Matching a line against a pattern. Compiling and matching are done by the
//! `regex` crate; this module gives their results a name and reads the groups.

use vstd::prelude::*;

verus! {

/// What `regex` finds when the pattern is compiled with `Regex::new` and
/// applied to the haystack with `Regex::captures`: `None` when the pattern
/// does not compile or matches nowhere; otherwise the text of every capture
/// group of the leftmost match, in the order of their opening parentheses,
/// group 0 being the whole match and `None` standing for a group that took no
/// part in it.
pub uninterp spec fn regex_captures(pattern: Seq<char>, haystack: Seq<char>) -> Option<
    Seq<Option<Seq<char>>>,
>;

/// Calls `regex::Regex::new` on `pattern` and `Regex::captures` on `haystack`.
/// Nothing is proved of this function: its result is taken to be what
/// `regex_captures` names. The pattern is compiled on each call, so that the
/// result depends on the two strings alone.
#[verifier::external_body]
pub(crate) fn capture_groups(pattern: &str, haystack: &str) -> (groups: Option<
    Vec<Option<String>>,
>)
    ensures
        groups.deep_view() == regex_captures(pattern@, haystack@),
{
    let re = regex::Regex::new(pattern).ok()?;
    let caps = re.captures(haystack)?;
    Some(caps.iter().map(|m| m.map(|m| m.as_str().to_string())).collect())
}

/// Whether `regex` accepts the pattern: whether `Regex::new` returns `Ok` for
/// it, which it does for a well-formed pattern whose compiled form is within
/// the default size limit.
pub uninterp spec fn regex_compiles(pattern: Seq<char>) -> bool;

/// Calls `regex::Regex::new` on `pattern` and tells whether it returned `Ok`.
/// Nothing is proved of this function: its result is taken to be what
/// `regex_compiles` names.
#[verifier::external_body]
pub(crate) fn compiles(pattern: &str) -> (ok: bool)
    ensures
        ok == regex_compiles(pattern@),
{
    regex::Regex::new(pattern).is_ok()
}

/// The text of group `i`, empty where the match has no such group or the
/// group took no part in it.
pub open spec fn group_text(groups: Seq<Option<Seq<char>>>, i: int) -> Seq<char> {
    if 0 <= i < groups.len() && groups[i] is Some {
        groups[i]->0
    } else {
        Seq::empty()
    }
}

/// Reads the text of group `i` out of a match.
pub fn group(groups: &Vec<Option<String>>, i: usize) -> (r: String)
    ensures
        r@ == group_text(groups.deep_view(), i as int),
{
    if i < groups.len() {
        match &groups[i] {
            Some(s) => s.clone(),
            None => String::new(),
        }
    } else {
        String::new()
    }
}

} // verus!
