//! Matching address text against a pattern.

use crate::text::{chars_of, same_text, starts_with};
use regex::Regex;
use vstd::prelude::*;

verus! {

/// What the `regex` crate finds when it compiles `pattern` and searches `text`
/// for its first match: `None` where the pattern does not compile or nothing
/// matches, else the text of every capture group in the order of the groups'
/// opening parentheses, group 0 being the whole match, with `None` for a group
/// that took no part in the match.
pub uninterp spec fn regex_captures(pattern: Seq<char>, text: Seq<char>) -> Option<
    Seq<Option<Seq<char>>>,
>;

/// The capture groups of a match as sequences of characters.
pub open spec fn groups_view(groups: Option<Vec<Option<String>>>) -> Option<
    Seq<Option<Seq<char>>>,
> {
    match groups {
        None => None,
        Some(v) => Some(
            Seq::new(
                v@.len(),
                |i: int|
                    match v@[i] {
                        None => None,
                        Some(s) => Some(s@),
                    },
            ),
        ),
    }
}

/// Whether the capture groups `groups` are what a pattern found that matched
/// the address `addr` as a whole, from the scheme `scheme` on: `addr` starts
/// with the scheme, and group 0, the text that matched, is all of `addr`.
pub open spec fn matches_whole(
    scheme: Seq<char>,
    addr: Seq<char>,
    groups: Option<Seq<Option<Seq<char>>>>,
) -> bool {
    &&& scheme.is_prefix_of(addr)
    &&& groups matches Some(g)
    &&& g.len() > 0
    &&& g[0] == Some(addr)
}

/// Whether the pattern that found `groups` matched the address `addr` as a
/// whole, from the scheme `scheme` on.
pub fn whole_match(scheme: &str, addr: &str, groups: &Option<Vec<Option<String>>>) -> (r: bool)
    ensures
        r == matches_whole(scheme@, addr@, groups_view(*groups)),
{
    let text = chars_of(addr);
    let start = chars_of(scheme);
    if !starts_with(text.as_slice(), start.as_slice()) {
        return false;
    }
    match groups {
        Some(g) => {
            if g.len() == 0 {
                return false;
            }
            let ghost gv = groups_view(*groups)->0;
            assert(gv[0] == match g@[0] { None => None, Some(s) => Some(s@) });
            match &g[0] {
                Some(whole) => {
                    let found = chars_of(whole.as_str());
                    same_text(found.as_slice(), text.as_slice())
                },
                None => false,
            }
        },
        None => false,
    }
}

/// Calls `regex::Regex::new` on `pattern` and `Regex::captures` on `text`, and
/// copies out the groups that `Captures::iter` yields.  The contract claims no
/// more than that the outcome is a function of the two arguments, which
/// `regex_captures` names.
#[verifier::external_body]
pub(crate) fn captures(pattern: &str, text: &str) -> (r: Option<Vec<Option<String>>>)
    ensures
        groups_view(r) == regex_captures(pattern@, text@),
{
    let caps = Regex::new(pattern).ok()?.captures(text)?;
    Some(caps.iter().map(|m| m.map(|m| m.as_str().to_string())).collect())
}

} // verus!
