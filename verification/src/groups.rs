//! Telling whether a release comes from the wanted group.
//!
//! A wanted group is a plain name, or a pattern with `*` in it that the
//! crate `wildmatch` holds a name against.

use crate::text::{chars_of, find_first, first_index, range_is};
use vstd::prelude::*;

verus! {

/// What `wildmatch::WildMatch::new(pattern).is_match(input)` returns:
/// whether the matcher built from `pattern` accepts all of `input`.
pub uninterp spec fn wildcard_match(pattern: Seq<char>, input: Seq<char>) -> bool;

/// Whether a release of the group `found` is one of the wanted group: where
/// `wanted` holds a `*` it is a pattern, else the two names must be equal.
pub open spec fn group_accepts(wanted: Seq<char>, found: Seq<char>) -> bool {
    if first_index(wanted, '*') is Some {
        wildcard_match(wanted, found)
    } else {
        wanted == found
    }
}

/// Builds a matcher with `wildmatch::WildMatch::new` and asks its
/// `is_match`. Nothing is proved of the answer; the contract only gives it
/// a name. Neither call panics: `is_match` indexes the matcher's states at
/// a position that never passes the last of them.
#[verifier::external_body]
fn wild_match(pattern: &str, input: &str) -> (r: bool)
    ensures
        r == wildcard_match(pattern@, input@),
{
    wildmatch::WildMatch::new(pattern).is_match(input)
}

/// Whether a release of the group `found` is one of the wanted group.
pub fn group_matches(wanted: &str, found: &str) -> (r: bool)
    ensures
        r == group_accepts(wanted@, found@),
{
    let chars = chars_of(wanted);
    let n: usize = chars.len();
    assert(chars@.subrange(0, n as int) =~= wanted@);
    match find_first(chars.as_slice(), '*', 0, n) {
        Some(_) => wild_match(wanted, found),
        None => range_is(chars.as_slice(), 0, n, found),
    }
}

} // verus!
