//! Regular-expression search, delegated to the `regex` crate.

use vstd::prelude::*;
use vstd::string::StringSliceAdditionalSpecFns;
use vstd::utf8::is_char_boundary;

verus! {

/// The byte offsets of the leftmost match of `pattern` in `haystack`, as
/// `regex` finds it; `None` where nothing matches or the pattern does not
/// compile.
pub uninterp spec fn leftmost_match(pattern: Seq<char>, haystack: Seq<char>) -> Option<(int, int)>;

/// `Regex::new` followed by `Regex::find`. The offsets of a match are byte
/// offsets into the haystack, in order, and fall on character boundaries.
#[verifier::external_body]
pub(crate) fn find(pattern: &str, haystack: &str) -> (r: Option<(usize, usize)>)
    ensures
        match r {
            Some((start, end)) => {
                &&& leftmost_match(pattern@, haystack@) == Some((start as int, end as int))
                &&& start <= end <= haystack.spec_bytes().len()
                &&& is_char_boundary(haystack.spec_bytes(), start as int)
                &&& is_char_boundary(haystack.spec_bytes(), end as int)
            },
            None => leftmost_match(pattern@, haystack@) is None,
        },
{
    let compiled = regex::Regex::new(pattern).ok()?;
    compiled.find(haystack).map(|m| (m.start(), m.end()))
}

} // verus!
