use vstd::prelude::*;

use crate::text::{contains, contains_seq, lowercase, to_lowercase};

verus! {

/// Whether an entry whose searchable values are `values` matches `query`:
/// the empty query matches everything, and otherwise some value, lowered,
/// holds the query.
pub open spec fn query_matches(values: Seq<Seq<char>>, query: Seq<char>) -> bool {
    query.len() == 0 || exists|i: int|
        0 <= i < values.len() && contains_seq(lowercase(#[trigger] values[i]), query)
}

pub fn matches_query(values: &[&str], query: &str) -> (r: bool)
    ensures
        r == query_matches(values@.map_values(|v: &str| v@), query@),
{
    let ghost texts = values@.map_values(|v: &str| v@);
    if query.is_empty() {
        return true;
    }
    let mut i: usize = 0;
    while i < values.len()
        invariant
            i <= values@.len(),
            texts == values@.map_values(|v: &str| v@),
            query@.len() > 0,
            forall|j: int| 0 <= j < i ==> !contains_seq(lowercase(#[trigger] texts[j]), query@),
        decreases values@.len() - i,
    {
        let lowered = to_lowercase(values[i]);
        if contains(lowered.as_str(), query) {
            assert(contains_seq(lowercase(texts[i as int]), query@));
            return true;
        }
        i += 1;
    }
    false
}

} // verus!
