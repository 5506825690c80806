//! The protection floor at the end of a history.

use vstd::prelude::*;

verus! {

/// How many entries stand behind index `idx` in a history of this length.
pub open spec fn age(history_len: usize, idx: usize) -> int {
    if idx < history_len {
        history_len - idx - 1
    } else {
        0
    }
}

/// Whether the entry at `idx` is younger than `min_age`, and so protected.
/// With a `min_age` of 0 nothing is.
pub fn is_within_min_age(history_len: usize, idx: usize, min_age: usize) -> (within: bool)
    ensures
        within == (age(history_len, idx) < min_age),
{
    if idx < history_len {
        history_len - idx - 1 < min_age
    } else {
        0 < min_age
    }
}

/// Of a history, the last `min_age` entries are within the protection floor
/// and no others.
pub proof fn lemma_floor_is_the_end(history_len: usize, idx: usize, min_age: usize)
    requires
        idx < history_len,
    ensures
        age(history_len, idx) < min_age <==> history_len - min_age <= idx,
        idx + 1 + age(history_len, idx) == history_len,
{
}

/// The last `min_age` entries are within the floor, and no others.
pub proof fn lemma_within_is_the_end(history_len: usize, idx: usize, min_age: usize, within: bool)
    requires
        call_ensures(is_within_min_age, (history_len, idx, min_age), within),
        idx < history_len,
    ensures
        within <==> history_len - min_age <= idx,
{
}

/// An index behind the history counts as its last entry: it is within every
/// floor but the empty one.
pub proof fn lemma_behind_the_end_is_young(
    history_len: usize,
    idx: usize,
    min_age: usize,
    within: bool,
)
    requires
        call_ensures(is_within_min_age, (history_len, idx, min_age), within),
        idx >= history_len,
    ensures
        within <==> min_age > 0,
{
}

} // verus!
