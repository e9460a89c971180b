//! The mathematical model: occurrences of a pattern in a text, and the
//! split that each occurrence determines.
use vstd::prelude::*;

verus! {

/// The two parts of a split, as character sequences.
pub open spec fn parts_view(r: Option<(String, String)>) -> Option<(Seq<char>, Seq<char>)> {
    match r {
        Some((left, right)) => Some((left@, right@)),
        None => None,
    }
}

/// The pattern `p` is found in `t` starting at position `k`.
pub open spec fn matches_at(t: Seq<char>, p: Seq<char>, k: int) -> bool {
    0 <= k && k + p.len() <= t.len() && t.subrange(k, k + p.len()) == p
}

/// Start positions of the occurrences of `p` in `t` at or after `pos`, found by
/// scanning left to right and taking each leftmost match, with no two matches
/// overlapping. An empty pattern occurs nowhere.
pub open spec fn occurrences_from(t: Seq<char>, p: Seq<char>, pos: int) -> Seq<int>
    decreases t.len() - pos,
{
    if p.len() == 0 || pos < 0 || pos + p.len() > t.len() {
        Seq::empty()
    } else if matches_at(t, p, pos) {
        seq![pos] + occurrences_from(t, p, pos + p.len())
    } else {
        occurrences_from(t, p, pos + 1)
    }
}

/// Start positions of all occurrences of `p` in `t`, in increasing order.
pub open spec fn occurrences(t: Seq<char>, p: Seq<char>) -> Seq<int> {
    occurrences_from(t, p, 0)
}

/// The number of occurrences of `p` in `t`.
pub open spec fn count(t: Seq<char>, p: Seq<char>) -> nat {
    occurrences(t, p).len()
}

/// The split of `t` at the `i`-th occurrence of `p` (counted from one): the text
/// before that occurrence and the text after it, the occurrence itself dropped.
/// None where `p` occurs fewer than `i` times.
pub open spec fn split_at_occurrence(t: Seq<char>, p: Seq<char>, i: int) -> Option<(Seq<char>, Seq<char>)> {
    if 1 <= i <= count(t, p) {
        let k = occurrences(t, p)[i - 1];
        Some((t.subrange(0, k), t.subrange(k + p.len(), t.len() as int)))
    } else {
        None
    }
}

/// The split of `t` at the last occurrence of `p`; None where `p` does not occur.
pub open spec fn split_at_last(t: Seq<char>, p: Seq<char>) -> Option<(Seq<char>, Seq<char>)> {
    if count(t, p) == 0 {
        None
    } else {
        split_at_occurrence(t, p, count(t, p) as int)
    }
}

/// Every position listed by `occurrences_from(t, p, pos)` lies at or after `pos`
/// and is a match of `p`.
pub proof fn lemma_occurrences_from_match(t: Seq<char>, p: Seq<char>, pos: int)
    ensures
        forall|j: int|
            0 <= j < occurrences_from(t, p, pos).len() ==> pos <= #[trigger] occurrences_from(
                t,
                p,
                pos,
            )[j] && matches_at(t, p, occurrences_from(t, p, pos)[j]),
    decreases t.len() - pos,
{
    if p.len() == 0 || pos < 0 || pos + p.len() > t.len() {
        assert(occurrences_from(t, p, pos).len() == 0);
    } else if matches_at(t, p, pos) {
        let rest = occurrences_from(t, p, pos + p.len());
        let all = occurrences_from(t, p, pos);
        lemma_occurrences_from_match(t, p, pos + p.len());
        assert(all == seq![pos] + rest);
        assert forall|j: int| 0 <= j < all.len() implies pos <= #[trigger] all[j] && matches_at(
            t,
            p,
            all[j],
        ) by {
            if j > 0 {
                assert(all[j] == rest[j - 1]);
            }
        }
    } else {
        lemma_occurrences_from_match(t, p, pos + 1);
        assert(occurrences_from(t, p, pos) == occurrences_from(t, p, pos + 1));
    }
}

/// Putting the pattern back between the two parts of a split at any occurrence
/// gives the text again.
pub proof fn lemma_split_round_trip(t: Seq<char>, p: Seq<char>, i: int)
    requires
        split_at_occurrence(t, p, i) is Some,
    ensures
        ({
            let (left, right) = split_at_occurrence(t, p, i)->0;
            left + p + right == t
        }),
{
    lemma_occurrences_from_match(t, p, 0);
    let k = occurrences(t, p)[i - 1];
    assert(matches_at(t, p, k));
    assert(t.subrange(0, k) + p + t.subrange(k + p.len(), t.len() as int) =~= t);
}

/// Once a split finds too few occurrences, a split at any later occurrence finds
/// too few as well.
pub proof fn lemma_exhaustion_is_monotonic(t: Seq<char>, p: Seq<char>, i: int, j: int)
    requires
        1 <= i < j,
        split_at_occurrence(t, p, i) is None,
    ensures
        split_at_occurrence(t, p, j) is None,
{
}

/// The split at the last occurrence is the split at occurrence `k`, where `k`
/// is the number of occurrences; it is absent exactly when there are none.
pub proof fn lemma_last_is_split_at_count(t: Seq<char>, p: Seq<char>)
    ensures
        count(t, p) > 0 ==> split_at_last(t, p) == split_at_occurrence(t, p, count(t, p) as int),
        split_at_last(t, p) is None <==> count(t, p) == 0,
{
}

} // verus!
