//! Executable scanning of a text for the occurrences of a pattern.
use vstd::prelude::*;
use vstd::std_specs::iter::IteratorSpec;
use crate::model::{count, matches_at, occurrences, occurrences_from};

verus! {

broadcast use vstd::string::group_string_axioms;

/// The characters of `s`, in order.
pub(crate) fn chars_of(s: &str) -> (v: Vec<char>)
    ensures
        v@ == s@,
{
    let mut it = s.chars();
    let mut v: Vec<char> = Vec::new();
    loop
        invariant
            v@ + it.remaining() == s@,
            it.decrease() is Some,
        ensures
            v@ == s@,
        decreases it.decrease()->0,
    {
        match it.next() {
            Some(c) => {
                v.push(c);
            },
            None => {
                assert(v@ + it.remaining() =~= v@);
                break;
            },
        }
    }
    v
}

/// Whether `p` is found in `t` starting at position `k`.
fn matches_here(t: &Vec<char>, p: &Vec<char>, k: usize) -> (r: bool)
    requires
        k + p@.len() <= t@.len(),
    ensures
        r == matches_at(t@, p@, k as int),
{
    let n = t.len();
    let m = p.len();
    let mut j: usize = 0;
    while j < m
        invariant
            j <= m,
            m == p@.len(),
            n == t@.len(),
            k + m <= t@.len(),
            forall|jj: int| 0 <= jj < j ==> t@[k + jj] == p@[jj],
        decreases m - j,
    {
        if t[k + j] != p[j] {
            assert(t@.subrange(k as int, k + m)[j as int] != p@[j as int]);
            return false;
        }
        j += 1;
    }
    assert(t@.subrange(k as int, k + m) =~= p@);
    true
}

/// The start of the `i`-th occurrence of `p` in `t` (counted from one), or
/// None where `p` occurs fewer than `i` times.
pub(crate) fn find_occurrence(t: &Vec<char>, p: &Vec<char>, i: usize) -> (r: Option<usize>)
    requires
        i >= 1,
    ensures
        match r {
            Some(k) => i <= count(t@, p@) && k == occurrences(t@, p@)[i - 1],
            None => count(t@, p@) < i,
        },
{
    let n = t.len();
    let m = p.len();
    if m == 0 {
        return None;
    }
    let mut pos: usize = 0;
    let mut seen: usize = 0;
    let ghost mut found: Seq<int> = Seq::empty();
    while m <= n - pos
        invariant
            pos <= n,
            n == t@.len(),
            m == p@.len(),
            m > 0,
            seen < i,
            found.len() == seen,
            occurrences(t@, p@) == found + occurrences_from(t@, p@, pos as int),
        decreases n - pos,
    {
        if matches_here(t, p, pos) {
            let ghost rest = occurrences_from(t@, p@, pos + m);
            assert(occurrences_from(t@, p@, pos as int) == seq![pos as int] + rest);
            assert(found + (seq![pos as int] + rest) =~= found.push(pos as int) + rest);
            assert(occurrences(t@, p@)[seen as int] == pos);
            seen += 1;
            if seen == i {
                return Some(pos);
            }
            proof {
                found = found.push(pos as int);
            }
            pos += m;
        } else {
            assert(occurrences_from(t@, p@, pos as int) == occurrences_from(t@, p@, pos + 1));
            pos += 1;
        }
    }
    assert(occurrences_from(t@, p@, pos as int).len() == 0);
    None
}

/// The number of occurrences of `p` in `t`.
pub(crate) fn count_occurrences(t: &Vec<char>, p: &Vec<char>) -> (c: usize)
    ensures
        c == count(t@, p@),
{
    let n = t.len();
    let m = p.len();
    if m == 0 {
        return 0;
    }
    let mut pos: usize = 0;
    let mut seen: usize = 0;
    let ghost mut found: Seq<int> = Seq::empty();
    while m <= n - pos
        invariant
            pos <= n,
            n == t@.len(),
            m == p@.len(),
            m > 0,
            seen <= pos,
            found.len() == seen,
            occurrences(t@, p@) == found + occurrences_from(t@, p@, pos as int),
        decreases n - pos,
    {
        if matches_here(t, p, pos) {
            let ghost rest = occurrences_from(t@, p@, pos + m);
            assert(occurrences_from(t@, p@, pos as int) == seq![pos as int] + rest);
            assert(found + (seq![pos as int] + rest) =~= found.push(pos as int) + rest);
            seen += 1;
            proof {
                found = found.push(pos as int);
            }
            pos += m;
        } else {
            assert(occurrences_from(t@, p@, pos as int) == occurrences_from(t@, p@, pos + 1));
            pos += 1;
        }
    }
    assert(occurrences_from(t@, p@, pos as int).len() == 0);
    assert(occurrences(t@, p@) =~= found);
    seen
}

} // verus!
