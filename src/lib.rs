//! Splitting a string at the n-th, or at the last, occurrence of a pattern.
use vstd::prelude::*;

pub mod model;
mod scan;

use crate::model::{
    matches_at, lemma_occurrences_from_match, occurrences, parts_view, split_at_last,
    split_at_occurrence,
};
use crate::scan::{chars_of, count_occurrences, find_occurrence};

verus! {

/// Splits a text in two at one occurrence of a pattern, which is dropped.
///
/// Occurrences are the leftmost, non-overlapping matches found scanning from the
/// left. An empty pattern occurs nowhere.
pub trait ISplitExt: View<V = Seq<char>> {
    /// Splits the text in half at occurrence `i` of `pat`, counting from one:
    /// the text before that occurrence and the text after it.
    ///
    /// Returns None where `pat` occurs fewer than `i` times. `i` must not be zero.
    fn split_i(&self, pat: &str, i: usize) -> (r: Option<(String, String)>)
        requires
            i >= 1,
        ensures
            parts_view(r) == split_at_occurrence(self@, pat@, i as int),
    ;

    /// Splits the text in half at the last occurrence of `pat`.
    ///
    /// Returns None where `pat` does not occur.
    fn split_once_last(&self, pat: &str) -> (r: Option<(String, String)>)
        ensures
            parts_view(r) == split_at_last(self@, pat@),
    ;
}

impl ISplitExt for str {
    fn split_i(&self, pat: &str, i: usize) -> (r: Option<(String, String)>) {
        let t = chars_of(self);
        let p = chars_of(pat);
        let n = t.len();
        let m = p.len();
        match find_occurrence(&t, &p, i) {
            None => None,
            Some(k) => {
                proof {
                    lemma_occurrences_from_match(self@, pat@, 0);
                    assert(matches_at(self@, pat@, occurrences(self@, pat@)[i - 1]));
                }
                let left = self.substring_char(0, k).to_owned();
                let right = self.substring_char(k + m, n).to_owned();
                Some((left, right))
            },
        }
    }

    fn split_once_last(&self, pat: &str) -> (r: Option<(String, String)>) {
        let t = chars_of(self);
        let p = chars_of(pat);
        let k = count_occurrences(&t, &p);
        if k == 0 {
            None
        } else {
            self.split_i(pat, k)
        }
    }
}

} // verus!
