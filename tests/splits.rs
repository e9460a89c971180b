use i_splits::ISplitExt;

fn pair(l: &str, r: &str) -> Option<(String, String)> {
    Some((l.to_string(), r.to_string()))
}

#[test]
fn split_i_first_occurrence() {
    let v = "To show you the power of i_split, I cut that sentence in half!".split_i(", ", 1);
    assert_eq!(v, pair("To show you the power of i_split", "I cut that sentence in half!"));
}

#[test]
fn split_i_second_occurrence() {
    let v = "cookie|lolipop|muffin|pancake".split_i("|", 2);
    assert_eq!(v, pair("cookie|lolipop", "muffin|pancake"));
}

#[test]
fn split_i_pattern_absent() {
    let v = "No splits? That's a `None` for you".split_i("!", 2);
    assert_eq!(v, None);
}

#[test]
fn split_i_too_far() {
    let v = "Don't go too far either!".split_i(" ", 10);
    assert_eq!(v, None);
}

#[test]
fn split_once_last_single_occurrence() {
    let v = "To show you the power of i_split, I cut that sentence in half!".split_once_last(", ");
    assert_eq!(v, pair("To show you the power of i_split", "I cut that sentence in half!"));
}

#[test]
fn split_once_last_several_occurrences() {
    let v = "cookie|lolipop|muffin|pancake".split_once_last("|");
    assert_eq!(v, pair("cookie|lolipop|muffin", "pancake"));
}

#[test]
fn split_once_last_no_occurrence() {
    assert_eq!("abc".split_once_last("x"), None);
}

#[test]
fn split_i_one_more_than_occurrences_is_none() {
    // three separators: a split at the fourth does not exist
    assert_eq!("cookie|lolipop|muffin|pancake".split_i("|", 4), None);
    assert_eq!("abc".split_i("x", 1), None);
}

#[test]
fn split_i_at_each_occurrence() {
    let t = "cookie|lolipop|muffin|pancake";
    assert_eq!(t.split_i("|", 1), pair("cookie", "lolipop|muffin|pancake"));
    assert_eq!(t.split_i("|", 3), pair("cookie|lolipop|muffin", "pancake"));
}

#[test]
fn split_i_left_empty_when_text_starts_with_pattern() {
    assert_eq!("|a|b".split_i("|", 1), pair("", "a|b"));
}

#[test]
fn split_i_right_empty_when_text_ends_with_pattern() {
    assert_eq!("a|b|".split_i("|", 2), pair("a|b", ""));
    assert_eq!("a|b|".split_once_last("|"), pair("a|b", ""));
}

#[test]
fn split_i_text_is_only_the_pattern() {
    assert_eq!("::".split_i("::", 1), pair("", ""));
    assert_eq!("::".split_i("::", 2), None);
}

#[test]
fn split_i_empty_text() {
    assert_eq!("".split_i("|", 1), None);
    assert_eq!("".split_once_last("|"), None);
}

#[test]
fn empty_pattern_occurs_nowhere() {
    assert_eq!("abc".split_i("", 1), None);
    assert_eq!("abc".split_once_last(""), None);
    assert_eq!("".split_once_last(""), None);
}

#[test]
fn matches_do_not_overlap() {
    // "aa" in "aaaaa" is found at 0 and at 2, not at 1 or 3
    assert_eq!("aaaaa".split_i("aa", 1), pair("", "aaa"));
    assert_eq!("aaaaa".split_i("aa", 2), pair("aa", "a"));
    assert_eq!("aaaaa".split_i("aa", 3), None);
    assert_eq!("aaaaa".split_once_last("aa"), pair("aa", "a"));
}

#[test]
fn leftmost_match_after_a_partial_match() {
    assert_eq!("ababac".split_i("abac", 1), pair("ab", ""));
    assert_eq!("xaxab".split_i("xab", 1), pair("xa", ""));
}

#[test]
fn multi_character_pattern_in_the_middle() {
    assert_eq!("one, two, three".split_i(", ", 2), pair("one, two", "three"));
    assert_eq!("one, two, three".split_once_last(", "), pair("one, two", "three"));
}

#[test]
fn non_ascii_text_and_pattern() {
    let t = "héllo→wörld→ünïcode";
    assert_eq!(t.split_i("→", 1), pair("héllo", "wörld→ünïcode"));
    assert_eq!(t.split_i("→", 2), pair("héllo→wörld", "ünïcode"));
    assert_eq!(t.split_once_last("→"), pair("héllo→wörld", "ünïcode"));
    assert_eq!("日本語の文".split_i("の", 1), pair("日本語", "文"));
}

#[test]
fn round_trip_restores_text() {
    let cases = [
        ("cookie|lolipop|muffin|pancake", "|"),
        ("|a||b|", "|"),
        ("aaaaa", "aa"),
        ("héllo→wörld→ünïcode", "→"),
        ("one, two, three", ", "),
    ];
    for (t, p) in cases {
        let mut i: usize = 1;
        while let Some((l, r)) = t.split_i(p, i) {
            assert_eq!(format!("{}{}{}", l, p, r), t);
            i += 1;
        }
        assert!(i > 1);
    }
}

#[test]
fn exhaustion_is_monotonic() {
    let t = "Don't go too far either!";
    assert_eq!(t.split_i(" ", 4), pair("Don't go too far", "either!"));
    assert_eq!(t.split_i(" ", 5), None);
    for j in 6..20 {
        assert_eq!(t.split_i(" ", j), None);
    }
}

#[test]
fn split_once_last_is_split_at_count() {
    let cases = [
        ("cookie|lolipop|muffin|pancake", "|", 3),
        ("aaaaa", "aa", 2),
        ("abc", "x", 0),
        ("a|b|", "|", 2),
    ];
    for (t, p, k) in cases {
        if k == 0 {
            assert_eq!(t.split_once_last(p), None);
        } else {
            assert_eq!(t.split_once_last(p), t.split_i(p, k));
        }
    }
}
