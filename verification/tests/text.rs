use zaino_e2e::text::{contains, replace_all};

#[test]
fn contains_finds_marker_inside_line() {
    let line = "2025-01-01 INFO Zebra is close to the tip tip_height=Height(0) extra";
    assert!(contains(line, "Zebra is close to the tip tip_height=Height(0)"));
}

#[test]
fn contains_rejects_partial_marker() {
    assert!(!contains("Zebra is close to the tip tip_height=Height(1)", "tip_height=Height(0)"));
    assert!(!contains("abc", "abcd"));
    assert!(!contains("", "a"));
}

#[test]
fn contains_empty_pattern_always_matches() {
    assert!(contains("", ""));
    assert!(contains("anything", ""));
}

#[test]
fn contains_matches_at_both_ends() {
    assert!(contains("Done loading", "Done"));
    assert!(contains("Done loading", "loading"));
    assert!(contains("Done loading", "Done loading"));
}

#[test]
fn contains_handles_non_ascii() {
    assert!(contains("\u{2705} Log message found.", "\u{2705} Log"));
    assert!(!contains("\u{2705} Log message found.", "\u{2706}"));
}

#[test]
fn contains_agrees_with_std() {
    let lines = ["aaab", "abab", "", "zainod started", "x\u{e9}y", "Zaino Indexer started successfully."];
    let pats = ["", "a", "ab", "aab", "ba", "started", "\u{e9}", "Zaino Indexer started successfully.", "zz"];
    for l in lines.iter() {
        for p in pats.iter() {
            assert_eq!(contains(l, p), l.contains(p), "{:?} in {:?}", p, l);
        }
    }
}

#[test]
fn replace_all_single_placeholder() {
    let out = replace_all("addr = \"${X}\"\n", "${X}", "10.0.0.2:8237");
    assert_eq!(out, "addr = \"10.0.0.2:8237\"\n");
}

#[test]
fn replace_all_without_match_is_identity() {
    assert_eq!(replace_all("no placeholder here", "${X}", "y"), "no placeholder here");
}

#[test]
fn replace_all_left_to_right_without_overlap() {
    assert_eq!(replace_all("aaa", "aa", "b"), "ba");
    assert_eq!(replace_all("aaaa", "aa", "b"), "bb");
}

#[test]
fn replace_all_empty_pattern_interleaves() {
    assert_eq!(replace_all("abc", "", "x"), "xaxbxcx");
    assert_eq!(replace_all("", "", "x"), "x");
}

#[test]
fn replace_all_pattern_by_itself_is_identity() {
    let s = "${A}${A}x${A}";
    assert_eq!(replace_all(s, "${A}", "${A}"), s);
}

#[test]
fn replace_all_agrees_with_std() {
    let texts = ["", "a", "abcabc", "aaaa", "x${V}y${V}", "\u{e9}\u{e9}a\u{e9}"];
    let pats = ["", "a", "bc", "aa", "${V}", "\u{e9}", "zzz"];
    let reps = ["", "Q", "\u{2705}", "${V}"];
    for t in texts.iter() {
        for p in pats.iter() {
            for r in reps.iter() {
                assert_eq!(replace_all(t, p, r), t.replace(p, r), "{:?} {:?} {:?}", t, p, r);
            }
        }
    }
}
