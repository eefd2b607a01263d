use weekly_report::squeeze::{squeeze_fit_comment_texts, strip_quoted, contains_sub, split_lines};

#[test]
fn strip_drops_marker_and_quoted_lines() {
    let input = "keep one\nQUOTE\nhidden line\nQUOTE\nkeep two";
    let out = strip_quoted(input, "QUOTE");
    assert_eq!(out, "keep one\nkeep two\n");
}

#[test]
fn strip_marker_inside_longer_line_still_toggles() {
    let input = "keep\nsaid QUOTE before\nburied\nQUOTE\ntail";
    let out = strip_quoted(input, "QUOTE");
    assert_eq!(out, "keep\ntail\n");
}

#[test]
fn strip_no_marker_keeps_everything() {
    let out = strip_quoted("alpha\nbeta", ">>>");
    assert_eq!(out, "alpha\nbeta\n");
}

#[test]
fn squeeze_within_budget_returns_stripped_body_unchanged() {
    let out = squeeze_fit_comment_texts("alpha beta\ngamma", ">>>", 10, 500);
    assert_eq!(out, "alpha beta\ngamma\n");
}

#[test]
fn squeeze_over_budget_keeps_head_and_tail_words() {
    // Six words against a budget of four at ratio 0.5: two head, two tail.
    let out = squeeze_fit_comment_texts("a b c\nd e f", ">>>", 4, 500);
    assert_eq!(out, "a b e f");
}

#[test]
fn squeeze_strips_quotes_before_budgeting() {
    let input = "a b c\nQUOTE\nx x x x x x x x\nQUOTE\nd e f";
    let out = squeeze_fit_comment_texts(input, "QUOTE", 10, 500);
    assert_eq!(out, "a b c\nd e f\n");
}

#[test]
fn squeeze_output_never_contains_marker() {
    // Every marker-bearing line toggles the flag and is dropped, so the
    // third line closes the block and the fourth reopens it: only the first
    // line survives, and no marker ever reaches the output.
    let input = "top\nQUOTE\nQUOTE inside twice QUOTE\nQUOTE\nbottom";
    let out = squeeze_fit_comment_texts(input, "QUOTE", 100, 500);
    assert!(!out.contains("QUOTE"));
    assert_eq!(out, "top\n");
}

#[test]
fn contains_sub_finds_and_rejects() {
    assert!(contains_sub("hello world", "lo wo"));
    assert!(contains_sub("hello", ""));
    assert!(!contains_sub("hello", "world"));
    assert!(!contains_sub("ab", "abc"));
}

#[test]
fn split_lines_matches_std_lines() {
    let cases = ["", "a", "a\n", "a\nb", "a\n\nb\n", "\n", "one two\nthree\n\n"];
    for case in cases {
        let got = split_lines(case);
        let want: Vec<String> = case.lines().map(|l| l.to_string()).collect();
        assert_eq!(got, want, "case {:?}", case);
    }
}
