use weekly_report::allocator::{allocate, squeeze_fit_commits_issues};

#[test]
fn allocate_passes_through_when_within_budget() {
    let (p, s) = allocate("one two three", "four five", 10, 500);
    assert_eq!(p, "one two three");
    assert_eq!(s, "four five");
}

#[test]
fn allocate_normalizes_whitespace() {
    let (p, s) = allocate("  one\t two \n three ", "four\nfive", 10, 500);
    assert_eq!(p, "one two three");
    assert_eq!(s, "four five");
}

#[test]
fn allocate_truncates_long_primary_to_cap() {
    // 4 + 3 = 7 words > 5; cap = floor(5 * 0.6) = 3; primary exceeds it.
    let (p, s) = allocate("one two three four", "five six seven", 5, 600);
    assert_eq!(p, "one two three");
    assert_eq!(s, "five six seven");
}

#[test]
fn allocate_caps_secondary_to_slack() {
    // 2 + 4 = 6 words > 5; cap = 3; primary fits, secondary gets 5 - 2 = 3.
    let (p, s) = allocate("one two", "three four five six", 5, 600);
    assert_eq!(p, "one two");
    assert_eq!(s, "three four five");
}

#[test]
fn allocate_primary_overflow_edge_case_can_exceed_budget() {
    // The documented edge case: the truncated primary plus the untouched
    // secondary may still exceed the budget.
    let (p, s) = allocate("one two three four", "five six seven", 5, 600);
    let total = p.split_whitespace().count() + s.split_whitespace().count();
    assert_eq!(total, 6);
    assert!(total > 5);
}

#[test]
fn allocate_is_idempotent_on_its_output() {
    let (p1, s1) = allocate("one two", "three four five six", 5, 600);
    let (p2, s2) = allocate(&p1, &s1, 5, 600);
    assert_eq!(p1, p2);
    assert_eq!(s1, s2);
}

#[test]
fn allocate_zero_budget_zero_ratio() {
    // The primary exceeds its zero cap, so it is emptied and the secondary
    // is left untouched: the primary-overflow edge case at its smallest.
    let (p, s) = allocate("one two", "three", 0, 0);
    assert_eq!(p, "");
    assert_eq!(s, "three");
}

#[test]
fn squeeze_fit_commits_issues_small_inputs_pass_through() {
    let (c, i) = squeeze_fit_commits_issues("fix parser bug", "issue one", 400);
    assert_eq!(c, "fix parser bug");
    assert_eq!(i, "issue one");
}

#[test]
fn squeeze_fit_commits_issues_sheds_oversized_commits() {
    let mut commits = String::new();
    for _ in 0..44001 {
        commits.push_str("w ");
    }
    let (c, i) = squeeze_fit_commits_issues(&commits, "x y z", 500);
    assert_eq!(c.split_whitespace().count(), 22000);
    assert_eq!(i, "x y z");
}
