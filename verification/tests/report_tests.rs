use weekly_report::messages::{
    addressee, discussion_query, invalid_input_message, no_user_message, non_contributor_message,
    profile_line, start_message, weekly_discussion_query,
};
use weekly_report::pipeline::{
    fetch_progress_line, item_display_id, last_segment, no_data_message, u64_to_string,
    ActivityItem, Fetched, ReportState, SourceKind, SourceOutcome,
};

fn item(url: &str) -> ActivityItem {
    ActivityItem { source_url: url.to_string(), payload: String::new() }
}

#[test]
fn u64_renders_decimal() {
    assert_eq!(u64_to_string(0), "0");
    assert_eq!(u64_to_string(7), "7");
    assert_eq!(u64_to_string(907), "907");
    assert_eq!(u64_to_string(18446744073709551615), "18446744073709551615");
}

#[test]
fn last_segment_takes_text_after_final_slash() {
    assert_eq!(last_segment("https://github.com/acme/widget/commit/abc123"), "abc123");
    assert_eq!(last_segment("no-slash"), "no-slash");
    assert_eq!(last_segment("trailing/"), "");
}

#[test]
fn commit_ids_are_shortened_to_seven_characters() {
    assert_eq!(
        item_display_id(SourceKind::Commits, "https://github.com/a/b/commit/0123456789abcdef"),
        "0123456"
    );
    assert_eq!(item_display_id(SourceKind::Commits, "https://github.com/a/b/commit/ccc"), "ccc");
    assert_eq!(item_display_id(SourceKind::Issues, "https://github.com/a/b/issues/1234567890"), "1234567890");
}

#[test]
fn progress_line_names_count_and_ids() {
    let fetch = Some(Fetched {
        count: 3,
        items: vec![
            item("https://github.com/acme/widget/commit/aaaaaaaa1"),
            item("https://github.com/acme/widget/commit/bbbbbbbb2"),
            item("https://github.com/acme/widget/commit/ccc"),
        ],
    });
    let line = fetch_progress_line(SourceKind::Commits, &fetch);
    assert_eq!(line, "found 3 commits: aaaaaaa, bbbbbbb, ccc");
}

#[test]
fn failed_fetch_reads_as_zero_items() {
    let line = fetch_progress_line(SourceKind::Issues, &None);
    assert_eq!(line, "found 0 issues: ");
}

#[test]
fn no_data_message_names_the_user() {
    assert_eq!(
        no_data_message(&Some("alice".to_string())),
        "No useful data found for alice, you may try `/search` to find out more about alice"
    );
    assert_eq!(no_data_message(&None), "No useful data found, nothing to report");
}

#[test]
fn report_with_commit_activity_correlates_the_summary() {
    let mut state = ReportState::new(
        Some("alice".to_string()),
        "About acme/widget: a widget factory".to_string(),
    );
    let commits = Some(Fetched {
        count: 3,
        items: vec![
            item("https://github.com/acme/widget/commit/0123456789"),
            item("https://github.com/acme/widget/commit/abcdefabcd"),
            item("https://github.com/acme/widget/commit/fedcba9876"),
        ],
    });
    let (line, has_items) = state.record_source(SourceKind::Commits, &commits);
    assert_eq!(line, "found 3 commits: 0123456, abcdefa, fedcba9");
    assert!(has_items);
    state.record_outcome(
        SourceKind::Commits,
        SourceOutcome::Summarized("alice landed three commits.".to_string()),
    );

    let issues = Some(Fetched { count: 0, items: vec![] });
    let (line, has_items) = state.record_source(SourceKind::Issues, &issues);
    assert_eq!(line, "found 0 issues: ");
    assert!(!has_items);
    state.record_outcome(SourceKind::Issues, SourceOutcome::NoData);

    let discussions = Some(Fetched { count: 0, items: vec![] });
    let (line, has_items) = state.record_source(SourceKind::Discussions, &discussions);
    assert_eq!(line, "found 0 discussions: ");
    assert!(!has_items);
    state.record_outcome(SourceKind::Discussions, SourceOutcome::NoData);

    assert_eq!(
        state.progress,
        "found 3 commits: 0123456, abcdefa, fedcba9\nfound 0 issues: \nfound 0 discussions: \n"
    );

    let correlated = "alice spent the week landing widget fixes.".to_string();
    let report = state.final_report(Some(&correlated));
    assert_eq!(
        report,
        "found 3 commits: 0123456, abcdefa, fedcba9\nfound 0 issues: \nfound 0 discussions: \n\
         alice spent the week landing widget fixes."
    );
}

#[test]
fn report_with_no_activity_is_the_no_data_message() {
    let mut state = ReportState::new(Some("alice".to_string()), String::new());
    for kind in [SourceKind::Commits, SourceKind::Issues, SourceKind::Discussions] {
        let fetch = Some(Fetched { count: 0, items: vec![] });
        let (_, has_items) = state.record_source(kind, &fetch);
        assert!(!has_items);
        state.record_outcome(kind, SourceOutcome::NoData);
    }
    let report = state.final_report(None);
    assert_eq!(
        report,
        "No useful data found for alice, you may try `/search` to find out more about alice"
    );
}

#[test]
fn failed_correlation_yields_the_placeholder() {
    let mut state = ReportState::new(None, String::new());
    let commits = Some(Fetched {
        count: 1,
        items: vec![item("https://github.com/a/b/commit/abcd1234x")],
    });
    state.record_source(SourceKind::Commits, &commits);
    state.record_outcome(
        SourceKind::Commits,
        SourceOutcome::Summarized("one commit landed".to_string()),
    );
    state.record_source(SourceKind::Issues, &None);
    state.record_outcome(SourceKind::Issues, SourceOutcome::Failed);
    state.record_source(SourceKind::Discussions, &None);
    state.record_outcome(SourceKind::Discussions, SourceOutcome::Failed);
    assert_eq!(state.final_report(None), "no report generated");
}

#[test]
fn status_messages_match_their_templates() {
    assert_eq!(addressee(&Some("alice".to_string())), "alice's");
    assert_eq!(addressee(&None), "key community participants'");
    assert_eq!(
        start_message("alice's", "acme", "widget"),
        "exploring alice's GitHub contributions to `acme/widget` project"
    );
    assert_eq!(
        profile_line("acme", "widget", "a widget factory"),
        "About acme/widget: a widget factory"
    );
    assert_eq!(
        invalid_input_message(),
        "You've entered invalid owner/repo, or the target is private. Please try again."
    );
    assert_eq!(
        non_contributor_message("alice", "acme", "widget"),
        "alice hasn't contributed code to acme/widget. \
         Bot will try to find out alice's other contributions."
    );
    assert_eq!(
        no_user_message("acme", "widget"),
        "You didn't input a user's name. \
         Bot will then create a report on the weekly progress of acme/widget."
    );
}

#[test]
fn discussion_query_weaves_user_and_window() {
    assert_eq!(
        discussion_query("alice", "2026-10-05T00:00:00Z"),
        "involves:alice updated:>2026-10-05T00:00:00Z"
    );
    let q = weekly_discussion_query("alice", 7);
    assert!(q.starts_with("involves:alice updated:>"));
    assert!(q.ends_with("Z"));
}
