use todo::git::{extract_issue_ids, resolving_issues};

fn ids(v: &[&str]) -> Vec<String> {
    v.iter().map(|s| s.to_string()).collect()
}

#[test]
fn test_parse_id_from_comment() {
    let cases = vec![
        ("todo: Title\n\nLong descriptive text.\n\nIssue: ICONSD-1234", ids(&["ICONSD-1234"])),
        ("Issue: ICONSD-1234", ids(&["ICONSD-1234"])),
        ("Issue: ICONSD-1234, ICONSD-4321", ids(&["ICONSD-1234", "ICONSD-4321"])),
    ];
    for (msg, expected) in cases {
        assert_eq!(extract_issue_ids(msg), expected);
    }
}

#[test]
fn issue_line_with_two_tickets() {
    let mut got = extract_issue_ids("feat: something\n\nIssue: TEST-1234, TEST-2222\n");
    got.sort();
    assert_eq!(got, ids(&["TEST-1234", "TEST-2222"]));
}

#[test]
fn message_without_issue_line() {
    assert_eq!(extract_issue_ids(""), ids(&[]));
    assert_eq!(extract_issue_ids("fix: typo"), ids(&[]));
    assert_eq!(extract_issue_ids("see Issue: A-1"), ids(&[]));
    assert_eq!(extract_issue_ids("issue: A-1"), ids(&[]));
}

#[test]
fn only_the_first_issue_line_counts() {
    assert_eq!(extract_issue_ids("Issue: A-1\nIssue: B-2"), ids(&["A-1"]));
}

#[test]
fn empty_pieces_are_dropped_and_pieces_trimmed() {
    assert_eq!(extract_issue_ids("Issue: ,A-1,, B-2 ,\t,"), ids(&["A-1", "B-2"]));
    assert_eq!(extract_issue_ids("Issue:A-1\u{3000},\u{a0}B-2"), ids(&["A-1", "B-2"]));
}

#[test]
fn list_runs_to_the_end_of_its_line() {
    assert_eq!(extract_issue_ids("Issue: A-1, B-2\nC-3"), ids(&["A-1", "B-2"]));
    assert_eq!(extract_issue_ids("Issue: A-1 \r\n"), ids(&["A-1"]));
}

#[test]
fn white_space_after_the_colon_may_span_lines() {
    assert_eq!(extract_issue_ids("Issue:\n  A-1, B-2\nrest"), ids(&["A-1", "B-2"]));
    assert_eq!(extract_issue_ids("Issue:   \n\n"), ids(&[]));
    assert_eq!(extract_issue_ids("Issue:"), ids(&[]));
}

#[test]
fn test_all_new_issues() {
    let messages = vec![
        "Add the first part\n\nIssue: TEST-1234, TEST-2222\n".to_string(),
        "Add the second part\n\nIssue: TEST-3333".to_string(),
        "Add the third part\n\nIssue: TEST-4444\n".to_string(),
    ];
    let mut got = resolving_issues(&messages);
    got.sort();
    assert_eq!(got, ids(&["TEST-1234", "TEST-2222", "TEST-3333", "TEST-4444"]));
}

#[test]
fn duplicates_across_commits_are_kept() {
    let messages = vec!["Issue: A-1".to_string(), "none".to_string(), "Issue: A-1, B-2".to_string()];
    assert_eq!(resolving_issues(&messages), ids(&["A-1", "A-1", "B-2"]));
    assert_eq!(resolving_issues(&vec![]), ids(&[]));
}
