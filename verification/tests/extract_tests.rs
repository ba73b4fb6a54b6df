use git_pull_requests::model::{ExtractionReason, PullRequestInfo};

fn extract(msg: &str) -> Result<PullRequestInfo, git_pull_requests::model::ExtractionError> {
    PullRequestInfo::from_message("deadbeef", Some(msg))
}

#[test]
fn well_formed_header_and_body() {
    let r = extract("Merge pull request #42 from alice/feature-x\nAdd feature X").unwrap();
    assert_eq!(r.id, 42);
    assert_eq!(r.author, "alice");
    assert_eq!(r.branch, "feature-x");
    assert_eq!(r.name, "Add feature X");
}

#[test]
fn header_only_yields_empty_name() {
    let r = extract("Merge pull request #7 from bob/fix").unwrap();
    assert_eq!(r.id, 7);
    assert_eq!(r.author, "bob");
    assert_eq!(r.branch, "fix");
    assert_eq!(r.name, "");
}

#[test]
fn branch_keeps_inner_slashes() {
    let r = extract("Merge pull request #3 from alice/feature/login\nBody").unwrap();
    assert_eq!(r.author, "alice");
    assert_eq!(r.branch, "feature/login");
}

#[test]
fn author_capture_is_non_greedy() {
    let r = extract("Merge pull request #1 from a/b/c").unwrap();
    assert_eq!(r.author, "a");
    assert_eq!(r.branch, "b/c");
}

#[test]
fn missing_message_fails() {
    let e = PullRequestInfo::from_message("abc123", None).unwrap_err();
    assert_eq!(e.commit_id, "abc123");
    assert!(matches!(e.reason, ExtractionReason::MissingMessage));
}

#[test]
fn empty_message_fails() {
    let e = extract("").unwrap_err();
    assert_eq!(e.commit_id, "deadbeef");
    assert!(matches!(e.reason, ExtractionReason::EmptyMessage));
}

#[test]
fn non_merge_header_fails() {
    let e = extract("Fix stuff\nsome body").unwrap_err();
    match e.reason {
        ExtractionReason::InvalidHeader(h) => assert_eq!(h, "Fix stuff"),
        _ => panic!("expected an invalid header"),
    }
}

#[test]
fn header_without_digits_fails() {
    let e = extract("Merge pull request # from alice/b").unwrap_err();
    assert!(matches!(e.reason, ExtractionReason::InvalidHeader(_)));
}

#[test]
fn header_without_branch_fails() {
    let e = extract("Merge pull request #5 from alice").unwrap_err();
    assert!(matches!(e.reason, ExtractionReason::InvalidHeader(_)));
}

#[test]
fn header_with_empty_branch_fails() {
    let e = extract("Merge pull request #5 from alice/").unwrap_err();
    assert!(matches!(e.reason, ExtractionReason::InvalidHeader(_)));
}

#[test]
fn header_with_empty_author_fails() {
    let e = extract("Merge pull request #5 from /branch").unwrap_err();
    assert!(matches!(e.reason, ExtractionReason::InvalidHeader(_)));
}

#[test]
fn id_at_maximum_parses() {
    let r = extract("Merge pull request #4294967295 from a/b").unwrap();
    assert_eq!(r.id, u32::MAX);
}

#[test]
fn id_above_maximum_fails() {
    let e = extract("Merge pull request #4294967296 from a/b").unwrap_err();
    match e.reason {
        ExtractionReason::InvalidId(d) => assert_eq!(d, "4294967296"),
        _ => panic!("expected an invalid id"),
    }
}

#[test]
fn body_is_joined_and_trimmed() {
    let r = extract("Merge pull request #9 from a/b\n\n  hello \n").unwrap();
    assert_eq!(r.name, "hello");
}

#[test]
fn body_keeps_inner_lines() {
    let r = extract("Merge pull request #9 from a/b\nfirst\nsecond").unwrap();
    assert_eq!(r.name, "first\nsecond");
}

#[test]
fn crlf_line_endings_are_handled() {
    let r = extract("Merge pull request #5 from a/b\r\nBody line\r\n").unwrap();
    assert_eq!(r.id, 5);
    assert_eq!(r.branch, "b");
    assert_eq!(r.name, "Body line");
}

#[test]
fn unicode_whitespace_is_trimmed() {
    let r = extract("Merge pull request #2 from a/b\n\u{00a0}hi\u{00a0}").unwrap();
    assert_eq!(r.name, "hi");
}

#[test]
fn prefix_must_start_the_header() {
    let e = extract("Revert: Merge pull request #42 from alice/feature-x").unwrap_err();
    assert!(matches!(e.reason, ExtractionReason::InvalidHeader(_)));
}

#[test]
fn leading_zeros_parse() {
    let r = extract("Merge pull request #0042 from alice/b").unwrap();
    assert_eq!(r.id, 42);
}
