use git_pull_requests::is_merge_commit;
use git_pull_requests::model::{Config, ExtractionError, ExtractionReason, OutputFormat, PullRequestInfo};
use git_pull_requests::pipeline::{aggregate, run, CommitRecord};

fn config(repo_name: Option<&str>, omit_author: bool) -> Config {
    Config {
        output_format: OutputFormat::Markdown,
        repo_name: repo_name.map(|s| s.to_string()),
        omit_author,
    }
}

fn commit(id: &str, parent_count: usize, message: Option<&str>) -> CommitRecord {
    CommitRecord {
        id: id.to_string(),
        parent_count,
        message: message.map(|s| s.to_string()),
    }
}

fn record(id: u32, author: &str, branch: &str, name: &str) -> PullRequestInfo {
    PullRequestInfo {
        id,
        author: author.to_string(),
        branch: branch.to_string(),
        name: name.to_string(),
    }
}

#[test]
fn classifier_accepts_only_two_parents() {
    assert!(!is_merge_commit(0));
    assert!(!is_merge_commit(1));
    assert!(is_merge_commit(2));
    assert!(!is_merge_commit(3));
    assert!(!is_merge_commit(17));
}

#[test]
fn one_merge_commit_renders_one_line() {
    let commits = vec![commit(
        "c1",
        2,
        Some("Merge pull request #42 from alice/feature-x\nAdd feature X"),
    )];
    let out = run(&commits, &config(None, false), false);
    assert!(out.succeeded);
    assert!(out.errors.is_empty());
    assert_eq!(out.lines, vec![" * #42 (by alice) - Add feature X".to_string()]);
}

#[test]
fn omit_author_drops_the_author() {
    let commits = vec![commit(
        "c1",
        2,
        Some("Merge pull request #42 from alice/feature-x\nAdd feature X"),
    )];
    let out = run(&commits, &config(None, true), false);
    assert!(out.succeeded);
    assert_eq!(out.lines, vec![" * #42 - Add feature X".to_string()]);
}

#[test]
fn repo_name_prefixes_the_number() {
    let commits = vec![commit(
        "c1",
        2,
        Some("Merge pull request #42 from alice/feature-x\nAdd feature X"),
    )];
    let out = run(&commits, &config(Some("myrepo"), false), false);
    assert!(out.succeeded);
    assert_eq!(out.lines, vec![" * myrepo#42 (by alice) - Add feature X".to_string()]);
}

#[test]
fn malformed_merge_without_skip_aborts() {
    let commits = vec![commit("c1", 2, Some("not a merge header\nbody"))];
    let out = run(&commits, &config(None, false), false);
    assert!(!out.succeeded);
    assert!(out.lines.is_empty());
    assert_eq!(out.errors.len(), 1);
    assert_eq!(out.errors[0].commit_id, "c1");
}

#[test]
fn malformed_merge_with_skip_proceeds_without_lines() {
    let commits = vec![commit("c1", 2, Some("not a merge header\nbody"))];
    let out = run(&commits, &config(None, false), true);
    assert!(out.succeeded);
    assert!(out.lines.is_empty());
    assert_eq!(out.errors.len(), 1);
}

#[test]
fn skip_keeps_the_valid_records() {
    let commits = vec![
        commit("c1", 2, Some("Merge pull request #1 from a/b\nFirst")),
        commit("c2", 2, Some("broken")),
        commit("c3", 2, Some("Merge pull request #2 from c/d\nSecond")),
    ];
    let out = run(&commits, &config(None, false), true);
    assert!(out.succeeded);
    assert_eq!(
        out.lines,
        vec![" * #1 (by a) - First".to_string(), " * #2 (by c) - Second".to_string()]
    );
    assert_eq!(out.errors.len(), 1);
    assert_eq!(out.errors[0].commit_id, "c2");
}

#[test]
fn non_merge_commits_are_silently_excluded() {
    let commits = vec![
        commit("c1", 1, Some("Merge pull request #9 from a/b\nNot a merge")),
        commit("c2", 0, None),
        commit("c3", 3, Some("broken")),
    ];
    let out = run(&commits, &config(None, false), false);
    assert!(out.succeeded);
    assert!(out.lines.is_empty());
    assert!(out.errors.is_empty());
}

#[test]
fn merge_without_message_is_an_error() {
    let commits = vec![commit("c9", 2, None)];
    let out = run(&commits, &config(None, false), false);
    assert!(!out.succeeded);
    assert_eq!(out.errors.len(), 1);
    assert!(matches!(out.errors[0].reason, ExtractionReason::MissingMessage));
}

#[test]
fn lines_keep_the_supplied_order() {
    let commits = vec![
        commit("c1", 2, Some("Merge pull request #3 from x/y\nNewest")),
        commit("c2", 1, Some("ordinary commit")),
        commit("c3", 2, Some("Merge pull request #1 from x/z\nOldest")),
    ];
    let out = run(&commits, &config(None, true), false);
    assert_eq!(
        out.lines,
        vec![" * #3 - Newest".to_string(), " * #1 - Oldest".to_string()]
    );
}

#[test]
fn running_twice_gives_identical_output() {
    let commits = vec![
        commit("c1", 2, Some("Merge pull request #8 from a/b\nEight")),
        commit("c2", 2, Some("broken")),
    ];
    let cfg = config(Some("repo"), false);
    let first = run(&commits, &cfg, true);
    let second = run(&commits, &cfg, true);
    assert_eq!(first.lines, second.lines);
    assert_eq!(first.succeeded, second.succeeded);
    assert_eq!(first.errors.len(), second.errors.len());
}

#[test]
fn aggregate_separates_and_decides() {
    let results: Vec<Result<PullRequestInfo, ExtractionError>> = vec![
        Ok(record(1, "a", "b", "one")),
        Err(ExtractionError {
            commit_id: "c2".to_string(),
            reason: ExtractionReason::EmptyMessage,
        }),
        Ok(record(2, "c", "d", "two")),
    ];
    let agg = aggregate(results, false);
    assert!(!agg.proceed);
    assert_eq!(agg.records.len(), 2);
    assert_eq!(agg.records[0].id, 1);
    assert_eq!(agg.records[1].id, 2);
    assert_eq!(agg.errors.len(), 1);
    assert_eq!(agg.errors[0].commit_id, "c2");
}

#[test]
fn aggregate_with_skip_proceeds() {
    let results: Vec<Result<PullRequestInfo, ExtractionError>> = vec![Err(ExtractionError {
        commit_id: "c1".to_string(),
        reason: ExtractionReason::EmptyMessage,
    })];
    let agg = aggregate(results, true);
    assert!(agg.proceed);
    assert!(agg.records.is_empty());
}

#[test]
fn aggregate_without_failures_proceeds() {
    let results: Vec<Result<PullRequestInfo, ExtractionError>> =
        vec![Ok(record(5, "a", "b", "five"))];
    let agg = aggregate(results, false);
    assert!(agg.proceed);
    assert_eq!(agg.records.len(), 1);
    assert!(agg.errors.is_empty());
}
