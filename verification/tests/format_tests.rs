use git_pull_requests::model::{Config, OutputFormat, PullRequestInfo};

fn record(id: u32, author: &str, branch: &str, name: &str) -> PullRequestInfo {
    PullRequestInfo {
        id,
        author: author.to_string(),
        branch: branch.to_string(),
        name: name.to_string(),
    }
}

fn config(repo_name: Option<&str>, omit_author: bool) -> Config {
    Config {
        output_format: OutputFormat::Markdown,
        repo_name: repo_name.map(|s| s.to_string()),
        omit_author,
    }
}

#[test]
fn default_markdown_line() {
    let cfg = config(None, false);
    let line = cfg.output_format.format(&record(42, "alice", "feature-x", "Add feature X"), &cfg);
    assert_eq!(line, " * #42 (by alice) - Add feature X");
}

#[test]
fn line_with_repo_name() {
    let cfg = config(Some("myrepo"), false);
    let line = cfg.output_format.format(&record(42, "alice", "feature-x", "Add feature X"), &cfg);
    assert_eq!(line, " * myrepo#42 (by alice) - Add feature X");
}

#[test]
fn line_without_author() {
    let cfg = config(None, true);
    let line = cfg.output_format.format(&record(42, "alice", "feature-x", "Add feature X"), &cfg);
    assert_eq!(line, " * #42 - Add feature X");
}

#[test]
fn empty_name_is_accepted_verbatim() {
    let cfg = config(None, false);
    let line = cfg.output_format.format(&record(7, "bob", "fix", ""), &cfg);
    assert_eq!(line, " * #7 (by bob) - ");
}

#[test]
fn id_zero_renders() {
    let cfg = config(None, true);
    let line = cfg.output_format.format(&record(0, "a", "b", "zero"), &cfg);
    assert_eq!(line, " * #0 - zero");
}

#[test]
fn id_maximum_renders() {
    let cfg = config(None, true);
    let line = cfg.output_format.format(&record(u32::MAX, "a", "b", "big"), &cfg);
    assert_eq!(line, " * #4294967295 - big");
}

#[test]
fn formatting_is_pure() {
    let cfg = config(Some("r"), false);
    let rec = record(3, "a", "b", "same");
    let one = cfg.output_format.format(&rec, &cfg);
    let two = cfg.output_format.format(&rec, &cfg);
    assert_eq!(one, two);
}

#[test]
fn format_name_markdown_is_recognized() {
    assert!(matches!(OutputFormat::from_name("markdown"), Some(OutputFormat::Markdown)));
}

#[test]
fn format_name_other_is_rejected() {
    assert!(OutputFormat::from_name("json").is_none());
    assert!(OutputFormat::from_name("").is_none());
    assert!(OutputFormat::from_name("Markdown").is_none());
}
