use dredger::context::extract_project_context;
use dredger::docgen::{doc_query, extract_comments, DredgerDoc};
use dredger::pipeline::Pipeline;
use dredger::tree::RepoNode;

fn file(path: &str, content: &str) -> RepoNode {
    RepoNode::File {
        name: path.rsplit('/').next().unwrap().to_string(),
        path: path.to_string(),
        content: content.to_string(),
        token_count: 1,
    }
}

fn dir(path: &str, children: Vec<RepoNode>) -> RepoNode {
    let token_count = children.iter().map(|c| c.token_count()).sum();
    RepoNode::Directory {
        name: path.to_string(),
        path: path.to_string(),
        children,
        token_count,
    }
}

#[test]
fn extract_comments_keeps_comment_lines_only() {
    let reply = "Here you go:\n//! Does things.\n   // indented note\ncode();\n\t//! tail";
    assert_eq!(
        extract_comments(reply),
        "//! Does things.\n   // indented note\n\t//! tail"
    );
    assert_eq!(extract_comments("no comments here"), "");
    assert_eq!(extract_comments(""), "");
}

#[test]
fn extract_project_context_takes_first_ten_lines() {
    let readme = "l1\nl2\nl3\nl4\nl5\nl6\nl7\nl8\nl9\nl10\nl11\nl12";
    assert_eq!(
        extract_project_context(readme),
        "l1\nl2\nl3\nl4\nl5\nl6\nl7\nl8\nl9\nl10"
    );
    assert_eq!(extract_project_context("only\ntwo"), "only\ntwo");
    assert_eq!(extract_project_context(""), "");
}

#[test]
fn extract_project_context_is_idempotent_on_unchanged_input() {
    // Context extraction depends on the tree alone: running it twice on
    // the same unchanged tree yields the identical string.
    let tree = dir("", vec![file("README.md", "# Title\nBody"), file("a.rs", "fn a() {}")]);
    let once = tree.project_context();
    let twice = tree.project_context();
    assert_eq!(once, twice);
    assert_eq!(once, "# Title\nBody");
}

#[test]
fn doc_query_skips_unrecognized_extensions() {
    // A path without the recognized source extension never triggers a
    // model query.
    assert!(doc_query("notes.txt", "text", "ctx").is_none());
    assert!(doc_query("README", "text", "ctx").is_none());
    let q = doc_query("src/lib.rs", "fn x() {}", "ctx").unwrap();
    assert_eq!(q.model, "llama3.1");
    assert_eq!(q.prompt, "fn x() {}");
    assert!(q.system.contains("src/lib.rs"));
    assert!(q.system.ends_with("ctx"));
    assert_eq!(q.examples.len(), 2);
}

#[test]
fn pipeline_runs_summary_then_files() {
    let tree = dir(
        "",
        vec![
            file("README.md", "A tool.\nIt does things."),
            file("notes.txt", "not source"),
            dir("src", vec![file("src/lib.rs", "fn lib() {}")]),
            file("main.rs", "fn main() {}"),
        ],
    );
    let mut p = Pipeline::new(&tree);
    let summary_q = p.pending_query().expect("a summary should be pending");
    assert_eq!(summary_q.prompt, "A tool.\nIt does things.");
    p.on_summary(Some("A concise summary.".to_string()));
    assert!(!p.done());

    // Files are visited youngest sibling first; the text file is skipped
    // entirely, so only the two Rust files are planned.
    let q1 = p.pending_query().expect("first doc query");
    assert_eq!(q1.prompt, "fn main() {}");
    assert!(q1.system.ends_with("A concise summary."));
    p.on_doc_response(Some("//! Entry point.\nextra".to_string()));

    let q2 = p.pending_query().expect("second doc query");
    assert_eq!(q2.prompt, "fn lib() {}");
    p.on_doc_response(Some("no doc lines in this reply".to_string()));

    assert!(p.done());
    assert!(p.pending_query().is_none());
    let docs = p.results();
    assert_eq!(
        docs,
        vec![DredgerDoc {
            file_path: "main.rs".to_string(),
            comments: "//! Entry point.".to_string(),
        }]
    );
}

#[test]
fn pipeline_without_readme_skips_summary() {
    let tree = dir("", vec![file("a.rs", "fn a() {}")]);
    let mut p = Pipeline::new(&tree);
    let q = p.pending_query().expect("a doc query should be pending");
    assert_eq!(q.prompt, "fn a() {}");
    assert!(q.system.ends_with(": "));
    p.on_doc_response(None);
    assert!(p.done());
    assert_eq!(p.results(), vec![]);
}

#[test]
fn pipeline_summary_failure_empties_context() {
    // A summarization failure degrades to an empty context: the raw
    // excerpt is not kept in the prompts.
    let tree = dir("", vec![file("README", "Raw context."), file("a.rs", "fn a() {}")]);
    let mut p = Pipeline::new(&tree);
    p.pending_query().expect("a summary should be pending");
    p.on_summary(None);
    let q = p.pending_query().expect("a doc query should be pending");
    assert!(!q.system.contains("Raw context."));
    assert!(q.system.ends_with(": "));
}

#[test]
fn readme_search_stops_at_first_match_in_walk_order() {
    let tree = dir(
        "",
        vec![
            file("README", "elder readme"),
            dir("sub", vec![file("sub/README.md", "younger readme")]),
        ],
    );
    // The stack-driven walk visits the youngest sibling's subtree first.
    assert_eq!(tree.project_context(), "younger readme");
}
