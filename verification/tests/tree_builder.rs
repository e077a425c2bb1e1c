use dredger::builder::{Request, TreeBuilder};
use dredger::errors::{DredgerError, TokenizerError};
use dredger::tokens::{count_tokens, load_tokenizer};
use dredger::tree::{RepoContent, RepoNode};

fn word_tokenizer(vocab: &[(&str, u32)], unk: Option<&str>) -> tokenizers::Tokenizer {
    let mut entries = String::new();
    for (i, (w, id)) in vocab.iter().enumerate() {
        if i > 0 {
            entries.push(',');
        }
        entries.push_str(&format!("\"{}\":{}", w, id));
    }
    let unk_token = unk.unwrap_or("[UNK]");
    let json = format!(
        "{{\"version\":\"1.0\",\"truncation\":null,\"padding\":null,\"added_tokens\":[],\"normalizer\":null,\"pre_tokenizer\":{{\"type\":\"Whitespace\"}},\"post_processor\":null,\"decoder\":null,\"model\":{{\"type\":\"WordLevel\",\"vocab\":{{{}}},\"unk_token\":\"{}\"}}}}",
        entries, unk_token
    );
    tokenizers::Tokenizer::from_bytes(json.as_bytes()).expect("tokenizer json should load")
}

fn entry(name: &str, path: &str, kind: &str) -> RepoContent {
    RepoContent {
        name: name.to_string(),
        path: path.to_string(),
        kind: kind.to_string(),
        content: None,
    }
}

#[test]
fn count_tokens_counts_words() {
    let tok = word_tokenizer(&[("#", 0), ("hello", 1)], None);
    assert_eq!(count_tokens("# hello", &tok).unwrap(), 2);
}

#[test]
fn count_tokens_fails_without_unknown_token() {
    let tok = word_tokenizer(&[("#", 0)], None);
    let err = count_tokens("# mystery", &tok).unwrap_err();
    assert!(matches!(err, TokenizerError::TokenizationError(_)));
}

#[test]
fn load_tokenizer_missing_file_fails() {
    let err = load_tokenizer("/no/such/tokenizer/model.json").unwrap_err();
    assert_eq!(
        err,
        TokenizerError::FileNotFound("/no/such/tokenizer/model.json".to_string())
    );
}

#[test]
fn builder_sums_tokens_over_subdirectories() {
    // One file "a.py" saying "# hello" and one subdirectory "sub" holding
    // "b.py" saying "# world": the root count is the sum of both files.
    let tok = word_tokenizer(&[("#", 0), ("hello", 1), ("world", 2)], None);
    let mut b = TreeBuilder::new(String::new(), tok);
    match b.pending_request() {
        Some(Request::Listing { path }) => assert_eq!(path, ""),
        other => panic!("expected a listing request, got {:?}", other.is_some()),
    }
    b.on_listing(vec![entry("a.py", "a.py", "file"), entry("sub", "sub", "dir")]);
    match b.pending_request() {
        Some(Request::FileContent { path }) => assert_eq!(path, "a.py"),
        _ => panic!("expected a file-content request"),
    }
    b.on_file_content(Some("# hello".to_string()));
    match b.pending_request() {
        Some(Request::Listing { path }) => assert_eq!(path, "sub"),
        _ => panic!("expected the subdirectory listing request"),
    }
    b.on_listing(vec![entry("b.py", "sub/b.py", "file")]);
    b.on_file_content(Some("# world".to_string()));
    assert!(b.pending_request().is_none());
    let root = b.outcome().unwrap();
    assert_eq!(root.token_count(), 4);
    match &root {
        RepoNode::Directory { name, path, children, token_count } => {
            assert_eq!(name, "");
            assert_eq!(path, "");
            assert_eq!(*token_count, 4);
            assert_eq!(children.len(), 2);
            match &children[0] {
                RepoNode::File { path, content, token_count, .. } => {
                    assert_eq!(path, "a.py");
                    assert_eq!(content, "# hello");
                    assert_eq!(*token_count, 2);
                },
                _ => panic!("first child should be the file"),
            }
            match &children[1] {
                RepoNode::Directory { path, children, token_count, .. } => {
                    assert_eq!(path, "sub");
                    assert_eq!(*token_count, 2);
                    assert_eq!(children.len(), 1);
                },
                _ => panic!("second child should be the subdirectory"),
            }
        },
        _ => panic!("root should be a directory"),
    }
}

#[test]
fn builder_downgrades_failed_fetch_to_placeholder() {
    // A 404 on one file's content must not abort the build: the file gets
    // the placeholder text and its sibling is still visited.
    let tok = word_tokenizer(
        &[("#", 0), ("hello", 1), ("Failed", 2), ("to", 3), ("fetch", 4), ("content", 5)],
        None,
    );
    let mut b = TreeBuilder::new(String::new(), tok);
    b.on_listing(vec![
        entry("bad.py", "bad.py", "file"),
        entry("good.py", "good.py", "file"),
    ]);
    b.on_file_content(None);
    match b.pending_request() {
        Some(Request::FileContent { path }) => assert_eq!(path, "good.py"),
        _ => panic!("the sibling should still be visited"),
    }
    b.on_file_content(Some("# hello".to_string()));
    let root = b.outcome().unwrap();
    match &root {
        RepoNode::Directory { children, token_count, .. } => {
            assert_eq!(children.len(), 2);
            match &children[0] {
                RepoNode::File { content, token_count, .. } => {
                    assert_eq!(content, "Failed to fetch content");
                    assert_eq!(*token_count, 4);
                },
                _ => panic!("expected a file"),
            }
            assert_eq!(*token_count, 6);
        },
        _ => panic!("root should be a directory"),
    }
}

#[test]
fn builder_aborts_on_tokenization_failure() {
    // A tokenizer failure on any file aborts the whole build: no tree, not
    // even a partial one.
    let tok = word_tokenizer(&[("#", 0)], None);
    let mut b = TreeBuilder::new(String::new(), tok);
    b.on_listing(vec![
        entry("a.py", "a.py", "file"),
        entry("b.py", "b.py", "file"),
    ]);
    b.on_file_content(Some("# mystery".to_string()));
    assert!(b.pending_request().is_none());
    let err = b.outcome().unwrap_err();
    assert!(matches!(
        err,
        DredgerError::TokenizerError(TokenizerError::TokenizationError(_))
    ));
}

#[test]
fn builder_aborts_on_listing_failure() {
    let tok = word_tokenizer(&[("#", 0)], None);
    let mut b = TreeBuilder::new(String::new(), tok);
    b.on_listing_failure(500, "server error");
    let err = b.outcome().unwrap_err();
    assert_eq!(
        err,
        DredgerError::GithubClientError(
            "Failed to fetch repository contents: 500: server error".to_string()
        )
    );
}

#[test]
fn builder_skips_unknown_entry_kinds() {
    let tok = word_tokenizer(&[("#", 0), ("hello", 1)], None);
    let mut b = TreeBuilder::new(String::new(), tok);
    b.on_listing(vec![
        entry("link", "link", "symlink"),
        entry("a.py", "a.py", "file"),
    ]);
    b.on_file_content(Some("# hello".to_string()));
    let root = b.outcome().unwrap();
    match &root {
        RepoNode::Directory { children, token_count, .. } => {
            assert_eq!(children.len(), 1);
            assert_eq!(*token_count, 2);
        },
        _ => panic!("root should be a directory"),
    }
}

fn file(path: &str, content: &str, token_count: usize) -> RepoNode {
    RepoNode::File {
        name: path.rsplit('/').next().unwrap().to_string(),
        path: path.to_string(),
        content: content.to_string(),
        token_count,
    }
}

fn dir(path: &str, children: Vec<RepoNode>) -> RepoNode {
    let token_count = children.iter().map(|c| c.token_count()).sum();
    RepoNode::Directory {
        name: path.to_string(),
        path: path.to_string(),
        children,
        token_count,
    }
}

#[test]
fn iter_walks_stack_order() {
    let tree = dir("", vec![file("a.py", "x", 1), dir("sub", vec![file("sub/b.py", "y", 2)])]);
    let mut it = tree.iter();
    let mut paths: Vec<String> = Vec::new();
    while let Some(node) = it.next() {
        let p = match node {
            RepoNode::File { path, .. } => path.clone(),
            RepoNode::Directory { path, .. } => path.clone(),
        };
        paths.push(p);
    }
    assert_eq!(paths, vec!["", "sub", "sub/b.py", "a.py"]);
}

#[test]
fn to_string_renders_indented_listing() {
    let tree = dir("", vec![file("a.py", "x", 3)]);
    let rendered = tree.to_string();
    assert_eq!(
        rendered,
        "\u{1F4C1}  () - Token count=3\n  \u{1F4C4} a.py (a.py) - Token count=3\n"
    );
}

#[test]
fn builder_accepts_empty_listing() {
    let tok = word_tokenizer(&[("#", 0)], None);
    let mut b = TreeBuilder::new(String::new(), tok);
    b.on_listing(vec![]);
    let root = b.outcome().unwrap();
    assert_eq!(root.token_count(), 0);
    match &root {
        RepoNode::Directory { children, .. } => assert!(children.is_empty()),
        _ => panic!("root should be a directory"),
    }
}

#[test]
fn builder_handles_nested_empty_directories() {
    let tok = word_tokenizer(&[("#", 0)], None);
    let mut b = TreeBuilder::new(String::new(), tok);
    b.on_listing(vec![entry("outer", "outer", "dir")]);
    match b.pending_request() {
        Some(Request::Listing { path }) => assert_eq!(path, "outer"),
        _ => panic!("expected the nested listing request"),
    }
    b.on_listing(vec![entry("inner", "outer/inner", "dir")]);
    b.on_listing(vec![]);
    let root = b.outcome().unwrap();
    assert_eq!(root.token_count(), 0);
}

#[test]
fn load_tokenizer_unreadable_model_fails() {
    // The path exists but holds no tokenizer model.
    let err = load_tokenizer("/").unwrap_err();
    assert!(matches!(err, TokenizerError::LoadError(_)));
}
