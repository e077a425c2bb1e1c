//! Per-file documentation generation: the prompts sent to the model, and
//! the extraction of documentation-style lines from its free-text reply.
//! Only files with a recognized source extension are documented; a file
//! whose reply yields no documentation lines produces no record at all.
use crate::text::{doc_lines, ends_with, filter_doc_lines, join_nl, lines_spec, split_lines,
    str_ends_with};
use vstd::prelude::*;

verus! {

/// The output record of the pipeline: a file path paired with the
/// documentation block extracted for it.
#[derive(Debug, PartialEq, Eq)]
pub struct DredgerDoc {
    pub file_path: String,
    pub comments: String,
}

/// The mathematical value of a `DredgerDoc`.
pub struct DocV {
    pub file_path: Seq<char>,
    pub comments: Seq<char>,
}

impl View for DredgerDoc {
    type V = DocV;

    open spec fn view(&self) -> DocV {
        DocV { file_path: self.file_path@, comments: self.comments@ }
    }
}

/// One generation request to the model-serving endpoint: the model name,
/// the user prompt, the system instruction, and few-shot example pairs.
pub struct OllamaRequest {
    pub model: String,
    pub prompt: String,
    pub system: String,
    pub examples: Vec<(String, String)>,
}

/// The mathematical value of an `OllamaRequest`.
pub struct RequestV {
    pub model: Seq<char>,
    pub prompt: Seq<char>,
    pub system: Seq<char>,
    pub examples: Seq<(Seq<char>, Seq<char>)>,
}

impl View for OllamaRequest {
    type V = RequestV;

    open spec fn view(&self) -> RequestV {
        RequestV {
            model: self.model@,
            prompt: self.prompt@,
            system: self.system@,
            examples: Seq::new(self.examples@.len(), |i: int| (self.examples@[i].0@,
                self.examples@[i].1@)),
        }
    }
}

/// The documentation-style lines of a model reply, joined by newlines: the
/// lines whose trimmed text starts with the single-line comment marker.
pub open spec fn comments_spec(s: Seq<char>) -> Seq<char> {
    join_nl(doc_lines(lines_spec(s)))
}

/// Extract the documentation-style lines of a model reply.
pub fn extract_comments(output: &str) -> (r: String)
    ensures
        r@ == comments_spec(output@),
{
    let lines = split_lines(output);
    filter_doc_lines(&lines)
}

/// The system instruction for a per-file documentation request: the
/// persona, the file's path, and the project context, which the model is
/// told never to restate.
pub open spec fn doc_system_prompt_spec(path: Seq<char>, ctx: Seq<char>) -> Seq<char> {
    "You are an AI that generates Rust doc comments using `//!` style. It's very important that you use //! for comments. Given a file or section of a file, write concise, idiomatic Rust documentation that explains its purpose, usage, and important details. This file is found at "@
        + path
        + ".\nLastly, here is a project overview to help you generate docs. DO NOT include this summary, or any variation, in your docs!: "@
        + ctx
}

/// Build the system instruction for a per-file documentation request.
pub fn doc_system_prompt(path: &str, ctx: &str) -> (r: String)
    ensures
        r@ == doc_system_prompt_spec(path@, ctx@),
{
    let mut s =
        "You are an AI that generates Rust doc comments using `//!` style. It's very important that you use //! for comments. Given a file or section of a file, write concise, idiomatic Rust documentation that explains its purpose, usage, and important details. This file is found at ".to_owned();
    s.append(path);
    s.append(
        ".\nLastly, here is a project overview to help you generate docs. DO NOT include this summary, or any variation, in your docs!: ",
    );
    s.append(ctx);
    s
}

/// The few-shot examples of a per-file documentation request.
pub open spec fn doc_examples_spec() -> Seq<(Seq<char>, Seq<char>)> {
    seq![
        (
            "fn add_totals(a: u32, b: u32) -> u32 { a + b }"@,
            "//! Adds two running totals.\n//!\n//! # Arguments\n//! * `a` - The first total.\n//! * `b` - The second total.\n//!\n//! # Returns\n//! The combined total."@,
        ),
        (
            "struct Config { timeout: u32, verbose: bool }"@,
            "//! Holds configuration settings for the application.\n//!\n//! Includes parameters for timeout and verbosity."@,
        ),
    ]
}

fn doc_examples() -> (r: Vec<(String, String)>)
    ensures
        Seq::new(r@.len(), |i: int| (r@[i].0@, r@[i].1@)) == doc_examples_spec(),
{
    let mut v: Vec<(String, String)> = Vec::new();
    v.push(
        (
            "fn add_totals(a: u32, b: u32) -> u32 { a + b }".to_owned(),
            "//! Adds two running totals.\n//!\n//! # Arguments\n//! * `a` - The first total.\n//! * `b` - The second total.\n//!\n//! # Returns\n//! The combined total.".to_owned(),
        ),
    );
    v.push(
        (
            "struct Config { timeout: u32, verbose: bool }".to_owned(),
            "//! Holds configuration settings for the application.\n//!\n//! Includes parameters for timeout and verbosity.".to_owned(),
        ),
    );
    proof {
        assert(Seq::new(v@.len(), |i: int| (v@[i].0@, v@[i].1@)) =~= doc_examples_spec());
    }
    v
}

/// The whole request generated for one source file.
pub open spec fn doc_request_spec(path: Seq<char>, content: Seq<char>, ctx: Seq<char>) -> RequestV {
    RequestV {
        model: "llama3.1"@,
        prompt: content,
        system: doc_system_prompt_spec(path, ctx),
        examples: doc_examples_spec(),
    }
}

/// The request to send for one file, or nothing: a file whose path lacks
/// the recognized source extension `.rs` is skipped entirely — no model
/// query is ever made for it.
pub fn doc_query(path: &str, content: &str, ctx: &str) -> (r: Option<OllamaRequest>)
    ensures
        r is Some <==> ends_with(path@, ".rs"@),
        r matches Some(q) ==> q@ == doc_request_spec(path@, content@, ctx@),
{
    if !str_ends_with(path, ".rs") {
        return None;
    }
    let q = OllamaRequest {
        model: "llama3.1".to_owned(),
        prompt: content.to_owned(),
        system: doc_system_prompt(path, ctx),
        examples: doc_examples(),
    };
    proof {
        assert(q@.examples =~= doc_examples_spec());
    }
    Some(q)
}

/// The record for one file given the model's reply: the extracted
/// documentation block, or nothing when no documentation-style line was
/// found.
pub fn doc_from_response(path: &str, response: &str) -> (r: Option<DredgerDoc>)
    ensures
        comments_spec(response@).len() > 0 ==> (r matches Some(d) && d.file_path@ == path@
            && d.comments@ == comments_spec(response@)),
        comments_spec(response@).len() == 0 ==> r is None,
{
    let comments = extract_comments(response);
    if comments.unicode_len() > 0 {
        Some(DredgerDoc { file_path: path.to_owned(), comments })
    } else {
        None
    }
}

/// The system instruction of a summarization request.
pub open spec fn summary_system_prompt_spec() -> Seq<char> {
    "You are an impersonal AI that summarizes the first 10 lines of a GitHub project's README. You should be very succinct and to the point, and just return a brief summary."@
}

/// The few-shot examples of a summarization request.
pub open spec fn summary_examples_spec() -> Seq<(Seq<char>, Seq<char>)> {
    seq![
        (
            "# RustyWeb - A Minimal Rust Web Server\n\nRustyWeb is a simple, lightweight web server built using Actix Web.\nIt serves HTTP requests efficiently and is designed for ease of use.\n\n## Features\n- Fast and lightweight\n- Built with Actix Web\n- Supports JSON API responses\n\n## Installation\nTo install dependencies, run:"@,
            "A lightweight web server built with Actix Web, designed for fast HTTP handling and JSON API support."@,
        ),
        (
            "# RustyTodo - A Simple CLI Todo List\n\nRustyTodo is a minimalistic command-line todo list manager written in Rust.\nIt saves tasks to a file and allows easy task management.\n## Features\n- Add, remove, and list tasks\n- Persistent storage in a text file\n- Built in Rust for speed and safety\n\n## Usage\nRun the following command to start:"@,
            "A simple CLI-based todo list manager in Rust with persistent text file storage and task management commands."@,
        ),
    ]
}

fn summary_examples() -> (r: Vec<(String, String)>)
    ensures
        Seq::new(r@.len(), |i: int| (r@[i].0@, r@[i].1@)) == summary_examples_spec(),
{
    let mut v: Vec<(String, String)> = Vec::new();
    v.push(
        (
            "# RustyWeb - A Minimal Rust Web Server\n\nRustyWeb is a simple, lightweight web server built using Actix Web.\nIt serves HTTP requests efficiently and is designed for ease of use.\n\n## Features\n- Fast and lightweight\n- Built with Actix Web\n- Supports JSON API responses\n\n## Installation\nTo install dependencies, run:".to_owned(),
            "A lightweight web server built with Actix Web, designed for fast HTTP handling and JSON API support.".to_owned(),
        ),
    );
    v.push(
        (
            "# RustyTodo - A Simple CLI Todo List\n\nRustyTodo is a minimalistic command-line todo list manager written in Rust.\nIt saves tasks to a file and allows easy task management.\n## Features\n- Add, remove, and list tasks\n- Persistent storage in a text file\n- Built in Rust for speed and safety\n\n## Usage\nRun the following command to start:".to_owned(),
            "A simple CLI-based todo list manager in Rust with persistent text file storage and task management commands.".to_owned(),
        ),
    );
    proof {
        assert(Seq::new(v@.len(), |i: int| (v@[i].0@, v@[i].1@)) =~= summary_examples_spec());
    }
    v
}

/// The whole summarization request for a non-empty project context.
pub open spec fn summary_request_spec(ctx: Seq<char>) -> RequestV {
    RequestV {
        model: "llama3.1"@,
        prompt: ctx,
        system: summary_system_prompt_spec(),
        examples: summary_examples_spec(),
    }
}

/// The summarization request to send for a project context, or nothing
/// when the context is empty: no summarization is attempted then.
pub fn summary_query(ctx: &str) -> (r: Option<OllamaRequest>)
    ensures
        r is Some <==> ctx@.len() > 0,
        r matches Some(q) ==> q@ == summary_request_spec(ctx@),
{
    if ctx.unicode_len() == 0 {
        return None;
    }
    let q = OllamaRequest {
        model: "llama3.1".to_owned(),
        prompt: ctx.to_owned(),
        system: "You are an impersonal AI that summarizes the first 10 lines of a GitHub project's README. You should be very succinct and to the point, and just return a brief summary.".to_owned(),
        examples: summary_examples(),
    };
    proof {
        assert(q@.examples =~= summary_examples_spec());
    }
    Some(q)
}

} // verus!
