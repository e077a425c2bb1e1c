//! Project-context extraction: find a README in the tree and derive a short
//! excerpt from its first lines. A pure function of the tree — no remote
//! calls are made here.
use crate::text::{first_n, join_nl, lines_spec, join_first_n, split_lines};
use crate::tree::{readme_content, NodeV, RepoNode};
use vstd::prelude::*;

verus! {

/// How many leading README lines seed the project context.
pub const CONTEXT_LINES: usize = 10;

/// The context a README text yields: its first ten lines, joined by
/// newlines.
pub open spec fn context_of_readme(readme: Seq<char>) -> Seq<char> {
    join_nl(first_n(lines_spec(readme), CONTEXT_LINES as int))
}

/// The project context of a tree: the first ten lines of its first
/// README-like file, or empty when there is none.
pub open spec fn context_of_tree(n: NodeV) -> Seq<char> {
    match readme_content(n) {
        Option::Some(c) => context_of_readme(c),
        Option::None => Seq::empty(),
    }
}

/// The first ten lines of a README text, joined by newlines.
pub fn extract_project_context(readme: &str) -> (r: String)
    ensures
        r@ == context_of_readme(readme@),
{
    let lines = split_lines(readme);
    join_first_n(&lines, CONTEXT_LINES)
}

impl RepoNode {
    /// The project context of this tree.
    pub fn project_context(&self) -> (r: String)
        ensures
            r@ == context_of_tree(self@),
    {
        match self.find_readme() {
            Some(content) => extract_project_context(content.as_str()),
            None => String::new(),
        }
    }
}

/// Context extraction is idempotent: it depends on the tree alone, so any
/// two extractions from the same unchanged tree yield the identical string.
pub proof fn lemma_context_extraction_deterministic(n: NodeV, r1: Seq<char>, r2: Seq<char>)
    requires
        r1 == context_of_tree(n),
        r2 == context_of_tree(n),
    ensures
        r1 == r2,
{
}

} // verus!
