//! The repository tree: listing entries as the hosting API reports them,
//! and the immutable `RepoNode` tree with per-node token accounting.
use crate::text::ends_with;
use vstd::prelude::*;

verus! {

/// One entry of a hosting-API contents response: a name, a slash-separated
/// path relative to the repository root, the entry kind (`"file"` or
/// `"dir"`), and, for single-file responses only, the base64-encoded
/// content.
#[derive(Debug)]
pub struct RepoContent {
    pub name: String,
    pub path: String,
    pub kind: String,
    pub content: Option<String>,
}

/// The mathematical value of a `RepoContent`.
pub struct ContentV {
    pub name: Seq<char>,
    pub path: Seq<char>,
    pub kind: Seq<char>,
    pub content: Option<Seq<char>>,
}

impl View for RepoContent {
    type V = ContentV;

    open spec fn view(&self) -> ContentV {
        ContentV {
            name: self.name@,
            path: self.path@,
            kind: self.kind@,
            content: match self.content {
                Option::Some(c) => Option::Some(c@),
                Option::None => Option::None,
            },
        }
    }
}

/// One node of the repository tree: a file with its decoded text and token
/// count, or a directory with its children in listing order and the sum of
/// their token counts.
#[derive(Debug)]
pub enum RepoNode {
    File { name: String, path: String, content: String, token_count: usize },
    Directory { name: String, path: String, children: Vec<RepoNode>, token_count: usize },
}

/// The mathematical value of a `RepoNode`.
pub enum NodeV {
    File { name: Seq<char>, path: Seq<char>, content: Seq<char>, token_count: int },
    Directory { name: Seq<char>, path: Seq<char>, children: Seq<NodeV>, token_count: int },
}

/// The mathematical value of a node.
pub open spec fn node_view(n: RepoNode) -> NodeV
    decreases n, 0int,
{
    match n {
        RepoNode::File { name, path, content, token_count } => NodeV::File {
            name: name@,
            path: path@,
            content: content@,
            token_count: token_count as int,
        },
        RepoNode::Directory { name, path, children, token_count } => NodeV::Directory {
            name: name@,
            path: path@,
            children: node_views_from(children@, 0),
            token_count: token_count as int,
        },
    }
}

/// The mathematical values of the nodes from index `i` on.
pub open spec fn node_views_from(s: Seq<RepoNode>, i: int) -> Seq<NodeV>
    decreases s, s.len() - i,
{
    if i < 0 || i >= s.len() {
        Seq::empty()
    } else {
        seq![node_view(s[i])] + node_views_from(s, i + 1)
    }
}

/// `node_views_from` maps each node to its value, in order.
pub proof fn lemma_node_views_from(s: Seq<RepoNode>, i: int)
    requires
        0 <= i <= s.len(),
    ensures
        node_views_from(s, i).len() == s.len() - i,
        forall|k: int|
            0 <= k < s.len() - i ==> node_views_from(s, i)[k] == node_view(s[i + k]),
    decreases s.len() - i,
{
    if i < s.len() {
        lemma_node_views_from(s, i + 1);
    }
}

impl View for RepoNode {
    type V = NodeV;

    open spec fn view(&self) -> NodeV {
        node_view(*self)
    }
}

impl NodeV {
    /// The token count of the node, whichever variant it is.
    pub open spec fn token_count(self) -> int {
        match self {
            NodeV::File { token_count, .. } => token_count,
            NodeV::Directory { token_count, .. } => token_count,
        }
    }
}

/// The sum of the token counts of the given nodes.
pub open spec fn sum_tokens(children: Seq<NodeV>) -> int
    decreases children.len(),
{
    if children.len() == 0 {
        0
    } else {
        sum_tokens(children.drop_last()) + children.last().token_count()
    }
}

/// Token accounting is correct throughout the tree: every directory's token
/// count equals the sum of its direct children's counts, recursively, and
/// every count is non-negative.
pub open spec fn node_wf(n: NodeV) -> bool
    decreases n,
{
    match n {
        NodeV::File { token_count, .. } => token_count >= 0,
        NodeV::Directory { children, token_count, .. } => token_count == sum_tokens(children)
            && token_count >= 0 && forall|i: int|
            0 <= i < children.len() ==> node_wf(#[trigger] children[i]),
    }
}

/// Token accounting: in a well-formed tree every directory's token count
/// equals the sum of its direct children's token counts, and so on
/// recursively for every child, each of which is well-formed again.
pub proof fn lemma_token_accounting(n: NodeV)
    requires
        node_wf(n),
    ensures
        n matches NodeV::Directory { children, token_count, .. } ==> token_count == sum_tokens(
            children,
        ) && forall|i: int| 0 <= i < children.len() ==> node_wf(#[trigger] children[i]),
{
}

impl RepoNode {
    /// The token count carried by this node.
    pub fn token_count(&self) -> (r: usize)
        ensures
            r as int == self@.token_count(),
    {
        match self {
            RepoNode::File { token_count, .. } => *token_count,
            RepoNode::Directory { token_count, .. } => *token_count,
        }
    }
}

/// A path names a README-like file.
pub open spec fn is_readme_path(p: Seq<char>) -> bool {
    ends_with(p, "README"@) || ends_with(p, "README.md"@)
}

/// The content of the first README-like file met on a depth-first walk
/// that visits the children of every directory from the last to the first,
/// as a stack-driven traversal does.
pub open spec fn readme_content(n: NodeV) -> Option<Seq<char>>
    decreases n, 0int,
{
    match n {
        NodeV::File { path, content, .. } => if is_readme_path(path) {
            Option::Some(content)
        } else {
            Option::None
        },
        NodeV::Directory { children, .. } => readme_from(children, 0),
    }
}

/// The README search over the children, from the `i`-th youngest on.
pub open spec fn readme_from(children: Seq<NodeV>, i: int) -> Option<Seq<char>>
    decreases children, children.len() - i,
{
    if i < 0 || i >= children.len() {
        Option::None
    } else {
        match readme_content(children[children.len() - 1 - i]) {
            Option::Some(c) => Option::Some(c),
            Option::None => readme_from(children, i + 1),
        }
    }
}

/// One file to document: its path and its decoded text.
pub struct FileTask {
    pub path: String,
    pub content: String,
}

/// The mathematical value of a `FileTask`.
pub struct TaskV {
    pub path: Seq<char>,
    pub content: Seq<char>,
}

impl View for FileTask {
    type V = TaskV;

    open spec fn view(&self) -> TaskV {
        TaskV { path: self.path@, content: self.content@ }
    }
}

/// The values of the given tasks, in order.
pub open spec fn tasks_view(v: Seq<FileTask>) -> Seq<TaskV> {
    Seq::new(v.len(), |i: int| v[i]@)
}

/// Every source file of the tree, in the order the stack-driven walk
/// visits files: the children of each directory from the last to the
/// first. A file counts as a source file when its path ends in `.rs`.
pub open spec fn source_files(n: NodeV) -> Seq<TaskV>
    decreases n, 0int,
{
    match n {
        NodeV::File { path, content, .. } => if ends_with(path, ".rs"@) {
            seq![TaskV { path, content }]
        } else {
            Seq::empty()
        },
        NodeV::Directory { children, .. } => source_files_from(children, 0),
    }
}

/// The source files of the children, from the `i`-th youngest on.
pub open spec fn source_files_from(children: Seq<NodeV>, i: int) -> Seq<TaskV>
    decreases children, children.len() - i,
{
    if i < 0 || i >= children.len() {
        Seq::empty()
    } else {
        source_files(children[children.len() - 1 - i]) + source_files_from(children, i + 1)
    }
}

/// Every collected source file has a `.rs` path: files without a
/// recognized source extension never enter the documentation plan.
pub proof fn lemma_source_files_are_rs(n: NodeV)
    ensures
        forall|k: int|
            0 <= k < source_files(n).len() ==> ends_with(
                #[trigger] source_files(n)[k].path,
                ".rs"@,
            ),
    decreases n, 0int,
{
    match n {
        NodeV::File { .. } => {
            let sf = source_files(n);
            assert forall|k: int| 0 <= k < sf.len() implies ends_with(sf[k].path, ".rs"@) by {
                assert(sf.len() > 0 ==> sf[0].path == n->File_path);
            }
        },
        NodeV::Directory { children, .. } => {
            lemma_source_files_from_are_rs(children, 0);
            let sf = source_files(n);
            assert forall|k: int| 0 <= k < sf.len() implies ends_with(sf[k].path, ".rs"@) by {
                assert(sf[k] == source_files_from(children, 0)[k]);
            }
        },
    }
}

pub proof fn lemma_source_files_from_are_rs(children: Seq<NodeV>, i: int)
    ensures
        forall|k: int|
            0 <= k < source_files_from(children, i).len() ==> ends_with(
                #[trigger] source_files_from(children, i)[k].path,
                ".rs"@,
            ),
    decreases children, children.len() - i,
{
    if 0 <= i < children.len() {
        lemma_source_files_are_rs(children[children.len() - 1 - i]);
        lemma_source_files_from_are_rs(children, i + 1);
        let head = source_files(children[children.len() - 1 - i]);
        let tail = source_files_from(children, i + 1);
        let whole = source_files_from(children, i);
        assert forall|k: int| 0 <= k < whole.len() implies ends_with(whole[k].path, ".rs"@) by {
            if k < head.len() {
                assert(whole[k] == head[k]);
            } else {
                assert(whole[k] == tail[k - head.len()]);
            }
        }
    }
}

impl RepoNode {
    /// The content of the first README-like file in the tree, if any.
    pub fn find_readme(&self) -> (r: Option<&String>)
        ensures
            match r {
                Option::Some(c) => readme_content(self@) == Option::Some(c@),
                Option::None => readme_content(self@) is None,
            },
        decreases *self, 0int,
    {
        match self {
            RepoNode::File { path, content, .. } => {
                if crate::text::str_ends_with(path.as_str(), "README") || crate::text::str_ends_with(
                    path.as_str(),
                    "README.md",
                ) {
                    Some(content)
                } else {
                    None
                }
            },
            RepoNode::Directory { children, .. } => {
                proof {
                    lemma_node_views_from(children@, 0);
                }
                readme_in_children(children, 0)
            },
        }
    }
}

/// The README search over the children, from the `i`-th youngest on.
fn readme_in_children(children: &Vec<RepoNode>, i: usize) -> (r: Option<&String>)
    requires
        i <= children.len(),
    ensures
        match r {
            Option::Some(c) => readme_from(node_views_from(children@, 0), i as int)
                == Option::Some(c@),
            Option::None => readme_from(node_views_from(children@, 0), i as int) is None,
        },
    decreases *children, children@.len() - i,
{
    broadcast use vstd::std_specs::vec::axiom_vec_index_decreases;

    proof {
        lemma_node_views_from(children@, 0);
    }
    if i >= children.len() {
        None
    } else {
        let idx = children.len() - 1 - i;
        let found = children[idx].find_readme();
        match found {
            Some(c) => Some(c),
            None => readme_in_children(children, i + 1),
        }
    }
}


impl RepoNode {
    /// Every source file of the tree, in the order the documentation
    /// pipeline visits files.
    pub fn source_file_tasks(&self) -> (r: Vec<FileTask>)
        ensures
            tasks_view(r@) == source_files(self@),
    {
        let mut out: Vec<FileTask> = Vec::new();
        proof {
            assert(tasks_view(Seq::empty()) =~= Seq::<TaskV>::empty());
        }
        collect_sources(self, &mut out);
        proof {
            assert(tasks_view(out@) =~= Seq::<TaskV>::empty() + source_files(self@));
        }
        out
    }
}

/// Append the source files of the subtree to the accumulator.
fn collect_sources(n: &RepoNode, out: &mut Vec<FileTask>)
    ensures
        tasks_view(final(out)@) == tasks_view(old(out)@) + source_files(n@),
    decreases *n, 0int,
{
    match n {
        RepoNode::File { path, content, .. } => {
            if crate::text::str_ends_with(path.as_str(), ".rs") {
                let task = FileTask { path: path.clone(), content: content.clone() };
                let ghost tv = task@;
                out.push(task);
                proof {
                    assert(tasks_view(out@) =~= tasks_view(old(out)@).push(tv));
                    assert(tasks_view(old(out)@).push(tv) =~= tasks_view(old(out)@) + seq![tv]);
                }
            } else {
                proof {
                    assert(tasks_view(out@) =~= tasks_view(old(out)@) + Seq::<TaskV>::empty());
                }
            }
        },
        RepoNode::Directory { children, .. } => {
            proof {
                lemma_node_views_from(children@, 0);
            }
            collect_sources_children(children, 0, out);
        },
    }
}

/// Append the source files of the children, from the `i`-th youngest on.
fn collect_sources_children(children: &Vec<RepoNode>, i: usize, out: &mut Vec<FileTask>)
    requires
        i <= children.len(),
    ensures
        tasks_view(final(out)@) == tasks_view(old(out)@) + source_files_from(
            node_views_from(children@, 0),
            i as int,
        ),
    decreases *children, children@.len() - i,
{
    broadcast use vstd::std_specs::vec::axiom_vec_index_decreases;

    proof {
        lemma_node_views_from(children@, 0);
    }
    if i >= children.len() {
        proof {
            assert(tasks_view(out@) =~= tasks_view(out@) + Seq::<TaskV>::empty());
        }
    } else {
        let idx = children.len() - 1 - i;
        collect_sources(&children[idx], out);
        collect_sources_children(children, i + 1, out);
        proof {
            let cv = node_views_from(children@, 0);
            assert(tasks_view(out@) =~= tasks_view(old(out)@) + (source_files(cv[idx as int])
                + source_files_from(cv, i + 1)));
        }
    }
}

/// One rendered line per node: an icon, the name, the path and the token
/// count, each directory's children indented two spaces further, in
/// listing order.
pub open spec fn render_spec(n: NodeV, indent: Seq<char>) -> Seq<char>
    decreases n, 0int,
{
    match n {
        NodeV::File { name, path, token_count, .. } => indent + "\u{1F4C4} "@ + name + " ("@
            + path + ") - Token count="@ + crate::text::dec_str(token_count) + seq!['\n'],
        NodeV::Directory { name, path, children, token_count } => indent + "\u{1F4C1} "@ + name
            + " ("@ + path + ") - Token count="@ + crate::text::dec_str(token_count)
            + seq!['\n'] + render_children(children, 0, indent + "  "@),
    }
}

/// The rendering of the children from index `i` on.
pub open spec fn render_children(children: Seq<NodeV>, i: int, indent: Seq<char>) -> Seq<char>
    decreases children, children.len() - i,
{
    if i < 0 || i >= children.len() {
        Seq::empty()
    } else {
        render_spec(children[i], indent) + render_children(children, i + 1, indent)
    }
}

impl RepoNode {
    /// Render the tree as an indented listing, one line per node.
    pub fn to_string(&self) -> (r: String)
        ensures
            r@ == render_spec(self@, Seq::empty()),
    {
        let mut out = String::new();
        render_node(self, "", &mut out);
        proof {
            reveal_strlit("");
            assert(("")@ =~= Seq::<char>::empty());
            assert(Seq::<char>::empty() + render_spec(self@, ("")@) =~= render_spec(
                self@,
                Seq::empty(),
            ));
        }
        out
    }
}

/// Append the rendering of the subtree at the given indent.
fn render_node(n: &RepoNode, indent: &str, out: &mut String)
    ensures
        final(out)@ == old(out)@ + render_spec(n@, indent@),
    decreases *n, 0int,
{
    match n {
        RepoNode::File { name, path, token_count, .. } => {
            out.append(indent);
            out.append("\u{1F4C4} ");
            out.append(name.as_str());
            out.append(" (");
            out.append(path.as_str());
            out.append(") - Token count=");
            let digits = crate::text::u64_to_dec(*token_count as u64);
            out.append(digits.as_str());
            out.append("\n");
            proof {
                reveal_strlit("\n");
                assert(("\n")@ =~= seq!['\n']);
                assert(out@ =~= old(out)@ + render_spec(n@, indent@));
            }
        },
        RepoNode::Directory { name, path, children, token_count } => {
            out.append(indent);
            out.append("\u{1F4C1} ");
            out.append(name.as_str());
            out.append(" (");
            out.append(path.as_str());
            out.append(") - Token count=");
            let digits = crate::text::u64_to_dec(*token_count as u64);
            out.append(digits.as_str());
            out.append("\n");
            let mut deeper = indent.to_owned();
            deeper.append("  ");
            proof {
                lemma_node_views_from(children@, 0);
            }
            render_node_children(children, 0, deeper.as_str(), out);
            proof {
                reveal_strlit("\n");
                assert(("\n")@ =~= seq!['\n']);
                assert(out@ =~= old(out)@ + render_spec(n@, indent@));
            }
        },
    }
}

/// Append the rendering of the children from index `i` on.
fn render_node_children(children: &Vec<RepoNode>, i: usize, indent: &str, out: &mut String)
    requires
        i <= children.len(),
    ensures
        final(out)@ == old(out)@ + render_children(node_views_from(children@, 0), i as int, indent@),
    decreases *children, children@.len() - i,
{
    broadcast use vstd::std_specs::vec::axiom_vec_index_decreases;

    proof {
        lemma_node_views_from(children@, 0);
    }
    if i >= children.len() {
        proof {
            assert(out@ =~= out@ + Seq::<char>::empty());
        }
    } else {
        render_node(&children[i], indent, out);
        render_node_children(children, i + 1, indent, out);
        proof {
            let cv = node_views_from(children@, 0);
            assert(out@ =~= old(out)@ + (render_spec(cv[i as int], indent@) + render_children(
                cv,
                i + 1,
                indent@,
            )));
        }
    }
}

/// The children of a node, or nothing for a file.
pub open spec fn children_of(n: NodeV) -> Seq<NodeV> {
    match n {
        NodeV::File { .. } => Seq::empty(),
        NodeV::Directory { children, .. } => children,
    }
}

/// A stack-driven walk over the tree: each step yields the top node and
/// opens its children, so a directory's children are visited from the
/// last to the first, each subtree completely before its elder siblings.
pub struct RepoNodeIter<'a> {
    stack: Vec<&'a RepoNode>,
}

impl<'a> RepoNodeIter<'a> {
    /// The nodes still on the stack, bottom first.
    pub closed spec fn stack_view(self) -> Seq<NodeV> {
        Seq::new(self.stack@.len(), |i: int| self.stack@[i]@)
    }

    /// A walk over the whole tree under `root`.
    pub fn new(root: &'a RepoNode) -> (it: RepoNodeIter<'a>)
        ensures
            it.stack_view() == seq![root@],
    {
        let mut stack: Vec<&'a RepoNode> = Vec::new();
        stack.push(root);
        let it = RepoNodeIter { stack };
        proof {
            assert(it.stack_view() =~= seq![root@]);
        }
        it
    }

    /// The next node of the walk: the top of the stack, replaced by its
    /// children in listing order, so the last child is visited first.
    pub fn next(&mut self) -> (r: Option<&'a RepoNode>)
        ensures
            old(self).stack_view().len() == 0 ==> r is None && final(self).stack_view() == old(
                self,
            ).stack_view(),
            old(self).stack_view().len() > 0 ==> (r matches Some(n) && n@ == old(
                self,
            ).stack_view().last() && final(self).stack_view() == old(self).stack_view().drop_last()
                + children_of(old(self).stack_view().last())),
    {
        let popped = self.stack.pop();
        match popped {
            None => {
                proof {
                    assert(self.stack_view() =~= old(self).stack_view());
                }
                None
            },
            Some(node) => {
                proof {
                    assert(self.stack_view() =~= old(self).stack_view().drop_last());
                }
                match node {
                    RepoNode::File { .. } => {
                        proof {
                            assert(self.stack_view() =~= old(self).stack_view().drop_last()
                                + children_of(node@));
                        }
                    },
                    RepoNode::Directory { children, .. } => {
                        let ghost base = self.stack_view();
                        proof {
                            lemma_node_views_from(children@, 0);
                        }
                        let n_children = children.len();
                        let mut i: usize = 0;
                        while i < n_children
                            invariant
                                i <= n_children,
                                n_children == children.len(),
                                self.stack_view() =~= base + Seq::new(
                                    i as nat,
                                    |j: int| children@[j]@,
                                ),
                            decreases n_children - i,
                        {
                            let ghost before = self.stack_view();
                            self.stack.push(&children[i]);
                            proof {
                                assert(self.stack_view() =~= before.push(children@[i as int]@));
                                assert(before.push(children@[i as int]@) =~= base + Seq::new(
                                    (i + 1) as nat,
                                    |j: int| children@[j]@,
                                ));
                            }
                            i = i + 1;
                        }
                        proof {
                            lemma_node_views_from(children@, 0);
                            assert(Seq::new(n_children as nat, |j: int| children@[j]@)
                                =~= children_of(node@));
                            assert(self.stack_view() =~= old(self).stack_view().drop_last()
                                + children_of(node@));
                        }
                    },
                }
                Some(node)
            },
        }
    }
}

impl RepoNode {
    /// A stack-driven walk over this tree.
    pub fn iter(&self) -> (it: RepoNodeIter<'_>)
        ensures
            it.stack_view() == seq![self@],
    {
        RepoNodeIter::new(self)
    }
}

} // verus!
