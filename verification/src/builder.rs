//! The tree builder: a step machine that reconstructs the repository tree
//! from directory listings and file contents handed in by a driver. The
//! machine owns every decision — which request comes next, how children
//! are ordered, how token counts aggregate, and which failures are fatal —
//! while the driver only performs the remote requests.
//!
//! Failure policy, as the build demands: a listing failure or a tokenizer
//! failure aborts the whole build and no tree is returned; a single file's
//! content-fetch failure only downgrades that file to a placeholder text,
//! and its siblings are still visited.
use crate::errors::{DredgerError, TokenizerError};
use crate::text::dec_str;
use crate::tokens::count_tokens;
use crate::tree::{
    node_views_from, node_wf, sum_tokens, ContentV, NodeV, RepoContent, RepoNode,
};
use vstd::prelude::*;

verus! {

/// The text recorded for a file whose content could not be fetched.
pub open spec fn placeholder_text() -> Seq<char> {
    "Failed to fetch content"@
}

/// One directory whose listing has arrived and whose entries are being
/// worked through: the directory path, its entries in listing order, the
/// index of the next entry to process, and the children built so far.
pub struct Frame {
    pub path: String,
    pub entries: Vec<RepoContent>,
    pub next: usize,
    pub children: Vec<RepoNode>,
}

/// The mathematical value of a `Frame`.
pub struct FrameV {
    pub path: Seq<char>,
    pub entries: Seq<ContentV>,
    pub next: int,
    pub children: Seq<NodeV>,
}

/// The values of the given listing entries, in order.
pub open spec fn contents_view(s: Seq<RepoContent>) -> Seq<ContentV> {
    Seq::new(s.len(), |i: int| s[i]@)
}

impl View for Frame {
    type V = FrameV;

    open spec fn view(&self) -> FrameV {
        FrameV {
            path: self.path@,
            entries: contents_view(self.entries@),
            next: self.next as int,
            children: node_views_from(self.children@, 0),
        }
    }
}

/// Every frame's entry index is within bounds.
pub open spec fn frames_shape_ok(frames: Seq<FrameV>) -> bool {
    forall|i: int|
        0 <= i < frames.len() ==> 0 <= (#[trigger] frames[i]).next <= frames[i].entries.len()
}

/// Every child built so far is well-formed.
pub open spec fn frames_children_wf(frames: Seq<FrameV>) -> bool {
    forall|i: int, k: int|
        0 <= i < frames.len() && 0 <= k < frames[i].children.len() ==> node_wf(
            #[trigger] frames[i].children[k],
        )
}

/// How much work remains: one unit per open frame plus one per entry not
/// yet processed.
pub open spec fn frames_measure(frames: Seq<FrameV>) -> int
    decreases frames.len(),
{
    if frames.len() == 0 {
        0
    } else {
        frames_measure(frames.drop_last()) + 1 + frames.last().entries.len()
            - frames.last().next
    }
}

pub proof fn lemma_frames_measure_nonneg(frames: Seq<FrameV>)
    requires
        frames_shape_ok(frames),
    ensures
        frames_measure(frames) >= frames.len(),
    decreases frames.len(),
{
    if frames.len() > 0 {
        assert(frames_shape_ok(frames.drop_last()));
        lemma_frames_measure_nonneg(frames.drop_last());
        assert(frames[frames.len() - 1].next <= frames[frames.len() - 1].entries.len());
    }
}

/// The measure after replacing the top frame.
pub proof fn lemma_frames_measure_update_last(frames: Seq<FrameV>, f2: FrameV)
    requires
        frames.len() > 0,
    ensures
        frames_measure(frames.update(frames.len() - 1, f2)) == frames_measure(
            frames.drop_last(),
        ) + 1 + f2.entries.len() - f2.next,
{
    let u = frames.update(frames.len() - 1, f2);
    assert(u.drop_last() =~= frames.drop_last());
    assert(u.last() == f2);
}

/// The top frame with its entry index moved one on.
pub open spec fn bump_top(frames: Seq<FrameV>) -> Seq<FrameV> {
    let f = frames.last();
    frames.update(frames.len() - 1, FrameV { next: f.next + 1, ..f })
}

/// The top frame closed into a directory node and attached to its parent.
pub open spec fn pop_attach(frames: Seq<FrameV>, node: NodeV) -> Seq<FrameV> {
    let p = frames[frames.len() - 2];
    frames.drop_last().update(
        frames.len() - 2,
        FrameV { children: p.children.push(node), ..p },
    )
}

/// What the machine waits for after settling: the content of the file the
/// top entry names, the listing of a subdirectory, the finished tree, or
/// the overflow failure.
pub enum SettledNext {
    AwaitFile,
    AwaitListing { path: Seq<char> },
    Finished { root: NodeV },
    Overflowed,
}

/// The frames and the next wait after settling.
pub struct Settled {
    pub frames: Seq<FrameV>,
    pub next: SettledNext,
}

/// Drive the frames forward until input is needed or the build ends:
/// a `"file"` entry waits for content; a `"dir"` entry is stepped over and
/// waits for its listing; an entry of any other kind is skipped; a frame
/// with no entries left becomes a directory node — named by its path, its
/// children in listing order, its token count their sum — and is attached
/// to its parent, or is the finished root.
pub open spec fn settle(frames: Seq<FrameV>) -> Settled
    decreases frames_measure(frames)
        when frames.len() > 0 && frames_shape_ok(frames)
{
    let f = frames.last();
    if f.next < f.entries.len() {
        let e = f.entries[f.next];
        if e.kind == "file"@ {
            Settled { frames, next: SettledNext::AwaitFile }
        } else if e.kind == "dir"@ {
            Settled { frames: bump_top(frames), next: SettledNext::AwaitListing { path: e.path } }
        } else {
            proof {
                lemma_frames_measure_update_last(frames, FrameV { next: f.next + 1, ..f });
                lemma_frames_measure_nonneg(frames);
                assert(frames_shape_ok(bump_top(frames))) by {
                    assert(forall|i: int|
                        0 <= i < frames.len() - 1 ==> bump_top(frames)[i] == frames[i]);
                }
            }
            settle(bump_top(frames))
        }
    } else {
        let tc = sum_tokens(f.children);
        if tc > usize::MAX as int {
            Settled { frames, next: SettledNext::Overflowed }
        } else {
            let node = NodeV::Directory {
                name: f.path,
                path: f.path,
                children: f.children,
                token_count: tc,
            };
            if frames.len() == 1 {
                Settled { frames: Seq::empty(), next: SettledNext::Finished { root: node } }
            } else {
                proof {
                    let popped = pop_attach(frames, node);
                    let p = frames[frames.len() - 2];
                    let p2 = FrameV { children: p.children.push(node), ..p };
                    lemma_frames_measure_update_last(frames.drop_last(), p2);
                    assert(frames.drop_last().last() == p);
                    assert(frames_measure(frames.drop_last()) == frames_measure(
                        frames.drop_last().drop_last(),
                    ) + 1 + p.entries.len() - p.next);
                    assert(frames_measure(popped) == frames_measure(frames.drop_last()));
                    assert(frames_measure(frames) == frames_measure(frames.drop_last()) + 1);
                    lemma_frames_measure_nonneg(frames);
                    assert(frames_shape_ok(popped)) by {
                        assert(forall|i: int|
                            0 <= i < popped.len() ==> (#[trigger] popped[i]).next == frames[i].next
                                && popped[i].entries == frames[i].entries);
                    }
                }
                settle(pop_attach(frames, node))
            }
        }
    }
}

/// A well-formed node's count is non-negative.
proof fn lemma_wf_token_count_nonneg(n: NodeV)
    requires
        node_wf(n),
    ensures
        n.token_count() >= 0,
{
    match n {
        NodeV::File { .. } => {},
        NodeV::Directory { .. } => {},
    }
}

proof fn lemma_sum_tokens_take_step(cv: Seq<NodeV>, i: int)
    requires
        0 <= i < cv.len(),
    ensures
        sum_tokens(cv.take(i + 1)) == sum_tokens(cv.take(i)) + cv[i].token_count(),
{
    assert(cv.take(i + 1).drop_last() =~= cv.take(i));
    assert(cv.take(i + 1).last() == cv[i]);
}

/// Under non-negative counts, a prefix sum never exceeds the whole sum.
proof fn lemma_sum_tokens_take_le(cv: Seq<NodeV>, i: int)
    requires
        0 <= i <= cv.len(),
        forall|k: int| 0 <= k < cv.len() ==> node_wf(#[trigger] cv[k]),
    ensures
        sum_tokens(cv.take(i)) <= sum_tokens(cv),
    decreases cv.len() - i,
{
    if i == cv.len() {
        assert(cv.take(i) =~= cv);
    } else {
        lemma_sum_tokens_take_le(cv, i + 1);
        lemma_sum_tokens_take_step(cv, i);
        lemma_wf_token_count_nonneg(cv[i]);
    }
}

/// Sum the children's token counts, guarding against overflow.
fn checked_sum(children: &Vec<RepoNode>) -> (r: Option<usize>)
    requires
        forall|k: int|
            0 <= k < node_views_from(children@, 0).len() ==> node_wf(
                #[trigger] node_views_from(children@, 0)[k],
            ),
    ensures
        r matches Some(tc) ==> tc as int == sum_tokens(node_views_from(children@, 0)),
        r is None ==> sum_tokens(node_views_from(children@, 0)) > usize::MAX,
{
    let ghost cv = node_views_from(children@, 0);
    proof {
        crate::tree::lemma_node_views_from(children@, 0);
        assert(cv.take(0) =~= Seq::<NodeV>::empty());
    }
    let n = children.len();
    let mut acc: usize = 0;
    let mut i: usize = 0;
    while i < n
        invariant
            i <= n,
            n == children.len(),
            cv == node_views_from(children@, 0),
            cv.len() == n,
            forall|k: int| 0 <= k < cv.len() ==> node_wf(#[trigger] cv[k]),
            forall|k: int| 0 <= k < cv.len() ==> cv[k] == crate::tree::node_view(children@[k]),
            acc as int == sum_tokens(cv.take(i as int)),
        decreases n - i,
    {
        let c = children[i].token_count();
        proof {
            lemma_sum_tokens_take_step(cv, i as int);
        }
        match acc.checked_add(c) {
            Some(next_acc) => {
                acc = next_acc;
            },
            None => {
                proof {
                    lemma_sum_tokens_take_le(cv, i + 1);
                }
                return None;
            },
        }
        i = i + 1;
    }
    proof {
        assert(cv.take(n as int) =~= cv);
    }
    Some(acc)
}

/// What the step machine reports after settling.
enum Advanced {
    AwaitFile,
    AwaitListing { path: String },
    Finished { root: RepoNode },
    Overflowed,
}

/// The values of the given frames, in order.
pub open spec fn frames_view_of(s: Seq<Frame>) -> Seq<FrameV> {
    Seq::new(s.len(), |i: int| s[i]@)
}

/// The exec report matches the settled state.
spec fn advanced_matches(st: Settled, fnew: Seq<FrameV>, r: Advanced) -> bool {
    fnew == st.frames && match (r, st.next) {
        (Advanced::AwaitFile, SettledNext::AwaitFile) => true,
        (Advanced::AwaitListing { path }, SettledNext::AwaitListing { path: p }) => path@ == p,
        (Advanced::Finished { root }, SettledNext::Finished { root: rt }) => root@ == rt,
        (Advanced::Overflowed, SettledNext::Overflowed) => true,
        _ => false,
    }
}

/// Work the frames forward until input is needed or the build ends,
/// exactly as `settle` describes.
fn advance(frames: &mut Vec<Frame>) -> (r: Advanced)
    requires
        old(frames)@.len() > 0,
        frames_shape_ok(frames_view_of(old(frames)@)),
        frames_children_wf(frames_view_of(old(frames)@)),
    ensures
        advanced_matches(
            settle(frames_view_of(old(frames)@)),
            frames_view_of(final(frames)@),
            r,
        ),
        frames_shape_ok(frames_view_of(final(frames)@)),
        frames_children_wf(frames_view_of(final(frames)@)),
        r matches Advanced::AwaitFile ==> {
            let fv = frames_view_of(final(frames)@);
            &&& fv.len() > 0
            &&& fv.last().next < fv.last().entries.len()
            &&& fv.last().entries[fv.last().next].kind == "file"@
        },
        r matches Advanced::Finished { root } ==> node_wf(root@) && frames_view_of(
            final(frames)@,
        ).len() == 0,
    decreases frames_measure(frames_view_of(old(frames)@)),
{
    let ghost fv0 = frames_view_of(old(frames)@);
    let n = frames.len();
    let mut f = match frames.pop() {
        Some(f) => f,
        None => {
            proof {
                assert(false);
            }
            return Advanced::Overflowed;
        },
    };
    proof {
        assert(frames_view_of(frames@) =~= fv0.drop_last());
        assert(f@ == fv0.last());
    }
    if f.next < f.entries.len() {
        let is_file = crate::text::str_eq(f.entries[f.next].kind.as_str(), "file");
        let is_dir = if is_file {
            false
        } else {
            crate::text::str_eq(f.entries[f.next].kind.as_str(), "dir")
        };
        if is_file {
            frames.push(f);
            proof {
                assert(frames_view_of(frames@) =~= fv0);
            }
            Advanced::AwaitFile
        } else if is_dir {
            let p = f.entries[f.next].path.clone();
            f.next = f.next + 1;
            frames.push(f);
            proof {
                assert(frames_view_of(frames@) =~= bump_top(fv0));
            }
            Advanced::AwaitListing { path: p }
        } else {
            f.next = f.next + 1;
            frames.push(f);
            proof {
                assert(frames_view_of(frames@) =~= bump_top(fv0));
                lemma_frames_measure_update_last(fv0, bump_top(fv0).last());
                lemma_frames_measure_nonneg(fv0);
                assert(frames_shape_ok(bump_top(fv0))) by {
                    assert(forall|i: int|
                        0 <= i < fv0.len() - 1 ==> bump_top(fv0)[i] == fv0[i]);
                }
                assert(frames_children_wf(bump_top(fv0))) by {
                    assert(forall|i: int|
                        0 <= i < fv0.len() ==> (#[trigger] bump_top(fv0)[i]).children
                            == fv0[i].children);
                }
            }
            advance(frames)
        }
    } else {
        proof {
            assert(forall|k: int|
                0 <= k < f@.children.len() ==> node_wf(#[trigger] f@.children[k]));
        }
        match checked_sum(&f.children) {
            None => {
                frames.push(f);
                proof {
                    assert(frames_view_of(frames@) =~= fv0);
                }
                Advanced::Overflowed
            },
            Some(tc) => {
                let name = f.path.clone();
                let node = RepoNode::Directory {
                    name,
                    path: f.path,
                    children: f.children,
                    token_count: tc,
                };
                let ghost nodev = node@;
                proof {
                    assert(nodev == NodeV::Directory {
                        name: fv0.last().path,
                        path: fv0.last().path,
                        children: fv0.last().children,
                        token_count: tc as int,
                    });
                    assert(node_wf(nodev));
                }
                if frames.len() == 0 {
                    proof {
                        assert(frames_view_of(frames@) =~= Seq::<FrameV>::empty());
                        assert(fv0.len() == 1);
                    }
                    Advanced::Finished { root: node }
                } else {
                    let mut parent = match frames.pop() {
                        Some(p) => p,
                        None => {
                            proof {
                                assert(false);
                            }
                            return Advanced::Overflowed;
                        },
                    };
                    let ghost pv_old = parent@;
                    let ghost oc = parent.children@;
                    parent.children.push(node);
                    frames.push(parent);
                    proof {
                        let popped = pop_attach(fv0, nodev);
                        crate::tree::lemma_node_views_from(oc, 0);
                        crate::tree::lemma_node_views_from(parent.children@, 0);
                        assert(parent.children@ =~= oc.push(node));
                        assert(node_views_from(parent.children@, 0) =~= pv_old.children.push(
                            nodev,
                        ));
                        assert(pv_old == fv0[fv0.len() - 2]);
                        assert(frames_view_of(frames@) =~= popped);
                        let p = fv0[fv0.len() - 2];
                        let p2 = FrameV { children: p.children.push(nodev), ..p };
                        lemma_frames_measure_update_last(fv0.drop_last(), p2);
                        assert(fv0.drop_last().last() == p);
                        assert(frames_measure(fv0.drop_last()) == frames_measure(
                            fv0.drop_last().drop_last(),
                        ) + 1 + p.entries.len() - p.next);
                        assert(frames_measure(popped) == frames_measure(fv0.drop_last()));
                        assert(frames_measure(fv0) == frames_measure(fv0.drop_last()) + 1);
                        lemma_frames_measure_nonneg(fv0);
                        assert(frames_shape_ok(popped)) by {
                            assert(forall|i: int|
                                0 <= i < popped.len() ==> (#[trigger] popped[i]).next
                                    == fv0[i].next && popped[i].entries == fv0[i].entries);
                        }
                        assert(frames_children_wf(popped)) by {
                            assert(forall|i: int|
                                0 <= i < popped.len() - 1 ==> #[trigger] popped[i]
                                    == fv0[i]);
                            assert(popped.last().children == p.children.push(nodev));
                        }
                    }
                    advance(frames)
                }
            },
        }
    }
}

/// What the builder waits for: the listing of a directory, the content of
/// a file, or nothing because the build finished or failed.
pub enum Phase {
    NeedListing { path: String },
    NeedFile,
    Done { root: RepoNode },
    Failed { err: DredgerError },
}

/// The request a driver must perform next.
pub enum Request {
    Listing { path: String },
    FileContent { path: String },
}

/// The path a listing phase waits for.
pub open spec fn listing_path(p: Phase) -> Seq<char> {
    match p {
        Phase::NeedListing { path } => path@,
        _ => Seq::empty(),
    }
}

/// The phase reached matches the settled wait.
pub open spec fn phase_corresponds(p: Phase, n: SettledNext) -> bool {
    match n {
        SettledNext::AwaitFile => p is NeedFile,
        SettledNext::AwaitListing { path } => p matches Phase::NeedListing { path: q } && q@
            == path,
        SettledNext::Finished { root } => p matches Phase::Done { root: rt } && rt@ == root,
        SettledNext::Overflowed => p matches Phase::Failed { err } && err
            matches DredgerError::OtherError(m) && m@ == "token count overflow"@,
    }
}

/// The top frame with the fetched file recorded: a file node built from
/// the current entry, the given content and the given token count is
/// appended to the children, and the entry index moves on.
pub open spec fn file_attached(frames: Seq<FrameV>, content: Seq<char>, tc: int) -> Seq<FrameV> {
    let f = frames.last();
    let e = f.entries[f.next];
    frames.update(
        frames.len() - 1,
        FrameV {
            next: f.next + 1,
            children: f.children.push(
                NodeV::File { name: e.name, path: e.path, content, token_count: tc },
            ),
            ..f
        },
    )
}

/// The step machine that builds the repository tree. A driver asks
/// `pending_request` what to fetch, performs the fetch, and hands the
/// outcome to `on_listing`, `on_listing_failure` or `on_file_content`;
/// when nothing is pending, `outcome` yields the tree or the error.
pub struct TreeBuilder {
    tokenizer: tokenizers::Tokenizer,
    frames: Vec<Frame>,
    phase: Phase,
}

impl TreeBuilder {
    /// The open directory frames, innermost last.
    pub closed spec fn frames_view(self) -> Seq<FrameV> {
        frames_view_of(self.frames@)
    }

    /// The phase the machine is in.
    pub closed spec fn phase(self) -> Phase {
        self.phase
    }

    /// The listing entry the machine is waiting on, in a `NeedFile` phase.
    pub open spec fn current_entry(self) -> ContentV {
        let fv = self.frames_view();
        fv.last().entries[fv.last().next]
    }

    /// The machine's invariant: indices in bounds, every built child
    /// well-formed, and the phase consistent with the frames. In a `Done`
    /// phase the root is a well-formed tree: every directory's token count
    /// equals the sum of its children's counts, recursively.
    pub open spec fn inv(self) -> bool {
        &&& frames_shape_ok(self.frames_view())
        &&& frames_children_wf(self.frames_view())
        &&& match self.phase() {
            Phase::NeedFile => {
                let fv = self.frames_view();
                &&& fv.len() > 0
                &&& fv.last().next < fv.last().entries.len()
                &&& fv.last().entries[fv.last().next].kind == "file"@
            },
            Phase::NeedListing { .. } => true,
            Phase::Done { root } => node_wf(root@) && self.frames_view().len() == 0,
            Phase::Failed { .. } => true,
        }
    }

    /// Start a build at the given root path with an already loaded
    /// tokenizer; the machine first waits for the root listing.
    pub fn new(root_path: String, tokenizer: tokenizers::Tokenizer) -> (b: TreeBuilder)
        ensures
            b.inv(),
            b.frames_view().len() == 0,
            b.phase() matches Phase::NeedListing { path } && path@ == root_path@,
    {
        let b = TreeBuilder {
            tokenizer,
            frames: Vec::new(),
            phase: Phase::NeedListing { path: root_path },
        };
        proof {
            assert(b.frames_view() =~= Seq::<FrameV>::empty());
        }
        b
    }

    /// What the driver must fetch next, or nothing when the build is over.
    pub fn pending_request(&self) -> (r: Option<Request>)
        requires
            self.inv(),
        ensures
            match self.phase() {
                Phase::NeedListing { path } => r matches Some(q) && (q matches Request::Listing {
                    path: p,
                } && p@ == path@),
                Phase::NeedFile => r matches Some(q) && (q matches Request::FileContent { path: p }
                    && p@ == self.current_entry().path),
                Phase::Done { .. } => r is None,
                Phase::Failed { .. } => r is None,
            },
    {
        match &self.phase {
            Phase::NeedListing { path } => Some(Request::Listing { path: path.clone() }),
            Phase::NeedFile => {
                let f = &self.frames[self.frames.len() - 1];
                Some(Request::FileContent { path: f.entries[f.next].path.clone() })
            },
            Phase::Done { .. } => None,
            Phase::Failed { .. } => None,
        }
    }

    /// Feed the listing of the directory the machine asked for. The new
    /// frame's entries are worked through as `settle` describes: children
    /// keep listing order, and completed directories aggregate their
    /// children's token counts.
    pub fn on_listing(&mut self, entries: Vec<RepoContent>)
        requires
            old(self).inv(),
            old(self).phase() matches Phase::NeedListing { .. },
        ensures
            final(self).inv(),
            ({
                let pushed = old(self).frames_view().push(
                    FrameV {
                        path: listing_path(old(self).phase()),
                        entries: contents_view(entries@),
                        next: 0,
                        children: Seq::empty(),
                    },
                );
                let st = settle(pushed);
                final(self).frames_view() == st.frames && phase_corresponds(
                    final(self).phase(),
                    st.next,
                )
            }),
    {
        let path = match &self.phase {
            Phase::NeedListing { path } => path.clone(),
            _ => String::new(),
        };
        let ghost fv0 = self.frames_view();
        let frame = Frame { path, entries, next: 0, children: Vec::new() };
        let ghost framev = frame@;
        self.frames.push(frame);
        proof {
            crate::tree::lemma_node_views_from(Seq::<RepoNode>::empty(), 0);
            assert(framev.children =~= Seq::<NodeV>::empty());
            assert(frames_view_of(self.frames@) =~= fv0.push(framev));
            assert(frames_shape_ok(fv0.push(framev))) by {
                assert(forall|i: int| 0 <= i < fv0.len() ==> fv0.push(framev)[i] == fv0[i]);
            }
            assert(frames_children_wf(fv0.push(framev))) by {
                assert(forall|i: int| 0 <= i < fv0.len() ==> fv0.push(framev)[i] == fv0[i]);
            }
        }
        let adv = advance(&mut self.frames);
        self.phase = match adv {
            Advanced::AwaitFile => Phase::NeedFile,
            Advanced::AwaitListing { path } => Phase::NeedListing { path },
            Advanced::Finished { root } => Phase::Done { root },
            Advanced::Overflowed => Phase::Failed {
                err: DredgerError::OtherError("token count overflow".to_owned()),
            },
        };
    }

    /// Record that the listing the machine asked for could not be had:
    /// fatal for the whole build, as a partial tree is never returned. The
    /// error carries the status and the response body.
    pub fn on_listing_failure(&mut self, status: u16, body: &str)
        requires
            old(self).inv(),
            old(self).phase() matches Phase::NeedListing { .. },
        ensures
            final(self).inv(),
            final(self).frames_view() == old(self).frames_view(),
            final(self).phase() matches Phase::Failed { err } && (err
                matches DredgerError::GithubClientError(m) && m@
                == "Failed to fetch repository contents: "@ + dec_str(status as int) + ": "@
                + body@),
    {
        let mut m = "Failed to fetch repository contents: ".to_owned();
        let digits = crate::text::u64_to_dec(status as u64);
        m.append(digits.as_str());
        m.append(": ");
        m.append(body);
        self.phase = Phase::Failed { err: DredgerError::GithubClientError(m) };
    }
}

/// The text recorded for a fetched file: the content when the fetch
/// succeeded, the placeholder when it failed.
pub open spec fn content_view_of(content: Option<String>) -> Seq<char> {
    match content {
        Option::Some(c) => c@,
        Option::None => placeholder_text(),
    }
}

/// After a file's content was fed with some token count `tc`, the machine
/// stands exactly where `settle` puts the frames with that file attached.
pub open spec fn file_step_post(
    b: TreeBuilder,
    frames0: Seq<FrameV>,
    content: Seq<char>,
    tc: int,
) -> bool {
    let st = settle(file_attached(frames0, content, tc));
    &&& 0 <= tc <= usize::MAX as int
    &&& b.frames_view() == st.frames
    &&& phase_corresponds(b.phase(), st.next)
}

impl TreeBuilder {
    /// Feed the content of the file the machine asked for, or nothing when
    /// the fetch failed. A failed fetch only downgrades this one file to
    /// the placeholder text — the build goes on with its siblings. A
    /// tokenization failure is fatal: the machine fails with that error
    /// and no tree is returned.
    pub fn on_file_content(&mut self, content: Option<String>)
        requires
            old(self).inv(),
            old(self).phase() is NeedFile,
        ensures
            final(self).inv(),
            ({
                ||| (final(self).phase() matches Phase::Failed { err } && (err
                    matches DredgerError::TokenizerError(te) && te
                    matches TokenizerError::TokenizationError(_)) && final(self).frames_view()
                    == old(self).frames_view())
                ||| exists|tc: int|
                    #[trigger] file_step_post(
                        *final(self),
                        old(self).frames_view(),
                        content_view_of(content),
                        tc,
                    )
            }),
    {
        let ghost fv0 = self.frames_view();
        let ghost cv = content_view_of(content);
        let content_str = match content {
            Some(c) => c,
            None => "Failed to fetch content".to_owned(),
        };
        proof {
            assert(content_str@ == cv);
        }
        match count_tokens(content_str.as_str(), &self.tokenizer) {
            Err(e) => {
                self.phase = Phase::Failed { err: DredgerError::TokenizerError(e) };
            },
            Ok(tc) => {
                let mut f = match self.frames.pop() {
                    Some(f) => f,
                    None => {
                        proof {
                            assert(false);
                        }
                        return ;
                    },
                };
                let ghost f_old = f@;
                proof {
                    assert(f_old == fv0.last());
                    assert(frames_view_of(self.frames@) =~= fv0.drop_last());
                    assert(f_old.next < f_old.entries.len());
                    assert(f.next < f.entries.len());
                }
                let name = f.entries[f.next].name.clone();
                let path = f.entries[f.next].path.clone();
                let ghost oc = f.children@;
                let node = RepoNode::File { name, path, content: content_str, token_count: tc };
                let ghost nodev = node@;
                f.children.push(node);
                f.next = f.next + 1;
                self.frames.push(f);
                proof {
                    crate::tree::lemma_node_views_from(oc, 0);
                    crate::tree::lemma_node_views_from(f.children@, 0);
                    assert(f.children@ =~= oc.push(node));
                    assert(node_views_from(f.children@, 0) =~= f_old.children.push(nodev));
                    assert(nodev == NodeV::File {
                        name: f_old.entries[f_old.next].name,
                        path: f_old.entries[f_old.next].path,
                        content: cv,
                        token_count: tc as int,
                    });
                    let attached = file_attached(fv0, cv, tc as int);
                    assert(frames_view_of(self.frames@) =~= attached);
                    assert(frames_shape_ok(attached)) by {
                        assert(forall|i: int|
                            0 <= i < fv0.len() - 1 ==> attached[i] == fv0[i]);
                    }
                    assert(frames_children_wf(attached)) by {
                        assert(forall|i: int|
                            0 <= i < fv0.len() - 1 ==> attached[i] == fv0[i]);
                        assert(attached.last().children == f_old.children.push(nodev));
                        assert(node_wf(nodev));
                    }
                }
                let adv = advance(&mut self.frames);
                self.phase = match adv {
                    Advanced::AwaitFile => Phase::NeedFile,
                    Advanced::AwaitListing { path } => Phase::NeedListing { path },
                    Advanced::Finished { root } => Phase::Done { root },
                    Advanced::Overflowed => Phase::Failed {
                        err: DredgerError::OtherError("token count overflow".to_owned()),
                    },
                };
                proof {
                    assert(file_step_post(*self, fv0, cv, tc as int));
                }
            },
        }
    }

    /// The finished build's result: the tree on success — well-formed, its
    /// token accounting correct throughout — or the error that ended it.
    pub fn outcome(self) -> (r: Result<RepoNode, DredgerError>)
        requires
            self.inv(),
            self.phase() matches Phase::Done { .. } || self.phase() matches Phase::Failed { .. },
        ensures
            self.phase() matches Phase::Done { root } ==> (r matches Ok(n) && n == root
                && node_wf(n@)),
            self.phase() matches Phase::Failed { err } ==> (r matches Err(e) && e == err),
    {
        match self.phase {
            Phase::Done { root } => Ok(root),
            Phase::Failed { err } => Err(err),
            Phase::NeedListing { .. } => Err(
                DredgerError::OtherError("tree build is not finished".to_owned()),
            ),
            Phase::NeedFile => Err(
                DredgerError::OtherError("tree build is not finished".to_owned()),
            ),
        }
    }
}

} // verus!
