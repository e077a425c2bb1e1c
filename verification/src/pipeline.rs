//! The two-phase documentation pipeline: derive a project context from the
//! tree's README, have the model summarize it, then generate documentation
//! for every source file with the shared context. The pipeline decides
//! everything — what to ask, in what order, what to keep — while a driver
//! only carries its requests to the model endpoint and hands back what
//! came, or nothing on a query failure. A summarization failure degrades
//! to an empty context; a per-file query failure only omits that file.
use crate::context::context_of_tree;
use crate::docgen::{
    comments_spec, doc_from_response, doc_query, doc_request_spec, summary_query,
    summary_request_spec, DocV, DredgerDoc, OllamaRequest,
};
use crate::text::ends_with;
use crate::tree::{source_files, tasks_view, FileTask, RepoNode, TaskV};
use vstd::prelude::*;

verus! {

/// Which phase the pipeline is in: waiting for the context summary, or
/// generating per-file documentation.
pub enum Stage {
    NeedSummary,
    Generating,
}

/// The values of the collected records, in order.
pub open spec fn docs_view_of(v: Seq<DredgerDoc>) -> Seq<DocV> {
    Seq::new(v.len(), |i: int| v[i]@)
}

/// What a model reply adds to the collected records: the extracted block
/// when it is non-empty, nothing otherwise, and nothing on a failed query.
pub open spec fn doc_additions(path: Seq<char>, resp: Option<String>) -> Seq<DocV> {
    match resp {
        Option::Some(text) => if comments_spec(text@).len() > 0 {
            seq![DocV { file_path: path, comments: comments_spec(text@) }]
        } else {
            Seq::empty()
        },
        Option::None => Seq::empty(),
    }
}

/// The pipeline orchestrator. A driver asks `pending_query` what to send,
/// posts it, and hands the assembled reply (or nothing, on failure) to
/// `on_summary` or `on_doc_response`; when `done`, `results` yields the
/// collected records.
pub struct Pipeline {
    files: Vec<FileTask>,
    idx: usize,
    context: String,
    stage: Stage,
    docs: Vec<DredgerDoc>,
}

impl Pipeline {
    /// The planned source files, in visit order.
    pub closed spec fn files_view(self) -> Seq<TaskV> {
        tasks_view(self.files@)
    }

    /// How many planned files have been handled.
    pub closed spec fn idx(self) -> int {
        self.idx as int
    }

    /// The shared project context as it currently stands.
    pub closed spec fn context_view(self) -> Seq<char> {
        self.context@
    }

    /// The phase the pipeline is in.
    pub closed spec fn stage(self) -> Stage {
        self.stage
    }

    /// The records collected so far, in order.
    pub closed spec fn docs_view(self) -> Seq<DocV> {
        docs_view_of(self.docs@)
    }

    /// The pipeline's invariant: the file cursor in bounds, every planned
    /// file bearing the recognized source extension, and a summary only
    /// pending while the context is non-empty.
    pub open spec fn inv(self) -> bool {
        &&& 0 <= self.idx() <= self.files_view().len()
        &&& forall|k: int|
            0 <= k < self.files_view().len() ==> ends_with(
                (#[trigger] self.files_view()[k]).path,
                ".rs"@,
            )
        &&& (self.stage() is NeedSummary ==> self.context_view().len() > 0)
    }

    /// Plan a run over the tree: extract the project context from the
    /// README, and list every source file in visit order. Summarization is
    /// pending exactly when the raw context is non-empty.
    pub fn new(root: &RepoNode) -> (p: Pipeline)
        ensures
            p.inv(),
            p.files_view() == source_files(root@),
            p.context_view() == context_of_tree(root@),
            p.stage() is NeedSummary <==> context_of_tree(root@).len() > 0,
            p.idx() == 0,
            p.docs_view() == Seq::<DocV>::empty(),
    {
        let context = root.project_context();
        let files = root.source_file_tasks();
        let stage = if context.unicode_len() > 0 {
            Stage::NeedSummary
        } else {
            Stage::Generating
        };
        let p = Pipeline { files, idx: 0, context, stage, docs: Vec::new() };
        proof {
            crate::tree::lemma_source_files_are_rs(root@);
            assert(p.docs_view() =~= Seq::<DocV>::empty());
        }
        p
    }

    /// The query the driver must post next: the summarization request
    /// while the summary is pending, then one documentation request per
    /// planned file, and nothing once every file is handled.
    pub fn pending_query(&self) -> (r: Option<OllamaRequest>)
        requires
            self.inv(),
        ensures
            self.stage() is NeedSummary ==> (r matches Some(q) && q@ == summary_request_spec(
                self.context_view(),
            )),
            self.stage() is Generating && self.idx() < self.files_view().len() ==> (r
                matches Some(q) && q@ == doc_request_spec(
                self.files_view()[self.idx()].path,
                self.files_view()[self.idx()].content,
                self.context_view(),
            )),
            self.stage() is Generating && self.idx() >= self.files_view().len() ==> r is None,
    {
        match &self.stage {
            Stage::NeedSummary => summary_query(self.context.as_str()),
            Stage::Generating => {
                if self.idx < self.files.len() {
                    let task = &self.files[self.idx];
                    proof {
                        assert(task@ == self.files_view()[self.idx as int]);
                        assert(ends_with(task@.path, ".rs"@));
                    }
                    doc_query(task.path.as_str(), task.content.as_str(), self.context.as_str())
                } else {
                    None
                }
            },
        }
    }

    /// Feed the summarization reply. On success the summary replaces the
    /// raw context; on failure, or an empty summary, the context becomes
    /// empty and is omitted from the prompts — the raw excerpt is not kept.
    pub fn on_summary(&mut self, resp: Option<String>)
        requires
            old(self).inv(),
            old(self).stage() is NeedSummary,
        ensures
            final(self).inv(),
            final(self).stage() is Generating,
            final(self).context_view() == match resp {
                Option::Some(s) => s@,
                Option::None => Seq::<char>::empty(),
            },
            final(self).files_view() == old(self).files_view(),
            final(self).idx() == old(self).idx(),
            final(self).docs_view() == old(self).docs_view(),
    {
        self.context = match resp {
            Some(s) => s,
            None => String::new(),
        };
        self.stage = Stage::Generating;
    }

    /// Feed the model's reply for the current file, or nothing when the
    /// query failed. A reply contributes a record exactly when its
    /// extracted documentation block is non-empty; a failure contributes
    /// nothing; either way the pipeline moves to the next file.
    pub fn on_doc_response(&mut self, resp: Option<String>)
        requires
            old(self).inv(),
            old(self).stage() is Generating,
            old(self).idx() < old(self).files_view().len(),
        ensures
            final(self).inv(),
            final(self).stage() is Generating,
            final(self).idx() == old(self).idx() + 1,
            final(self).files_view() == old(self).files_view(),
            final(self).context_view() == old(self).context_view(),
            final(self).docs_view() == old(self).docs_view() + doc_additions(
                old(self).files_view()[old(self).idx()].path,
                resp,
            ),
    {
        let ghost docs0 = self.docs_view();
        let ghost path_v = self.files_view()[self.idx as int].path;
        match resp {
            Some(text) => {
                let task = &self.files[self.idx];
                match doc_from_response(task.path.as_str(), text.as_str()) {
                    Some(d) => {
                        let ghost dv = d@;
                        self.docs.push(d);
                        proof {
                            assert(self.docs_view() =~= docs0.push(dv));
                            assert(docs0.push(dv) =~= docs0 + seq![dv]);
                        }
                    },
                    None => {
                        proof {
                            assert(self.docs_view() + Seq::<DocV>::empty() =~= self.docs_view());
                        }
                    },
                }
            },
            None => {
                proof {
                    assert(self.docs_view() + Seq::<DocV>::empty() =~= self.docs_view());
                }
            },
        }
        let n = self.files.len();
        proof {
            assert(self.files_view().len() == self.files@.len());
            assert(self.idx < n);
        }
        self.idx = self.idx + 1;
    }

    /// Whether the summarization reply is what the pipeline waits for.
    pub fn awaiting_summary(&self) -> (r: bool)
        ensures
            r == (self.stage() is NeedSummary),
    {
        match &self.stage {
            Stage::NeedSummary => true,
            Stage::Generating => false,
        }
    }

    /// Whether every planned file has been handled.
    pub fn done(&self) -> (r: bool)
        requires
            self.inv(),
        ensures
            r == (self.stage() is Generating && self.idx() >= self.files_view().len()),
    {
        match &self.stage {
            Stage::NeedSummary => false,
            Stage::Generating => self.idx >= self.files.len(),
        }
    }

    /// The collected records, in the order their files were visited.
    pub fn results(self) -> (r: Vec<DredgerDoc>)
        requires
            self.inv(),
        ensures
            docs_view_of(r@) == self.docs_view(),
    {
        self.docs
    }
}

} // verus!
