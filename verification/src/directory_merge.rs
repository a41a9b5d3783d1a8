//! The merge of the directories of several splits into one.
use vstd::prelude::*;

use crate::batch::Handles;
use crate::delete_task::{search_request, DeleteTask, DeleteTaskView};
use crate::error::{MergeError, MergeErrorView};
use crate::index_meta::IndexMetaParts;
use crate::protocol::{Action, ActionView, Reply, ReplyView};

verus! {

/// What the merge of the directories waits for.
#[derive(Clone, Copy, Debug, PartialEq, Eq)]
pub enum DirectoryPhase {
    OpeningUnion,
    ApplyingDeletes,
    CommittingDeletes,
    ListingSegments,
    MergingSegments,
}

/// How far the merge of the directories is.
pub struct DirectoryMerge<T: Handles> {
    pub delete_tasks: Vec<DeleteTask>,
    /// Whether there is a doc mapper that turns the delete tasks into queries.
    pub has_doc_mapper: bool,
    /// How many of the delete tasks are known to have been applied.
    pub num_applied: usize,
    pub phase: DirectoryPhase,
    /// The output directory, once the union is open.
    pub output: Option<T::Directory>,
}

/// What becomes of the merge of the directories.
pub enum DirectoryProgress<T: Handles> {
    /// It goes on, and asks for something.
    Ongoing(DirectoryMerge<T>, Action<T>),
    /// The output directory is as it should be.
    Merged(T::Directory),
    /// It gives up.
    Failed(MergeError),
    /// It gives up on a piece of work that failed.
    Aborted(T::Error),
}

/// Mathematical view of a [`DirectoryMerge`].
#[verifier::ext_equal]
pub struct DirectoryMergeView<T: Handles> {
    pub delete_tasks: Seq<DeleteTaskView>,
    pub has_doc_mapper: bool,
    pub num_applied: nat,
    pub phase: DirectoryPhase,
    pub output: Option<T::Directory>,
}

/// Mathematical view of a [`DirectoryProgress`].
#[verifier::ext_equal]
pub enum DirectoryProgressView<T: Handles> {
    Ongoing(DirectoryMergeView<T>, ActionView<T>),
    Merged(T::Directory),
    Failed(MergeErrorView),
    Aborted(T::Error),
}

impl<T: Handles> View for DirectoryMerge<T> {
    type V = DirectoryMergeView<T>;

    open spec fn view(&self) -> DirectoryMergeView<T> {
        DirectoryMergeView {
            delete_tasks: crate::delete_task::task_views(self.delete_tasks@),
            has_doc_mapper: self.has_doc_mapper,
            num_applied: self.num_applied as nat,
            phase: self.phase,
            output: self.output,
        }
    }
}

impl<T: Handles> View for DirectoryProgress<T> {
    type V = DirectoryProgressView<T>;

    open spec fn view(&self) -> DirectoryProgressView<T> {
        match self {
            DirectoryProgress::Ongoing(merge, action) => DirectoryProgressView::Ongoing(
                merge@,
                action@,
            ),
            DirectoryProgress::Merged(output) => DirectoryProgressView::Merged(*output),
            DirectoryProgress::Failed(error) => DirectoryProgressView::Failed(error@),
            DirectoryProgress::Aborted(error) => DirectoryProgressView::Aborted(*error),
        }
    }
}

/// Whether there is anything for a merge to do. Without deletes it takes two segments;
/// after deletes one will do, since it is rid of the deleted documents.
pub open spec fn merge_is_useful(num_delete_tasks: nat, num_segments: nat) -> bool {
    num_segments >= 2 || (num_segments == 1 && num_delete_tasks > 0)
}

impl<T: Handles> DirectoryMergeView<T> {
    /// What holds at every point of the merge.
    pub open spec fn wf(self) -> bool {
        &&& self.output is None <==> self.phase == DirectoryPhase::OpeningUnion
        &&& match self.phase {
            DirectoryPhase::OpeningUnion => self.num_applied == 0,
            DirectoryPhase::ApplyingDeletes => {
                &&& self.has_doc_mapper
                &&& self.num_applied < self.delete_tasks.len()
            },
            DirectoryPhase::CommittingDeletes => {
                &&& self.has_doc_mapper
                &&& self.num_applied == self.delete_tasks.len() > 0
            },
            DirectoryPhase::ListingSegments | DirectoryPhase::MergingSegments => self.num_applied
                == self.delete_tasks.len(),
        }
    }

    /// Whether the merge can go on with a reply: if a delete comes next, its task says
    /// which documents are to go.
    pub open spec fn can_resume(self, reply: ReplyView<T>) -> bool {
        match (self.phase, reply) {
            (DirectoryPhase::OpeningUnion, ReplyView::UnionOpened(_)) => {
                self.delete_tasks.len() > 0 && self.has_doc_mapper
                    ==> self.delete_tasks[0].delete_query is Some
            },
            (DirectoryPhase::ApplyingDeletes, ReplyView::DeleteApplied) => {
                self.num_applied + 1 < self.delete_tasks.len() ==> self.delete_tasks[(
                self.num_applied + 1) as int].delete_query is Some
            },
            _ => true,
        }
    }

    /// The start of the merge.
    pub open spec fn start(delete_tasks: Seq<DeleteTaskView>, has_doc_mapper: bool) -> Self {
        DirectoryMergeView {
            delete_tasks,
            has_doc_mapper,
            num_applied: 0,
            phase: DirectoryPhase::OpeningUnion,
            output: None,
        }
    }

    /// The merge goes on to a phase and asks for something.
    pub open spec fn goes_on(
        self,
        num_applied: nat,
        phase: DirectoryPhase,
        action: ActionView<T>,
    ) -> DirectoryProgressView<T> {
        DirectoryProgressView::Ongoing(DirectoryMergeView { num_applied, phase, ..self }, action)
    }

    /// The delete that comes after the first `num_applied`.
    pub open spec fn next_delete(self, num_applied: nat) -> ActionView<T> {
        ActionView::ApplyDelete(
            crate::delete_task::search_of(self.delete_tasks[num_applied as int].delete_query->0),
        )
    }

    /// What becomes of the merge on a reply.
    pub open spec fn next(self, reply: ReplyView<T>) -> DirectoryProgressView<T> {
        match (self.phase, reply) {
            (DirectoryPhase::OpeningUnion, ReplyView::UnionOpened(output)) => {
                let opened = DirectoryMergeView { output: Some(output), ..self };
                if self.delete_tasks.len() == 0 {
                    opened.goes_on(0, DirectoryPhase::ListingSegments, ActionView::ListSegments)
                } else if !self.has_doc_mapper {
                    DirectoryProgressView::Failed(MergeErrorView::MissingDocMapper)
                } else {
                    opened.goes_on(0, DirectoryPhase::ApplyingDeletes, self.next_delete(0))
                }
            },
            (DirectoryPhase::ApplyingDeletes, ReplyView::DeleteApplied) => {
                let applied = self.num_applied + 1;
                if applied < self.delete_tasks.len() {
                    self.goes_on(
                        applied,
                        DirectoryPhase::ApplyingDeletes,
                        self.next_delete(applied),
                    )
                } else {
                    self.goes_on(
                        applied,
                        DirectoryPhase::CommittingDeletes,
                        ActionView::CommitDeletes,
                    )
                }
            },
            (DirectoryPhase::CommittingDeletes, ReplyView::DeletesCommitted) => self.goes_on(
                self.num_applied,
                DirectoryPhase::ListingSegments,
                ActionView::ListSegments,
            ),
            (DirectoryPhase::ListingSegments, ReplyView::Segments(ids)) => {
                if merge_is_useful(self.delete_tasks.len(), ids.len()) {
                    self.goes_on(
                        self.num_applied,
                        DirectoryPhase::MergingSegments,
                        ActionView::MergeSegments(ids),
                    )
                } else {
                    DirectoryProgressView::Merged(self.output->0)
                }
            },
            (DirectoryPhase::MergingSegments, ReplyView::SegmentsMerged) =>
                DirectoryProgressView::Merged(self.output->0),
            (_, ReplyView::Failed(error)) => DirectoryProgressView::Aborted(error),
            _ => DirectoryProgressView::Failed(MergeErrorView::UnexpectedReply),
        }
    }
}

/// Starts the merge of the directories of splits, whose indexes together have the
/// given meta. The delete tasks are applied on the way.
pub fn merge_split_directories<T: Handles>(
    union_index_meta: IndexMetaParts<T::Segment, T::Header>,
    delete_tasks: Vec<DeleteTask>,
    has_doc_mapper: bool,
) -> (started: (DirectoryMerge<T>, Action<T>))
    ensures
        started.0@ == DirectoryMergeView::<T>::start(
            crate::delete_task::task_views(delete_tasks@),
            has_doc_mapper,
        ),
        started.1@ == ActionView::<T>::OpenUnion(union_index_meta@),
{
    let merge = DirectoryMerge {
        delete_tasks,
        has_doc_mapper,
        num_applied: 0,
        phase: DirectoryPhase::OpeningUnion,
        output: None,
    };
    (merge, Action::OpenUnion(union_index_meta))
}

impl<T: Handles> DirectoryMerge<T> {
    /// The request of the delete that comes after the first `num_applied`.
    fn delete_request(&self, num_applied: usize) -> (request: crate::delete_task::SearchRequest)
        requires
            num_applied < self.delete_tasks@.len(),
            self@.delete_tasks[num_applied as int].delete_query is Some,
        ensures
            request@ == crate::delete_task::search_of(
                self@.delete_tasks[num_applied as int].delete_query->0,
            ),
    {
        proof {
            assert(self@.delete_tasks[num_applied as int]
                == self.delete_tasks@[num_applied as int]@);
        }
        search_request(self.delete_tasks[num_applied].delete_query.as_ref().unwrap())
    }

    /// Whether the delete task at a position says which documents are to go.
    fn has_query(&self, ord: usize) -> (has_query: bool)
        requires
            ord < self.delete_tasks@.len(),
        ensures
            has_query == (self@.delete_tasks[ord as int].delete_query is Some),
    {
        assert(self@.delete_tasks[ord as int] == self.delete_tasks@[ord as int]@);
        self.delete_tasks[ord].delete_query.is_some()
    }

    /// Whether the merge can go on with a reply.
    pub fn can_resume(&self, reply: &Reply<T>) -> (can_resume: bool)
        requires
            self@.wf(),
        ensures
            can_resume == self@.can_resume(reply@),
    {
        let num_delete_tasks: usize = self.delete_tasks.len();
        match (self.phase, reply) {
            (DirectoryPhase::OpeningUnion, Reply::UnionOpened(_)) => {
                num_delete_tasks == 0 || !self.has_doc_mapper || self.has_query(0)
            },
            (DirectoryPhase::ApplyingDeletes, Reply::DeleteApplied) => {
                let applied: usize = self.num_applied + 1;
                applied >= num_delete_tasks || self.has_query(applied)
            },
            _ => true,
        }
    }

    /// Goes on with the merge on a reply.
    pub fn resume(self, reply: Reply<T>) -> (progress: DirectoryProgress<T>)
        requires
            self@.wf(),
            self@.can_resume(reply@),
        ensures
            progress@ == self@.next(reply@),
            progress@ matches DirectoryProgressView::Ongoing(merge, _) ==> merge.wf(),
    {
        let mut merge = self;
        let num_delete_tasks: usize = merge.delete_tasks.len();
        match (merge.phase, reply) {
            (DirectoryPhase::OpeningUnion, Reply::UnionOpened(output)) => {
                merge.output = Some(output);
                if num_delete_tasks == 0 {
                    merge.phase = DirectoryPhase::ListingSegments;
                    DirectoryProgress::Ongoing(merge, Action::ListSegments)
                } else if !merge.has_doc_mapper {
                    DirectoryProgress::Failed(MergeError::MissingDocMapper)
                } else {
                    merge.phase = DirectoryPhase::ApplyingDeletes;
                    let request = merge.delete_request(0);
                    DirectoryProgress::Ongoing(merge, Action::ApplyDelete(request))
                }
            },
            (DirectoryPhase::ApplyingDeletes, Reply::DeleteApplied) => {
                merge.num_applied += 1;
                if merge.num_applied < num_delete_tasks {
                    let request = merge.delete_request(merge.num_applied);
                    DirectoryProgress::Ongoing(merge, Action::ApplyDelete(request))
                } else {
                    merge.phase = DirectoryPhase::CommittingDeletes;
                    DirectoryProgress::Ongoing(merge, Action::CommitDeletes)
                }
            },
            (DirectoryPhase::CommittingDeletes, Reply::DeletesCommitted) => {
                merge.phase = DirectoryPhase::ListingSegments;
                DirectoryProgress::Ongoing(merge, Action::ListSegments)
            },
            (DirectoryPhase::ListingSegments, Reply::Segments(segment_ids)) => {
                // A merge is useless if there is no delete and only one segment.
                if num_delete_tasks == 0 && segment_ids.len() <= 1 {
                    return DirectoryProgress::Merged(merge.output.unwrap());
                }
                // If after deletion there is no longer any document, don't try to merge.
                if num_delete_tasks != 0 && segment_ids.len() == 0 {
                    return DirectoryProgress::Merged(merge.output.unwrap());
                }
                merge.phase = DirectoryPhase::MergingSegments;
                DirectoryProgress::Ongoing(merge, Action::MergeSegments(segment_ids))
            },
            (DirectoryPhase::MergingSegments, Reply::SegmentsMerged) => DirectoryProgress::Merged(
                merge.output.unwrap(),
            ),
            (_, Reply::Failed(error)) => DirectoryProgress::Aborted(error),
            _ => DirectoryProgress::Failed(MergeError::UnexpectedReply),
        }
    }
}

} // verus!
