//! How far a merge operation is.
use vstd::prelude::*;

use crate::batch::{batch_of, Handles, IndexedSplitView};
use crate::delete_task::{DeleteTask, DeleteTaskView};
use crate::directory_merge::{DirectoryMerge, DirectoryMergeView};
use crate::error::MergeErrorView;
use crate::index_meta::{IndexMetaParts, IndexMetaPartsView};
use crate::merge_attrs::merge_fits;
use crate::operation::{MergeOperation, MergeOperationType, MergeOperationView};
use crate::protocol::{ActionView, Reply, ReplyView};
use crate::split::{SplitAttrsView, TimeRange};

verus! {

/// A merge operation, and the directory that it works in.
pub struct MergeJob<T: Handles> {
    pub operation: MergeOperation,
    pub scratch_directory: T::Scratch,
}

/// The index that a merge operation gave, and the directory that holds it.
pub struct MergedIndex<T: Handles> {
    pub job: MergeJob<T>,
    pub last_delete_opstamp: u64,
    pub output_directory: T::Directory,
    pub index: T::Index,
}

/// How far a merge operation is, and what it waits for.
pub enum MergeRun<T: Handles> {
    ListingDeleteTasks { job: MergeJob<T>, num_split_directories: usize },
    OpeningSplits {
        job: MergeJob<T>,
        delete_tasks: Vec<DeleteTask>,
        num_split_directories: usize,
        /// The metas of the splits that are open, in order.
        index_metas: Vec<IndexMetaParts<T::Segment, T::Header>>,
    },
    MergingDirectories {
        job: MergeJob<T>,
        last_delete_opstamp: u64,
        directories: DirectoryMerge<T>,
    },
    OpeningMergedIndex {
        job: MergeJob<T>,
        last_delete_opstamp: u64,
        output_directory: T::Directory,
    },
    ListingMergedSegments(MergedIndex<T>),
    MarkingForDeletion,
    OpeningMergedSegment(MergedIndex<T>),
    ReadingTimestampBounds { merged: MergedIndex<T>, num_docs: u64 },
    ScalingDocsSize { merged: MergedIndex<T>, num_docs: u64, time_range: Option<TimeRange> },
    SendingBatch,
    Finished,
}

/// Mathematical view of a [`MergeJob`].
#[verifier::ext_equal]
pub struct MergeJobView<T: Handles> {
    pub operation: MergeOperationView,
    pub scratch_directory: T::Scratch,
}

/// Mathematical view of a [`MergedIndex`].
#[verifier::ext_equal]
pub struct MergedIndexView<T: Handles> {
    pub job: MergeJobView<T>,
    pub last_delete_opstamp: nat,
    pub output_directory: T::Directory,
    pub index: T::Index,
}

/// Mathematical view of a [`MergeRun`].
#[verifier::ext_equal]
pub enum MergeRunView<T: Handles> {
    ListingDeleteTasks { job: MergeJobView<T>, num_split_directories: nat },
    OpeningSplits {
        job: MergeJobView<T>,
        delete_tasks: Seq<DeleteTaskView>,
        num_split_directories: nat,
        index_metas: Seq<IndexMetaPartsView<T::Segment, T::Header>>,
    },
    MergingDirectories {
        job: MergeJobView<T>,
        last_delete_opstamp: nat,
        directories: DirectoryMergeView<T>,
    },
    OpeningMergedIndex {
        job: MergeJobView<T>,
        last_delete_opstamp: nat,
        output_directory: T::Directory,
    },
    ListingMergedSegments(MergedIndexView<T>),
    MarkingForDeletion,
    OpeningMergedSegment(MergedIndexView<T>),
    ReadingTimestampBounds { merged: MergedIndexView<T>, num_docs: nat },
    ScalingDocsSize { merged: MergedIndexView<T>, num_docs: nat, time_range: Option<TimeRange> },
    SendingBatch,
    Finished,
}

impl<T: Handles> View for MergeJob<T> {
    type V = MergeJobView<T>;

    open spec fn view(&self) -> MergeJobView<T> {
        MergeJobView { operation: self.operation@, scratch_directory: self.scratch_directory }
    }
}

impl<T: Handles> View for MergedIndex<T> {
    type V = MergedIndexView<T>;

    open spec fn view(&self) -> MergedIndexView<T> {
        MergedIndexView {
            job: self.job@,
            last_delete_opstamp: self.last_delete_opstamp as nat,
            output_directory: self.output_directory,
            index: self.index,
        }
    }
}

impl<T: Handles> View for MergeRun<T> {
    type V = MergeRunView<T>;

    open spec fn view(&self) -> MergeRunView<T> {
        match self {
            MergeRun::ListingDeleteTasks { job, num_split_directories } =>
                MergeRunView::ListingDeleteTasks {
                job: job@,
                num_split_directories: *num_split_directories as nat,
            },
            MergeRun::OpeningSplits { job, delete_tasks, num_split_directories, index_metas } =>
                MergeRunView::OpeningSplits {
                job: job@,
                delete_tasks: crate::delete_task::task_views(delete_tasks@),
                num_split_directories: *num_split_directories as nat,
                index_metas: crate::index_meta::meta_views(index_metas@),
            },
            MergeRun::MergingDirectories { job, last_delete_opstamp, directories } =>
                MergeRunView::MergingDirectories {
                job: job@,
                last_delete_opstamp: *last_delete_opstamp as nat,
                directories: directories@,
            },
            MergeRun::OpeningMergedIndex { job, last_delete_opstamp, output_directory } =>
                MergeRunView::OpeningMergedIndex {
                job: job@,
                last_delete_opstamp: *last_delete_opstamp as nat,
                output_directory: *output_directory,
            },
            MergeRun::ListingMergedSegments(merged) => MergeRunView::ListingMergedSegments(merged@),
            MergeRun::MarkingForDeletion => MergeRunView::MarkingForDeletion,
            MergeRun::OpeningMergedSegment(merged) => MergeRunView::OpeningMergedSegment(merged@),
            MergeRun::ReadingTimestampBounds { merged, num_docs } =>
                MergeRunView::ReadingTimestampBounds {
                merged: merged@,
                num_docs: *num_docs as nat,
            },
            MergeRun::ScalingDocsSize { merged, num_docs, time_range } =>
                MergeRunView::ScalingDocsSize {
                merged: merged@,
                num_docs: *num_docs as nat,
                time_range: *time_range,
            },
            MergeRun::SendingBatch => MergeRunView::SendingBatch,
            MergeRun::Finished => MergeRunView::Finished,
        }
    }
}

impl<T: Handles> MergeJobView<T> {
    /// Whether the job is to merge splits.
    pub open spec fn merges(self) -> bool {
        self.operation.operation_type == MergeOperationType::Merge
    }

    /// Whether the job is to apply deletes to one split.
    pub open spec fn deletes(self) -> bool {
        &&& self.operation.operation_type == MergeOperationType::DeleteAndMerge
        &&& self.operation.wf()
    }
}

impl<T: Handles> MergeRunView<T> {
    /// What holds at every point of a run.
    pub open spec fn wf(self) -> bool {
        match self {
            MergeRunView::ListingDeleteTasks { job, .. } => job.deletes(),
            MergeRunView::OpeningSplits {
                job,
                delete_tasks,
                num_split_directories,
                index_metas,
            } => {
                &&& job.operation.wf()
                &&& index_metas.len() < num_split_directories
                &&& delete_tasks.len() == 0 <==> job.merges()
            },
            MergeRunView::MergingDirectories { job, last_delete_opstamp, directories } => {
                &&& job.operation.wf()
                &&& directories.wf()
                &&& directories.delete_tasks.len() == 0 <==> job.merges()
                &&& directories.has_doc_mapper <==> job.deletes()
                &&& last_delete_opstamp == crate::delete_task::last_opstamp(
                    directories.delete_tasks,
                )
            },
            MergeRunView::OpeningMergedIndex { job, .. } => job.operation.wf(),
            MergeRunView::ListingMergedSegments(merged)
            | MergeRunView::OpeningMergedSegment(merged)
            | MergeRunView::ReadingTimestampBounds { merged, .. }
            | MergeRunView::ScalingDocsSize { merged, .. } => merged.job.deletes(),
            MergeRunView::MarkingForDeletion
            | MergeRunView::SendingBatch
            | MergeRunView::Finished => true,
        }
    }

    /// Whether a run can go on with a reply. If a delete comes next, its task says which
    /// documents are to go; and where the attributes of merged splits are computed, their
    /// sums fit.
    pub open spec fn can_resume(self, reply: ReplyView<T>) -> bool {
        match (self, reply) {
            (MergeRunView::MergingDirectories { directories, .. }, _) => directories.can_resume(
                reply,
            ),
            (MergeRunView::OpeningMergedIndex { job, .. }, ReplyView::MergedIndexOpened(_)) => {
                job.merges() ==> crate::merge_attrs::totals_fit(job.operation.splits)
            },
            _ => true,
        }
    }

    /// The start of a run on so many directories, and what it asks for first.
    pub open spec fn start(job: MergeJobView<T>, num_split_directories: nat) -> (
        Self,
        ActionView<T>,
    ) {
        match job.operation.operation_type {
            MergeOperationType::Merge => opening_splits(
                job,
                Seq::empty(),
                num_split_directories,
                Seq::empty(),
            ),
            MergeOperationType::DeleteAndMerge => (
                MergeRunView::ListingDeleteTasks { job, num_split_directories },
                ActionView::ListDeleteTasks {
                    index_id: job.operation.splits[0].index_id,
                    opstamp_start: job.operation.splits[0].delete_opstamp,
                },
            ),
        }
    }
}

/// The run goes on to the next split directory, or from the last one to the merge of
/// the directories. Without any directory it fails.
pub open spec fn opening_splits<T: Handles>(
    job: MergeJobView<T>,
    delete_tasks: Seq<DeleteTaskView>,
    num_split_directories: nat,
    index_metas: Seq<IndexMetaPartsView<T::Segment, T::Header>>,
) -> (MergeRunView<T>, ActionView<T>) {
    if index_metas.len() < num_split_directories {
        (
            MergeRunView::OpeningSplits { job, delete_tasks, num_split_directories, index_metas },
            ActionView::OpenSplit { ord: index_metas.len() },
        )
    } else if index_metas.len() == 0 {
        (MergeRunView::Finished, ActionView::Fail(MergeErrorView::NoIndexMeta))
    } else {
        (
            MergeRunView::MergingDirectories {
                job,
                last_delete_opstamp: crate::delete_task::last_opstamp(delete_tasks),
                directories: DirectoryMergeView::start(
                    delete_tasks,
                    job.operation.operation_type == MergeOperationType::DeleteAndMerge,
                ),
            },
            ActionView::OpenUnion(crate::index_meta::union_of(index_metas)),
        )
    }
}

/// The run goes on to the size of the documents that are left of its split.
pub open spec fn scaling_docs_size<T: Handles>(
    merged: MergedIndexView<T>,
    num_docs: nat,
    time_range: Option<TimeRange>,
) -> (MergeRunView<T>, ActionView<T>) {
    (
        MergeRunView::ScalingDocsSize { merged, num_docs, time_range },
        ActionView::ScaleDocsSize {
            num_docs_left: num_docs,
            docs_size_in_bytes: merged.job.operation.splits[0].uncompressed_docs_size_in_bytes,
            num_docs: merged.job.operation.splits[0].num_docs,
        },
    )
}

/// The run sends its merged index, as one split with these attributes.
pub open spec fn sending_batch<T: Handles>(
    split_attrs: SplitAttrsView,
    merged: MergedIndexView<T>,
) -> (MergeRunView<T>, ActionView<T>) {
    (
        MergeRunView::SendingBatch,
        ActionView::SendBatch(
            batch_of(
                IndexedSplitView {
                    split_attrs,
                    index: merged.index,
                    split_scratch_directory: merged.job.scratch_directory,
                    controlled_directory_opt: Some(merged.output_directory),
                },
                merged.job.operation,
            ),
        ),
    )
}

impl<T: Handles> MergeRun<T> {
    /// Whether the run can go on with a reply.
    pub fn can_resume(&self, reply: &Reply<T>) -> (can_resume: bool)
        requires
            self@.wf(),
        ensures
            can_resume == self@.can_resume(reply@),
    {
        match (self, reply) {
            (MergeRun::MergingDirectories { directories, .. }, _) => directories.can_resume(reply),
            (MergeRun::OpeningMergedIndex { job, .. }, Reply::MergedIndexOpened(_)) => {
                match job.operation.operation_type {
                    MergeOperationType::Merge => merge_fits(job.operation.splits.as_slice()),
                    MergeOperationType::DeleteAndMerge => true,
                }
            },
            _ => true,
        }
    }
}

} // verus!
