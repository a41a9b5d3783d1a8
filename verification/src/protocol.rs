//! What a merge asks to be done, and what it is told in reply.
use vstd::prelude::*;

use crate::batch::{Handles, IndexedSplitBatch, IndexedSplitBatchView};
use crate::delete_task::{DeleteTask, DeleteTaskView, SearchRequest, SearchRequestView};
use crate::error::{MergeError, MergeErrorView};
use crate::index_meta::{IndexMetaParts, IndexMetaPartsView};
use crate::split::TimeRange;

verus! {

/// What a merge asks to be done next. Each action but the last three is answered by the
/// reply that is named with it, or by [`Reply::Failed`].
pub enum Action<T: Handles> {
    /// List the delete tasks of the index after this opstamp: [`Reply::DeleteTasks`].
    ListDeleteTasks { index_id: String, opstamp_start: u64 },
    /// Open the index in the split directory of this position and load its meta:
    /// [`Reply::SplitOpened`].
    OpenSplit { ord: usize },
    /// Open a writer on the union of the splits, overlaid with this meta and with the
    /// output directory: [`Reply::UnionOpened`].
    OpenUnion(IndexMetaParts<T::Segment, T::Header>),
    /// Delete from the union what the search finds: [`Reply::DeleteApplied`].
    ApplyDelete(SearchRequest),
    /// Commit the deletes: [`Reply::DeletesCommitted`].
    CommitDeletes,
    /// List the ids of the searchable segments of the union: [`Reply::Segments`].
    ListSegments,
    /// Merge the segments with these ids, and wait for the end: [`Reply::SegmentsMerged`].
    MergeSegments(Vec<String>),
    /// Open the index in the output directory: [`Reply::MergedIndexOpened`].
    OpenMergedIndex,
    /// Count the searchable segments of that index: [`Reply::MergedSegments`].
    ListMergedSegments,
    /// Mark the split for deletion: [`Reply::SplitMarked`].
    MarkSplitForDeletion { index_id: String, split_id: String },
    /// Open the first segment of that index: [`Reply::MergedSegmentOpened`].
    OpenMergedSegment,
    /// Read the smallest and the largest timestamp of that segment from the field with
    /// this id: [`Reply::TimestampBounds`].
    ReadTimestampBounds { field_id: u32 },
    /// Scale the size of a split's documents to the documents that are left, in single
    /// precision: [`Reply::DocsSizeScaled`].
    ScaleDocsSize { num_docs_left: u64, docs_size_in_bytes: u64, num_docs: usize },
    /// Send the packager this batch: [`Reply::BatchSent`].
    SendBatch(IndexedSplitBatch<T>),
    /// Nothing is left to do.
    Finish,
    /// Give up.
    Fail(MergeError),
    /// Give up on a piece of work that failed, and hand its error on.
    Abort(T::Error),
}

/// What a merge is told of what it asked for.
pub enum Reply<T: Handles> {
    DeleteTasks(Vec<DeleteTask>),
    SplitOpened(IndexMetaParts<T::Segment, T::Header>),
    /// The output directory.
    UnionOpened(T::Directory),
    DeleteApplied,
    DeletesCommitted,
    Segments(Vec<String>),
    SegmentsMerged,
    MergedIndexOpened(T::Index),
    /// How many segments there are.
    MergedSegments(usize),
    SplitMarked,
    /// How many documents the segment holds, its schema, and the timestamp field of the
    /// documents, if they have one.
    MergedSegmentOpened {
        num_docs: u32,
        schema: tantivy::schema::Schema,
        timestamp_field_name: Option<String>,
    },
    TimestampBounds(TimeRange),
    DocsSizeScaled(u64),
    BatchSent,
    /// What was asked for failed.
    Failed(T::Error),
}

/// Mathematical view of an [`Action`].
#[verifier::ext_equal]
pub enum ActionView<T: Handles> {
    ListDeleteTasks { index_id: Seq<char>, opstamp_start: nat },
    OpenSplit { ord: nat },
    OpenUnion(IndexMetaPartsView<T::Segment, T::Header>),
    ApplyDelete(SearchRequestView),
    CommitDeletes,
    ListSegments,
    MergeSegments(Seq<Seq<char>>),
    OpenMergedIndex,
    ListMergedSegments,
    MarkSplitForDeletion { index_id: Seq<char>, split_id: Seq<char> },
    OpenMergedSegment,
    ReadTimestampBounds { field_id: u32 },
    ScaleDocsSize { num_docs_left: nat, docs_size_in_bytes: nat, num_docs: nat },
    SendBatch(IndexedSplitBatchView<T>),
    Finish,
    Fail(MergeErrorView),
    Abort(T::Error),
}

/// Mathematical view of a [`Reply`].
#[verifier::ext_equal]
pub enum ReplyView<T: Handles> {
    DeleteTasks(Seq<DeleteTaskView>),
    SplitOpened(IndexMetaPartsView<T::Segment, T::Header>),
    UnionOpened(T::Directory),
    DeleteApplied,
    DeletesCommitted,
    Segments(Seq<Seq<char>>),
    SegmentsMerged,
    MergedIndexOpened(T::Index),
    MergedSegments(nat),
    SplitMarked,
    MergedSegmentOpened {
        num_docs: nat,
        field_ids: Map<Seq<char>, u32>,
        timestamp_field_name: Option<Seq<char>>,
    },
    TimestampBounds(TimeRange),
    DocsSizeScaled(nat),
    BatchSent,
    Failed(T::Error),
}

/// The view of an optional string.
pub open spec fn option_view(text: Option<String>) -> Option<Seq<char>> {
    match text {
        Some(text) => Some(text@),
        None => None,
    }
}

impl<T: Handles> View for Action<T> {
    type V = ActionView<T>;

    open spec fn view(&self) -> ActionView<T> {
        match self {
            Action::ListDeleteTasks { index_id, opstamp_start } => ActionView::ListDeleteTasks {
                index_id: index_id@,
                opstamp_start: *opstamp_start as nat,
            },
            Action::OpenSplit { ord } => ActionView::OpenSplit { ord: *ord as nat },
            Action::OpenUnion(index_meta) => ActionView::OpenUnion(index_meta@),
            Action::ApplyDelete(request) => ActionView::ApplyDelete(request@),
            Action::CommitDeletes => ActionView::CommitDeletes,
            Action::ListSegments => ActionView::ListSegments,
            Action::MergeSegments(ids) => ActionView::MergeSegments(
                ids@.map_values(|id: String| id@),
            ),
            Action::OpenMergedIndex => ActionView::OpenMergedIndex,
            Action::ListMergedSegments => ActionView::ListMergedSegments,
            Action::MarkSplitForDeletion { index_id, split_id } =>
                ActionView::MarkSplitForDeletion { index_id: index_id@, split_id: split_id@ },
            Action::OpenMergedSegment => ActionView::OpenMergedSegment,
            Action::ReadTimestampBounds { field_id } => ActionView::ReadTimestampBounds {
                field_id: *field_id,
            },
            Action::ScaleDocsSize { num_docs_left, docs_size_in_bytes, num_docs } =>
                ActionView::ScaleDocsSize {
                num_docs_left: *num_docs_left as nat,
                docs_size_in_bytes: *docs_size_in_bytes as nat,
                num_docs: *num_docs as nat,
            },
            Action::SendBatch(batch) => ActionView::SendBatch(batch@),
            Action::Finish => ActionView::Finish,
            Action::Fail(error) => ActionView::Fail(error@),
            Action::Abort(error) => ActionView::Abort(*error),
        }
    }
}

impl<T: Handles> View for Reply<T> {
    type V = ReplyView<T>;

    open spec fn view(&self) -> ReplyView<T> {
        match self {
            Reply::DeleteTasks(delete_tasks) => ReplyView::DeleteTasks(
                crate::delete_task::task_views(delete_tasks@),
            ),
            Reply::SplitOpened(index_meta) => ReplyView::SplitOpened(index_meta@),
            Reply::UnionOpened(output) => ReplyView::UnionOpened(*output),
            Reply::DeleteApplied => ReplyView::DeleteApplied,
            Reply::DeletesCommitted => ReplyView::DeletesCommitted,
            Reply::Segments(ids) => ReplyView::Segments(ids@.map_values(|id: String| id@)),
            Reply::SegmentsMerged => ReplyView::SegmentsMerged,
            Reply::MergedIndexOpened(index) => ReplyView::MergedIndexOpened(*index),
            Reply::MergedSegments(num_segments) => ReplyView::MergedSegments(*num_segments as nat),
            Reply::SplitMarked => ReplyView::SplitMarked,
            Reply::MergedSegmentOpened { num_docs, schema, timestamp_field_name } =>
                ReplyView::MergedSegmentOpened {
                num_docs: *num_docs as nat,
                field_ids: crate::schema::field_ids(*schema),
                timestamp_field_name: option_view(*timestamp_field_name),
            },
            Reply::TimestampBounds(bounds) => ReplyView::TimestampBounds(*bounds),
            Reply::DocsSizeScaled(size) => ReplyView::DocsSizeScaled(*size as nat),
            Reply::BatchSent => ReplyView::BatchSent,
            Reply::Failed(error) => ReplyView::Failed(*error),
        }
    }
}

} // verus!
