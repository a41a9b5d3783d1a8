//! The merge executor: what it decides between the pieces of work that it asks for.
use vstd::prelude::*;

use crate::batch::{merge_batch, Handles, IndexedSplit};
use crate::delete_task::{last_delete_opstamp, DeleteTask};
use crate::directory_merge::{merge_split_directories, DirectoryProgress, DirectoryProgressView};
use crate::error::{MergeError, MergeErrorView};
use crate::index_meta::{combine_index_meta, IndexMetaParts};
use crate::merge_attrs::merge_split_attrs;
use crate::operation::{MergeOperation, MergeOperationType};
use crate::protocol::{Action, ActionView, Reply, ReplyView};
use crate::run::{
    opening_splits, scaling_docs_size, sending_batch, MergeJob, MergeJobView, MergeRun,
    MergeRunView, MergedIndex, MergedIndexView,
};
use crate::schema::timestamp_field;
use crate::split::{
    IndexingPipelineId, IndexingPipelineIdView, SplitAttrs, SplitAttrsView, SplitMetadata,
    SplitMetadataView, TimeRange,
};

verus! {

/// How many messages a mailbox holds.
#[derive(Clone, Copy, Debug, PartialEq, Eq)]
pub enum QueueCapacity {
    Bounded(usize),
    Unbounded,
}

/// Carries out merge operations, one at a time.
#[derive(Clone, Debug)]
pub struct MergeExecutor {
    pipeline_id: IndexingPipelineId,
}

/// Mathematical view of a [`MergeExecutor`].
pub struct MergeExecutorView {
    /// The pipeline that merged splits are attributed to.
    pub pipeline_id: IndexingPipelineIdView,
}

impl View for MergeExecutor {
    type V = MergeExecutorView;

    closed spec fn view(&self) -> MergeExecutorView {
        MergeExecutorView { pipeline_id: self.pipeline_id@ }
    }
}

/// The attributes of what is left of `split` after the deletes up to an opstamp.
pub open spec fn attrs_after_deletes(
    merge_split_id: Seq<char>,
    split: SplitMetadataView,
    last_delete_opstamp: nat,
    num_docs: nat,
    uncompressed_docs_size_in_bytes: nat,
    time_range: Option<TimeRange>,
) -> SplitAttrsView {
    SplitAttrsView {
        split_id: merge_split_id,
        partition_id: split.partition_id,
        pipeline_id: IndexingPipelineIdView {
            index_id: split.index_id,
            source_id: split.source_id,
            node_id: split.node_id,
            pipeline_ord: 0,
        },
        replaced_split_ids: seq![split.split_id],
        time_range,
        num_docs,
        uncompressed_docs_size_in_bytes,
        delete_opstamp: last_delete_opstamp,
        num_merge_ops: split.num_merge_ops,
    }
}

/// What is left of a split after deletes takes the place of that split alone, stays in its
/// partition and with its pipeline, and counts no further merge. Its documents are those
/// that are left, and it is up to date with the last delete.
pub proof fn law_what_is_left_of_a_split(
    merge_split_id: Seq<char>,
    split: SplitMetadataView,
    last_delete_opstamp: nat,
    num_docs: nat,
    uncompressed_docs_size_in_bytes: nat,
    time_range: Option<TimeRange>,
)
    ensures
        ({
            let attrs = attrs_after_deletes(
                merge_split_id,
                split,
                last_delete_opstamp,
                num_docs,
                uncompressed_docs_size_in_bytes,
                time_range,
            );
            &&& attrs.split_id == merge_split_id
            &&& attrs.partition_id == split.partition_id
            &&& attrs.pipeline_id.index_id == split.index_id
            &&& attrs.pipeline_id.source_id == split.source_id
            &&& attrs.pipeline_id.node_id == split.node_id
            &&& attrs.pipeline_id.pipeline_ord == 0
            &&& attrs.replaced_split_ids.len() == 1
            &&& attrs.replaced_split_ids[0] == split.split_id
            &&& attrs.time_range == time_range
            &&& attrs.num_docs == num_docs
            &&& attrs.uncompressed_docs_size_in_bytes == uncompressed_docs_size_in_bytes
            &&& attrs.delete_opstamp == last_delete_opstamp
            &&& attrs.num_merge_ops == split.num_merge_ops
        }),
{
}

impl MergeExecutorView {
    /// Where a reply takes a run, and what it asks for next.
    pub open spec fn next<T: Handles>(self, run: MergeRunView<T>, reply: ReplyView<T>) -> (
        MergeRunView<T>,
        ActionView<T>,
    ) {
        match (run, reply) {
            (MergeRunView::Finished, _) => (
                MergeRunView::Finished,
                ActionView::Fail(MergeErrorView::UnexpectedReply),
            ),
            (_, ReplyView::Failed(error)) => (MergeRunView::Finished, ActionView::Abort(error)),
            (
                MergeRunView::ListingDeleteTasks { job, num_split_directories },
                ReplyView::DeleteTasks(delete_tasks),
            ) => {
                if delete_tasks.len() == 0 {
                    (MergeRunView::Finished, ActionView::Finish)
                } else {
                    opening_splits(job, delete_tasks, num_split_directories, Seq::empty())
                }
            },
            (
                MergeRunView::OpeningSplits {
                    job,
                    delete_tasks,
                    num_split_directories,
                    index_metas,
                },
                ReplyView::SplitOpened(index_meta),
            ) => opening_splits(
                job,
                delete_tasks,
                num_split_directories,
                index_metas.push(index_meta),
            ),
            (MergeRunView::MergingDirectories { job, last_delete_opstamp, directories }, _) => {
                match directories.next(reply) {
                    DirectoryProgressView::Ongoing(directories, action) => (
                        MergeRunView::MergingDirectories { job, last_delete_opstamp, directories },
                        action,
                    ),
                    DirectoryProgressView::Merged(output_directory) => (
                        MergeRunView::OpeningMergedIndex {
                            job,
                            last_delete_opstamp,
                            output_directory,
                        },
                        ActionView::OpenMergedIndex,
                    ),
                    DirectoryProgressView::Failed(error) => (
                        MergeRunView::Finished,
                        ActionView::Fail(error),
                    ),
                    DirectoryProgressView::Aborted(error) => (
                        MergeRunView::Finished,
                        ActionView::Abort(error),
                    ),
                }
            },
            (
                MergeRunView::OpeningMergedIndex { job, last_delete_opstamp, output_directory },
                ReplyView::MergedIndexOpened(index),
            ) => {
                let merged = MergedIndexView { job, last_delete_opstamp, output_directory, index };
                match job.operation.operation_type {
                    MergeOperationType::Merge => sending_batch(
                        crate::merge_attrs::merged_attrs(
                            job.operation.merge_split_id,
                            self.pipeline_id,
                            job.operation.splits,
                        ),
                        merged,
                    ),
                    MergeOperationType::DeleteAndMerge => (
                        MergeRunView::ListingMergedSegments(merged),
                        ActionView::ListMergedSegments,
                    ),
                }
            },
            (
                MergeRunView::ListingMergedSegments(merged),
                ReplyView::MergedSegments(num_segments),
            ) => {
                if num_segments == 0 {
                    (
                        MergeRunView::MarkingForDeletion,
                        ActionView::MarkSplitForDeletion {
                            index_id: merged.job.operation.splits[0].index_id,
                            split_id: merged.job.operation.splits[0].split_id,
                        },
                    )
                } else {
                    (MergeRunView::OpeningMergedSegment(merged), ActionView::OpenMergedSegment)
                }
            },
            (MergeRunView::MarkingForDeletion, ReplyView::SplitMarked) => (
                MergeRunView::Finished,
                ActionView::Finish,
            ),
            (
                MergeRunView::OpeningMergedSegment(merged),
                ReplyView::MergedSegmentOpened { num_docs, field_ids, timestamp_field_name },
            ) => match crate::schema::timestamp_field_among(field_ids, timestamp_field_name) {
                Ok(Some(field_id)) => (
                    MergeRunView::ReadingTimestampBounds { merged, num_docs },
                    ActionView::ReadTimestampBounds { field_id },
                ),
                Ok(None) => scaling_docs_size(merged, num_docs, None),
                Err(error) => (MergeRunView::Finished, ActionView::Fail(error)),
            },
            (
                MergeRunView::ReadingTimestampBounds { merged, num_docs },
                ReplyView::TimestampBounds(bounds),
            ) => scaling_docs_size(merged, num_docs, Some(bounds)),
            (
                MergeRunView::ScalingDocsSize { merged, num_docs, time_range },
                ReplyView::DocsSizeScaled(size),
            ) => sending_batch(
                attrs_after_deletes(
                    merged.job.operation.merge_split_id,
                    merged.job.operation.splits[0],
                    merged.last_delete_opstamp,
                    num_docs,
                    size,
                    time_range,
                ),
                merged,
            ),
            (MergeRunView::SendingBatch, ReplyView::BatchSent) => (
                MergeRunView::Finished,
                ActionView::Finish,
            ),
            _ => (MergeRunView::Finished, ActionView::Fail(MergeErrorView::UnexpectedReply)),
        }
    }
}

/// The attributes of what is left of `split` after the deletes up to an opstamp.
/// Deletes do not count as a merge.
pub fn delete_split_attrs(
    merge_split_id: String,
    split: &SplitMetadata,
    last_delete_opstamp: u64,
    num_docs: u64,
    uncompressed_docs_size_in_bytes: u64,
    time_range: Option<TimeRange>,
) -> (attrs: SplitAttrs)
    ensures
        attrs@ == attrs_after_deletes(
            merge_split_id@,
            split@,
            last_delete_opstamp as nat,
            num_docs as nat,
            uncompressed_docs_size_in_bytes as nat,
            time_range,
        ),
        attrs.split_id@ == merge_split_id@,
        attrs.partition_id == split.partition_id,
        attrs.pipeline_id.index_id@ == split.index_id@,
        attrs.pipeline_id.source_id@ == split.source_id@,
        attrs.pipeline_id.node_id@ == split.node_id@,
        attrs.pipeline_id.pipeline_ord == 0,
        attrs.replaced_split_ids@.len() == 1,
        attrs.replaced_split_ids@[0]@ == split.split_id@,
        attrs.time_range == time_range,
        attrs.num_docs == num_docs,
        attrs.uncompressed_docs_size_in_bytes == uncompressed_docs_size_in_bytes,
        attrs.delete_opstamp == last_delete_opstamp,
        attrs.num_merge_ops == split.num_merge_ops,
{
    let pipeline_id = IndexingPipelineId {
        index_id: split.index_id.clone(),
        source_id: split.source_id.clone(),
        node_id: split.node_id.clone(),
        pipeline_ord: 0,
    };
    let mut replaced_split_ids: Vec<String> = Vec::new();
    replaced_split_ids.push(split.split_id.clone());
    let attrs = SplitAttrs {
        split_id: merge_split_id,
        partition_id: split.partition_id,
        pipeline_id,
        replaced_split_ids,
        time_range,
        num_docs,
        uncompressed_docs_size_in_bytes,
        delete_opstamp: last_delete_opstamp,
        num_merge_ops: split.num_merge_ops,
    };
    assert(attrs@.replaced_split_ids =~= seq![split.split_id@]);
    assert(attrs.replaced_split_ids@[0]@ == attrs@.replaced_split_ids[0]);
    attrs
}

impl MergeExecutor {
    /// An executor for a pipeline.
    pub fn new(pipeline_id: IndexingPipelineId) -> (executor: Self)
        ensures
            executor@ == (MergeExecutorView { pipeline_id: pipeline_id@ }),
    {
        MergeExecutor { pipeline_id }
    }

    /// The name under which the executor runs.
    pub fn name(&self) -> (name: String)
        ensures
            name@ == "MergeExecutor"@,
    {
        "MergeExecutor".to_string()
    }

    /// The executor takes one operation while it works on another.
    pub fn queue_capacity(&self) -> (capacity: QueueCapacity)
        ensures
            capacity == QueueCapacity::Bounded(1),
    {
        QueueCapacity::Bounded(1)
    }

    /// Starts a merge operation on splits of which as many directories are at hand, in a
    /// scratch directory.
    pub fn handle<T: Handles>(
        &self,
        operation: MergeOperation,
        num_split_directories: usize,
        scratch_directory: T::Scratch,
    ) -> (started: (MergeRun<T>, Action<T>))
        requires
            operation@.wf(),
            operation.operation_type == MergeOperationType::DeleteAndMerge ==> num_split_directories
                == 1,
        ensures
            (started.0@, started.1@) == MergeRunView::<T>::start(
                MergeJobView { operation: operation@, scratch_directory },
                num_split_directories as nat,
            ),
            started.0@.wf(),
    {
        match operation.operation_type {
            MergeOperationType::Merge => {
                let delete_tasks: Vec<DeleteTask> = Vec::new();
                let index_metas: Vec<IndexMetaParts<T::Segment, T::Header>> = Vec::new();
                assert(crate::delete_task::task_views(delete_tasks@) =~= Seq::empty());
                assert(crate::index_meta::meta_views(index_metas@) =~= Seq::empty());
                Self::open_split_directories(
                    MergeJob { operation, scratch_directory },
                    delete_tasks,
                    num_split_directories,
                    index_metas,
                )
            },
            MergeOperationType::DeleteAndMerge => {
                let action = Action::ListDeleteTasks {
                    index_id: operation.splits[0].index_id.clone(),
                    opstamp_start: operation.splits[0].delete_opstamp,
                };
                let job = MergeJob { operation, scratch_directory };
                (MergeRun::ListingDeleteTasks { job, num_split_directories }, action)
            },
        }
    }

    /// Goes on to the next split directory, or from the metas of all the splits to the
    /// merge of their directories.
    fn open_split_directories<T: Handles>(
        job: MergeJob<T>,
        delete_tasks: Vec<DeleteTask>,
        num_split_directories: usize,
        index_metas: Vec<IndexMetaParts<T::Segment, T::Header>>,
    ) -> (step: (MergeRun<T>, Action<T>))
        requires
            job.operation@.wf(),
            delete_tasks@.len() == 0 <==> job@.merges(),
        ensures
            (step.0@, step.1@) == opening_splits::<T>(
                job@,
                crate::delete_task::task_views(delete_tasks@),
                num_split_directories as nat,
                crate::index_meta::meta_views(index_metas@),
            ),
            step.0@.wf(),
    {
        if index_metas.len() < num_split_directories {
            let action = Action::OpenSplit { ord: index_metas.len() };
            let run = MergeRun::OpeningSplits {
                job,
                delete_tasks,
                num_split_directories,
                index_metas,
            };
            return (run, action);
        }
        let last_delete_opstamp: u64 = if delete_tasks.len() > 0 {
            last_delete_opstamp(delete_tasks.as_slice())
        } else {
            0
        };
        let has_doc_mapper: bool = match job.operation.operation_type {
            MergeOperationType::Merge => false,
            MergeOperationType::DeleteAndMerge => true,
        };
        match combine_index_meta(index_metas) {
            Ok(union_index_meta) => {
                let (directories, action) = merge_split_directories(
                    union_index_meta,
                    delete_tasks,
                    has_doc_mapper,
                );
                (MergeRun::MergingDirectories { job, last_delete_opstamp, directories }, action)
            },
            Err(error) => (MergeRun::Finished, Action::Fail(error)),
        }
    }

    /// Goes on to the size of the documents that are left of the operation's split.
    fn scale_docs_size<T: Handles>(
        merged: MergedIndex<T>,
        num_docs: u64,
        time_range: Option<TimeRange>,
    ) -> (step: (MergeRun<T>, Action<T>))
        requires
            merged.job.operation.splits@.len() == 1,
        ensures
            (step.0@, step.1@) == scaling_docs_size::<T>(merged@, num_docs as nat, time_range),
    {
        let action = Action::ScaleDocsSize {
            num_docs_left: num_docs,
            docs_size_in_bytes: merged.job.operation.splits[0].uncompressed_docs_size_in_bytes,
            num_docs: merged.job.operation.splits[0].num_docs,
        };
        (MergeRun::ScalingDocsSize { merged, num_docs, time_range }, action)
    }

    /// Sends the merged index, as one split with these attributes.
    fn send_batch<T: Handles>(split_attrs: SplitAttrs, merged: MergedIndex<T>) -> (step: (
        MergeRun<T>,
        Action<T>,
    ))
        ensures
            (step.0@, step.1@) == sending_batch::<T>(split_attrs@, merged@),
    {
        let split = IndexedSplit {
            split_attrs,
            index: merged.index,
            split_scratch_directory: merged.job.scratch_directory,
            controlled_directory_opt: Some(merged.output_directory),
        };
        (MergeRun::SendingBatch, Action::SendBatch(merge_batch(split, merged.job.operation)))
    }

    /// Goes on with a merge operation on the reply to what it asked for. The scaled size
    /// of the documents is taken as it is told.
    pub fn resume<T: Handles>(&self, run: MergeRun<T>, reply: Reply<T>) -> (step: (
        MergeRun<T>,
        Action<T>,
    ))
        requires
            run@.wf(),
            run@.can_resume(reply@),
        ensures
            (step.0@, step.1@) == self@.next(run@, reply@),
            step.0@.wf(),
    {
        match (run, reply) {
            (MergeRun::Finished, _) => (
                MergeRun::Finished,
                Action::Fail(MergeError::UnexpectedReply),
            ),
            (_, Reply::Failed(error)) => (MergeRun::Finished, Action::Abort(error)),
            (
                MergeRun::ListingDeleteTasks { job, num_split_directories },
                Reply::DeleteTasks(delete_tasks),
            ) => {
                if delete_tasks.len() == 0 {
                    return (MergeRun::Finished, Action::Finish);
                }
                let index_metas: Vec<IndexMetaParts<T::Segment, T::Header>> = Vec::new();
                assert(crate::index_meta::meta_views(index_metas@) =~= Seq::empty());
                Self::open_split_directories(job, delete_tasks, num_split_directories, index_metas)
            },
            (
                MergeRun::OpeningSplits { job, delete_tasks, num_split_directories, index_metas },
                Reply::SplitOpened(index_meta),
            ) => {
                let mut index_metas = index_metas;
                let ghost before = crate::index_meta::meta_views(index_metas@);
                index_metas.push(index_meta);
                assert(crate::index_meta::meta_views(index_metas@) =~= before.push(index_meta@));
                Self::open_split_directories(job, delete_tasks, num_split_directories, index_metas)
            },
            (MergeRun::MergingDirectories { job, last_delete_opstamp, directories }, reply) => {
                match directories.resume(reply) {
                    DirectoryProgress::Ongoing(directories, action) => (
                        MergeRun::MergingDirectories { job, last_delete_opstamp, directories },
                        action,
                    ),
                    DirectoryProgress::Merged(output_directory) => (
                        MergeRun::OpeningMergedIndex { job, last_delete_opstamp, output_directory },
                        Action::OpenMergedIndex,
                    ),
                    DirectoryProgress::Failed(error) => (MergeRun::Finished, Action::Fail(error)),
                    DirectoryProgress::Aborted(error) => (MergeRun::Finished, Action::Abort(error)),
                }
            },
            (
                MergeRun::OpeningMergedIndex { job, last_delete_opstamp, output_directory },
                Reply::MergedIndexOpened(index),
            ) => match job.operation.operation_type {
                MergeOperationType::Merge => {
                    let split_attrs = merge_split_attrs(
                        job.operation.merge_split_id.clone(),
                        &self.pipeline_id,
                        job.operation.splits.as_slice(),
                    );
                    let merged = MergedIndex { job, last_delete_opstamp, output_directory, index };
                    Self::send_batch(split_attrs, merged)
                },
                MergeOperationType::DeleteAndMerge => {
                    let merged = MergedIndex { job, last_delete_opstamp, output_directory, index };
                    (MergeRun::ListingMergedSegments(merged), Action::ListMergedSegments)
                },
            },
            (MergeRun::ListingMergedSegments(merged), Reply::MergedSegments(num_segments)) => {
                if num_segments == 0 {
                    let action = Action::MarkSplitForDeletion {
                        index_id: merged.job.operation.splits[0].index_id.clone(),
                        split_id: merged.job.operation.splits[0].split_id.clone(),
                    };
                    (MergeRun::MarkingForDeletion, action)
                } else {
                    (MergeRun::OpeningMergedSegment(merged), Action::OpenMergedSegment)
                }
            },
            (MergeRun::MarkingForDeletion, Reply::SplitMarked) => (
                MergeRun::Finished,
                Action::Finish,
            ),
            (
                MergeRun::OpeningMergedSegment(merged),
                Reply::MergedSegmentOpened { num_docs, schema, timestamp_field_name },
            ) => {
                let num_docs: u64 = num_docs as u64;
                match timestamp_field(&schema, &timestamp_field_name) {
                    Ok(Some(field_id)) => (
                        MergeRun::ReadingTimestampBounds { merged, num_docs },
                        Action::ReadTimestampBounds { field_id },
                    ),
                    Ok(None) => Self::scale_docs_size(merged, num_docs, None),
                    Err(error) => (MergeRun::Finished, Action::Fail(error)),
                }
            },
            (
                MergeRun::ReadingTimestampBounds { merged, num_docs },
                Reply::TimestampBounds(bounds),
            ) => Self::scale_docs_size(merged, num_docs, Some(bounds)),
            (
                MergeRun::ScalingDocsSize { merged, num_docs, time_range },
                Reply::DocsSizeScaled(size),
            ) => {
                let split_attrs = delete_split_attrs(
                    merged.job.operation.merge_split_id.clone(),
                    &merged.job.operation.splits[0],
                    merged.last_delete_opstamp,
                    num_docs,
                    size,
                    time_range,
                );
                Self::send_batch(split_attrs, merged)
            },
            (MergeRun::SendingBatch, Reply::BatchSent) => (MergeRun::Finished, Action::Finish),
            _ => (MergeRun::Finished, Action::Fail(MergeError::UnexpectedReply)),
        }
    }
}

} // verus!
