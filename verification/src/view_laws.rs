//! The views hold what the values hold: nothing is left out of one, made up or mixed up.
use vstd::prelude::*;

use crate::batch::{Handles, IndexedSplit, IndexedSplitBatch};
use crate::delete_task::{task_views, DeleteQuery, DeleteTask, SearchRequest};
use crate::directory_merge::{DirectoryMerge, DirectoryProgress, DirectoryProgressView};
use crate::error::{MergeError, MergeErrorView};
use crate::index_meta::{meta_views, IndexMetaParts};
use crate::operation::MergeOperation;
use crate::protocol::{option_view, Action, ActionView, Reply, ReplyView};
use crate::run::{MergeJob, MergeRun, MergeRunView, MergedIndex};
use crate::split::{views, IndexingPipelineId, SplitAttrs, SplitMetadata};

verus! {

/// Whether a list of texts reads as a list of strings.
pub open spec fn reads_as(texts: Seq<Seq<char>>, strings: Seq<String>) -> bool {
    &&& texts.len() == strings.len()
    &&& forall|i: int| 0 <= i < strings.len() ==> #[trigger] texts[i] == strings[i]@
}

/// A split is seen with all that is known of it.
pub proof fn law_view_of_a_split(split: SplitMetadata)
    ensures
        split@.split_id == split.split_id@,
        split@.index_id == split.index_id@,
        split@.source_id == split.source_id@,
        split@.node_id == split.node_id@,
        split@.partition_id == split.partition_id,
        split@.num_docs == split.num_docs,
        split@.uncompressed_docs_size_in_bytes == split.uncompressed_docs_size_in_bytes,
        split@.time_range == split.time_range,
        split@.delete_opstamp == split.delete_opstamp,
        split@.num_merge_ops == split.num_merge_ops,
{
}

/// A list of splits is seen split by split, in order.
pub proof fn law_view_of_splits(splits: Seq<SplitMetadata>)
    ensures
        views(splits).len() == splits.len(),
        forall|i: int| 0 <= i < splits.len() ==> #[trigger] views(splits)[i] == splits[i]@,
{
}

/// A pipeline is seen with all that it is known by.
pub proof fn law_view_of_a_pipeline(pipeline_id: IndexingPipelineId)
    ensures
        pipeline_id@.index_id == pipeline_id.index_id@,
        pipeline_id@.source_id == pipeline_id.source_id@,
        pipeline_id@.node_id == pipeline_id.node_id@,
        pipeline_id@.pipeline_ord == pipeline_id.pipeline_ord,
{
}

/// The attributes of a split are seen one by one.
pub proof fn law_view_of_attributes(attrs: SplitAttrs)
    ensures
        attrs@.split_id == attrs.split_id@,
        attrs@.partition_id == attrs.partition_id,
        attrs@.pipeline_id == attrs.pipeline_id@,
        reads_as(attrs@.replaced_split_ids, attrs.replaced_split_ids@),
        attrs@.time_range == attrs.time_range,
        attrs@.num_docs == attrs.num_docs,
        attrs@.uncompressed_docs_size_in_bytes == attrs.uncompressed_docs_size_in_bytes,
        attrs@.delete_opstamp == attrs.delete_opstamp,
        attrs@.num_merge_ops == attrs.num_merge_ops,
{
}

/// A merge operation is seen with its splits, its kind, its id and its span.
pub proof fn law_view_of_an_operation(operation: MergeOperation)
    ensures
        operation@.merge_split_id == operation.merge_split_id@,
        operation@.operation_type == operation.operation_type,
        operation@.merge_parent_span == operation.merge_parent_span,
        operation@.splits.len() == operation.splits@.len(),
        forall|i: int|
            0 <= i < operation.splits@.len() ==> #[trigger] operation@.splits[i]
                == operation.splits@[i]@,
{
}

/// A delete query is seen with all that it asks for.
pub proof fn law_view_of_a_delete_query(delete_query: DeleteQuery)
    ensures
        delete_query@.index_id == delete_query.index_id@,
        delete_query@.query == delete_query.query@,
        delete_query@.start_timestamp == delete_query.start_timestamp,
        delete_query@.end_timestamp == delete_query.end_timestamp,
        reads_as(delete_query@.search_fields, delete_query.search_fields@),
{
}

/// A search is seen with all that it asks for.
pub proof fn law_view_of_a_search(request: SearchRequest)
    ensures
        request@.index_id == request.index_id@,
        request@.query == request.query@,
        request@.start_timestamp == request.start_timestamp,
        request@.end_timestamp == request.end_timestamp,
        reads_as(request@.search_fields, request.search_fields@),
{
}

/// A delete task is seen with its opstamp and with its query, if it has one.
pub proof fn law_view_of_a_delete_task(delete_task: DeleteTask)
    ensures
        delete_task@.opstamp == delete_task.opstamp,
        delete_task@.delete_query is Some <==> delete_task.delete_query is Some,
        delete_task.delete_query matches Some(delete_query) ==> delete_task@.delete_query->0
            == delete_query@,
{
}

/// A list of delete tasks is seen task by task, in order.
pub proof fn law_view_of_delete_tasks(delete_tasks: Seq<DeleteTask>)
    ensures
        task_views(delete_tasks).len() == delete_tasks.len(),
        forall|i: int|
            0 <= i < delete_tasks.len() ==> #[trigger] task_views(delete_tasks)[i]
                == delete_tasks[i]@,
{
}

/// The meta of an index is seen with its segments and with all the rest.
pub proof fn law_view_of_an_index_meta<Segment, Header>(
    index_meta: IndexMetaParts<Segment, Header>,
)
    ensures
        index_meta@.segments == index_meta.segments@,
        index_meta@.header == index_meta.header,
{
}

/// A list of index metas is seen meta by meta, in order.
pub proof fn law_view_of_index_metas<Segment, Header>(
    index_metas: Seq<IndexMetaParts<Segment, Header>>,
)
    ensures
        meta_views(index_metas).len() == index_metas.len(),
        forall|i: int|
            0 <= i < index_metas.len() ==> #[trigger] meta_views(index_metas)[i] == index_metas[i]@,
{
}

/// An optional string is seen as what it reads, if it is there.
pub proof fn law_view_of_an_optional_string(text: Option<String>)
    ensures
        option_view(text) is Some <==> text is Some,
        text matches Some(string) ==> option_view(text)->0 == string@,
{
}

/// An error is seen as what it is.
pub proof fn law_view_of_an_error(error: MergeError)
    ensures
        match error {
            MergeError::NoIndexMeta => error@ is NoIndexMeta,
            MergeError::MissingDocMapper => error@ is MissingDocMapper,
            MergeError::MissingTimestampField(name) => error@
                == MergeErrorView::MissingTimestampField(name@),
            MergeError::UnexpectedReply => error@ is UnexpectedReply,
        },
{
}

/// A split with its index is seen with its attributes and with the very handles.
pub proof fn law_view_of_an_indexed_split<T: Handles>(split: IndexedSplit<T>)
    ensures
        split@.split_attrs == split.split_attrs@,
        split@.index == split.index,
        split@.split_scratch_directory == split.split_scratch_directory,
        split@.controlled_directory_opt == split.controlled_directory_opt,
{
}

/// A batch is seen with all its splits, in order, and with all that goes along.
pub proof fn law_view_of_a_batch<T: Handles>(batch: IndexedSplitBatch<T>)
    ensures
        batch@.batch_parent_span == batch.batch_parent_span,
        batch@.publish_lock == batch.publish_lock,
        batch@.checkpoint_delta is Some <==> batch.checkpoint_delta is Some,
        batch.checkpoint_delta matches Some(source) ==> batch@.checkpoint_delta->0 == source@,
        batch@.merge_operation is Some <==> batch.merge_operation is Some,
        batch.merge_operation matches Some(operation) ==> batch@.merge_operation->0 == operation@,
        batch@.splits.len() == batch.splits@.len(),
        forall|i: int|
            0 <= i < batch.splits@.len() ==> #[trigger] batch@.splits[i] == batch.splits@[i]@,
{
}

/// What is asked for is seen as it is.
pub proof fn law_view_of_an_action<T: Handles>(action: Action<T>)
    ensures
        match action {
            Action::ListDeleteTasks { index_id, opstamp_start } => {
                action@ matches ActionView::ListDeleteTasks { index_id: id, opstamp_start: after }
                    && id == index_id@ && after == opstamp_start
            },
            Action::OpenSplit { ord } => action@ matches ActionView::OpenSplit { ord: seen } && seen
                == ord,
            Action::OpenUnion(index_meta) => action@ matches ActionView::OpenUnion(seen) && seen
                == index_meta@,
            Action::ApplyDelete(request) => action@ matches ActionView::ApplyDelete(seen) && seen
                == request@,
            Action::CommitDeletes => action@ is CommitDeletes,
            Action::ListSegments => action@ is ListSegments,
            Action::MergeSegments(ids) => action@ matches ActionView::MergeSegments(seen)
                && reads_as(seen, ids@),
            Action::OpenMergedIndex => action@ is OpenMergedIndex,
            Action::ListMergedSegments => action@ is ListMergedSegments,
            Action::MarkSplitForDeletion { index_id, split_id } => {
                action@ matches ActionView::MarkSplitForDeletion { index_id: index, split_id: split }
                    && index == index_id@ && split == split_id@
            },
            Action::OpenMergedSegment => action@ is OpenMergedSegment,
            Action::ReadTimestampBounds { field_id } => {
                action@ matches ActionView::ReadTimestampBounds { field_id: seen } && seen
                    == field_id
            },
            Action::ScaleDocsSize { num_docs_left, docs_size_in_bytes, num_docs } => {
                action@ matches ActionView::ScaleDocsSize {
                    num_docs_left: left,
                    docs_size_in_bytes: size,
                    num_docs: all,
                } && left == num_docs_left && size == docs_size_in_bytes && all == num_docs
            },
            Action::SendBatch(batch) => action@ matches ActionView::SendBatch(seen) && seen
                == batch@,
            Action::Finish => action@ is Finish,
            Action::Fail(error) => action@ matches ActionView::Fail(seen) && seen == error@,
            Action::Abort(error) => action@ matches ActionView::Abort(seen) && seen == error,
        },
{
}

/// What is told is seen as it is.
pub proof fn law_view_of_a_reply<T: Handles>(reply: Reply<T>)
    ensures
        match reply {
            Reply::DeleteTasks(delete_tasks) => {
                &&& reply@ matches ReplyView::DeleteTasks(seen)
                &&& seen.len() == delete_tasks@.len()
                &&& forall|i: int|
                    0 <= i < delete_tasks@.len() ==> #[trigger] seen[i] == delete_tasks@[i]@
            },
            Reply::SplitOpened(index_meta) => reply@ matches ReplyView::SplitOpened(seen) && seen
                == index_meta@,
            Reply::UnionOpened(output) => reply@ matches ReplyView::UnionOpened(seen) && seen
                == output,
            Reply::DeleteApplied => reply@ is DeleteApplied,
            Reply::DeletesCommitted => reply@ is DeletesCommitted,
            Reply::Segments(ids) => reply@ matches ReplyView::Segments(seen) && reads_as(seen, ids@),
            Reply::SegmentsMerged => reply@ is SegmentsMerged,
            Reply::MergedIndexOpened(index) => {
                reply@ matches ReplyView::MergedIndexOpened(seen) && seen == index
            },
            Reply::MergedSegments(num_segments) => {
                reply@ matches ReplyView::MergedSegments(seen) && seen == num_segments
            },
            Reply::SplitMarked => reply@ is SplitMarked,
            Reply::MergedSegmentOpened { num_docs, schema, timestamp_field_name } => {
                &&& reply@ matches ReplyView::MergedSegmentOpened {
                    num_docs: docs,
                    field_ids,
                    timestamp_field_name: name,
                }
                &&& docs == num_docs
                &&& field_ids == crate::schema::field_ids(schema)
                &&& name is Some <==> timestamp_field_name is Some
                &&& timestamp_field_name matches Some(string) ==> name->0 == string@
            },
            Reply::TimestampBounds(bounds) => reply@ matches ReplyView::TimestampBounds(seen)
                && seen == bounds,
            Reply::DocsSizeScaled(size) => reply@ matches ReplyView::DocsSizeScaled(seen) && seen
                == size,
            Reply::BatchSent => reply@ is BatchSent,
            Reply::Failed(error) => reply@ matches ReplyView::Failed(seen) && seen == error,
        },
{
}

/// A job is seen with its operation and with the very directory that it works in.
pub proof fn law_view_of_a_job<T: Handles>(job: MergeJob<T>)
    ensures
        job@.operation == job.operation@,
        job@.scratch_directory == job.scratch_directory,
{
}

/// A merged index is seen with its job, its deletes and the very handles.
pub proof fn law_view_of_a_merged_index<T: Handles>(merged: MergedIndex<T>)
    ensures
        merged@.job == merged.job@,
        merged@.last_delete_opstamp == merged.last_delete_opstamp,
        merged@.output_directory == merged.output_directory,
        merged@.index == merged.index,
{
}

/// The merge of directories is seen with its deletes and with how far it is.
pub proof fn law_view_of_a_directory_merge<T: Handles>(merge: DirectoryMerge<T>)
    ensures
        merge@.delete_tasks.len() == merge.delete_tasks@.len(),
        forall|i: int|
            0 <= i < merge.delete_tasks@.len() ==> #[trigger] merge@.delete_tasks[i]
                == merge.delete_tasks@[i]@,
        merge@.has_doc_mapper == merge.has_doc_mapper,
        merge@.num_applied == merge.num_applied,
        merge@.phase == merge.phase,
        merge@.output == merge.output,
{
}

/// What becomes of the merge of directories is seen as it is.
pub proof fn law_view_of_directory_progress<T: Handles>(progress: DirectoryProgress<T>)
    ensures
        match progress {
            DirectoryProgress::Ongoing(merge, action) => {
                progress@ matches DirectoryProgressView::Ongoing(seen, asked) && seen == merge@
                    && asked == action@
            },
            DirectoryProgress::Merged(output) => {
                progress@ matches DirectoryProgressView::Merged(seen) && seen == output
            },
            DirectoryProgress::Failed(error) => {
                progress@ matches DirectoryProgressView::Failed(seen) && seen == error@
            },
            DirectoryProgress::Aborted(error) => {
                progress@ matches DirectoryProgressView::Aborted(seen) && seen == error
            },
        },
{
}

/// A run is seen as far as it is, with all that it holds.
pub proof fn law_view_of_a_run<T: Handles>(run: MergeRun<T>)
    ensures
        match run {
            MergeRun::ListingDeleteTasks { job, num_split_directories } => {
                run@ matches MergeRunView::ListingDeleteTasks {
                    job: of,
                    num_split_directories: directories,
                } && of == job@ && directories == num_split_directories
            },
            MergeRun::OpeningSplits { job, delete_tasks, num_split_directories, index_metas } => {
                &&& run@ matches MergeRunView::OpeningSplits {
                    job: of,
                    delete_tasks: tasks,
                    num_split_directories: directories,
                    index_metas: metas,
                }
                &&& of == job@
                &&& directories == num_split_directories
                &&& tasks.len() == delete_tasks@.len()
                &&& forall|i: int|
                    0 <= i < delete_tasks@.len() ==> #[trigger] tasks[i] == delete_tasks@[i]@
                &&& metas.len() == index_metas@.len()
                &&& forall|i: int|
                    0 <= i < index_metas@.len() ==> #[trigger] metas[i] == index_metas@[i]@
            },
            MergeRun::MergingDirectories { job, last_delete_opstamp, directories } => {
                run@ matches MergeRunView::MergingDirectories {
                    job: of,
                    last_delete_opstamp: last,
                    directories: merge,
                } && of == job@ && last == last_delete_opstamp && merge == directories@
            },
            MergeRun::OpeningMergedIndex { job, last_delete_opstamp, output_directory } => {
                run@ matches MergeRunView::OpeningMergedIndex {
                    job: of,
                    last_delete_opstamp: last,
                    output_directory: output,
                } && of == job@ && last == last_delete_opstamp && output == output_directory
            },
            MergeRun::ListingMergedSegments(merged) => {
                run@ matches MergeRunView::ListingMergedSegments(seen) && seen == merged@
            },
            MergeRun::MarkingForDeletion => run@ is MarkingForDeletion,
            MergeRun::OpeningMergedSegment(merged) => {
                run@ matches MergeRunView::OpeningMergedSegment(seen) && seen == merged@
            },
            MergeRun::ReadingTimestampBounds { merged, num_docs } => {
                run@ matches MergeRunView::ReadingTimestampBounds { merged: seen, num_docs: docs }
                    && seen == merged@ && docs == num_docs
            },
            MergeRun::ScalingDocsSize { merged, num_docs, time_range } => {
                run@ matches MergeRunView::ScalingDocsSize {
                    merged: seen,
                    num_docs: docs,
                    time_range: range,
                } && seen == merged@ && docs == num_docs && range == time_range
            },
            MergeRun::SendingBatch => run@ is SendingBatch,
            MergeRun::Finished => run@ is Finished,
        },
{
}

} // verus!
