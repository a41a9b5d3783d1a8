//! What holds of the messages of a merge operation, whatever it is told.
use vstd::prelude::*;

use crate::batch::{Handles, IndexedSplitBatchView, PublishLock};
use crate::error::MergeErrorView;
use crate::executor::MergeExecutorView;
use crate::operation::MergeOperationType;
use crate::protocol::{ActionView, ReplyView};
use crate::run::{MergeJobView, MergeRunView, MergedIndexView};
use crate::run_laws::{actions_on, run_after};
use crate::split::{SplitAttrsView, TimeRange};

verus! {

/// A run asks for one thing on each reply.
proof fn lemma_one_action_per_reply<T: Handles>(
    executor: MergeExecutorView,
    run: MergeRunView<T>,
    replies: Seq<ReplyView<T>>,
)
    ensures
        actions_on(executor, run, replies).len() == replies.len(),
    decreases replies.len(),
{
    if replies.len() > 0 {
        lemma_one_action_per_reply(executor, run, replies.drop_last());
    }
}

/// Failed work ends a run: its error is handed on, and whatever the run is told then, it
/// asks for nothing more. No delete is committed behind it, no split is marked for
/// deletion and no batch is sent.
pub proof fn law_nothing_follows_failed_work<T: Handles>(
    executor: MergeExecutorView,
    run: MergeRunView<T>,
    replies: Seq<ReplyView<T>>,
    i: int,
)
    requires
        0 <= i < replies.len(),
        replies[i] is Failed,
    ensures
        ({
            let actions = actions_on(executor, run, replies);
            let unexpected = ActionView::<T>::Fail(MergeErrorView::UnexpectedReply);
            &&& actions.len() == replies.len()
            &&& actions[i] == if run_after(executor, run, replies.take(i)) is Finished {
                unexpected
            } else {
                ActionView::<T>::Abort(replies[i]->Failed_0)
            }
            &&& forall|j: int| i < j < actions.len() ==> #[trigger] actions[j] == unexpected
            &&& run_after(executor, run, replies) is Finished
        }),
    decreases replies.len(),
{
    let before = replies.drop_last();
    lemma_one_action_per_reply(executor, run, before);
    if i == before.len() {
        assert(replies.take(i) =~= before);
    } else {
        assert(before.take(i) =~= replies.take(i));
        law_nothing_follows_failed_work(executor, run, before, i);
    }
}

/// Whether an action settles what becomes of the splits of an operation: their batch is
/// sent, or they are marked for deletion.
pub open spec fn settles<T: Handles>(action: ActionView<T>) -> bool {
    action is SendBatch || action is MarkSplitForDeletion
}

/// Whatever a run is told, it settles what becomes of the splits at most once. So it
/// sends at most one batch, and none where a split is marked for deletion.
pub proof fn law_settled_at_most_once<T: Handles>(
    executor: MergeExecutorView,
    run: MergeRunView<T>,
    replies: Seq<ReplyView<T>>,
)
    ensures
        ({
            let actions = actions_on(executor, run, replies);
            forall|i: int, j: int|
                0 <= i < j < actions.len() ==> !(settles(#[trigger] actions[i]) && settles(
                    #[trigger] actions[j],
                ))
        }),
{
    lemma_settled_runs_end(executor, run, replies);
}

/// Whatever a run is told, it sends at most one batch.
pub proof fn law_at_most_one_batch<T: Handles>(
    executor: MergeExecutorView,
    run: MergeRunView<T>,
    replies: Seq<ReplyView<T>>,
)
    ensures
        ({
            let actions = actions_on(executor, run, replies);
            forall|i: int, j: int|
                0 <= i < j < actions.len() ==> !(#[trigger] actions[i] is SendBatch
                    && #[trigger] actions[j] is SendBatch)
        }),
{
    law_settled_at_most_once(executor, run, replies);
    let actions = actions_on(executor, run, replies);
    assert forall|i: int, j: int| 0 <= i < j < actions.len() implies !(
    #[trigger] actions[i] is SendBatch && #[trigger] actions[j] is SendBatch) by {
        assert(!(settles(actions[i]) && settles(actions[j])));
    }
}

/// Once what becomes of the splits is settled, the run is as good as finished.
proof fn lemma_settled_runs_end<T: Handles>(
    executor: MergeExecutorView,
    run: MergeRunView<T>,
    replies: Seq<ReplyView<T>>,
)
    ensures
        ({
            let actions = actions_on(executor, run, replies);
            let here = run_after(executor, run, replies);
            &&& (exists|i: int| 0 <= i < actions.len() && settles(#[trigger] actions[i]))
                ==> here is SendingBatch || here is MarkingForDeletion || here is Finished
            &&& forall|i: int, j: int|
                0 <= i < j < actions.len() ==> !(settles(#[trigger] actions[i]) && settles(
                    #[trigger] actions[j],
                ))
        }),
    decreases replies.len(),
{
    if replies.len() > 0 {
        let before = replies.drop_last();
        lemma_settled_runs_end(executor, run, before);
        let earlier = actions_on(executor, run, before);
        let actions = actions_on(executor, run, replies);
        let (after, action) = executor.next(run_after(executor, run, before), replies.last());
        assert(actions == earlier.push(action));
        assert forall|i: int| 0 <= i < earlier.len() implies earlier[i] == #[trigger] actions[i] by {
        }
        assert(settles(action) ==> after is SendingBatch || after is MarkingForDeletion);
    }
}

/// Whether a run works on a job, in the way that the operation asks for.
spec fn works_on<T: Handles>(run: MergeRunView<T>, job: MergeJobView<T>) -> bool {
    match run {
        MergeRunView::ListingDeleteTasks { job: of, .. }
        | MergeRunView::OpeningSplits { job: of, .. }
        | MergeRunView::MergingDirectories { job: of, .. }
        | MergeRunView::OpeningMergedIndex { job: of, .. } => of == job,
        MergeRunView::ListingMergedSegments(merged)
        | MergeRunView::OpeningMergedSegment(merged)
        | MergeRunView::ReadingTimestampBounds { merged, .. }
        | MergeRunView::ScalingDocsSize { merged, .. } => {
            &&& merged.job == job
            &&& job.operation.operation_type == MergeOperationType::DeleteAndMerge
        },
        MergeRunView::MarkingForDeletion
        | MergeRunView::SendingBatch
        | MergeRunView::Finished => true,
    }
}

/// Whether the first reply to a job that applies deletes lists them, and the latest has
/// this opstamp.
pub open spec fn deletes_told<T: Handles>(
    job: MergeJobView<T>,
    last_delete_opstamp: nat,
    replies: Seq<ReplyView<T>>,
) -> bool {
    job.operation.operation_type == MergeOperationType::DeleteAndMerge ==> {
        &&& replies.len() > 0
        &&& replies[0] matches ReplyView::DeleteTasks(delete_tasks)
        &&& delete_tasks.len() > 0
        &&& last_delete_opstamp == crate::delete_task::last_opstamp(delete_tasks)
    }
}

/// Whether some replies tell of a merged segment with so many documents. If the documents
/// have timestamps, the segment has the field that holds them.
pub open spec fn segment_told<T: Handles>(
    num_docs: nat,
    has_timestamps: bool,
    replies: Seq<ReplyView<T>>,
) -> bool {
    exists|field_ids: Map<Seq<char>, u32>, timestamp_field_name: Option<Seq<char>>| #[trigger]
        replies.contains(
            ReplyView::MergedSegmentOpened { num_docs, field_ids, timestamp_field_name },
        ) && match timestamp_field_name {
            Some(name) => has_timestamps && field_ids.contains_key(name),
            None => !has_timestamps,
        }
}

/// Whether some replies tell of a merged segment with so many documents in this time
/// range.
pub open spec fn time_range_told<T: Handles>(
    num_docs: nat,
    time_range: Option<TimeRange>,
    replies: Seq<ReplyView<T>>,
) -> bool {
    &&& segment_told(num_docs, time_range is Some, replies)
    &&& time_range matches Some(bounds) ==> replies.contains(ReplyView::TimestampBounds(bounds))
}

/// Whether what a merged index rests on is among the replies of a run.
spec fn told<T: Handles>(merged: MergedIndexView<T>, replies: Seq<ReplyView<T>>) -> bool {
    &&& deletes_told(merged.job, merged.last_delete_opstamp, replies)
    &&& replies.contains(ReplyView::UnionOpened(merged.output_directory))
    &&& replies.contains(ReplyView::MergedIndexOpened(merged.index))
}

/// Whether what a run holds is among its replies.
spec fn holds_what_it_was_told<T: Handles>(
    run: MergeRunView<T>,
    replies: Seq<ReplyView<T>>,
) -> bool {
    match run {
        MergeRunView::ListingDeleteTasks { .. } => replies.len() == 0,
        MergeRunView::OpeningSplits { job, delete_tasks, .. } => deletes_told(
            job,
            crate::delete_task::last_opstamp(delete_tasks),
            replies,
        ),
        MergeRunView::MergingDirectories { job, last_delete_opstamp, directories } => {
            &&& deletes_told(job, last_delete_opstamp, replies)
            &&& directories.wf()
            &&& directories.output matches Some(output) ==> replies.contains(
                ReplyView::UnionOpened(output),
            )
        },
        MergeRunView::OpeningMergedIndex { job, last_delete_opstamp, output_directory } => {
            &&& deletes_told(job, last_delete_opstamp, replies)
            &&& replies.contains(ReplyView::UnionOpened(output_directory))
        },
        MergeRunView::ListingMergedSegments(merged)
        | MergeRunView::OpeningMergedSegment(merged) => told(merged, replies),
        MergeRunView::ReadingTimestampBounds { merged, num_docs } => {
            &&& told(merged, replies)
            &&& segment_told(num_docs, true, replies)
        },
        MergeRunView::ScalingDocsSize { merged, num_docs, time_range } => {
            &&& told(merged, replies)
            &&& time_range_told(num_docs, time_range, replies)
        },
        _ => true,
    }
}

/// Whether a batch is what a job asks for.
pub open spec fn batch_of_job<T: Handles>(
    executor: MergeExecutorView,
    job: MergeJobView<T>,
    batch: IndexedSplitBatchView<T>,
) -> bool {
    let operation = job.operation;
    let attrs = batch.splits[0].split_attrs;
    &&& batch.batch_parent_span == operation.merge_parent_span
    &&& batch.checkpoint_delta is None
    &&& batch.publish_lock == PublishLock::Default
    &&& batch.merge_operation == Some(operation)
    &&& batch.splits.len() == 1
    &&& batch.splits[0].split_scratch_directory == job.scratch_directory
    &&& attrs.split_id == operation.merge_split_id
    &&& attrs.replaced_split_ids == crate::merge_attrs::split_ids(operation.splits)
    &&& job.merges() ==> attrs == crate::merge_attrs::merged_attrs(
        operation.merge_split_id,
        executor.pipeline_id,
        operation.splits,
    )
}

/// Whether the attributes of a split that is left after deletes come from some replies:
/// the latest delete from the list of the deletes, which is the first of them, and the
/// number of documents, their size and their time range from what is told of the merged
/// segment. All the rest comes from the one split of the operation.
pub open spec fn attrs_of_replies<T: Handles>(
    job: MergeJobView<T>,
    attrs: SplitAttrsView,
    replies: Seq<ReplyView<T>>,
) -> bool {
    &&& deletes_told(job, attrs.delete_opstamp, replies)
    &&& time_range_told(attrs.num_docs, attrs.time_range, replies)
    &&& replies.contains(ReplyView::DocsSizeScaled(attrs.uncompressed_docs_size_in_bytes))
    &&& attrs == crate::executor::attrs_after_deletes(
        job.operation.merge_split_id,
        job.operation.splits[0],
        attrs.delete_opstamp,
        attrs.num_docs,
        attrs.uncompressed_docs_size_in_bytes,
        attrs.time_range,
    )
}

/// Whether the one split of a batch comes from some replies: its output directory, its
/// index and, after deletes, its attributes.
pub open spec fn batch_of_replies<T: Handles>(
    job: MergeJobView<T>,
    batch: IndexedSplitBatchView<T>,
    replies: Seq<ReplyView<T>>,
) -> bool {
    let split = batch.splits[0];
    &&& split.controlled_directory_opt matches Some(output) && replies.contains(
        ReplyView::UnionOpened(output),
    )
    &&& replies.contains(ReplyView::MergedIndexOpened(split.index))
    &&& job.deletes() ==> attrs_of_replies(job, split.split_attrs, replies)
}

/// Every batch that a run ever sends is the batch of its operation, whatever the run is
/// told. It is traced under the span of the operation, holds the operation, moves no
/// checkpoint and has a lock of its own. Its one split has the id that the operation
/// gives, replaces the splits of the operation in order, is in the scratch directory of
/// the run, and is on the output directory and the index that the run was told of. For a
/// merge, its attributes are those of the merged splits. After deletes, they are those of
/// the one split, up to the latest of the deletes that the run was told of first, with the
/// documents, the size and the time range that it was told are left.
pub proof fn law_every_batch_is_of_its_operation<T: Handles>(
    executor: MergeExecutorView,
    job: MergeJobView<T>,
    num_split_directories: nat,
    replies: Seq<ReplyView<T>>,
)
    requires
        job.operation.wf(),
    ensures
        ({
            let (run, first) = MergeRunView::<T>::start(job, num_split_directories);
            let actions = actions_on(executor, run, replies);
            &&& !(first is SendBatch)
            &&& forall|i: int|
                0 <= i < actions.len() ==> (#[trigger] actions[i] matches ActionView::SendBatch(
                    batch,
                ) ==> batch_of_job(executor, job, batch) && batch_of_replies(job, batch, replies))
        }),
    decreases replies.len(),
{
    let run = MergeRunView::<T>::start(job, num_split_directories).0;
    if replies.len() > 0 {
        let before = replies.drop_last();
        let reply = replies.last();
        let here = run_after(executor, run, before);
        law_every_batch_is_of_its_operation(executor, job, num_split_directories, before);
        lemma_runs_stay_with_their_job(executor, job, num_split_directories, before);
        lemma_batch_of_a_step(executor, job, here, before, reply);
        assert(before.push(reply) =~= replies);
        let earlier = actions_on(executor, run, before);
        let actions = actions_on(executor, run, replies);
        assert forall|i: int| 0 <= i < actions.len() implies (
        #[trigger] actions[i] matches ActionView::SendBatch(batch) ==> batch_of_job(
            executor,
            job,
            batch,
        ) && batch_of_replies(job, batch, replies)) by {
            if i < earlier.len() {
                assert(actions[i] == earlier[i]);
                if actions[i] is SendBatch {
                    lemma_more_replies(job, actions[i]->SendBatch_0, before, reply);
                }
            }
        }
    }
}

/// What comes from some replies also comes from more of them.
proof fn lemma_more_replies<T: Handles>(
    job: MergeJobView<T>,
    batch: IndexedSplitBatchView<T>,
    replies: Seq<ReplyView<T>>,
    reply: ReplyView<T>,
)
    requires
        batch_of_replies(job, batch, replies),
    ensures
        batch_of_replies(job, batch, replies.push(reply)),
{
    lemma_all_still_among(replies, reply);
}

/// All replies stay among the replies, and the last one is.
proof fn lemma_all_still_among<T: Handles>(replies: Seq<ReplyView<T>>, reply: ReplyView<T>)
    ensures
        forall|earlier: ReplyView<T>| #[trigger]
            replies.contains(earlier) ==> replies.push(reply).contains(earlier),
        replies.push(reply).contains(reply),
        replies.len() > 0 ==> replies.push(reply)[0] == replies[0],
{
    let more = replies.push(reply);
    assert forall|earlier: ReplyView<T>| #[trigger] replies.contains(earlier) implies more.contains(
        earlier,
    ) by {
        let i = choose|i: int| 0 <= i < replies.len() && replies[i] == earlier;
        assert(more[i] == earlier);
    }
    assert(more[replies.len() as int] == reply);
}

/// A run stays with its job, and holds what it was told.
proof fn lemma_runs_stay_with_their_job<T: Handles>(
    executor: MergeExecutorView,
    job: MergeJobView<T>,
    num_split_directories: nat,
    replies: Seq<ReplyView<T>>,
)
    ensures
        ({
            let run = MergeRunView::<T>::start(job, num_split_directories).0;
            let here = run_after(executor, run, replies);
            &&& works_on(here, job)
            &&& holds_what_it_was_told(here, replies)
        }),
    decreases replies.len(),
{
    let run = MergeRunView::<T>::start(job, num_split_directories).0;
    if replies.len() > 0 {
        let before = replies.drop_last();
        let reply = replies.last();
        lemma_runs_stay_with_their_job(executor, job, num_split_directories, before);
        lemma_step_stays_with_its_job(
            executor,
            job,
            run_after(executor, run, before),
            before,
            reply,
        );
        assert(before.push(reply) =~= replies);
    }
}

/// A step stays with its job, and keeps what the run was told.
proof fn lemma_step_stays_with_its_job<T: Handles>(
    executor: MergeExecutorView,
    job: MergeJobView<T>,
    run: MergeRunView<T>,
    replies: Seq<ReplyView<T>>,
    reply: ReplyView<T>,
)
    requires
        works_on(run, job),
        holds_what_it_was_told(run, replies),
    ensures
        works_on(executor.next(run, reply).0, job),
        holds_what_it_was_told(executor.next(run, reply).0, replies.push(reply)),
{
    lemma_all_still_among(replies, reply);
}

/// A batch that a step asks for is that of the job.
proof fn lemma_batch_of_a_step<T: Handles>(
    executor: MergeExecutorView,
    job: MergeJobView<T>,
    run: MergeRunView<T>,
    replies: Seq<ReplyView<T>>,
    reply: ReplyView<T>,
)
    requires
        job.operation.wf(),
        works_on(run, job),
        holds_what_it_was_told(run, replies),
    ensures
        executor.next(run, reply).1 matches ActionView::SendBatch(batch) ==> batch_of_job(
            executor,
            job,
            batch,
        ) && batch_of_replies(job, batch, replies.push(reply)),
{
    lemma_all_still_among(replies, reply);
    if job.deletes() {
        assert(seq![job.operation.splits[0].split_id] =~= crate::merge_attrs::split_ids(
            job.operation.splits,
        ));
    }
}

/// Whatever a run is told, it marks a split for deletion only on the reply that the
/// merged index has no segment. The operation is then one of deletes, the split is its
/// one split, and no batch is ever sent.
pub proof fn law_marked_only_where_nothing_is_left<T: Handles>(
    executor: MergeExecutorView,
    job: MergeJobView<T>,
    num_split_directories: nat,
    replies: Seq<ReplyView<T>>,
    i: int,
)
    requires
        ({
            let run = MergeRunView::<T>::start(job, num_split_directories).0;
            0 <= i < replies.len() && actions_on(executor, run, replies)[i] is MarkSplitForDeletion
        }),
    ensures
        ({
            let (run, first) = MergeRunView::<T>::start(job, num_split_directories);
            let actions = actions_on(executor, run, replies);
            &&& replies[i] == ReplyView::<T>::MergedSegments(0)
            &&& job.operation.operation_type == MergeOperationType::DeleteAndMerge
            &&& actions[i] == ActionView::<T>::MarkSplitForDeletion {
                index_id: job.operation.splits[0].index_id,
                split_id: job.operation.splits[0].split_id,
            }
            &&& !(first is SendBatch)
            &&& forall|j: int| 0 <= j < actions.len() ==> !(#[trigger] actions[j] is SendBatch)
        }),
{
    let run = MergeRunView::<T>::start(job, num_split_directories).0;
    let actions = actions_on(executor, run, replies);
    lemma_one_action_per_reply(executor, run, replies);
    lemma_mark(executor, job, num_split_directories, replies, i);
    law_settled_at_most_once(executor, run, replies);
    assert forall|j: int| 0 <= j < actions.len() implies !(#[trigger] actions[j] is SendBatch) by {
        if actions[j] is SendBatch {
            assert(settles(actions[i]) && settles(actions[j]));
        }
    }
}

/// The step on which a split is marked for deletion.
proof fn lemma_mark<T: Handles>(
    executor: MergeExecutorView,
    job: MergeJobView<T>,
    num_split_directories: nat,
    replies: Seq<ReplyView<T>>,
    i: int,
)
    requires
        ({
            let run = MergeRunView::<T>::start(job, num_split_directories).0;
            0 <= i < replies.len() && actions_on(executor, run, replies)[i] is MarkSplitForDeletion
        }),
    ensures
        ({
            let run = MergeRunView::<T>::start(job, num_split_directories).0;
            &&& replies[i] == ReplyView::<T>::MergedSegments(0)
            &&& job.operation.operation_type == MergeOperationType::DeleteAndMerge
            &&& actions_on(executor, run, replies)[i] == ActionView::<T>::MarkSplitForDeletion {
                index_id: job.operation.splits[0].index_id,
                split_id: job.operation.splits[0].split_id,
            }
        }),
    decreases replies.len(),
{
    let run = MergeRunView::<T>::start(job, num_split_directories).0;
    let before = replies.drop_last();
    lemma_one_action_per_reply(executor, run, before);
    if i < before.len() {
        lemma_mark(executor, job, num_split_directories, before, i);
    } else {
        lemma_runs_stay_with_their_job(executor, job, num_split_directories, before);
    }
}

} // verus!
