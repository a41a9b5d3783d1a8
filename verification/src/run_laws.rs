//! What holds of every run of a merge operation, from its start to its end.
use vstd::prelude::*;

use crate::batch::{Handles, IndexedSplitBatchView, IndexedSplitView, PublishLock};
use crate::delete_task::{DeleteTaskView, SearchRequestView};
use crate::directory_merge::{DirectoryMergeView, DirectoryPhase};
use crate::error::MergeErrorView;
use crate::executor::MergeExecutorView;
use crate::index_meta::IndexMetaPartsView;
use crate::operation::MergeOperationType;
use crate::protocol::{ActionView, ReplyView};
use crate::run::{MergeJobView, MergeRunView, MergedIndexView};
use crate::split::{IndexingPipelineIdView, SplitAttrsView, SplitMetadataView, TimeRange};

verus! {

/// Where a run is after some replies.
pub open spec fn run_after<T: Handles>(
    executor: MergeExecutorView,
    run: MergeRunView<T>,
    replies: Seq<ReplyView<T>>,
) -> MergeRunView<T>
    decreases replies.len(),
{
    if replies.len() == 0 {
        run
    } else {
        executor.next(run_after(executor, run, replies.drop_last()), replies.last()).0
    }
}

/// What a run asks for on each of some replies.
pub open spec fn actions_on<T: Handles>(
    executor: MergeExecutorView,
    run: MergeRunView<T>,
    replies: Seq<ReplyView<T>>,
) -> Seq<ActionView<T>>
    decreases replies.len(),
{
    if replies.len() == 0 {
        seq![]
    } else {
        let before = replies.drop_last();
        actions_on(executor, run, before).push(
            executor.next(run_after(executor, run, before), replies.last()).1,
        )
    }
}

/// One more reply takes the run one step further.
proof fn lemma_one_more<T: Handles>(
    executor: MergeExecutorView,
    run: MergeRunView<T>,
    replies: Seq<ReplyView<T>>,
    reply: ReplyView<T>,
)
    ensures
        ({
            let here = run_after(executor, run, replies);
            &&& run_after(executor, run, replies.push(reply)) == executor.next(here, reply).0
            &&& actions_on(executor, run, replies.push(reply)) == actions_on(
                executor,
                run,
                replies,
            ).push(executor.next(here, reply).1)
        }),
{
    assert(replies.push(reply).drop_last() =~= replies);
}

/// The searches of the delete tasks, as what is asked for, in order.
pub open spec fn deletes<T: Handles>(delete_tasks: Seq<DeleteTaskView>) -> Seq<ActionView<T>> {
    delete_tasks.map_values(
        |delete_task: DeleteTaskView|
            ActionView::ApplyDelete(
                SearchRequestView {
                    index_id: delete_task.delete_query->0.index_id,
                    query: delete_task.delete_query->0.query,
                    search_fields: delete_task.delete_query->0.search_fields,
                    start_timestamp: delete_task.delete_query->0.start_timestamp,
                    end_timestamp: delete_task.delete_query->0.end_timestamp,
                },
            ),
    )
}

/// What is asked for where segments are merged that are worth it.
pub open spec fn merge_if<T: Handles>(useful: bool, ids: Seq<Seq<char>>) -> Seq<ActionView<T>> {
    if useful {
        seq![ActionView::MergeSegments(ids)]
    } else {
        seq![]
    }
}

/// The replies to what [`merge_if`] asks for.
pub open spec fn merged_if<T: Handles>(useful: bool) -> Seq<ReplyView<T>> {
    if useful {
        seq![ReplyView::SegmentsMerged]
    } else {
        seq![]
    }
}

/// The replies with the metas of the splits, in order.
pub open spec fn opened<T: Handles>(
    index_metas: Seq<IndexMetaPartsView<T::Segment, T::Header>>,
) -> Seq<ReplyView<T>> {
    index_metas.map_values(
        |index_meta: IndexMetaPartsView<T::Segment, T::Header>| ReplyView::SplitOpened(index_meta),
    )
}

/// What is asked for to open the split directories behind the first of so many.
pub open spec fn openings<T: Handles>(num_split_directories: nat) -> Seq<ActionView<T>>
    recommends
        num_split_directories > 0,
{
    Seq::new(
        (num_split_directories - 1) as nat,
        |i: int| ActionView::OpenSplit { ord: (i + 1) as nat },
    )
}

/// After the metas of some of the splits a run asks for that of the next.
proof fn lemma_some_splits_opened<T: Handles>(
    executor: MergeExecutorView,
    job: MergeJobView<T>,
    num_split_directories: nat,
    index_metas: Seq<IndexMetaPartsView<T::Segment, T::Header>>,
)
    requires
        job.merges(),
        index_metas.len() < num_split_directories,
    ensures
        ({
            let run = MergeRunView::<T>::start(job, num_split_directories).0;
            &&& run_after(executor, run, opened(index_metas)) == (MergeRunView::<T>::OpeningSplits {
                job,
                delete_tasks: Seq::empty(),
                num_split_directories,
                index_metas,
            })
            &&& actions_on(executor, run, opened(index_metas)) == openings::<T>(
                index_metas.len() + 1,
            )
        }),
    decreases index_metas.len(),
{
    let run = MergeRunView::<T>::start(job, num_split_directories).0;
    if index_metas.len() == 0 {
        assert(index_metas =~= Seq::empty());
        assert(actions_on(executor, run, opened(index_metas)) =~= openings::<T>(1));
    } else {
        let before = index_metas.drop_last();
        let reply = ReplyView::SplitOpened(index_metas.last());
        lemma_some_splits_opened(executor, job, num_split_directories, before);
        lemma_one_more(executor, run, opened(before), reply);
        assert(opened(index_metas) =~= opened(before).push(reply));
        assert(before.push(index_metas.last()) =~= index_metas);
        assert(openings::<T>(index_metas.len() + 1) =~= openings::<T>(
            index_metas.len(),
        ).push(ActionView::OpenSplit { ord: index_metas.len() }));
    }
}

/// The replies to a merge from the union on.
pub open spec fn replies_to_merge<T: Handles>(
    output: T::Directory,
    ids: Seq<Seq<char>>,
    index: T::Index,
) -> Seq<ReplyView<T>> {
    seq![ReplyView::UnionOpened(output), ReplyView::Segments(ids)] + merged_if(ids.len() >= 2)
        + seq![ReplyView::MergedIndexOpened(index), ReplyView::BatchSent]
}

/// What a merge asks for on [`replies_to_merge`], up to the batch.
pub open spec fn actions_of_merge<T: Handles>(
    ids: Seq<Seq<char>>,
    batch: IndexedSplitBatchView<T>,
) -> Seq<ActionView<T>> {
    seq![ActionView::ListSegments] + merge_if(ids.len() >= 2, ids) + seq![
        ActionView::OpenMergedIndex,
        ActionView::SendBatch(batch),
        ActionView::Finish,
    ]
}

/// The batch of a merge: one split with the attributes of the merged splits, on the
/// merged index, the output directory and the scratch directory of the merge.
pub open spec fn batch_of_merge<T: Handles>(
    executor: MergeExecutorView,
    job: MergeJobView<T>,
    output: T::Directory,
    index: T::Index,
) -> IndexedSplitBatchView<T> {
    IndexedSplitBatchView {
        batch_parent_span: job.operation.merge_parent_span,
        splits: seq![
            IndexedSplitView {
                split_attrs: crate::merge_attrs::merged_attrs(
                    job.operation.merge_split_id,
                    executor.pipeline_id,
                    job.operation.splits,
                ),
                index,
                split_scratch_directory: job.scratch_directory,
                controlled_directory_opt: Some(output),
            },
        ],
        checkpoint_delta: None,
        publish_lock: PublishLock::Default,
        merge_operation: Some(job.operation),
    }
}

/// How a merge goes on from the union, whatever came before.
proof fn lemma_from_the_union<T: Handles>(
    executor: MergeExecutorView,
    run: MergeRunView<T>,
    replies: Seq<ReplyView<T>>,
    job: MergeJobView<T>,
    output: T::Directory,
    ids: Seq<Seq<char>>,
    index: T::Index,
)
    requires
        job.merges(),
        run_after(executor, run, replies) == (MergeRunView::<T>::MergingDirectories {
            job,
            last_delete_opstamp: 0,
            directories: DirectoryMergeView::start(Seq::empty(), false),
        }),
    ensures
        ({
            let all = replies + replies_to_merge(output, ids, index);
            let batch = batch_of_merge(executor, job, output, index);
            &&& actions_on(executor, run, all) == actions_on(executor, run, replies)
                + actions_of_merge(ids, batch)
            &&& run_after(executor, run, all) == MergeRunView::<T>::Finished
        }),
{
    let useful = ids.len() >= 2;
    let r1 = replies.push(ReplyView::UnionOpened(output));
    let r2 = r1.push(ReplyView::Segments(ids));
    let r3 = if useful {
        r2.push(ReplyView::SegmentsMerged)
    } else {
        r2
    };
    let r4 = r3.push(ReplyView::MergedIndexOpened(index));
    let r5 = r4.push(ReplyView::BatchSent);
    lemma_one_more(executor, run, replies, ReplyView::UnionOpened(output));
    lemma_one_more(executor, run, r1, ReplyView::Segments(ids));
    if useful {
        lemma_one_more(executor, run, r2, ReplyView::SegmentsMerged);
    }
    lemma_one_more(executor, run, r3, ReplyView::MergedIndexOpened(index));
    lemma_one_more(executor, run, r4, ReplyView::BatchSent);
    assert(r5 =~= replies + replies_to_merge(output, ids, index));
    let batch = batch_of_merge(executor, job, output, index);
    assert(actions_on(executor, run, r5) =~= actions_on(executor, run, replies) + actions_of_merge(
        ids,
        batch,
    ));
}

/// A merge opens the splits one after the other and then their union, lists the
/// segments, merges them if there are at least two, opens the outcome, and sends one
/// batch with the merged split. It lists no delete tasks, deletes nothing and marks
/// nothing.
pub proof fn law_course_of_a_merge<T: Handles>(
    executor: MergeExecutorView,
    job: MergeJobView<T>,
    index_metas: Seq<IndexMetaPartsView<T::Segment, T::Header>>,
    output: T::Directory,
    ids: Seq<Seq<char>>,
    index: T::Index,
)
    requires
        job.merges(),
        index_metas.len() > 0,
    ensures
        ({
            let (run, first) = MergeRunView::<T>::start(job, index_metas.len());
            let replies = opened(index_metas) + replies_to_merge(output, ids, index);
            let union_index_meta = crate::index_meta::union_of(index_metas);
            let batch = batch_of_merge(executor, job, output, index);
            &&& first == ActionView::<T>::OpenSplit { ord: 0 }
            &&& actions_on(executor, run, replies) == openings(index_metas.len()).push(
                ActionView::OpenUnion(union_index_meta),
            ) + actions_of_merge(ids, batch)
            &&& run_after(executor, run, replies) == MergeRunView::<T>::Finished
        }),
{
    let run = MergeRunView::<T>::start(job, index_metas.len()).0;
    let before = index_metas.drop_last();
    let last = ReplyView::SplitOpened(index_metas.last());
    lemma_some_splits_opened(executor, job, index_metas.len(), before);
    assert(before.push(index_metas.last()) =~= index_metas);
    lemma_one_more(executor, run, opened(before), last);
    assert(opened(index_metas) =~= opened(before).push(last));
    lemma_from_the_union(executor, run, opened(index_metas), job, output, ids, index);
}

/// A merge without any split directory fails at once.
pub proof fn law_merge_needs_a_directory<T: Handles>(job: MergeJobView<T>)
    requires
        job.merges(),
    ensures
        MergeRunView::<T>::start(job, 0) == (
            MergeRunView::<T>::Finished,
            ActionView::<T>::Fail(MergeErrorView::NoIndexMeta),
        ),
{
}

/// The replies to a delete and merge operation up to the merged index: the delete
/// tasks, the splits, as many applied deletes as there are tasks, and the merge.
pub open spec fn replies_to_deletes<T: Handles>(
    delete_tasks: Seq<DeleteTaskView>,
    index_meta: IndexMetaPartsView<T::Segment, T::Header>,
    output: T::Directory,
    ids: Seq<Seq<char>>,
    index: T::Index,
) -> Seq<ReplyView<T>> {
    seq![
        ReplyView::DeleteTasks(delete_tasks),
        ReplyView::SplitOpened(index_meta),
        ReplyView::UnionOpened(output),
    ] + Seq::new(delete_tasks.len(), |i: int| ReplyView::DeleteApplied) + seq![
        ReplyView::DeletesCommitted,
        ReplyView::Segments(ids),
    ] + merged_if(ids.len() > 0) + seq![ReplyView::MergedIndexOpened(index)]
}

/// What a delete and merge operation asks for on [`replies_to_deletes`]: the deletes
/// in order, one commit behind them, and the merge.
pub open spec fn actions_of_deletes<T: Handles>(
    delete_tasks: Seq<DeleteTaskView>,
    index_meta: IndexMetaPartsView<T::Segment, T::Header>,
    ids: Seq<Seq<char>>,
) -> Seq<ActionView<T>> {
    seq![
        ActionView::OpenSplit { ord: 0 },
        ActionView::OpenUnion(index_meta),
    ] + deletes(delete_tasks) + seq![ActionView::CommitDeletes, ActionView::ListSegments]
        + merge_if(ids.len() > 0, ids) + seq![
        ActionView::OpenMergedIndex,
        ActionView::ListMergedSegments,
    ]
}

/// The replies up to the `n`-th applied delete.
spec fn replies_to_some_deletes<T: Handles>(
    delete_tasks: Seq<DeleteTaskView>,
    index_meta: IndexMetaPartsView<T::Segment, T::Header>,
    output: T::Directory,
    n: nat,
) -> Seq<ReplyView<T>> {
    seq![
        ReplyView::DeleteTasks(delete_tasks),
        ReplyView::SplitOpened(index_meta),
        ReplyView::UnionOpened(output),
    ] + Seq::new(n, |i: int| ReplyView::DeleteApplied)
}

/// The union of a single index is that index.
proof fn lemma_union_of_one<S, H>(index_meta: IndexMetaPartsView<S, H>)
    ensures
        crate::index_meta::union_of(seq![index_meta]) == index_meta,
{
    assert(seq![index_meta].drop_last() =~= Seq::empty());
    assert(crate::index_meta::union_of(seq![index_meta]).segments =~= index_meta.segments);
}

/// After `n` applied deletes the run has asked for one more.
#[verifier::rlimit(40)]
proof fn lemma_some_deletes<T: Handles>(
    executor: MergeExecutorView,
    job: MergeJobView<T>,
    delete_tasks: Seq<DeleteTaskView>,
    index_meta: IndexMetaPartsView<T::Segment, T::Header>,
    output: T::Directory,
    n: nat,
)
    requires
        job.operation.operation_type == MergeOperationType::DeleteAndMerge,
        n < delete_tasks.len(),
    ensures
        ({
            let run = MergeRunView::<T>::start(job, 1).0;
            let replies = replies_to_some_deletes(delete_tasks, index_meta, output, n);
            &&& run_after(executor, run, replies) == (MergeRunView::<T>::MergingDirectories {
                job,
                last_delete_opstamp: crate::delete_task::last_opstamp(delete_tasks),
                directories: DirectoryMergeView {
                    delete_tasks,
                    has_doc_mapper: true,
                    num_applied: n,
                    phase: DirectoryPhase::ApplyingDeletes,
                    output: Some(output),
                },
            })
            &&& actions_on(executor, run, replies) == seq![
                ActionView::<T>::OpenSplit { ord: 0 },
                ActionView::<T>::OpenUnion(index_meta),
            ] + deletes(delete_tasks.take(n as int + 1))
        }),
    decreases n,
{
    let run = MergeRunView::<T>::start(job, 1).0;
    let replies = replies_to_some_deletes(delete_tasks, index_meta, output, n);
    if n == 0 {
        let r0 = Seq::<ReplyView<T>>::empty();
        let r1 = r0.push(ReplyView::DeleteTasks(delete_tasks));
        let r2 = r1.push(ReplyView::SplitOpened(index_meta));
        lemma_one_more(executor, run, r0, ReplyView::DeleteTasks(delete_tasks));
        lemma_one_more(executor, run, r1, ReplyView::SplitOpened(index_meta));
        lemma_union_of_one(index_meta);
        assert(Seq::<IndexMetaPartsView<T::Segment, T::Header>>::empty().push(index_meta) =~= seq![index_meta]);
        lemma_one_more(executor, run, r2, ReplyView::UnionOpened(output));
        assert(replies =~= r2.push(ReplyView::UnionOpened(output)));
    } else {
        let before = replies_to_some_deletes(delete_tasks, index_meta, output, (n - 1) as nat);
        lemma_some_deletes(executor, job, delete_tasks, index_meta, output, (n - 1) as nat);
        lemma_one_more(executor, run, before, ReplyView::DeleteApplied);
        assert(replies =~= before.push(ReplyView::DeleteApplied));
    }
    assert(actions_on(executor, run, replies) =~= seq![
        ActionView::<T>::OpenSplit { ord: 0 },
        ActionView::<T>::OpenUnion(index_meta),
    ] + deletes(delete_tasks.take(n as int + 1)));
}

/// A delete and merge operation applies every delete task to the union, in order and
/// once, commits once behind them, and only then lists and merges the segments: even a
/// single one, but none where none is left.
#[verifier::rlimit(40)]
pub proof fn law_course_of_deletes<T: Handles>(
    executor: MergeExecutorView,
    job: MergeJobView<T>,
    delete_tasks: Seq<DeleteTaskView>,
    index_meta: IndexMetaPartsView<T::Segment, T::Header>,
    output: T::Directory,
    ids: Seq<Seq<char>>,
    index: T::Index,
)
    requires
        job.operation.operation_type == MergeOperationType::DeleteAndMerge,
        delete_tasks.len() > 0,
    ensures
        ({
            let (run, first) = MergeRunView::<T>::start(job, 1);
            let replies = replies_to_deletes(delete_tasks, index_meta, output, ids, index);
            &&& first == ActionView::<T>::ListDeleteTasks {
                index_id: job.operation.splits[0].index_id,
                opstamp_start: job.operation.splits[0].delete_opstamp,
            }
            &&& actions_on(executor, run, replies) == actions_of_deletes::<T>(
                delete_tasks,
                index_meta,
                ids,
            )
            &&& run_after(executor, run, replies) == MergeRunView::<T>::ListingMergedSegments(
                MergedIndexView {
                    job,
                    last_delete_opstamp: crate::delete_task::last_opstamp(delete_tasks),
                    output_directory: output,
                    index,
                },
            )
        }),
{
    let run = MergeRunView::<T>::start(job, 1).0;
    let replies = replies_to_deletes(delete_tasks, index_meta, output, ids, index);
    let useful = ids.len() > 0;
    let all_but_one = (delete_tasks.len() - 1) as nat;
    let r0 = replies_to_some_deletes(delete_tasks, index_meta, output, all_but_one);
    let r1 = r0.push(ReplyView::DeleteApplied);
    let r2 = r1.push(ReplyView::DeletesCommitted);
    let r3 = r2.push(ReplyView::Segments(ids));
    let r4 = if useful {
        r3.push(ReplyView::SegmentsMerged)
    } else {
        r3
    };
    lemma_some_deletes(executor, job, delete_tasks, index_meta, output, all_but_one);
    assert(delete_tasks.take(delete_tasks.len() as int) =~= delete_tasks);
    lemma_one_more(executor, run, r0, ReplyView::DeleteApplied);
    lemma_one_more(executor, run, r1, ReplyView::DeletesCommitted);
    lemma_one_more(executor, run, r2, ReplyView::Segments(ids));
    if useful {
        lemma_one_more(executor, run, r3, ReplyView::SegmentsMerged);
    }
    lemma_one_more(executor, run, r4, ReplyView::MergedIndexOpened(index));
    assert(r4.push(ReplyView::MergedIndexOpened(index)) =~= replies);
    assert(actions_on(executor, run, replies) =~= actions_of_deletes::<T>(
        delete_tasks,
        index_meta,
        ids,
    ));
}

/// The replies on a merged segment that is left after the deletes. The bounds of the
/// timestamps are among them where the documents have a timestamp field.
pub open spec fn replies_on_what_is_left<T: Handles>(
    timestamp_field_name: Option<Seq<char>>,
    num_segments: nat,
    num_docs: nat,
    field_ids: Map<Seq<char>, u32>,
    bounds: TimeRange,
    docs_size: nat,
) -> Seq<ReplyView<T>> {
    seq![
        ReplyView::MergedSegments(num_segments),
        ReplyView::MergedSegmentOpened { num_docs, field_ids, timestamp_field_name },
    ] + (match timestamp_field_name {
        Some(_) => seq![ReplyView::TimestampBounds(bounds)],
        None => seq![],
    }) + seq![ReplyView::DocsSizeScaled(docs_size), ReplyView::BatchSent]
}

/// What is asked for on [`replies_on_what_is_left`], up to the batch.
pub open spec fn actions_on_what_is_left<T: Handles>(
    timestamp_field_name: Option<Seq<char>>,
    split: SplitMetadataView,
    num_docs: nat,
    field_ids: Map<Seq<char>, u32>,
    batch: IndexedSplitBatchView<T>,
) -> Seq<ActionView<T>> {
    seq![ActionView::OpenMergedSegment] + (match timestamp_field_name {
        Some(name) => seq![ActionView::ReadTimestampBounds { field_id: field_ids[name] }],
        None => seq![],
    }) + seq![
        ActionView::ScaleDocsSize {
            num_docs_left: num_docs,
            docs_size_in_bytes: split.uncompressed_docs_size_in_bytes,
            num_docs: split.num_docs,
        },
        ActionView::SendBatch(batch),
        ActionView::Finish,
    ]
}

/// The batch of what is left after the deletes: one split with these attributes, on the
/// merged index, the output directory and the scratch directory of the merge.
pub open spec fn batch_of_what_is_left<T: Handles>(
    merged: MergedIndexView<T>,
    split_attrs: SplitAttrsView,
) -> IndexedSplitBatchView<T> {
    IndexedSplitBatchView {
        batch_parent_span: merged.job.operation.merge_parent_span,
        splits: seq![
            IndexedSplitView {
                split_attrs,
                index: merged.index,
                split_scratch_directory: merged.job.scratch_directory,
                controlled_directory_opt: Some(merged.output_directory),
            },
        ],
        checkpoint_delta: None,
        publish_lock: PublishLock::Default,
        merge_operation: Some(merged.job.operation),
    }
}

/// How a run goes on from the list of the merged segments, whatever came before.
#[verifier::rlimit(40)]
proof fn lemma_from_the_merged_segments<T: Handles>(
    executor: MergeExecutorView,
    run: MergeRunView<T>,
    replies: Seq<ReplyView<T>>,
    merged: MergedIndexView<T>,
    timestamp_field_name: Option<Seq<char>>,
    num_segments: nat,
    num_docs: nat,
    field_ids: Map<Seq<char>, u32>,
    bounds: TimeRange,
    docs_size: nat,
)
    requires
        run_after(executor, run, replies) == MergeRunView::<T>::ListingMergedSegments(merged),
        num_segments > 0,
        timestamp_field_name matches Some(name) ==> field_ids.contains_key(name),
    ensures
        ({
            let all = replies + replies_on_what_is_left(
                timestamp_field_name,
                num_segments,
                num_docs,
                field_ids,
                bounds,
                docs_size,
            );
            let split = merged.job.operation.splits[0];
            let attrs = crate::executor::attrs_after_deletes(
                merged.job.operation.merge_split_id,
                split,
                merged.last_delete_opstamp,
                num_docs,
                docs_size,
                if timestamp_field_name is Some {
                    Some(bounds)
                } else {
                    None
                },
            );
            let batch = batch_of_what_is_left(merged, attrs);
            &&& actions_on(executor, run, all) == actions_on(executor, run, replies)
                + actions_on_what_is_left(timestamp_field_name, split, num_docs, field_ids, batch)
            &&& run_after(executor, run, all) == MergeRunView::<T>::Finished
        }),
{
    let opened = ReplyView::MergedSegmentOpened { num_docs, field_ids, timestamp_field_name };
    let r1 = replies.push(ReplyView::MergedSegments(num_segments));
    let r2 = r1.push(opened);
    let r3 = if timestamp_field_name is Some {
        r2.push(ReplyView::TimestampBounds(bounds))
    } else {
        r2
    };
    let r4 = r3.push(ReplyView::DocsSizeScaled(docs_size));
    let r5 = r4.push(ReplyView::BatchSent);
    lemma_one_more(executor, run, replies, ReplyView::MergedSegments(num_segments));
    lemma_one_more(executor, run, r1, opened);
    if timestamp_field_name is Some {
        lemma_one_more(executor, run, r2, ReplyView::TimestampBounds(bounds));
    }
    lemma_one_more(executor, run, r3, ReplyView::DocsSizeScaled(docs_size));
    lemma_one_more(executor, run, r4, ReplyView::BatchSent);
    assert(r5 =~= replies + replies_on_what_is_left(
        timestamp_field_name,
        num_segments,
        num_docs,
        field_ids,
        bounds,
        docs_size,
    ));
    let split = merged.job.operation.splits[0];
    let attrs = crate::executor::attrs_after_deletes(
        merged.job.operation.merge_split_id,
        split,
        merged.last_delete_opstamp,
        num_docs,
        docs_size,
        if timestamp_field_name is Some {
            Some(bounds)
        } else {
            None
        },
    );
    let batch = batch_of_what_is_left(merged, attrs);
    assert(actions_on(executor, run, r5) =~= actions_on(executor, run, replies)
        + actions_on_what_is_left(timestamp_field_name, split, num_docs, field_ids, batch));
}

/// Where documents are left after the deletes, one batch is sent. Its split replaces
/// the one split of the operation, is up to date with the last delete task, and keeps
/// the number of merges: deletes do not count as one. It has a time range exactly where
/// the documents have a timestamp field.
pub proof fn law_outcome_of_deletes<T: Handles>(
    executor: MergeExecutorView,
    job: MergeJobView<T>,
    delete_tasks: Seq<DeleteTaskView>,
    index_meta: IndexMetaPartsView<T::Segment, T::Header>,
    output: T::Directory,
    ids: Seq<Seq<char>>,
    index: T::Index,
    timestamp_field_name: Option<Seq<char>>,
    num_segments: nat,
    num_docs: nat,
    field_ids: Map<Seq<char>, u32>,
    bounds: TimeRange,
    docs_size: nat,
)
    requires
        job.deletes(),
        delete_tasks.len() > 0,
        num_segments > 0,
        timestamp_field_name matches Some(name) ==> field_ids.contains_key(name),
    ensures
        ({
            let run = MergeRunView::<T>::start(job, 1).0;
            let split = job.operation.splits[0];
            let replies = replies_to_deletes(delete_tasks, index_meta, output, ids, index)
                + replies_on_what_is_left(
                timestamp_field_name,
                num_segments,
                num_docs,
                field_ids,
                bounds,
                docs_size,
            );
            let attrs = SplitAttrsView {
                split_id: job.operation.merge_split_id,
                partition_id: split.partition_id,
                pipeline_id: IndexingPipelineIdView {
                    index_id: split.index_id,
                    source_id: split.source_id,
                    node_id: split.node_id,
                    pipeline_ord: 0,
                },
                replaced_split_ids: seq![split.split_id],
                time_range: if timestamp_field_name is Some {
                    Some(bounds)
                } else {
                    None
                },
                num_docs,
                uncompressed_docs_size_in_bytes: docs_size,
                delete_opstamp: crate::delete_task::last_opstamp(delete_tasks),
                num_merge_ops: split.num_merge_ops,
            };
            let merged = MergedIndexView {
                job,
                last_delete_opstamp: crate::delete_task::last_opstamp(delete_tasks),
                output_directory: output,
                index,
            };
            let batch = batch_of_what_is_left(merged, attrs);
            &&& actions_on(executor, run, replies) == actions_of_deletes::<T>(
                delete_tasks,
                index_meta,
                ids,
            ) + actions_on_what_is_left(timestamp_field_name, split, num_docs, field_ids, batch)
            &&& run_after(executor, run, replies) == MergeRunView::<T>::Finished
        }),
{
    law_course_of_deletes(executor, job, delete_tasks, index_meta, output, ids, index);
    lemma_from_the_merged_segments(
        executor,
        MergeRunView::<T>::start(job, 1).0,
        replies_to_deletes(delete_tasks, index_meta, output, ids, index),
        MergedIndexView {
            job,
            last_delete_opstamp: crate::delete_task::last_opstamp(delete_tasks),
            output_directory: output,
            index,
        },
        timestamp_field_name,
        num_segments,
        num_docs,
        field_ids,
        bounds,
        docs_size,
    );
}

/// Where the merged segment lacks the timestamp field of the documents, the operation
/// fails and says which field it lacks. No batch is sent.
pub proof fn law_timestamp_field_must_be_there<T: Handles>(
    executor: MergeExecutorView,
    job: MergeJobView<T>,
    delete_tasks: Seq<DeleteTaskView>,
    index_meta: IndexMetaPartsView<T::Segment, T::Header>,
    output: T::Directory,
    ids: Seq<Seq<char>>,
    index: T::Index,
    name: Seq<char>,
    num_segments: nat,
    num_docs: nat,
    field_ids: Map<Seq<char>, u32>,
)
    requires
        job.deletes(),
        delete_tasks.len() > 0,
        num_segments > 0,
        !field_ids.contains_key(name),
    ensures
        ({
            let run = MergeRunView::<T>::start(job, 1).0;
            let replies = replies_to_deletes(delete_tasks, index_meta, output, ids, index) + seq![
                ReplyView::MergedSegments(num_segments),
                ReplyView::MergedSegmentOpened {
                    num_docs,
                    field_ids,
                    timestamp_field_name: Some(name),
                },
            ];
            &&& actions_on(executor, run, replies) == actions_of_deletes::<T>(
                delete_tasks,
                index_meta,
                ids,
            ) + seq![
                ActionView::OpenMergedSegment,
                ActionView::Fail(MergeErrorView::MissingTimestampField(name)),
            ]
            &&& run_after(executor, run, replies) == MergeRunView::<T>::Finished
        }),
{
    let run = MergeRunView::<T>::start(job, 1).0;
    let opened = ReplyView::MergedSegmentOpened {
        num_docs,
        field_ids,
        timestamp_field_name: Some(name),
    };
    let r0 = replies_to_deletes(delete_tasks, index_meta, output, ids, index);
    let r1 = r0.push(ReplyView::MergedSegments(num_segments));
    let r2 = r1.push(opened);
    law_course_of_deletes(executor, job, delete_tasks, index_meta, output, ids, index);
    lemma_one_more(executor, run, r0, ReplyView::MergedSegments(num_segments));
    lemma_one_more(executor, run, r1, opened);
    assert(r2 =~= r0 + seq![ReplyView::MergedSegments(num_segments), opened]);
    assert(actions_on(executor, run, r2) =~= actions_of_deletes::<T>(delete_tasks, index_meta, ids)
        + seq![
        ActionView::OpenMergedSegment,
        ActionView::Fail(MergeErrorView::MissingTimestampField(name)),
    ]);
}

/// Where the deletes leave no document, the split of the operation is marked for
/// deletion and no batch is sent.
pub proof fn law_nothing_left_after_deletes<T: Handles>(
    executor: MergeExecutorView,
    job: MergeJobView<T>,
    delete_tasks: Seq<DeleteTaskView>,
    index_meta: IndexMetaPartsView<T::Segment, T::Header>,
    output: T::Directory,
    ids: Seq<Seq<char>>,
    index: T::Index,
)
    requires
        job.deletes(),
        delete_tasks.len() > 0,
    ensures
        ({
            let run = MergeRunView::<T>::start(job, 1).0;
            let replies = replies_to_deletes(delete_tasks, index_meta, output, ids, index) + seq![
                ReplyView::MergedSegments(0),
                ReplyView::SplitMarked,
            ];
            &&& actions_on(executor, run, replies) == actions_of_deletes::<T>(
                delete_tasks,
                index_meta,
                ids,
            ) + seq![
                ActionView::MarkSplitForDeletion {
                    index_id: job.operation.splits[0].index_id,
                    split_id: job.operation.splits[0].split_id,
                },
                ActionView::Finish,
            ]
            &&& run_after(executor, run, replies) == MergeRunView::<T>::Finished
        }),
{
    let run = MergeRunView::<T>::start(job, 1).0;
    let r0 = replies_to_deletes(delete_tasks, index_meta, output, ids, index);
    let r1 = r0.push(ReplyView::MergedSegments(0));
    law_course_of_deletes(executor, job, delete_tasks, index_meta, output, ids, index);
    lemma_one_more(executor, run, r0, ReplyView::MergedSegments(0));
    lemma_one_more(executor, run, r1, ReplyView::SplitMarked);
    let r2 = r1.push(ReplyView::SplitMarked);
    assert(r2 =~= r0 + seq![ReplyView::MergedSegments(0), ReplyView::SplitMarked]);
    assert(actions_on(executor, run, r2) =~= actions_of_deletes::<T>(delete_tasks, index_meta, ids)
        + seq![
        ActionView::MarkSplitForDeletion {
            index_id: job.operation.splits[0].index_id,
            split_id: job.operation.splits[0].split_id,
        },
        ActionView::Finish,
    ]);
}

/// Where no delete task is pending, nothing is opened, merged, sent or marked.
pub proof fn law_nothing_to_delete<T: Handles>(
    executor: MergeExecutorView,
    job: MergeJobView<T>,
)
    requires
        job.operation.operation_type == MergeOperationType::DeleteAndMerge,
    ensures
        executor.next(
            MergeRunView::<T>::start(job, 1).0,
            ReplyView::<T>::DeleteTasks(Seq::empty()),
        ) == (MergeRunView::<T>::Finished, ActionView::<T>::Finish),
{
}

/// Whether a reply is of the kind that an action asks for. Any work can fail.
pub open spec fn answers<T: Handles>(reply: ReplyView<T>, action: ActionView<T>) -> bool {
    match action {
        ActionView::ListDeleteTasks { .. } => reply is DeleteTasks || reply is Failed,
        ActionView::OpenSplit { .. } => reply is SplitOpened || reply is Failed,
        ActionView::OpenUnion(_) => reply is UnionOpened || reply is Failed,
        ActionView::ApplyDelete(_) => reply is DeleteApplied || reply is Failed,
        ActionView::CommitDeletes => reply is DeletesCommitted || reply is Failed,
        ActionView::ListSegments => reply is Segments || reply is Failed,
        ActionView::MergeSegments(_) => reply is SegmentsMerged || reply is Failed,
        ActionView::OpenMergedIndex => reply is MergedIndexOpened || reply is Failed,
        ActionView::ListMergedSegments => reply is MergedSegments || reply is Failed,
        ActionView::MarkSplitForDeletion { .. } => reply is SplitMarked || reply is Failed,
        ActionView::OpenMergedSegment => reply is MergedSegmentOpened || reply is Failed,
        ActionView::ReadTimestampBounds { .. } => reply is TimestampBounds || reply is Failed,
        ActionView::ScaleDocsSize { .. } => reply is DocsSizeScaled || reply is Failed,
        ActionView::SendBatch(_) => reply is BatchSent || reply is Failed,
        ActionView::Finish | ActionView::Fail(_) | ActionView::Abort(_) => false,
    }
}

/// Whether each reply of a list answers what the run asked for just before it, `first`
/// being what it asked for at first.
pub open spec fn all_answered<T: Handles>(
    executor: MergeExecutorView,
    run: MergeRunView<T>,
    first: ActionView<T>,
    replies: Seq<ReplyView<T>>,
) -> bool {
    forall|i: int|
        0 <= i < replies.len() ==> answers(
            #[trigger] replies[i],
            if i == 0 {
                first
            } else {
                actions_on(executor, run, replies.take(i)).last()
            },
        )
}

/// Whether a run waits for the replies that answer an action, and for no others.
spec fn waits_for<T: Handles>(run: MergeRunView<T>, action: ActionView<T>) -> bool {
    match run {
        MergeRunView::ListingDeleteTasks { .. } => action is ListDeleteTasks,
        MergeRunView::OpeningSplits { .. } => action is OpenSplit,
        MergeRunView::MergingDirectories { directories, .. } => match directories.phase {
            DirectoryPhase::OpeningUnion => action is OpenUnion,
            DirectoryPhase::ApplyingDeletes => action is ApplyDelete,
            DirectoryPhase::CommittingDeletes => action is CommitDeletes,
            DirectoryPhase::ListingSegments => action is ListSegments,
            DirectoryPhase::MergingSegments => action is MergeSegments,
        },
        MergeRunView::OpeningMergedIndex { .. } => action is OpenMergedIndex,
        MergeRunView::ListingMergedSegments { .. } => action is ListMergedSegments,
        MergeRunView::MarkingForDeletion => action is MarkSplitForDeletion,
        MergeRunView::OpeningMergedSegment { .. } => action is OpenMergedSegment,
        MergeRunView::ReadingTimestampBounds { .. } => action is ReadTimestampBounds,
        MergeRunView::ScalingDocsSize { .. } => action is ScaleDocsSize,
        MergeRunView::SendingBatch => action is SendBatch,
        MergeRunView::Finished => action is Finish || action is Fail || action is Abort,
    }
}

/// A run that is told what it asked for stays well formed and never finds a reply
/// unexpected, and it never lacks a doc mapper for its deletes.
pub proof fn law_answered_runs_go_well<T: Handles>(
    executor: MergeExecutorView,
    job: MergeJobView<T>,
    num_split_directories: nat,
    replies: Seq<ReplyView<T>>,
)
    requires
        job.operation.wf(),
        all_answered(
            executor,
            MergeRunView::<T>::start(job, num_split_directories).0,
            MergeRunView::<T>::start(job, num_split_directories).1,
            replies,
        ),
    ensures
        ({
            let run = MergeRunView::<T>::start(job, num_split_directories).0;
            let actions = actions_on(executor, run, replies);
            &&& run_after(executor, run, replies).wf()
            &&& actions.len() == replies.len()
            &&& forall|i: int|
                0 <= i < actions.len() ==> {
                    &&& #[trigger] actions[i] != ActionView::<T>::Fail(
                        MergeErrorView::UnexpectedReply,
                    )
                    &&& actions[i] != ActionView::<T>::Fail(MergeErrorView::MissingDocMapper)
                }
        }),
{
    lemma_answered_run(executor, job, num_split_directories, replies);
}

/// A run that is told what it waits for goes on well.
proof fn lemma_answered_step<T: Handles>(
    executor: MergeExecutorView,
    run: MergeRunView<T>,
    asked: ActionView<T>,
    reply: ReplyView<T>,
)
    requires
        run.wf(),
        waits_for(run, asked),
        answers(reply, asked),
    ensures
        ({
            let (after, action) = executor.next(run, reply);
            &&& after.wf()
            &&& waits_for(after, action)
            &&& action != ActionView::<T>::Fail(MergeErrorView::UnexpectedReply)
            &&& action != ActionView::<T>::Fail(MergeErrorView::MissingDocMapper)
        }),
{
}

/// The induction behind [`law_answered_runs_go_well`].
proof fn lemma_answered_run<T: Handles>(
    executor: MergeExecutorView,
    job: MergeJobView<T>,
    num_split_directories: nat,
    replies: Seq<ReplyView<T>>,
)
    requires
        job.operation.wf(),
        all_answered(
            executor,
            MergeRunView::<T>::start(job, num_split_directories).0,
            MergeRunView::<T>::start(job, num_split_directories).1,
            replies,
        ),
    ensures
        ({
            let (run, first) = MergeRunView::<T>::start(job, num_split_directories);
            let actions = actions_on(executor, run, replies);
            let here = run_after(executor, run, replies);
            &&& here.wf()
            &&& waits_for(
                here,
                if replies.len() == 0 {
                    first
                } else {
                    actions.last()
                },
            )
            &&& actions.len() == replies.len()
            &&& forall|i: int|
                0 <= i < actions.len() ==> {
                    &&& #[trigger] actions[i] != ActionView::<T>::Fail(
                        MergeErrorView::UnexpectedReply,
                    )
                    &&& actions[i] != ActionView::<T>::Fail(MergeErrorView::MissingDocMapper)
                }
        }),
    decreases replies.len(),
{
    let (run, first) = MergeRunView::<T>::start(job, num_split_directories);
    if replies.len() > 0 {
        let before = replies.drop_last();
        let n = before.len() as int;
        assert forall|i: int| 0 <= i < before.len() implies answers(
            #[trigger] before[i],
            if i == 0 {
                first
            } else {
                actions_on(executor, run, before.take(i)).last()
            },
        ) by {
            assert(before.take(i) =~= replies.take(i));
            assert(before[i] == replies[i]);
        }
        lemma_answered_run(executor, job, num_split_directories, before);
        assert(replies.take(n) =~= before);
        let asked = if n == 0 {
            first
        } else {
            actions_on(executor, run, before).last()
        };
        assert(answers(replies[n], asked));
        lemma_answered_step(executor, run_after(executor, run, before), asked, replies[n]);
    }
}

/// A reply that does not answer what a run asked for just before ends the run with an
/// error. It asks for nothing more on that account.
pub proof fn law_wrong_replies_end_the_run<T: Handles>(
    executor: MergeExecutorView,
    job: MergeJobView<T>,
    num_split_directories: nat,
    replies: Seq<ReplyView<T>>,
    reply: ReplyView<T>,
)
    requires
        job.operation.wf(),
        all_answered(
            executor,
            MergeRunView::<T>::start(job, num_split_directories).0,
            MergeRunView::<T>::start(job, num_split_directories).1,
            replies,
        ),
        !answers(
            reply,
            if replies.len() == 0 {
                MergeRunView::<T>::start(job, num_split_directories).1
            } else {
                actions_on(
                    executor,
                    MergeRunView::<T>::start(job, num_split_directories).0,
                    replies,
                ).last()
            },
        ),
    ensures
        ({
            let run = MergeRunView::<T>::start(job, num_split_directories).0;
            executor.next(run_after(executor, run, replies), reply) == (
                MergeRunView::<T>::Finished,
                ActionView::<T>::Fail(MergeErrorView::UnexpectedReply),
            )
        }),
{
    let run = MergeRunView::<T>::start(job, num_split_directories).0;
    lemma_answered_run(executor, job, num_split_directories, replies);
    let asked = if replies.len() == 0 {
        MergeRunView::<T>::start(job, num_split_directories).1
    } else {
        actions_on(executor, run, replies).last()
    };
    lemma_wrong_step(executor, run_after(executor, run, replies), asked, reply);
}

/// A run that is told something else than what it waits for ends.
proof fn lemma_wrong_step<T: Handles>(
    executor: MergeExecutorView,
    run: MergeRunView<T>,
    asked: ActionView<T>,
    reply: ReplyView<T>,
)
    requires
        waits_for(run, asked),
        !answers(reply, asked),
    ensures
        executor.next(run, reply) == (
            MergeRunView::<T>::Finished,
            ActionView::<T>::Fail(MergeErrorView::UnexpectedReply),
        ),
{
}

/// A run is kept from going on by two things only: by a delete without a query, when that
/// delete comes next, and by totals of merged splits that do not fit, when they are sent.
pub proof fn law_what_keeps_a_run_from_going_on<T: Handles>(
    executor: MergeExecutorView,
    run: MergeRunView<T>,
    reply: ReplyView<T>,
)
    requires
        !run.can_resume(reply),
        run.wf(),
    ensures
        match executor.next(run, reply) {
            (
                MergeRunView::MergingDirectories { directories, .. },
                ActionView::ApplyDelete(_),
            ) => directories.delete_tasks[directories.num_applied as int].delete_query is None,
            (_, ActionView::SendBatch(batch)) => {
                &&& batch.merge_operation matches Some(operation)
                &&& operation.operation_type == MergeOperationType::Merge
                &&& !crate::merge_attrs::totals_fit(operation.splits)
            },
            _ => false,
        },
{
}

/// An upper bound on the replies that a run still takes, once its deletes are known.
pub open spec fn replies_left<T: Handles>(run: MergeRunView<T>) -> nat {
    match run {
        MergeRunView::Finished | MergeRunView::ListingDeleteTasks { .. } => 0,
        MergeRunView::SendingBatch | MergeRunView::MarkingForDeletion => 1,
        MergeRunView::ScalingDocsSize { .. } => 2,
        MergeRunView::ReadingTimestampBounds { .. } => 3,
        MergeRunView::OpeningMergedSegment { .. } => 4,
        MergeRunView::ListingMergedSegments { .. } => 5,
        MergeRunView::OpeningMergedIndex { .. } => 6,
        MergeRunView::MergingDirectories { directories, .. } => match directories.phase {
            DirectoryPhase::MergingSegments => 7,
            DirectoryPhase::ListingSegments => 8,
            DirectoryPhase::CommittingDeletes => 9,
            DirectoryPhase::ApplyingDeletes => (9 + directories.delete_tasks.len()
                - directories.num_applied) as nat,
            DirectoryPhase::OpeningUnion => 10 + directories.delete_tasks.len(),
        },
        MergeRunView::OpeningSplits { delete_tasks, num_split_directories, index_metas, .. } => (11
            + delete_tasks.len() + num_split_directories - index_metas.len()) as nat,
    }
}

/// A run ends: its first reply, if that is the list of deletes, fixes how many replies
/// it can take, and every other reply brings the end nearer.
pub proof fn law_every_reply_brings_the_end_nearer<T: Handles>(
    executor: MergeExecutorView,
    run: MergeRunView<T>,
    reply: ReplyView<T>,
)
    requires
        run.wf(),
        run != MergeRunView::<T>::Finished,
    ensures
        match (run, reply) {
            (
                MergeRunView::ListingDeleteTasks { num_split_directories, .. },
                ReplyView::DeleteTasks(delete_tasks),
            ) => replies_left(executor.next(run, reply).0) <= 11 + delete_tasks.len()
                + num_split_directories,
            (MergeRunView::ListingDeleteTasks { .. }, _) => executor.next(run, reply).0
                == MergeRunView::<T>::Finished,
            _ => replies_left(executor.next(run, reply).0) < replies_left(run),
        },
        !(executor.next(run, reply).0 is ListingDeleteTasks),
{
}

} // verus!
