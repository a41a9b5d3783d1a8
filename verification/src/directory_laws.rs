//! What holds of every merge of directories, from its start to its end.
use vstd::prelude::*;

use crate::batch::Handles;
use crate::delete_task::DeleteTaskView;
use crate::directory_merge::{DirectoryMergeView, DirectoryPhase, DirectoryProgressView};
use crate::error::MergeErrorView;
use crate::protocol::{ActionView, ReplyView};

verus! {

/// Whether the segments with these ids, once they are listed, are merged into the output
/// directory, or the output directory is done without a merge where that is no use.
pub open spec fn merges_segments<T: Handles>(
    merge: DirectoryMergeView<T>,
    useful: bool,
    ids: Seq<Seq<char>>,
    output: T::Directory,
) -> bool {
    match merge.next(ReplyView::Segments(ids)) {
        DirectoryProgressView::Ongoing(merging, action) => {
            &&& useful
            &&& action == ActionView::<T>::MergeSegments(ids)
            &&& merging.next(ReplyView::SegmentsMerged) == DirectoryProgressView::<T>::Merged(output)
        },
        done => !useful && done == DirectoryProgressView::<T>::Merged(output),
    }
}

/// Without deletes nothing is deleted or committed, whether there is a doc mapper or not:
/// the segments are listed, merged if there are at least two, and the output directory is
/// handed back.
pub proof fn law_directories_without_deletes<T: Handles>(
    has_doc_mapper: bool,
    output: T::Directory,
    ids: Seq<Seq<char>>,
)
    ensures
        ({
            let opened = DirectoryMergeView::<T>::start(Seq::empty(), has_doc_mapper).next(
                ReplyView::UnionOpened(output),
            );
            &&& opened matches DirectoryProgressView::Ongoing(listing, action)
            &&& action == ActionView::<T>::ListSegments
            &&& merges_segments(listing, ids.len() >= 2, ids, output)
        }),
{
}

/// Deletes without a doc mapper are an error, whatever the deletes say.
pub proof fn law_deletes_need_a_doc_mapper<T: Handles>(
    delete_tasks: Seq<DeleteTaskView>,
    output: T::Directory,
)
    requires
        delete_tasks.len() > 0,
    ensures
        DirectoryMergeView::<T>::start(delete_tasks, false).next(ReplyView::UnionOpened(output))
            == DirectoryProgressView::<T>::Failed(MergeErrorView::MissingDocMapper),
{
}

/// What becomes of the merge after so many applied deletes.
pub open spec fn after_deletes<T: Handles>(
    delete_tasks: Seq<DeleteTaskView>,
    output: T::Directory,
    num_applied: nat,
) -> DirectoryProgressView<T>
    decreases num_applied,
{
    if num_applied == 0 {
        DirectoryMergeView::<T>::start(delete_tasks, true).next(ReplyView::UnionOpened(output))
    } else {
        match after_deletes::<T>(delete_tasks, output, (num_applied - 1) as nat) {
            DirectoryProgressView::Ongoing(merge, _) => merge.next(ReplyView::DeleteApplied),
            ended => ended,
        }
    }
}

/// With a doc mapper every delete is applied once and in order, each to the index, with
/// the words, on the fields and within the bounds in time that it asks for.
pub proof fn law_deletes_are_applied_as_asked<T: Handles>(
    delete_tasks: Seq<DeleteTaskView>,
    output: T::Directory,
    ord: nat,
)
    requires
        ord < delete_tasks.len(),
    ensures
        ({
            let asked = delete_tasks[ord as int].delete_query->0;
            &&& after_deletes::<T>(
                delete_tasks,
                output,
                ord,
            ) matches DirectoryProgressView::Ongoing(_, ActionView::ApplyDelete(request))
            &&& request.index_id == asked.index_id
            &&& request.query == asked.query
            &&& request.search_fields == asked.search_fields
            &&& request.start_timestamp == asked.start_timestamp
            &&& request.end_timestamp == asked.end_timestamp
        }),
{
    lemma_after_some_deletes::<T>(delete_tasks, output, ord);
}

/// Where the merge is while deletes are left.
proof fn lemma_after_some_deletes<T: Handles>(
    delete_tasks: Seq<DeleteTaskView>,
    output: T::Directory,
    ord: nat,
)
    requires
        ord < delete_tasks.len(),
    ensures
        ({
            let merge = DirectoryMergeView::<T> {
                num_applied: ord,
                phase: DirectoryPhase::ApplyingDeletes,
                output: Some(output),
                ..DirectoryMergeView::<T>::start(delete_tasks, true)
            };
            after_deletes::<T>(delete_tasks, output, ord) == DirectoryProgressView::<T>::Ongoing(
                merge,
                merge.next_delete(ord),
            )
        }),
    decreases ord,
{
    if ord > 0 {
        lemma_after_some_deletes::<T>(delete_tasks, output, (ord - 1) as nat);
    }
}

/// Behind the last delete there is one commit. Then the segments are listed, merged if
/// there is one at all, and the output directory is handed back.
pub proof fn law_deletes_are_committed_and_merged<T: Handles>(
    delete_tasks: Seq<DeleteTaskView>,
    output: T::Directory,
    ids: Seq<Seq<char>>,
)
    requires
        delete_tasks.len() > 0,
    ensures
        ({
            let applied = after_deletes::<T>(delete_tasks, output, delete_tasks.len());
            &&& applied matches DirectoryProgressView::Ongoing(committing, action)
            &&& action == ActionView::<T>::CommitDeletes
            &&& committing.next(
                ReplyView::DeletesCommitted,
            ) matches DirectoryProgressView::Ongoing(listing, next_action)
            &&& next_action == ActionView::<T>::ListSegments
            &&& merges_segments(listing, ids.len() >= 1, ids, output)
        }),
{
    lemma_after_some_deletes::<T>(delete_tasks, output, (delete_tasks.len() - 1) as nat);
}

/// Failed work ends the merge of directories, and its error is handed on.
pub proof fn law_failed_work_ends_the_merge_of_directories<T: Handles>(
    merge: DirectoryMergeView<T>,
    error: T::Error,
)
    ensures
        merge.next(ReplyView::Failed(error)) == DirectoryProgressView::<T>::Aborted(error),
{
}

/// A reply to something else than what the merge of directories waits for ends it with an
/// error.
pub proof fn law_wrong_replies_end_the_merge_of_directories<T: Handles>(
    merge: DirectoryMergeView<T>,
    reply: ReplyView<T>,
)
    requires
        !(reply is Failed),
        match merge.phase {
            DirectoryPhase::OpeningUnion => !(reply is UnionOpened),
            DirectoryPhase::ApplyingDeletes => !(reply is DeleteApplied),
            DirectoryPhase::CommittingDeletes => !(reply is DeletesCommitted),
            DirectoryPhase::ListingSegments => !(reply is Segments),
            DirectoryPhase::MergingSegments => !(reply is SegmentsMerged),
        },
    ensures
        merge.next(reply) == DirectoryProgressView::<T>::Failed(MergeErrorView::UnexpectedReply),
{
}

/// Only a delete without a query keeps the merge of directories from going on, and only
/// when that delete comes next.
pub proof fn law_only_a_missing_query_stops_the_directories<T: Handles>(
    merge: DirectoryMergeView<T>,
    reply: ReplyView<T>,
)
    requires
        !merge.can_resume(reply),
    ensures
        ({
            &&& merge.next(reply) matches DirectoryProgressView::Ongoing(after, action)
            &&& action is ApplyDelete
            &&& after.num_applied < merge.delete_tasks.len()
            &&& merge.delete_tasks[after.num_applied as int].delete_query is None
        }),
{
}

} // verus!
