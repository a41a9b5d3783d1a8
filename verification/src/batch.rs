//! What a merge sends to the packager, and the handles that it carries through.
use vstd::prelude::*;

use crate::operation::{MergeOperation, MergeOperationView};
use crate::split::{SplitAttrs, SplitAttrsView};

verus! {

/// The kinds of things that a merge hands on without looking into them.
pub trait Handles {
    /// A segment in the meta of an index.
    type Segment;

    /// What the meta of an index holds besides its segments.
    type Header;

    /// The directory that a merge works in.
    type Scratch;

    /// The directory that receives the merged split.
    type Directory;

    /// An open index.
    type Index;

    /// Why a piece of work failed.
    type Error;
}

/// A merged split with what holds it.
pub struct IndexedSplit<T: Handles> {
    pub split_attrs: SplitAttrs,
    pub index: T::Index,
    pub split_scratch_directory: T::Scratch,
    pub controlled_directory_opt: Option<T::Directory>,
}

/// The lock that a batch is published under.
#[derive(Clone, Copy, Debug, PartialEq, Eq)]
pub enum PublishLock {
    /// A new lock in its default state.
    Default,
    /// A lock that others hold too.
    Shared,
}

/// What the packager gets of a merge operation.
pub struct IndexedSplitBatch<T: Handles> {
    /// The id of the span that the batch is traced under, if it has one.
    pub batch_parent_span: Option<u64>,
    pub splits: Vec<IndexedSplit<T>>,
    /// The source whose checkpoint the batch moves, if it moves one.
    pub checkpoint_delta: Option<String>,
    pub publish_lock: PublishLock,
    pub merge_operation: Option<MergeOperation>,
}

/// Mathematical view of an [`IndexedSplit`].
#[verifier::ext_equal]
pub struct IndexedSplitView<T: Handles> {
    pub split_attrs: SplitAttrsView,
    pub index: T::Index,
    pub split_scratch_directory: T::Scratch,
    pub controlled_directory_opt: Option<T::Directory>,
}

/// Mathematical view of an [`IndexedSplitBatch`].
#[verifier::ext_equal]
pub struct IndexedSplitBatchView<T: Handles> {
    pub batch_parent_span: Option<u64>,
    pub splits: Seq<IndexedSplitView<T>>,
    pub checkpoint_delta: Option<Seq<char>>,
    pub publish_lock: PublishLock,
    pub merge_operation: Option<MergeOperationView>,
}

impl<T: Handles> View for IndexedSplit<T> {
    type V = IndexedSplitView<T>;

    open spec fn view(&self) -> IndexedSplitView<T> {
        IndexedSplitView {
            split_attrs: self.split_attrs@,
            index: self.index,
            split_scratch_directory: self.split_scratch_directory,
            controlled_directory_opt: self.controlled_directory_opt,
        }
    }
}

impl<T: Handles> View for IndexedSplitBatch<T> {
    type V = IndexedSplitBatchView<T>;

    open spec fn view(&self) -> IndexedSplitBatchView<T> {
        IndexedSplitBatchView {
            batch_parent_span: self.batch_parent_span,
            splits: self.splits@.map_values(|split: IndexedSplit<T>| split@),
            checkpoint_delta: crate::protocol::option_view(self.checkpoint_delta),
            publish_lock: self.publish_lock,
            merge_operation: match self.merge_operation {
                Some(operation) => Some(operation@),
                None => None,
            },
        }
    }
}

/// The batch of a merge operation that gave one split: it is traced under the span of
/// the operation, holds the operation, moves no checkpoint and has a lock of its own.
pub open spec fn batch_of<T: Handles>(
    split: IndexedSplitView<T>,
    operation: MergeOperationView,
) -> IndexedSplitBatchView<T> {
    IndexedSplitBatchView {
        batch_parent_span: operation.merge_parent_span,
        splits: seq![split],
        checkpoint_delta: None,
        publish_lock: PublishLock::Default,
        merge_operation: Some(operation),
    }
}

/// A batch holds the split that it is made of and no other, is traced under the span of
/// its operation and holds the operation, moves no checkpoint and has a lock of its own.
pub proof fn law_batch_is_of_one_split<T: Handles>(
    split: IndexedSplitView<T>,
    operation: MergeOperationView,
)
    ensures
        ({
            let batch = batch_of(split, operation);
            &&& batch.splits.len() == 1
            &&& batch.splits[0] == split
            &&& batch.batch_parent_span == operation.merge_parent_span
            &&& batch.merge_operation == Some(operation)
            &&& batch.checkpoint_delta is None
            &&& batch.publish_lock == PublishLock::Default
        }),
{
}

/// The batch of a merge operation that gave one split.
pub fn merge_batch<T: Handles>(
    split: IndexedSplit<T>,
    operation: MergeOperation,
) -> (batch: IndexedSplitBatch<T>)
    ensures
        batch@ == batch_of(split@, operation@),
        batch.splits@ == seq![split],
        batch.batch_parent_span == operation.merge_parent_span,
        batch.merge_operation == Some(operation),
        batch.checkpoint_delta is None,
        batch.publish_lock == PublishLock::Default,
{
    let batch_parent_span = operation.merge_parent_span;
    let mut splits: Vec<IndexedSplit<T>> = Vec::new();
    splits.push(split);
    let batch = IndexedSplitBatch {
        batch_parent_span,
        splits,
        checkpoint_delta: None,
        publish_lock: PublishLock::Default,
        merge_operation: Some(operation),
    };
    assert(batch@.splits =~= seq![split@]);
    batch
}

} // verus!
