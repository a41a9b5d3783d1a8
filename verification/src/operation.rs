//! Merge operations.
use vstd::prelude::*;

use crate::split::{SplitMetadata, SplitMetadataView};

verus! {

/// What kind of merge is asked for.
#[derive(Clone, Copy, Debug, PartialEq, Eq)]
pub enum MergeOperationType {
    /// Merge several splits into one.
    Merge,
    /// Apply the pending deletes to one split.
    DeleteAndMerge,
}

/// A merge that is asked for.
#[derive(Clone, Debug, PartialEq, Eq)]
pub struct MergeOperation {
    /// The id that the merged split will have.
    pub merge_split_id: String,
    pub splits: Vec<SplitMetadata>,
    pub operation_type: MergeOperationType,
    /// The id of the span that the operation is traced under, if it has one.
    pub merge_parent_span: Option<u64>,
}

/// Mathematical view of a [`MergeOperation`].
#[verifier::ext_equal]
pub struct MergeOperationView {
    pub merge_split_id: Seq<char>,
    pub splits: Seq<SplitMetadataView>,
    pub operation_type: MergeOperationType,
    pub merge_parent_span: Option<u64>,
}

impl View for MergeOperation {
    type V = MergeOperationView;

    open spec fn view(&self) -> MergeOperationView {
        MergeOperationView {
            merge_split_id: self.merge_split_id@,
            splits: crate::split::views(self.splits@),
            operation_type: self.operation_type,
            merge_parent_span: self.merge_parent_span,
        }
    }
}

impl MergeOperationView {
    /// Whether the operation can be carried out: deletes are applied to exactly one
    /// split.
    pub open spec fn wf(self) -> bool {
        self.operation_type == MergeOperationType::DeleteAndMerge ==> self.splits.len() == 1
    }
}

/// Every merge can be carried out, and a delete and merge operation exactly where it has
/// one split.
pub proof fn law_which_operations_can_be_carried_out(operation: MergeOperationView)
    ensures
        match operation.operation_type {
            MergeOperationType::Merge => operation.wf(),
            MergeOperationType::DeleteAndMerge => operation.wf() <==> operation.splits.len() == 1,
        },
{
}

} // verus!
