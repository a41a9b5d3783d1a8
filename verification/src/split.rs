//! Splits: what is known of one before a merge, and what describes the merged one.
use vstd::prelude::*;

verus! {

/// The timestamps of a split's documents, both ends included.
#[derive(Clone, Copy, Debug, PartialEq, Eq)]
pub struct TimeRange {
    pub start: i64,
    pub end: i64,
}

/// What is read of a split to merge.
#[derive(Clone, Debug, PartialEq, Eq)]
pub struct SplitMetadata {
    pub split_id: String,
    pub index_id: String,
    pub source_id: String,
    pub node_id: String,
    pub partition_id: u64,
    pub num_docs: usize,
    pub uncompressed_docs_size_in_bytes: u64,
    pub time_range: Option<TimeRange>,
    pub delete_opstamp: u64,
    pub num_merge_ops: usize,
}

/// Mathematical view of a [`SplitMetadata`].
pub struct SplitMetadataView {
    pub split_id: Seq<char>,
    pub index_id: Seq<char>,
    pub source_id: Seq<char>,
    pub node_id: Seq<char>,
    pub partition_id: u64,
    pub num_docs: nat,
    pub uncompressed_docs_size_in_bytes: nat,
    pub time_range: Option<TimeRange>,
    pub delete_opstamp: nat,
    pub num_merge_ops: nat,
}

impl View for SplitMetadata {
    type V = SplitMetadataView;

    open spec fn view(&self) -> SplitMetadataView {
        SplitMetadataView {
            split_id: self.split_id@,
            index_id: self.index_id@,
            source_id: self.source_id@,
            node_id: self.node_id@,
            partition_id: self.partition_id,
            num_docs: self.num_docs as nat,
            uncompressed_docs_size_in_bytes: self.uncompressed_docs_size_in_bytes as nat,
            time_range: self.time_range,
            delete_opstamp: self.delete_opstamp as nat,
            num_merge_ops: self.num_merge_ops as nat,
        }
    }
}

/// The views of a list of splits.
pub open spec fn views(splits: Seq<SplitMetadata>) -> Seq<SplitMetadataView> {
    splits.map_values(|split: SplitMetadata| split@)
}

/// Which indexing pipeline a split comes from.
#[derive(Debug, PartialEq, Eq)]
pub struct IndexingPipelineId {
    pub index_id: String,
    pub source_id: String,
    pub node_id: String,
    pub pipeline_ord: usize,
}

/// Mathematical view of an [`IndexingPipelineId`].
pub struct IndexingPipelineIdView {
    pub index_id: Seq<char>,
    pub source_id: Seq<char>,
    pub node_id: Seq<char>,
    pub pipeline_ord: nat,
}

impl View for IndexingPipelineId {
    type V = IndexingPipelineIdView;

    open spec fn view(&self) -> IndexingPipelineIdView {
        IndexingPipelineIdView {
            index_id: self.index_id@,
            source_id: self.source_id@,
            node_id: self.node_id@,
            pipeline_ord: self.pipeline_ord as nat,
        }
    }
}

impl Clone for IndexingPipelineId {
    fn clone(&self) -> (copy: Self)
        ensures
            copy@ == self@,
    {
        IndexingPipelineId {
            index_id: self.index_id.clone(),
            source_id: self.source_id.clone(),
            node_id: self.node_id.clone(),
            pipeline_ord: self.pipeline_ord,
        }
    }
}

/// What describes a split that a merge produced.
#[derive(Clone, Debug, PartialEq, Eq)]
pub struct SplitAttrs {
    pub split_id: String,
    pub partition_id: u64,
    pub pipeline_id: IndexingPipelineId,
    /// The splits that this one takes the place of.
    pub replaced_split_ids: Vec<String>,
    pub time_range: Option<TimeRange>,
    pub num_docs: u64,
    pub uncompressed_docs_size_in_bytes: u64,
    pub delete_opstamp: u64,
    pub num_merge_ops: usize,
}

/// Mathematical view of a [`SplitAttrs`].
#[verifier::ext_equal]
pub struct SplitAttrsView {
    pub split_id: Seq<char>,
    pub partition_id: u64,
    pub pipeline_id: IndexingPipelineIdView,
    pub replaced_split_ids: Seq<Seq<char>>,
    pub time_range: Option<TimeRange>,
    pub num_docs: nat,
    pub uncompressed_docs_size_in_bytes: nat,
    pub delete_opstamp: nat,
    pub num_merge_ops: nat,
}

impl View for SplitAttrs {
    type V = SplitAttrsView;

    open spec fn view(&self) -> SplitAttrsView {
        SplitAttrsView {
            split_id: self.split_id@,
            partition_id: self.partition_id,
            pipeline_id: self.pipeline_id@,
            replaced_split_ids: self.replaced_split_ids@.map_values(|id: String| id@),
            time_range: self.time_range,
            num_docs: self.num_docs as nat,
            uncompressed_docs_size_in_bytes: self.uncompressed_docs_size_in_bytes as nat,
            delete_opstamp: self.delete_opstamp as nat,
            num_merge_ops: self.num_merge_ops as nat,
        }
    }
}

} // verus!
