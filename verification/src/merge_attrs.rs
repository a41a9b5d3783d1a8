//! The attributes of a merged split, worked out from the splits that it replaces.
use itertools::Itertools;
use vstd::prelude::*;

use crate::partition::combine_partition_ids_aux;
use crate::split::{
    IndexingPipelineId, IndexingPipelineIdView, SplitAttrs, SplitAttrsView, SplitMetadata,
    SplitMetadataView, TimeRange,
};

verus! {

/// The set of the partitions that the splits belong to.
pub open spec fn partition_ids(splits: Seq<SplitMetadataView>) -> Set<u64> {
    splits.map_values(|split: SplitMetadataView| split.partition_id).to_set()
}

/// The ids of the splits, in order.
pub open spec fn split_ids(splits: Seq<SplitMetadataView>) -> Seq<Seq<char>> {
    splits.map_values(|split: SplitMetadataView| split.split_id)
}

/// The size of the splits' documents, summed over the splits.
pub open spec fn total_docs_size(splits: Seq<SplitMetadataView>) -> nat
    decreases splits.len(),
{
    if splits.len() == 0 {
        0
    } else {
        total_docs_size(splits.drop_last()) + splits.last().uncompressed_docs_size_in_bytes
    }
}

/// The number of documents, summed over the splits.
pub open spec fn total_num_docs(splits: Seq<SplitMetadataView>) -> nat
    decreases splits.len(),
{
    if splits.len() == 0 {
        0
    } else {
        total_num_docs(splits.drop_last()) + splits.last().num_docs
    }
}

/// The largest number of merges that one of the splits went through, 0 for no split.
pub open spec fn most_merge_ops(splits: Seq<SplitMetadataView>) -> nat
    decreases splits.len(),
{
    if splits.len() == 0 {
        0
    } else {
        let most = most_merge_ops(splits.drop_last());
        let last = splits.last().num_merge_ops;
        if most >= last {
            most
        } else {
            last
        }
    }
}

/// The smaller of two opstamps, of which either may be missing.
pub open spec fn smaller_opstamp(left: Option<nat>, right: Option<nat>) -> Option<nat> {
    match (left, right) {
        (Some(l), Some(r)) => Some(
            if l <= r {
                l
            } else {
                r
            },
        ),
        (None, _) => right,
        (_, None) => left,
    }
}

/// The smallest delete opstamp among the splits, if there is a split.
pub open spec fn least_delete_opstamp(splits: Seq<SplitMetadataView>) -> Option<nat>
    decreases splits.len(),
{
    if splits.len() == 0 {
        None
    } else {
        smaller_opstamp(
            least_delete_opstamp(splits.drop_last()),
            Some(splits.last().delete_opstamp),
        )
    }
}

/// The smallest range that holds both ends of two ranges, of which either may be missing.
pub open spec fn hull(left: Option<TimeRange>, right: Option<TimeRange>) -> Option<TimeRange> {
    match (left, right) {
        (Some(l), Some(r)) => Some(
            TimeRange {
                start: if l.start <= r.start {
                    l.start
                } else {
                    r.start
                },
                end: if l.end >= r.end {
                    l.end
                } else {
                    r.end
                },
            },
        ),
        (None, _) => right,
        (_, None) => left,
    }
}

/// A range with its smaller end first.
pub open spec fn in_order(range: Option<TimeRange>) -> Option<TimeRange> {
    match range {
        Some(r) => Some(
            if r.start <= r.end {
                r
            } else {
                TimeRange { start: r.end, end: r.start }
            },
        ),
        None => None,
    }
}

/// The smallest range that holds both ends of every split's range, if one has a range.
pub open spec fn merged_time_range(splits: Seq<SplitMetadataView>) -> Option<TimeRange>
    decreases splits.len(),
{
    if splits.len() == 0 {
        None
    } else {
        hull(merged_time_range(splits.drop_last()), in_order(splits.last().time_range))
    }
}

/// Whether the totals over the splits fit the integers that hold them.
pub open spec fn totals_fit(splits: Seq<SplitMetadataView>) -> bool {
    &&& total_docs_size(splits) <= u64::MAX
    &&& total_num_docs(splits) <= u64::MAX
    &&& most_merge_ops(splits) < usize::MAX
}

/// The attributes of the split that replaces `splits`.
pub open spec fn merged_attrs(
    merge_split_id: Seq<char>,
    pipeline_id: IndexingPipelineIdView,
    splits: Seq<SplitMetadataView>,
) -> SplitAttrsView {
    SplitAttrsView {
        split_id: merge_split_id,
        partition_id: crate::partition::combined_partition_id(partition_ids(splits)),
        pipeline_id,
        replaced_split_ids: split_ids(splits),
        time_range: merged_time_range(splits),
        num_docs: total_num_docs(splits),
        uncompressed_docs_size_in_bytes: total_docs_size(splits),
        delete_opstamp: match least_delete_opstamp(splits) {
            Some(opstamp) => opstamp,
            None => 0,
        },
        num_merge_ops: most_merge_ops(splits) + 1,
    }
}

/// Every total over some of the first splits is at most that over all.
proof fn lemma_totals_grow(splits: Seq<SplitMetadataView>, n: int)
    requires
        0 <= n <= splits.len(),
    ensures
        total_docs_size(splits.take(n)) <= total_docs_size(splits),
        total_num_docs(splits.take(n)) <= total_num_docs(splits),
    decreases splits.len() - n,
{
    if n == splits.len() {
        assert(splits.take(n) =~= splits);
    } else {
        lemma_totals_grow(splits, n + 1);
        assert(splits.take(n + 1).drop_last() =~= splits.take(n));
    }
}

/// [`Itertools::minmax`] with `MinMaxResult::into_option`: nothing for no value at
/// all, else the smallest and the largest of the values.
#[verifier::external_body]
fn minmax(values: Vec<i64>) -> (bounds: Option<(i64, i64)>)
    ensures
        match bounds {
            None => values@.len() == 0,
            Some((min, max)) => {
                &&& values@.contains(min)
                &&& values@.contains(max)
                &&& forall|i: int| 0 <= i < values@.len() ==> min <= #[trigger] values@[i] <= max
            },
        },
{
    values.into_iter().minmax().into_option()
}

/// Both ends of each split's time range, in order.
spec fn range_ends(splits: Seq<SplitMetadataView>) -> Seq<i64>
    decreases splits.len(),
{
    if splits.len() == 0 {
        seq![]
    } else {
        let ends = range_ends(splits.drop_last());
        match splits.last().time_range {
            Some(range) => ends.push(range.start).push(range.end),
            None => ends,
        }
    }
}

/// The merged range is spanned by the smallest and the largest of the range ends.
proof fn lemma_merged_time_range_of_ends(splits: Seq<SplitMetadataView>)
    ensures
        match merged_time_range(splits) {
            None => range_ends(splits).len() == 0,
            Some(range) => {
                &&& range_ends(splits).contains(range.start)
                &&& range_ends(splits).contains(range.end)
                &&& forall|i: int|
                    0 <= i < range_ends(splits).len() ==> range.start <= #[trigger] range_ends(
                        splits,
                    )[i] <= range.end
            },
        },
    decreases splits.len(),
{
    if splits.len() > 0 {
        let rest = range_ends(splits.drop_last());
        let ends = range_ends(splits);
        lemma_merged_time_range_of_ends(splits.drop_last());
        assert forall|value: i64| rest.contains(value) implies ends.contains(value) by {
            let i = choose|i: int| 0 <= i < rest.len() && rest[i] == value;
            assert(ends[i] == value);
        }
        match splits.last().time_range {
            Some(range) => {
                assert(ends[rest.len() as int] == range.start);
                assert(ends[rest.len() as int + 1] == range.end);
                assert forall|i: int| 0 <= i < rest.len() implies ends[i] == rest[i] by {}
            },
            None => {},
        }
    }
}

/// The time range of the merged split: from the earliest to the latest end of the
/// splits' ranges. Splits without a range are passed over.
pub fn merge_time_range(splits: &[SplitMetadata]) -> (range: Option<TimeRange>)
    ensures
        range == merged_time_range(crate::split::views(splits@)),
{
    let ghost all = crate::split::views(splits@);
    let mut ends: Vec<i64> = Vec::new();
    for i in 0..splits.len()
        invariant
            all == crate::split::views(splits@),
            ends@ == range_ends(all.take(i as int)),
    {
        proof {
            assert(all.take(i + 1).drop_last() =~= all.take(i as int));
        }
        if let Some(range) = splits[i].time_range {
            ends.push(range.start);
            ends.push(range.end);
        }
    }
    proof {
        assert(all.take(all.len() as int) =~= all);
        lemma_merged_time_range_of_ends(all);
    }
    match minmax(ends) {
        Some((min_timestamp, max_timestamp)) => Some(
            TimeRange { start: min_timestamp, end: max_timestamp },
        ),
        None => None,
    }
}

/// The size of the splits' documents, summed over the splits.
pub fn sum_doc_sizes_in_bytes(splits: &[SplitMetadata]) -> (sum: u64)
    requires
        total_docs_size(crate::split::views(splits@)) <= u64::MAX,
    ensures
        sum == total_docs_size(crate::split::views(splits@)),
{
    let ghost all = crate::split::views(splits@);
    let mut sum: u64 = 0;
    for i in 0..splits.len()
        invariant
            all == crate::split::views(splits@),
            total_docs_size(all) <= u64::MAX,
            sum == total_docs_size(all.take(i as int)),
    {
        proof {
            assert(all.take(i + 1).drop_last() =~= all.take(i as int));
            lemma_totals_grow(all, i + 1);
        }
        sum += splits[i].uncompressed_docs_size_in_bytes;
    }
    assert(all.take(all.len() as int) =~= all);
    sum
}

/// The number of documents, summed over the splits.
pub fn sum_num_docs(splits: &[SplitMetadata]) -> (sum: u64)
    requires
        total_num_docs(crate::split::views(splits@)) <= u64::MAX,
    ensures
        sum == total_num_docs(crate::split::views(splits@)),
{
    let ghost all = crate::split::views(splits@);
    let mut sum: u64 = 0;
    for i in 0..splits.len()
        invariant
            all == crate::split::views(splits@),
            total_num_docs(all) <= u64::MAX,
            sum == total_num_docs(all.take(i as int)),
    {
        proof {
            assert(all.take(i + 1).drop_last() =~= all.take(i as int));
            lemma_totals_grow(all, i + 1);
        }
        sum += splits[i].num_docs as u64;
    }
    assert(all.take(all.len() as int) =~= all);
    sum
}

/// The largest number of merges that one of the splits went through, 0 for no split.
pub fn max_merge_ops(splits: &[SplitMetadata]) -> (most: usize)
    ensures
        most == most_merge_ops(crate::split::views(splits@)),
{
    let ghost all = crate::split::views(splits@);
    let mut most: usize = 0;
    for i in 0..splits.len()
        invariant
            all == crate::split::views(splits@),
            most == most_merge_ops(all.take(i as int)),
    {
        proof {
            assert(all.take(i + 1).drop_last() =~= all.take(i as int));
        }
        if splits[i].num_merge_ops > most {
            most = splits[i].num_merge_ops;
        }
    }
    assert(all.take(all.len() as int) =~= all);
    most
}

/// The smallest delete opstamp among the splits, 0 for no split.
fn min_delete_opstamp(splits: &[SplitMetadata]) -> (least: u64)
    ensures
        least == match least_delete_opstamp(crate::split::views(splits@)) {
            Some(opstamp) => opstamp,
            None => 0,
        },
{
    let ghost all = crate::split::views(splits@);
    let mut least: Option<u64> = None;
    for i in 0..splits.len()
        invariant
            all == crate::split::views(splits@),
            least_delete_opstamp(all.take(i as int)) == match least {
                Some(opstamp) => Some(opstamp as nat),
                None => None,
            },
    {
        proof {
            assert(all.take(i + 1).drop_last() =~= all.take(i as int));
        }
        let opstamp: u64 = splits[i].delete_opstamp;
        least = match least {
            Some(smaller) if smaller <= opstamp => Some(smaller),
            _ => Some(opstamp),
        };
    }
    assert(all.take(all.len() as int) =~= all);
    match least {
        Some(opstamp) => opstamp,
        None => 0,
    }
}

/// The partition id of the merged split.
pub fn combine_partition_ids(splits: &[SplitMetadata]) -> (combined: u64)
    ensures
        combined == crate::partition::combined_partition_id(
            partition_ids(crate::split::views(splits@)),
        ),
        forall|ids: Set<u64>|
            (forall|id: u64|
                ids.contains(id) <==> exists|i: int|
                    0 <= i < splits@.len() && (#[trigger] splits@[i]).partition_id == id)
                ==> combined == #[trigger] crate::partition::combined_partition_id(ids),
{
    let ghost all = crate::split::views(splits@);
    let mut ids: Vec<u64> = Vec::new();
    for i in 0..splits.len()
        invariant
            ids@.len() == i,
            forall|k: int| 0 <= k < i ==> ids@[k] == #[trigger] splits@[k].partition_id,
    {
        ids.push(splits[i].partition_id);
    }
    assert(ids@ =~= all.map_values(|split: SplitMetadataView| split.partition_id));
    proof {
        assert forall|of_splits: Set<u64>|
            (forall|id: u64|
                of_splits.contains(id) <==> exists|i: int|
                    0 <= i < splits@.len() && (#[trigger] splits@[i]).partition_id
                        == id) implies crate::partition::combined_partition_id(ids@.to_set())
            == #[trigger] crate::partition::combined_partition_id(of_splits) by {
            assert forall|id: u64| ids@.to_set().contains(id) <==> of_splits.contains(id) by {
                if ids@.contains(id) {
                    let k = choose|k: int| 0 <= k < ids@.len() && ids@[k] == id;
                    assert(splits@[k].partition_id == id);
                }
                if of_splits.contains(id) {
                    let k = choose|i: int|
                        0 <= i < splits@.len() && (#[trigger] splits@[i]).partition_id == id;
                    assert(ids@[k] == id);
                }
            }
            assert(ids@.to_set() =~= of_splits);
        }
    }
    combine_partition_ids_aux(ids.as_slice())
}

/// Whether [`merge_split_attrs`] may be called: whether no total over the splits
/// overflows.
pub fn merge_fits(splits: &[SplitMetadata]) -> (fits: bool)
    ensures
        fits == totals_fit(crate::split::views(splits@)),
{
    let ghost all = crate::split::views(splits@);
    let mut docs_size: u64 = 0;
    let mut num_docs: u64 = 0;
    for i in 0..splits.len()
        invariant
            all == crate::split::views(splits@),
            docs_size == total_docs_size(all.take(i as int)),
            num_docs == total_num_docs(all.take(i as int)),
    {
        proof {
            assert(all.take(i + 1).drop_last() =~= all.take(i as int));
            lemma_totals_grow(all, i + 1);
        }
        match docs_size.checked_add(splits[i].uncompressed_docs_size_in_bytes) {
            Some(sum) => {
                docs_size = sum;
            },
            None => {
                return false;
            },
        }
        match num_docs.checked_add(splits[i].num_docs as u64) {
            Some(sum) => {
                num_docs = sum;
            },
            None => {
                return false;
            },
        }
    }
    assert(all.take(all.len() as int) =~= all);
    max_merge_ops(splits) < usize::MAX
}

/// The attributes of the split that a merge of `splits` gives.
pub fn merge_split_attrs(
    merge_split_id: String,
    pipeline_id: &IndexingPipelineId,
    splits: &[SplitMetadata],
) -> (attrs: SplitAttrs)
    requires
        totals_fit(crate::split::views(splits@)),
    ensures
        attrs@ == merged_attrs(merge_split_id@, pipeline_id@, crate::split::views(splits@)),
        attrs.split_id@ == merge_split_id@,
        attrs.pipeline_id@ == pipeline_id@,
        attrs.replaced_split_ids@.len() == splits@.len(),
        forall|i: int|
            0 <= i < splits@.len() ==> #[trigger] attrs.replaced_split_ids@[i]
                == splits@[i].split_id,
{
    let ghost all = crate::split::views(splits@);
    let partition_id: u64 = combine_partition_ids(splits);
    let time_range = merge_time_range(splits);
    let uncompressed_docs_size_in_bytes: u64 = sum_doc_sizes_in_bytes(splits);
    let num_docs: u64 = sum_num_docs(splits);
    let mut replaced_split_ids: Vec<String> = Vec::new();
    for i in 0..splits.len()
        invariant
            replaced_split_ids@.len() == i,
            forall|k: int| 0 <= k < i ==> replaced_split_ids@[k] == #[trigger] splits@[k].split_id,
    {
        replaced_split_ids.push(splits[i].split_id.clone());
    }
    assert(replaced_split_ids@.map_values(|id: String| id@) =~= split_ids(all));
    SplitAttrs {
        split_id: merge_split_id,
        partition_id,
        pipeline_id: pipeline_id.clone(),
        replaced_split_ids,
        time_range,
        num_docs,
        uncompressed_docs_size_in_bytes,
        delete_opstamp: min_delete_opstamp(splits),
        num_merge_ops: max_merge_ops(splits) + 1,
    }
}

} // verus!
