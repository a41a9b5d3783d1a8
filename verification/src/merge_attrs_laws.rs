//! What holds of the attributes of every merged split.
use vstd::prelude::*;

use crate::merge_attrs::{
    hull, in_order, least_delete_opstamp, merged_attrs, merged_time_range, most_merge_ops,
    partition_ids, smaller_opstamp, split_ids, total_docs_size, total_num_docs, totals_fit,
};
use crate::split::{IndexingPipelineIdView, SplitMetadataView};

verus! {

/// The merged time range is missing exactly when no split has a range. Otherwise it
/// covers both ends of every split's range, and each of its own ends is the end of
/// some split's range.
pub proof fn law_time_range_is_the_tightest_cover(splits: Seq<SplitMetadataView>)
    ensures
        match merged_time_range(splits) {
            None => forall|i: int|
                0 <= i < splits.len() ==> (#[trigger] splits[i]).time_range is None,
            Some(merged) => {
                &&& merged.start <= merged.end
                &&& forall|i: int|
                    0 <= i < splits.len() ==> ((#[trigger] splits[i]).time_range matches Some(range)
                        ==> {
                        &&& merged.start <= range.start <= merged.end
                        &&& merged.start <= range.end <= merged.end
                    })
                &&& exists|i: int|
                    {
                        &&& 0 <= i < splits.len()
                        &&& (#[trigger] splits[i]).time_range matches Some(range)
                        &&& (range.start == merged.start || range.end == merged.start)
                    }
                &&& exists|i: int|
                    {
                        &&& 0 <= i < splits.len()
                        &&& (#[trigger] splits[i]).time_range matches Some(range)
                        &&& (range.start == merged.end || range.end == merged.end)
                    }
            },
        },
    decreases splits.len(),
{
    if splits.len() > 0 {
        let rest = splits.drop_last();
        law_time_range_is_the_tightest_cover(rest);
        assert forall|i: int| 0 <= i < rest.len() implies #[trigger] rest[i] == splits[i] by {}
        let last = splits.last();
        assert(splits[splits.len() - 1] == last);
        match (merged_time_range(rest), merged_time_range(splits)) {
            (Some(old), Some(merged)) => {
                let low = choose|i: int|
                    {
                        &&& 0 <= i < rest.len()
                        &&& (#[trigger] rest[i]).time_range matches Some(range)
                        &&& (range.start == old.start || range.end == old.start)
                    };
                let high = choose|i: int|
                    {
                        &&& 0 <= i < rest.len()
                        &&& (#[trigger] rest[i]).time_range matches Some(range)
                        &&& (range.start == old.end || range.end == old.end)
                    };
                assert(splits[low] == rest[low]);
                assert(splits[high] == rest[high]);
                assert forall|i: int| 0 <= i < splits.len() implies (
                (#[trigger] splits[i]).time_range matches Some(range) ==> {
                    &&& merged.start <= range.start <= merged.end
                    &&& merged.start <= range.end <= merged.end
                }) by {
                    if i < rest.len() {
                        assert(rest[i] == splits[i]);
                    }
                }
            },
            (None, merged) => {
                assert forall|i: int| 0 <= i < rest.len() implies (
                #[trigger] splits[i]).time_range is None by {
                    assert(rest[i] == splits[i]);
                }
                assert(merged == in_order(last.time_range));
            },
            (_, None) => {},
        }
    }
}

/// The partitions that are combined are exactly those of the splits.
pub proof fn law_partition_ids_are_those_of_the_splits(splits: Seq<SplitMetadataView>)
    ensures
        forall|id: u64| #[trigger]
            partition_ids(splits).contains(id) <==> exists|i: int|
                0 <= i < splits.len() && (#[trigger] splits[i]).partition_id == id,
{
    let ids = splits.map_values(|split: SplitMetadataView| split.partition_id);
    assert forall|id: u64| #[trigger]
        partition_ids(splits).contains(id) <==> exists|i: int|
            0 <= i < splits.len() && (#[trigger] splits[i]).partition_id == id by {
        if ids.contains(id) {
            let i = choose|i: int| 0 <= i < ids.len() && ids[i] == id;
            assert(splits[i].partition_id == id);
        }
        if exists|i: int| 0 <= i < splits.len() && (#[trigger] splits[i]).partition_id == id {
            let i = choose|i: int|
                0 <= i < splits.len() && (#[trigger] splits[i]).partition_id == id;
            assert(ids[i] == id);
        }
    }
}

/// The merged split has the id that it was given, belongs to the pipeline that merged it,
/// stands for the partitions of its splits and for no other, and replaces its splits, each
/// once and in order.
pub proof fn law_merged_split_stands_for_its_splits(
    merge_split_id: Seq<char>,
    pipeline_id: IndexingPipelineIdView,
    splits: Seq<SplitMetadataView>,
    ids: Set<u64>,
)
    requires
        forall|id: u64|
            ids.contains(id) <==> exists|i: int|
                0 <= i < splits.len() && (#[trigger] splits[i]).partition_id == id,
    ensures
        ({
            let attrs = merged_attrs(merge_split_id, pipeline_id, splits);
            &&& attrs.split_id == merge_split_id
            &&& attrs.pipeline_id == pipeline_id
            &&& attrs.partition_id == crate::partition::combined_partition_id(ids)
            &&& attrs.replaced_split_ids.len() == splits.len()
            &&& forall|i: int|
                0 <= i < splits.len() ==> #[trigger] attrs.replaced_split_ids[i]
                    == splits[i].split_id
        }),
{
    law_partition_ids_are_those_of_the_splits(splits);
    assert forall|id: u64| partition_ids(splits).contains(id) <==> ids.contains(id) by {}
    assert(partition_ids(splits) =~= ids);
}

/// The merged split has a time range exactly when one of its splits has one. It then
/// covers both ends of every split's range, and each of its own ends is the end of some
/// split's range.
pub proof fn law_merged_split_covers_its_splits_in_time(
    merge_split_id: Seq<char>,
    pipeline_id: IndexingPipelineIdView,
    splits: Seq<SplitMetadataView>,
)
    ensures
        match merged_attrs(merge_split_id, pipeline_id, splits).time_range {
            None => forall|i: int|
                0 <= i < splits.len() ==> (#[trigger] splits[i]).time_range is None,
            Some(merged) => {
                &&& forall|i: int|
                    0 <= i < splits.len() ==> ((#[trigger] splits[i]).time_range matches Some(range)
                        ==> {
                        &&& merged.start <= range.start <= merged.end
                        &&& merged.start <= range.end <= merged.end
                    })
                &&& exists|i: int|
                    {
                        &&& 0 <= i < splits.len()
                        &&& (#[trigger] splits[i]).time_range matches Some(range)
                        &&& (range.start == merged.start || range.end == merged.start)
                    }
                &&& exists|i: int|
                    {
                        &&& 0 <= i < splits.len()
                        &&& (#[trigger] splits[i]).time_range matches Some(range)
                        &&& (range.start == merged.end || range.end == merged.end)
                    }
            },
        },
{
    law_time_range_is_the_tightest_cover(splits);
}

/// The total over no split is nothing, and that over a single split is what the split has.
pub proof fn law_totals_of_one_split(split: SplitMetadataView)
    ensures
        total_num_docs(Seq::empty()) == 0,
        total_docs_size(Seq::empty()) == 0,
        total_num_docs(seq![split]) == split.num_docs,
        total_docs_size(seq![split]) == split.uncompressed_docs_size_in_bytes,
{
    let none = seq![split].drop_last();
    assert(none =~= Seq::empty());
    assert(total_num_docs(none) == 0);
    assert(total_docs_size(none) == 0);
    assert(seq![split].last() == split);
}

/// The merged split has the documents of its splits: those of a single split if there is
/// one, and those of one list of splits and of another where both are merged together.
pub proof fn law_merged_split_has_the_documents_of_its_splits(
    merge_split_id: Seq<char>,
    pipeline_id: IndexingPipelineIdView,
    split: SplitMetadataView,
    left: Seq<SplitMetadataView>,
    right: Seq<SplitMetadataView>,
)
    ensures
        ({
            let none = merged_attrs(merge_split_id, pipeline_id, Seq::empty());
            let one = merged_attrs(merge_split_id, pipeline_id, seq![split]);
            let of_left = merged_attrs(merge_split_id, pipeline_id, left);
            let of_right = merged_attrs(merge_split_id, pipeline_id, right);
            let of_both = merged_attrs(merge_split_id, pipeline_id, left + right);
            &&& none.num_docs == 0
            &&& none.uncompressed_docs_size_in_bytes == 0
            &&& one.num_docs == split.num_docs
            &&& one.uncompressed_docs_size_in_bytes == split.uncompressed_docs_size_in_bytes
            &&& of_both.num_docs == of_left.num_docs + of_right.num_docs
            &&& of_both.uncompressed_docs_size_in_bytes == of_left.uncompressed_docs_size_in_bytes
                + of_right.uncompressed_docs_size_in_bytes
        }),
{
    law_totals_of_one_split(split);
    law_totals_of_two_lists(left, right);
}

/// The largest number of merges is that of one of the splits, and none has a larger one.
pub proof fn law_most_merge_ops_are_those_of_a_split(splits: Seq<SplitMetadataView>)
    ensures
        forall|i: int|
            0 <= i < splits.len() ==> (#[trigger] splits[i]).num_merge_ops <= most_merge_ops(
                splits,
            ),
        splits.len() > 0 ==> exists|i: int|
            0 <= i < splits.len() && (#[trigger] splits[i]).num_merge_ops == most_merge_ops(splits),
        splits.len() == 0 ==> most_merge_ops(splits) == 0,
{
    let nobody = IndexingPipelineIdView {
        index_id: Seq::empty(),
        source_id: Seq::empty(),
        node_id: Seq::empty(),
        pipeline_ord: 0,
    };
    law_merge_ops_grow_by_one(Seq::empty(), nobody, splits);
    if splits.len() > 0 {
        let k = choose|i: int|
            0 <= i < splits.len() && (#[trigger] splits[i]).num_merge_ops + 1 == most_merge_ops(
                splits,
            ) + 1;
        assert(splits[k].num_merge_ops == most_merge_ops(splits));
    }
}

/// Splits can be merged exactly where the totals of their documents fit, and each of them
/// can be merged once more.
pub proof fn law_merges_fit_where_the_totals_do(splits: Seq<SplitMetadataView>)
    ensures
        totals_fit(splits) <==> {
            &&& total_num_docs(splits) <= u64::MAX
            &&& total_docs_size(splits) <= u64::MAX
            &&& forall|i: int|
                0 <= i < splits.len() ==> (#[trigger] splits[i]).num_merge_ops < usize::MAX
        },
{
    law_most_merge_ops_are_those_of_a_split(splits);
}

/// A merge counts as one more than the most merged of its splits.
pub proof fn law_merge_ops_grow_by_one(
    merge_split_id: Seq<char>,
    pipeline_id: IndexingPipelineIdView,
    splits: Seq<SplitMetadataView>,
)
    ensures
        ({
            let attrs = merged_attrs(merge_split_id, pipeline_id, splits);
            &&& forall|i: int|
                0 <= i < splits.len() ==> (#[trigger] splits[i]).num_merge_ops < attrs.num_merge_ops
            &&& splits.len() > 0 ==> exists|i: int|
                0 <= i < splits.len() && (#[trigger] splits[i]).num_merge_ops + 1
                    == attrs.num_merge_ops
            &&& splits.len() == 0 ==> attrs.num_merge_ops == 1
        }),
    decreases splits.len(),
{
    if splits.len() > 0 {
        let rest = splits.drop_last();
        law_merge_ops_grow_by_one(merge_split_id, pipeline_id, rest);
        assert forall|i: int| 0 <= i < rest.len() implies #[trigger] rest[i] == splits[i] by {}
        assert(splits[splits.len() - 1] == splits.last());
        assert forall|i: int| 0 <= i < splits.len() implies (#[trigger] splits[i]).num_merge_ops
            <= most_merge_ops(splits) by {
            if i < rest.len() {
                assert(rest[i] == splits[i]);
            }
        }
        if rest.len() > 0 {
            let k = choose|i: int|
                0 <= i < rest.len() && (#[trigger] rest[i]).num_merge_ops + 1 == most_merge_ops(
                    rest,
                ) + 1;
            assert(splits[k] == rest[k]);
        }
    }
}

/// The merged split is as far behind on deletes as the split that is farthest behind.
pub proof fn law_delete_opstamp_is_the_least(
    merge_split_id: Seq<char>,
    pipeline_id: IndexingPipelineIdView,
    splits: Seq<SplitMetadataView>,
)
    ensures
        ({
            let attrs = merged_attrs(merge_split_id, pipeline_id, splits);
            &&& forall|i: int|
                0 <= i < splits.len() ==> attrs.delete_opstamp <= (
                #[trigger] splits[i]).delete_opstamp
            &&& splits.len() > 0 ==> exists|i: int|
                0 <= i < splits.len() && (#[trigger] splits[i]).delete_opstamp
                    == attrs.delete_opstamp
            &&& splits.len() == 0 ==> attrs.delete_opstamp == 0
        }),
    decreases splits.len(),
{
    if splits.len() > 0 {
        let rest = splits.drop_last();
        law_delete_opstamp_is_the_least(merge_split_id, pipeline_id, rest);
        let least = merged_attrs(merge_split_id, pipeline_id, splits).delete_opstamp;
        assert(splits[splits.len() - 1] == splits.last());
        if rest.len() > 0 {
            let least_of_rest = merged_attrs(merge_split_id, pipeline_id, rest).delete_opstamp;
            lemma_least_delete_opstamp_exists(rest);
            let k = choose|i: int|
                0 <= i < rest.len() && (#[trigger] rest[i]).delete_opstamp == least_of_rest;
            assert(splits[k] == rest[k]);
        }
        assert forall|i: int| 0 <= i < splits.len() implies least <= (
        #[trigger] splits[i]).delete_opstamp by {
            if i < rest.len() {
                assert(rest[i] == splits[i]);
            }
        }
    }
}

/// There is a least opstamp wherever there is a split.
proof fn lemma_least_delete_opstamp_exists(splits: Seq<SplitMetadataView>)
    ensures
        least_delete_opstamp(splits) is Some <==> splits.len() > 0,
{
}

/// Nothing is lost or counted twice: over two lists of splits taken together, the
/// totals are those of the one and of the other, put together.
pub proof fn law_totals_of_two_lists(left: Seq<SplitMetadataView>, right: Seq<SplitMetadataView>)
    ensures
        total_num_docs(left + right) == total_num_docs(left) + total_num_docs(right),
        total_docs_size(left + right) == total_docs_size(left) + total_docs_size(right),
        merged_time_range(left + right) == hull(merged_time_range(left), merged_time_range(right)),
        least_delete_opstamp(left + right) == smaller_opstamp(
            least_delete_opstamp(left),
            least_delete_opstamp(right),
        ),
        most_merge_ops(left + right) == if most_merge_ops(left) >= most_merge_ops(right) {
            most_merge_ops(left)
        } else {
            most_merge_ops(right)
        },
        split_ids(left + right) == split_ids(left) + split_ids(right),
    decreases right.len(),
{
    assert(split_ids(left + right) =~= split_ids(left) + split_ids(right));
    if right.len() == 0 {
        assert(left + right =~= left);
    } else {
        law_totals_of_two_lists(left, right.drop_last());
        assert((left + right).drop_last() =~= left + right.drop_last());
        assert((left + right).last() == right.last());
    }
}

/// Taking one split out of a list, wherever it stands, takes its share out of each total.
proof fn lemma_totals_without_one(splits: Seq<SplitMetadataView>, at: int)
    requires
        0 <= at < splits.len(),
    ensures
        ({
            let rest = splits.remove(at);
            let one = seq![splits[at]];
            &&& total_num_docs(splits) == total_num_docs(rest + one)
            &&& total_docs_size(splits) == total_docs_size(rest + one)
            &&& merged_time_range(splits) == merged_time_range(rest + one)
            &&& least_delete_opstamp(splits) == least_delete_opstamp(rest + one)
            &&& most_merge_ops(splits) == most_merge_ops(rest + one)
        }),
{
    let before = splits.take(at);
    let after = splits.skip(at + 1);
    let one = seq![splits[at]];
    assert(splits =~= (before + one) + after);
    assert(splits.remove(at) =~= before + after);
    law_totals_of_two_lists(before + one, after);
    law_totals_of_two_lists(before, one);
    law_totals_of_two_lists(before + after, one);
    law_totals_of_two_lists(before, after);
}

/// The order in which the splits are listed matters only to the order in which the
/// replaced splits are listed.
pub proof fn law_order_of_splits_does_not_matter(
    merge_split_id: Seq<char>,
    pipeline_id: IndexingPipelineIdView,
    left: Seq<SplitMetadataView>,
    right: Seq<SplitMetadataView>,
)
    requires
        left.to_multiset() == right.to_multiset(),
    ensures
        ({
            let of_left = merged_attrs(merge_split_id, pipeline_id, left);
            let of_right = merged_attrs(merge_split_id, pipeline_id, right);
            &&& of_left.partition_id == of_right.partition_id
            &&& of_left.time_range == of_right.time_range
            &&& of_left.num_docs == of_right.num_docs
            &&& of_left.uncompressed_docs_size_in_bytes == of_right.uncompressed_docs_size_in_bytes
            &&& of_left.delete_opstamp == of_right.delete_opstamp
            &&& of_left.num_merge_ops == of_right.num_merge_ops
            &&& of_left.replaced_split_ids.to_multiset()
                == of_right.replaced_split_ids.to_multiset()
        }),
{
    lemma_totals_of_a_permutation(left, right);
    assert(partition_ids(left) =~= partition_ids(right)) by {
        lemma_partition_ids_of_a_permutation(left, right);
        lemma_partition_ids_of_a_permutation(right, left);
    }
}

/// Whatever partition one list of splits is in, a rearrangement of it is in.
proof fn lemma_partition_ids_of_a_permutation(
    left: Seq<SplitMetadataView>,
    right: Seq<SplitMetadataView>,
)
    requires
        left.to_multiset() == right.to_multiset(),
    ensures
        partition_ids(left).subset_of(partition_ids(right)),
{
    broadcast use vstd::seq_lib::group_to_multiset_ensures;

    let ids_of = |split: SplitMetadataView| split.partition_id;
    assert forall|id: u64| partition_ids(left).contains(id) implies partition_ids(right).contains(
        id,
    ) by {
        let i = choose|i: int| 0 <= i < left.len() && left.map_values(ids_of)[i] == id;
        assert(left.contains(left[i]));
        assert(left.to_multiset().count(left[i]) > 0);
        assert(right.contains(left[i]));
        let j = choose|j: int| 0 <= j < right.len() && right[j] == left[i];
        assert(right.map_values(ids_of)[j] == id);
    }
}

/// The totals of a list of splits are those of any rearrangement of it.
proof fn lemma_totals_of_a_permutation(
    left: Seq<SplitMetadataView>,
    right: Seq<SplitMetadataView>,
)
    requires
        left.to_multiset() == right.to_multiset(),
    ensures
        total_num_docs(left) == total_num_docs(right),
        total_docs_size(left) == total_docs_size(right),
        merged_time_range(left) == merged_time_range(right),
        least_delete_opstamp(left) == least_delete_opstamp(right),
        most_merge_ops(left) == most_merge_ops(right),
        split_ids(left).to_multiset() == split_ids(right).to_multiset(),
    decreases left.len(),
{
    broadcast use vstd::seq_lib::group_to_multiset_ensures;

    assert(left.to_multiset().len() == left.len());
    assert(right.to_multiset().len() == right.len());
    if left.len() == 0 {
        assert(left =~= right);
    } else {
        let last = left.last();
        let left_rest = left.drop_last();
        assert(left[left.len() - 1] == last);
        assert(left.contains(last));
        assert(right.to_multiset().count(last) > 0);
        assert(right.contains(last));
        let at = choose|j: int| 0 <= j < right.len() && right[j] == last;
        let right_rest = right.remove(at);
        assert(left.remove(left.len() - 1) =~= left_rest);
        assert(left_rest.to_multiset() =~= right_rest.to_multiset());
        lemma_totals_of_a_permutation(left_rest, right_rest);
        lemma_totals_without_one(right, at);
        let one = seq![last];
        assert(left =~= left_rest + one);
        law_totals_of_two_lists(left_rest, one);
        law_totals_of_two_lists(right_rest, one);
        assert(split_ids(right).remove(at) =~= split_ids(right_rest));
        assert(split_ids(left).remove(left.len() - 1) =~= split_ids(left_rest));
        assert(split_ids(right)[at] == last.split_id);
        assert(split_ids(left)[left.len() - 1] == last.split_id);
        assert(split_ids(left).to_multiset() =~= split_ids(left_rest).to_multiset().insert(
            last.split_id,
        ));
        assert(split_ids(right).to_multiset() =~= split_ids(right_rest).to_multiset().insert(
            last.split_id,
        ));
    }
}

} // verus!
