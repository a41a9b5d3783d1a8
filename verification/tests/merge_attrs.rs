use merge_executor::merge_attrs::{
    max_merge_ops, merge_fits, merge_time_range, sum_doc_sizes_in_bytes, sum_num_docs,
};
use merge_executor::split::{IndexingPipelineId, SplitAttrs, SplitMetadata, TimeRange};
use merge_executor::{combine_partition_ids, merge_split_attrs};

fn split(split_id: &str) -> SplitMetadata {
    SplitMetadata {
        split_id: split_id.to_string(),
        index_id: "test-index".to_string(),
        source_id: "test-source".to_string(),
        node_id: "test-node".to_string(),
        partition_id: 0,
        num_docs: 1,
        uncompressed_docs_size_in_bytes: 34,
        time_range: None,
        delete_opstamp: 0,
        num_merge_ops: 0,
    }
}

fn range(start: i64, end: i64) -> Option<TimeRange> {
    Some(TimeRange { start, end })
}

fn pipeline_id() -> IndexingPipelineId {
    IndexingPipelineId {
        index_id: "test-index".to_string(),
        source_id: "test-source".to_string(),
        node_id: "test-node".to_string(),
        pipeline_ord: 3,
    }
}

fn three_splits() -> Vec<SplitMetadata> {
    let mut first = split("first");
    first.partition_id = 12;
    first.num_docs = 5;
    first.time_range = range(10, 20);
    first.delete_opstamp = 7;
    first.num_merge_ops = 2;
    let mut second = split("second");
    second.partition_id = 7;
    second.num_docs = 3;
    second.delete_opstamp = 4;
    let mut third = split("third");
    third.partition_id = 13;
    third.num_docs = 1;
    third.uncompressed_docs_size_in_bytes = 2;
    third.time_range = range(-5, 15);
    third.delete_opstamp = 9;
    third.num_merge_ops = 1;
    vec![first, second, third]
}

#[test]
fn attributes_of_a_merge() {
    let attrs = merge_split_attrs("merged".to_string(), &pipeline_id(), &three_splits());
    assert_eq!(
        attrs,
        SplitAttrs {
            split_id: "merged".to_string(),
            partition_id: 175247672167,
            pipeline_id: pipeline_id(),
            replaced_split_ids: vec![
                "first".to_string(),
                "second".to_string(),
                "third".to_string()
            ],
            time_range: range(-5, 20),
            num_docs: 9,
            uncompressed_docs_size_in_bytes: 70,
            delete_opstamp: 4,
            num_merge_ops: 3,
        }
    );
}

#[test]
fn attributes_of_a_merge_of_nothing() {
    let attrs = merge_split_attrs("merged".to_string(), &pipeline_id(), &[]);
    assert_eq!(attrs.partition_id, 0);
    assert_eq!(attrs.replaced_split_ids, Vec::<String>::new());
    assert_eq!(attrs.time_range, None);
    assert_eq!(attrs.num_docs, 0);
    assert_eq!(attrs.uncompressed_docs_size_in_bytes, 0);
    assert_eq!(attrs.delete_opstamp, 0);
    assert_eq!(attrs.num_merge_ops, 1);
}

#[test]
fn order_of_splits_does_not_matter() {
    let splits = three_splits();
    let mut reversed = splits.clone();
    reversed.reverse();
    let attrs = merge_split_attrs("merged".to_string(), &pipeline_id(), &splits);
    let mut of_reversed = merge_split_attrs("merged".to_string(), &pipeline_id(), &reversed);
    of_reversed.replaced_split_ids.reverse();
    assert_eq!(attrs, of_reversed);
}

#[test]
fn time_range_spans_all_ranges() {
    let mut splits = vec![split("a"), split("b"), split("c")];
    assert_eq!(merge_time_range(&splits), None);
    splits[1].time_range = range(5, 5);
    assert_eq!(merge_time_range(&splits), range(5, 5));
    splits[2].time_range = range(i64::MIN, 3);
    assert_eq!(merge_time_range(&splits), range(i64::MIN, 5));
    splits[0].time_range = range(4, i64::MAX);
    assert_eq!(merge_time_range(&splits), range(i64::MIN, i64::MAX));
}

#[test]
fn time_range_takes_a_range_with_its_ends_swapped() {
    let mut splits = vec![split("a")];
    splits[0].time_range = range(9, 4);
    assert_eq!(merge_time_range(&splits), range(4, 9));
}

#[test]
fn totals_over_splits() {
    let splits = three_splits();
    assert_eq!(sum_doc_sizes_in_bytes(&splits), 70);
    assert_eq!(sum_num_docs(&splits), 9);
    assert_eq!(max_merge_ops(&splits), 2);
    assert_eq!(max_merge_ops(&[]), 0);
    assert_eq!(combine_partition_ids(&splits), 175247672167);
}

#[test]
fn totals_over_two_lists_add_up() {
    let splits = three_splits();
    assert_eq!(
        sum_num_docs(&splits),
        sum_num_docs(&splits[..1]) + sum_num_docs(&splits[1..])
    );
    assert_eq!(
        sum_doc_sizes_in_bytes(&splits),
        sum_doc_sizes_in_bytes(&splits[..1]) + sum_doc_sizes_in_bytes(&splits[1..])
    );
}

#[test]
fn totals_that_overflow_do_not_fit() {
    assert!(merge_fits(&[]));
    assert!(merge_fits(&three_splits()));
    let mut splits = vec![split("a"), split("b")];
    splits[0].uncompressed_docs_size_in_bytes = u64::MAX;
    assert!(!merge_fits(&splits));
    splits[1].uncompressed_docs_size_in_bytes = 0;
    assert!(merge_fits(&splits));
    splits[1].num_docs = usize::MAX;
    assert!(!merge_fits(&splits));
    splits[1].num_docs = 1;
    splits[1].num_merge_ops = usize::MAX;
    assert!(!merge_fits(&splits));
    splits[1].num_merge_ops = usize::MAX - 1;
    assert!(merge_fits(&splits));
}
