use merge_executor::batch::{Handles, IndexedSplitBatch, PublishLock};
use merge_executor::delete_task::{DeleteQuery, DeleteTask};
use merge_executor::directory_merge::{merge_split_directories, DirectoryProgress};
use merge_executor::error::MergeError;
use merge_executor::executor::{delete_split_attrs, QueueCapacity};
use merge_executor::index_meta::IndexMetaParts;
use merge_executor::operation::{MergeOperation, MergeOperationType};
use merge_executor::protocol::{Action, Reply};
use merge_executor::run::MergeRun;
use merge_executor::split::{IndexingPipelineId, SplitAttrs, SplitMetadata, TimeRange};
use merge_executor::MergeExecutor;
use tantivy::schema::{Schema, TEXT};

fn pipeline_id() -> IndexingPipelineId {
    IndexingPipelineId {
        index_id: "test-index".to_string(),
        source_id: "test-source".to_string(),
        node_id: "test-node".to_string(),
        pipeline_ord: 0,
    }
}

/// Everything that a merge hands on is known by its name.
struct Names;

impl Handles for Names {
    type Segment = String;
    type Header = u32;
    type Scratch = String;
    type Directory = String;
    type Index = String;
    type Error = String;
}

fn executor() -> MergeExecutor {
    MergeExecutor::new(pipeline_id())
}

fn split(split_id: &str, timestamp: i64) -> SplitMetadata {
    SplitMetadata {
        split_id: split_id.to_string(),
        index_id: "test-index".to_string(),
        source_id: "split-source".to_string(),
        node_id: "split-node".to_string(),
        partition_id: 17,
        num_docs: 1,
        uncompressed_docs_size_in_bytes: 34,
        time_range: Some(TimeRange {
            start: timestamp,
            end: timestamp,
        }),
        delete_opstamp: 0,
        num_merge_ops: 0,
    }
}

fn merge_operation() -> MergeOperation {
    MergeOperation {
        merge_split_id: "merged".to_string(),
        splits: (0..4)
            .map(|ord| split(&format!("split{}", ord), 1631072713 + ord))
            .collect(),
        operation_type: MergeOperationType::Merge,
        merge_parent_span: Some(5),
    }
}

fn delete_operation() -> MergeOperation {
    let mut split = split("with-deletes", 1624928208);
    split.num_docs = 2;
    split.uncompressed_docs_size_in_bytes = 68;
    split.num_merge_ops = 1;
    MergeOperation {
        merge_split_id: "merged".to_string(),
        splits: vec![split],
        operation_type: MergeOperationType::DeleteAndMerge,
        merge_parent_span: None,
    }
}

fn delete_task(opstamp: u64, query: &str) -> DeleteTask {
    DeleteTask {
        opstamp,
        delete_query: Some(DeleteQuery {
            index_id: "test-index".to_string(),
            start_timestamp: None,
            end_timestamp: None,
            query: query.to_string(),
            search_fields: Vec::new(),
        }),
    }
}

fn meta(segment: &str, header: u32) -> IndexMetaParts<String, u32> {
    IndexMetaParts {
        segments: vec![segment.to_string()],
        header,
    }
}

fn schema(names: &[&str]) -> Schema {
    let mut schema_builder = Schema::builder();
    for name in names {
        schema_builder.add_text_field(name, TEXT);
    }
    schema_builder.build()
}

fn ids(names: &[&str]) -> Vec<String> {
    names.iter().map(|name| name.to_string()).collect()
}

fn words(action: &Action<Names>) -> String {
    match action {
        Action::ListDeleteTasks {
            index_id,
            opstamp_start,
        } => format!("list deletes of {} after {}", index_id, opstamp_start),
        Action::OpenSplit { ord } => format!("open split {}", ord),
        Action::OpenUnion(meta) => format!("open union {}/{}", meta.segments.join(","), meta.header),
        Action::ApplyDelete(request) => format!("delete {}", request.query),
        Action::CommitDeletes => "commit".to_string(),
        Action::ListSegments => "list segments".to_string(),
        Action::MergeSegments(ids) => format!("merge {}", ids.join(",")),
        Action::OpenMergedIndex => "open merged".to_string(),
        Action::ListMergedSegments => "list merged".to_string(),
        Action::MarkSplitForDeletion { index_id, split_id } => {
            format!("mark {} of {}", split_id, index_id)
        }
        Action::OpenMergedSegment => "open segment".to_string(),
        Action::ReadTimestampBounds { field_id } => format!("read field {}", field_id),
        Action::ScaleDocsSize {
            num_docs_left,
            docs_size_in_bytes,
            num_docs,
        } => format!("scale {} to {}/{}", docs_size_in_bytes, num_docs_left, num_docs),
        Action::SendBatch(batch) => format!("send {}", batch.splits[0].split_attrs.split_id),
        Action::Finish => "finish".to_string(),
        Action::Fail(error) => format!("fail: {}", error.message()),
        Action::Abort(error) => format!("abort: {}", error),
    }
}

/// Runs an operation on the given replies. Gives what it asked for, and what it sent.
fn converse(
    operation: MergeOperation,
    num_split_directories: usize,
    replies: Vec<Reply<Names>>,
) -> (Vec<String>, Vec<IndexedSplitBatch<Names>>) {
    let executor = executor();
    let (mut run, action): (MergeRun<Names>, Action<Names>) =
        executor.handle(operation, num_split_directories, "scratch".to_string());
    let mut asked = vec![words(&action)];
    let mut sent = Vec::new();
    for reply in replies {
        assert!(run.can_resume(&reply));
        let (next_run, action) = executor.resume(run, reply);
        run = next_run;
        asked.push(words(&action));
        if let Action::SendBatch(batch) = action {
            sent.push(batch);
        }
    }
    (asked, sent)
}

fn union_opened() -> Reply<Names> {
    Reply::UnionOpened("output".to_string())
}

fn index_opened() -> Reply<Names> {
    Reply::MergedIndexOpened("merged index".to_string())
}

fn segment_opened(names: &[&str], timestamp_field_name: Option<&str>) -> Reply<Names> {
    Reply::MergedSegmentOpened {
        num_docs: 1,
        schema: schema(names),
        timestamp_field_name: timestamp_field_name.map(|name| name.to_string()),
    }
}

#[test]
fn merge_of_four_splits() {
    let (asked, sent) = converse(
        merge_operation(),
        4,
        vec![
            Reply::SplitOpened(meta("a", 0)),
            Reply::SplitOpened(meta("b", 1)),
            Reply::SplitOpened(meta("c", 2)),
            Reply::SplitOpened(meta("d", 3)),
            union_opened(),
            Reply::Segments(ids(&["d", "a", "b", "c"])),
            Reply::SegmentsMerged,
            index_opened(),
            Reply::BatchSent,
        ],
    );
    assert_eq!(
        asked,
        vec![
            "open split 0",
            "open split 1",
            "open split 2",
            "open split 3",
            "open union d,a,b,c/3",
            "list segments",
            "merge d,a,b,c",
            "open merged",
            "send merged",
            "finish",
        ]
    );
    assert_eq!(sent.len(), 1);
    assert_eq!(sent[0].batch_parent_span, Some(5));
    assert_eq!(sent[0].checkpoint_delta, None);
    assert_eq!(sent[0].publish_lock, PublishLock::Default);
    assert_eq!(sent[0].merge_operation, Some(merge_operation()));
    assert_eq!(sent[0].splits.len(), 1);
    let split = &sent[0].splits[0];
    assert_eq!(split.index, "merged index");
    assert_eq!(split.split_scratch_directory, "scratch");
    assert_eq!(split.controlled_directory_opt, Some("output".to_string()));
    assert_eq!(
        split.split_attrs.replaced_split_ids,
        vec!["split0", "split1", "split2", "split3"]
    );
    assert_eq!(split.split_attrs.num_docs, 4);
    assert_eq!(split.split_attrs.uncompressed_docs_size_in_bytes, 136);
    assert_eq!(split.split_attrs.num_merge_ops, 1);
    assert_eq!(split.split_attrs.partition_id, 17);
    assert_eq!(split.split_attrs.pipeline_id, pipeline_id());
    assert_eq!(
        split.split_attrs.time_range,
        Some(TimeRange {
            start: 1631072713,
            end: 1631072716
        })
    );
}

#[test]
fn merge_of_one_segment_is_skipped() {
    let (asked, sent) = converse(
        merge_operation(),
        1,
        vec![
            Reply::SplitOpened(meta("a", 0)),
            union_opened(),
            Reply::Segments(ids(&["a"])),
            index_opened(),
            Reply::BatchSent,
        ],
    );
    assert_eq!(asked[3], "open merged");
    assert_eq!(sent.len(), 1);
}

#[test]
fn merge_without_splits_fails() {
    let (asked, sent) = converse(merge_operation(), 0, Vec::new());
    assert_eq!(asked, vec!["fail: Only one IndexMeta"]);
    assert!(sent.is_empty());
}

fn replies_to_deletes(ids: Vec<String>, num_segments: usize) -> Vec<Reply<Names>> {
    let mut replies = vec![
        Reply::DeleteTasks(vec![
            delete_task(4, "body:delete"),
            delete_task(1, "body:old"),
        ]),
        Reply::SplitOpened(meta("a", 0)),
        union_opened(),
        Reply::DeleteApplied,
        Reply::DeleteApplied,
        Reply::DeletesCommitted,
    ];
    let is_merged = !ids.is_empty();
    replies.push(Reply::Segments(ids));
    if is_merged {
        replies.push(Reply::SegmentsMerged);
    }
    replies.push(index_opened());
    replies.push(Reply::MergedSegments(num_segments));
    replies
}

#[test]
fn deletes_on_one_split() {
    let mut replies = replies_to_deletes(ids(&["a"]), 1);
    replies.push(segment_opened(&["body", "ts"], Some("ts")));
    replies.push(Reply::TimestampBounds(TimeRange {
        start: 1624928208,
        end: 1624928208,
    }));
    replies.push(Reply::DocsSizeScaled(34));
    replies.push(Reply::BatchSent);
    let (asked, sent) = converse(delete_operation(), 1, replies);
    assert_eq!(
        asked,
        vec![
            "list deletes of test-index after 0",
            "open split 0",
            "open union a/0",
            "delete body:delete",
            "delete body:old",
            "commit",
            "list segments",
            "merge a",
            "open merged",
            "list merged",
            "open segment",
            "read field 1",
            "scale 68 to 1/2",
            "send merged",
            "finish",
        ]
    );
    assert_eq!(sent.len(), 1);
    assert_eq!(sent[0].batch_parent_span, None);
    assert_eq!(sent[0].checkpoint_delta, None);
    assert_eq!(sent[0].publish_lock, PublishLock::Default);
    assert_eq!(sent[0].merge_operation, Some(delete_operation()));
    assert_eq!(sent[0].splits.len(), 1);
    assert_eq!(sent[0].splits[0].index, "merged index");
    assert_eq!(sent[0].splits[0].split_scratch_directory, "scratch");
    assert_eq!(
        sent[0].splits[0].controlled_directory_opt,
        Some("output".to_string())
    );
    assert_eq!(
        sent[0].splits[0].split_attrs,
        SplitAttrs {
            split_id: "merged".to_string(),
            partition_id: 17,
            pipeline_id: IndexingPipelineId {
                index_id: "test-index".to_string(),
                source_id: "split-source".to_string(),
                node_id: "split-node".to_string(),
                pipeline_ord: 0,
            },
            replaced_split_ids: vec!["with-deletes".to_string()],
            time_range: Some(TimeRange {
                start: 1624928208,
                end: 1624928208,
            }),
            num_docs: 1,
            uncompressed_docs_size_in_bytes: 34,
            delete_opstamp: 4,
            num_merge_ops: 1,
        }
    );
}

#[test]
fn deletes_without_a_timestamp_field_give_no_time_range() {
    let mut replies = replies_to_deletes(ids(&["a"]), 1);
    replies.push(segment_opened(&["body", "ts"], None));
    replies.push(Reply::DocsSizeScaled(34));
    replies.push(Reply::BatchSent);
    let (asked, sent) = converse(delete_operation(), 1, replies);
    assert_eq!(asked[10], "open segment");
    assert_eq!(asked[11], "scale 68 to 1/2");
    assert_eq!(sent[0].splits[0].split_attrs.time_range, None);
}

#[test]
fn deletes_need_the_timestamp_field() {
    let mut replies = replies_to_deletes(ids(&["a"]), 1);
    replies.push(segment_opened(&["body"], Some("ts")));
    let (asked, sent) = converse(delete_operation(), 1, replies);
    assert_eq!(asked[11], "fail: Timestamp field `ts` does not exist");
    assert!(sent.is_empty());
}

#[test]
fn deletes_of_all_documents_mark_the_split() {
    let mut replies = replies_to_deletes(Vec::new(), 0);
    replies.push(Reply::SplitMarked);
    let (asked, sent) = converse(delete_operation(), 1, replies);
    assert_eq!(
        asked[6..],
        [
            "list segments",
            "open merged",
            "list merged",
            "mark with-deletes of test-index",
            "finish",
        ]
    );
    assert!(sent.is_empty());
}

#[test]
fn no_delete_task_ends_the_operation() {
    let (asked, sent) = converse(
        delete_operation(),
        1,
        vec![Reply::DeleteTasks(Vec::new())],
    );
    assert_eq!(
        asked,
        vec!["list deletes of test-index after 0", "finish"]
    );
    assert!(sent.is_empty());
}

#[test]
fn every_reply_brings_the_end_nearer() {
    let executor = executor();
    let (mut run, _): (MergeRun<Names>, Action<Names>) =
        executor.handle(delete_operation(), 1, "scratch".to_string());
    let replies = replies_to_deletes(ids(&["a"]), 1);
    // The first reply lists two deletes: then at most fourteen replies are left.
    assert!(replies.len() - 1 <= 14);
    for reply in replies {
        assert!(!matches!(run, MergeRun::Finished));
        run = executor.resume(run, reply).0;
    }
    run = executor.resume(run, segment_opened(&["body"], None)).0;
    run = executor.resume(run, Reply::DocsSizeScaled(34)).0;
    assert!(matches!(run, MergeRun::SendingBatch));
    run = executor.resume(run, Reply::BatchSent).0;
    assert!(matches!(run, MergeRun::Finished));
}

#[test]
fn nothing_follows_failed_work() {
    let disk_is_full = || Reply::Failed("disk is full".to_string());
    // The commit fails.
    let mut replies = replies_to_deletes(Vec::new(), 0);
    replies[5] = disk_is_full();
    let (asked, sent) = converse(delete_operation(), 1, replies);
    assert_eq!(asked[5], "commit");
    assert_eq!(asked[6], "abort: disk is full");
    for action in &asked[7..] {
        assert_eq!(action, "fail: The reply does not answer what was asked.");
    }
    assert!(sent.is_empty());
    // The batch cannot be sent.
    let (asked, sent) = converse(
        merge_operation(),
        1,
        vec![
            Reply::SplitOpened(meta("a", 0)),
            union_opened(),
            Reply::Segments(ids(&["a"])),
            index_opened(),
            disk_is_full(),
            disk_is_full(),
        ],
    );
    assert_eq!(
        asked[4..],
        [
            "send merged",
            "abort: disk is full",
            "fail: The reply does not answer what was asked.",
        ]
    );
    assert_eq!(sent.len(), 1);
}

#[test]
fn failed_work_ends_every_operation() {
    for num_replies in 0..10 {
        let mut replies = replies_to_deletes(ids(&["a"]), 1);
        replies.truncate(num_replies);
        replies.push(Reply::Failed("stopped".to_string()));
        let (asked, sent) = converse(delete_operation(), 1, replies);
        assert_eq!(asked.last().unwrap(), "abort: stopped");
        assert!(sent.is_empty());
    }
}

#[test]
fn a_missing_query_is_noticed_when_its_turn_comes() {
    let executor = executor();
    let (mut run, _): (MergeRun<Names>, Action<Names>) =
        executor.handle(delete_operation(), 1, "scratch".to_string());
    let mut without_query = delete_task(4, "body:delete");
    without_query.delete_query = None;
    let replies = vec![
        Reply::DeleteTasks(vec![delete_task(1, "body:old"), without_query]),
        Reply::SplitOpened(meta("a", 0)),
        union_opened(),
    ];
    for reply in replies {
        assert!(run.can_resume(&reply));
        run = executor.resume(run, reply).0;
    }
    assert!(!run.can_resume(&Reply::DeleteApplied));
    let failed = Reply::Failed("stopped".to_string());
    assert!(run.can_resume(&failed));
    assert_eq!(words(&executor.resume(run, failed).1), "abort: stopped");
}

#[test]
fn totals_that_do_not_fit_are_noticed_when_the_merge_is_done() {
    let executor = executor();
    let mut operation = merge_operation();
    operation.splits[1].uncompressed_docs_size_in_bytes = u64::MAX;
    let (mut run, _): (MergeRun<Names>, Action<Names>) =
        executor.handle(operation, 1, "scratch".to_string());
    let replies = vec![
        Reply::SplitOpened(meta("a", 0)),
        union_opened(),
        Reply::Segments(ids(&["a"])),
    ];
    for reply in replies {
        assert!(run.can_resume(&reply));
        run = executor.resume(run, reply).0;
    }
    assert!(!run.can_resume(&index_opened()));
    assert!(run.can_resume(&Reply::Failed("stopped".to_string())));
}

#[test]
fn a_reply_to_something_else_ends_the_operation() {
    let (asked, sent) = converse(
        merge_operation(),
        4,
        vec![Reply::BatchSent, Reply::SplitOpened(meta("a", 0))],
    );
    assert_eq!(
        asked,
        vec![
            "open split 0",
            "fail: The reply does not answer what was asked.",
            "fail: The reply does not answer what was asked.",
        ]
    );
    assert!(sent.is_empty());
}

#[test]
fn no_batch_of_deletes_without_the_list_of_deletes() {
    let mut replies = replies_to_deletes(ids(&["a"]), 1);
    replies.remove(0);
    replies.push(segment_opened(&["body"], None));
    replies.push(Reply::DocsSizeScaled(34));
    let (asked, sent) = converse(delete_operation(), 1, replies);
    assert_eq!(asked[0], "list deletes of test-index after 0");
    for action in &asked[1..] {
        assert_eq!(action, "fail: The reply does not answer what was asked.");
    }
    assert!(sent.is_empty());
}

#[test]
fn directories_with_deletes_need_a_doc_mapper() {
    let mut without_query = delete_task(2, "body:delete");
    without_query.delete_query = None;
    let all_delete_tasks = [
        vec![delete_task(1, "body:delete")],
        vec![without_query.clone()],
        vec![delete_task(1, "body:delete"), without_query],
    ];
    for delete_tasks in all_delete_tasks {
        let (merge, action) =
            merge_split_directories::<Names>(meta("a", 0), delete_tasks, false);
        assert_eq!(words(&action), "open union a/0");
        assert!(merge.can_resume(&union_opened()));
        match merge.resume(union_opened()) {
            DirectoryProgress::Failed(error) => {
                assert_eq!(error, MergeError::MissingDocMapper);
                assert_eq!(
                    error.message(),
                    "Doc mapper must be present if there are delete tasks."
                );
            }
            _ => panic!("there is no doc mapper"),
        }
    }
}

#[test]
fn directories_with_a_missing_query_cannot_go_on() {
    let mut without_query = delete_task(2, "body:delete");
    without_query.delete_query = None;
    let (merge, _) = merge_split_directories::<Names>(meta("a", 0), vec![without_query], true);
    assert!(!merge.can_resume(&union_opened()));
    match merge.resume(Reply::Failed("stopped".to_string())) {
        DirectoryProgress::Aborted(error) => assert_eq!(error, "stopped"),
        _ => panic!("the union could not be opened"),
    }
}

#[test]
fn directories_end_with_the_output_directory() {
    let (merge, _) = merge_split_directories::<Names>(meta("a", 0), Vec::new(), false);
    let merge = match merge.resume(union_opened()) {
        DirectoryProgress::Ongoing(merge, action) => {
            assert_eq!(words(&action), "list segments");
            merge
        }
        _ => panic!("the segments are not listed yet"),
    };
    match merge.resume(Reply::Segments(ids(&["a"]))) {
        DirectoryProgress::Merged(output) => assert_eq!(output, "output"),
        _ => panic!("one segment is not merged"),
    }
}

#[test]
fn attributes_after_deletes_keep_the_number_of_merges() {
    let operation = delete_operation();
    let attrs = delete_split_attrs(
        "merged".to_string(),
        &operation.splits[0],
        8,
        1,
        34,
        None,
    );
    assert_eq!(attrs.num_merge_ops, operation.splits[0].num_merge_ops);
    assert_eq!(attrs.delete_opstamp, 8);
    assert_eq!(attrs.replaced_split_ids, vec!["with-deletes".to_string()]);
}

#[test]
fn name_and_queue_of_the_executor() {
    assert_eq!(executor().name(), "MergeExecutor");
    assert_eq!(executor().queue_capacity(), QueueCapacity::Bounded(1));
}
