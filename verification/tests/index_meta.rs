use std::path::Path;

use merge_executor::error::MergeError;
use merge_executor::index_meta::{combine_index_meta, directory_stack, IndexMetaParts};
use merge_executor::meta_json::{create_shadowing_meta_json_directory, meta_json_directory};
use tantivy::directory::RamDirectory;
use tantivy::schema::{Schema, TEXT};
use tantivy::{Directory, Document, Index, IndexMeta, SegmentId};

fn meta(segments: &[&'static str], header: u32) -> IndexMetaParts<&'static str, u32> {
    IndexMetaParts {
        segments: segments.to_vec(),
        header,
    }
}

#[test]
fn union_builds_on_the_last_meta() {
    let metas = vec![meta(&["a", "b"], 1), meta(&["c"], 2), meta(&["d", "e"], 3)];
    match combine_index_meta(metas) {
        Ok(union) => {
            assert_eq!(union.segments, vec!["d", "e", "a", "b", "c"]);
            assert_eq!(union.header, 3);
        }
        Err(error) => panic!("{}", error.message()),
    }
}

#[test]
fn union_of_one_meta_is_that_meta() {
    match combine_index_meta(vec![meta(&["a", "b"], 1)]) {
        Ok(union) => {
            assert_eq!(union.segments, vec!["a", "b"]);
            assert_eq!(union.header, 1);
        }
        Err(error) => panic!("{}", error.message()),
    }
}

#[test]
fn union_of_no_meta_fails() {
    let metas: Vec<IndexMetaParts<&'static str, u32>> = Vec::new();
    match combine_index_meta(metas) {
        Ok(_) => panic!("there is nothing to combine"),
        Err(error) => {
            assert_eq!(error, MergeError::NoIndexMeta);
            assert_eq!(error.message(), "Only one IndexMeta");
        }
    }
}

#[test]
fn output_and_overlay_come_before_the_splits() {
    assert_eq!(
        directory_stack("output", "overlay", vec!["first", "second"]),
        vec!["output", "overlay", "first", "second"]
    );
    assert_eq!(
        directory_stack("output", "overlay", Vec::new()),
        vec!["output", "overlay"]
    );
}

fn read(directory: &RamDirectory) -> Vec<u8> {
    match directory.atomic_read(Path::new("meta.json")) {
        Ok(bytes) => bytes,
        Err(error) => panic!("{error}"),
    }
}

#[test]
fn meta_json_directory_holds_the_text() {
    match meta_json_directory("{ \"opstamp\": 7, \"name\": \"\u{e9}t\u{e9}\" }") {
        Ok(directory) => {
            let text = "{ \"opstamp\": 7, \"name\": \"\u{e9}t\u{e9}\" }";
            assert_eq!(read(&directory), text.as_bytes());
            assert_eq!(directory.total_mem_usage(), text.len());
        }
        Err(_) => panic!("nothing can fail"),
    }
}

fn index_with(text: &str) -> Index {
    let mut schema_builder = Schema::builder();
    let body = schema_builder.add_text_field("body", TEXT);
    let index = Index::create_in_ram(schema_builder.build());
    let mut writer = index.writer_with_num_threads(1, 3_000_000).unwrap();
    let mut document = Document::default();
    document.add_text(body, text);
    writer.add_document(document).unwrap();
    writer.commit().unwrap();
    index
}

#[test]
fn shadowing_directory_opens_as_the_union() {
    let mut metas = Vec::new();
    let mut ids = Vec::new();
    for text in ["first", "second", "third"] {
        let index_meta = index_with(text).load_metas().unwrap();
        ids.push(index_meta.segments[0].id());
        metas.push(IndexMetaParts {
            segments: index_meta.segments,
            header: (index_meta.index_settings, index_meta.schema, index_meta.opstamp),
        });
    }
    match combine_index_meta(metas) {
        Ok(union) => {
            let (index_settings, schema, opstamp) = union.header;
            let index_meta = IndexMeta {
                index_settings,
                segments: union.segments,
                schema,
                opstamp,
                payload: None,
            };
            match create_shadowing_meta_json_directory(index_meta) {
                Ok(directory) => {
                    let index = Index::open(directory).unwrap();
                    let found: Vec<SegmentId> = index
                        .load_metas()
                        .unwrap()
                        .segments
                        .iter()
                        .map(|segment| segment.id())
                        .collect();
                    assert_eq!(found, vec![ids[2], ids[0], ids[1]]);
                }
                Err(_) => panic!("the meta of an index can be written"),
            }
        }
        Err(error) => panic!("{}", error.message()),
    }
}

#[test]
fn shadowing_directory_describes_the_meta() {
    let index_meta = index_with("info").load_metas().unwrap();
    let segment_id = index_meta.segments[0].id().uuid_string();
    let expected = serde_json::to_string_pretty(&index_meta).unwrap();
    match create_shadowing_meta_json_directory(index_meta) {
        Ok(directory) => {
            let bytes = read(&directory);
            assert_eq!(bytes, expected.as_bytes());
            assert_eq!(directory.total_mem_usage(), expected.len());
            let json: serde_json::Value = serde_json::from_slice(&bytes).unwrap();
            assert_eq!(json["segments"][0]["max_doc"], 1);
            assert_eq!(
                json["segments"][0]["segment_id"]
                    .as_str()
                    .unwrap()
                    .replace('-', ""),
                segment_id
            );
            assert_eq!(json["schema"][0]["name"], "body");
        }
        Err(_) => panic!("the meta of an index can be written"),
    }
}
