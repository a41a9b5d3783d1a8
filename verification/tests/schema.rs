use merge_executor::error::MergeError;
use merge_executor::schema::timestamp_field;
use tantivy::schema::{Schema, FAST, TEXT};

#[test]
fn timestamp_field_is_found_by_its_name() {
    let mut schema_builder = Schema::builder();
    schema_builder.add_text_field("body", TEXT);
    schema_builder.add_i64_field("ts", FAST);
    let schema = schema_builder.build();
    assert_eq!(timestamp_field(&schema, &Some("ts".to_string())), Ok(Some(1)));
    assert_eq!(timestamp_field(&schema, &Some("body".to_string())), Ok(Some(0)));
    assert_eq!(timestamp_field(&schema, &None), Ok(None));
    assert_eq!(
        timestamp_field(&schema, &Some("other".to_string())),
        Err(MergeError::MissingTimestampField("other".to_string()))
    );
}
