//! The timestamp field in the schema of an index.
use vstd::prelude::*;

use crate::error::{MergeError, MergeErrorView};

verus! {

/// Tantivy's schema of an index.
#[verifier::external_type_specification]
#[verifier::external_body]
pub struct ExSchema(tantivy::schema::Schema);

/// The fields of a schema: the id of each by its name.
pub uninterp spec fn field_ids(schema: tantivy::schema::Schema) -> Map<Seq<char>, u32>;

/// `Schema::get_field` with `Field::field_id`: the id of the field of this name, if the
/// schema has one.
#[verifier::external_body]
fn get_field(schema: &tantivy::schema::Schema, field_name: &str) -> (field_id: Option<u32>)
    ensures
        match field_id {
            Some(id) => {
                &&& field_ids(*schema).contains_key(field_name@)
                &&& field_ids(*schema)[field_name@] == id
            },
            None => !field_ids(*schema).contains_key(field_name@),
        },
{
    schema.get_field(field_name).map(|field| field.field_id())
}

/// The id of the timestamp field among the fields of a schema: none where there is no
/// such field to look for, an error where the one to look for is not there.
pub open spec fn timestamp_field_among(
    fields: Map<Seq<char>, u32>,
    timestamp_field_name: Option<Seq<char>>,
) -> Result<Option<u32>, MergeErrorView> {
    match timestamp_field_name {
        None => Ok(None),
        Some(name) => if fields.contains_key(name) {
            Ok(Some(fields[name]))
        } else {
            Err(MergeErrorView::MissingTimestampField(name))
        },
    }
}

/// The timestamp field is looked for exactly where there is one to look for. It is found,
/// under its own id, exactly where the schema has a field of that name, and otherwise the
/// error says which name it lacks.
pub proof fn law_timestamp_field_is_found_by_its_name(fields: Map<Seq<char>, u32>, name: Seq<char>)
    ensures
        timestamp_field_among(fields, None) == Ok::<Option<u32>, MergeErrorView>(None),
        fields.contains_key(name) ==> timestamp_field_among(fields, Some(name)) == Ok::<
            _,
            MergeErrorView,
        >(Some(fields[name])),
        !fields.contains_key(name) ==> timestamp_field_among(fields, Some(name)) == Err::<
            Option<u32>,
            _,
        >(MergeErrorView::MissingTimestampField(name)),
{
}

/// Looks the timestamp field up in a schema.
pub fn timestamp_field(
    schema: &tantivy::schema::Schema,
    timestamp_field_name: &Option<String>,
) -> (field_id: Result<Option<u32>, MergeError>)
    ensures
        match field_id {
            Ok(id) => timestamp_field_among(
                field_ids(*schema),
                crate::protocol::option_view(*timestamp_field_name),
            ) == Ok::<_, MergeErrorView>(id),
            Err(error) => timestamp_field_among(
                field_ids(*schema),
                crate::protocol::option_view(*timestamp_field_name),
            ) == Err::<Option<u32>, _>(error@),
        },
        match *timestamp_field_name {
            None => field_id == Ok::<Option<u32>, MergeError>(None),
            Some(name) => match field_id {
                Ok(id) => field_ids(*schema).contains_key(name@) && id == Some(
                    field_ids(*schema)[name@],
                ),
                Err(error) => {
                    &&& !field_ids(*schema).contains_key(name@)
                    &&& error matches MergeError::MissingTimestampField(missing)
                    &&& missing@ == name@
                },
            },
        },
{
    match timestamp_field_name {
        Some(name) => match get_field(schema, name.as_str()) {
            Some(id) => Ok(Some(id)),
            None => Err(MergeError::MissingTimestampField(name.clone())),
        },
        None => Ok(None),
    }
}

} // verus!
