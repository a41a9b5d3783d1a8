//! The directory that holds nothing but the meta file of an index.
use std::path::Path;

use tantivy::directory::RamDirectory;
use tantivy::Directory;
use vstd::prelude::*;

verus! {

/// Tantivy's meta information of an index, carried through unread.
#[verifier::external_type_specification]
#[verifier::external_body]
pub struct ExTantivyIndexMeta(tantivy::IndexMeta);

/// Tantivy's directory in memory.
#[verifier::external_type_specification]
#[verifier::external_body]
pub struct ExRamDirectory(tantivy::directory::RamDirectory);

/// Why JSON could not be written.
#[verifier::external_type_specification]
#[verifier::external_body]
pub struct ExJsonError(serde_json::Error);

/// Why a file could not be written.
#[verifier::external_type_specification]
#[verifier::external_body]
pub struct ExIoError(std::io::Error);

/// The text that `serde_json::to_string_pretty` gives for an index meta, or nothing
/// where it fails.
pub uninterp spec fn pretty_json(index_meta: tantivy::IndexMeta) -> Option<Seq<char>>;

/// The files of a directory in memory, by their path, as they are when it is handed
/// out. Clones of such a directory share its files; nothing here clones one or writes
/// to one again.
pub uninterp spec fn files(directory: RamDirectory) -> Map<Seq<char>, Seq<u8>>;

/// Why the meta file could not be laid out.
pub enum MetaJsonError {
    Json(serde_json::Error),
    Write(std::io::Error),
}

/// `serde_json::to_string_pretty` on an index meta. Which text comes, and whether one
/// comes, depends on the meta alone.
#[verifier::external_body]
fn to_string_pretty(index_meta: &tantivy::IndexMeta) -> (json: Result<String, serde_json::Error>)
    ensures
        match json {
            Ok(text) => pretty_json(*index_meta) == Some(text@),
            Err(_) => pretty_json(*index_meta) is None,
        },
{
    serde_json::to_string_pretty(index_meta)
}

/// `RamDirectory::atomic_write` into a `RamDirectory::default()`, which is empty and
/// shared with nobody. The write always succeeds, and the directory then holds that one
/// file with these bytes.
#[verifier::external_body]
fn ram_directory_with_file(
    path: &str,
    data: &[u8],
) -> (written: Result<RamDirectory, std::io::Error>)
    ensures
        match written {
            Ok(directory) => files(directory) == map![path@ => data@],
            Err(_) => false,
        },
{
    let directory = RamDirectory::default();
    directory.atomic_write(Path::new(path), data)?;
    Ok(directory)
}

/// A directory with a single file `meta.json` that holds the given text.
pub fn meta_json_directory(index_meta_json: &str) -> (written: Result<RamDirectory, MetaJsonError>)
    ensures
        written matches Ok(directory) && files(directory) == map![
            "meta.json"@ => vstd::utf8::encode_utf8(index_meta_json@)
        ],
{
    match ram_directory_with_file("meta.json", index_meta_json.as_bytes()) {
        Ok(directory) => Ok(directory),
        Err(error) => Err(MetaJsonError::Write(error)),
    }
}

/// A directory with a single file `meta.json` that describes `index_meta`.
pub fn create_shadowing_meta_json_directory(
    index_meta: tantivy::IndexMeta,
) -> (written: Result<RamDirectory, MetaJsonError>)
    ensures
        match pretty_json(index_meta) {
            Some(json) => written matches Ok(directory) && files(directory) == map![
                "meta.json"@ => vstd::utf8::encode_utf8(json)
            ],
            None => written matches Err(MetaJsonError::Json(_)),
        },
{
    match to_string_pretty(&index_meta) {
        Ok(union_index_meta_json) => meta_json_directory(union_index_meta_json.as_str()),
        Err(error) => Err(MetaJsonError::Json(error)),
    }
}

} // verus!
