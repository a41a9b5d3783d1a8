//! The decisions of a merge executor: it merges splits of an index into one, or applies
//! pending deletes to a split.
//!
//! A merge operation is a conversation. [`MergeExecutor::handle`] starts it and
//! [`MergeExecutor::resume`] goes on with it: each gives the [`protocol::Action`] to carry
//! out next, and `resume` takes the [`protocol::Reply`] to the one before. What touches
//! an index, a metastore or a mailbox is left to whoever carries the actions out.

pub mod batch;
pub mod delete_task;
pub mod directory_laws;
pub mod directory_merge;
pub mod error;
pub mod executor;
pub mod index_meta;
pub mod merge_attrs;
pub mod merge_attrs_laws;
pub mod message_laws;
pub mod meta_json;
pub mod operation;
pub mod partition;
pub mod protocol;
pub mod run;
pub mod run_laws;
pub mod schema;
pub mod split;
pub mod view_laws;

pub use executor::MergeExecutor;
pub use merge_attrs::{combine_partition_ids, merge_split_attrs};
