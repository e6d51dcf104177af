//! A minimal gateway over a flat-file store: clients create, read and delete
//! named entries, and may ask the store to pick a fresh, previously unused
//! name for an upload. The store itself is modelled as a map from names to
//! byte contents; request handlers compose the store operations, the name
//! generator and the body aggregator into one response outcome per request.

mod body;
mod db_access;
mod handlers;
mod laws;
mod names;
mod outcome;
mod store;

pub use body::BodyAggregator;
pub use db_access::{
    contains_at, matching_persons, seq_contains, str_contains, DbConnection, DbPrivilege, Person,
    User,
};
pub use handlers::{
    delete_file, download_file, invalid_resource, upload_new_file, upload_specified_file,
};
pub use laws::{
    lemma_delete_after_upload, lemma_generated_name_shape, lemma_no_interleaving,
    lemma_upload_overwrites, lemma_upload_then_download,
};
pub use names::{
    create_new_file, digit_char, generated_name, make_file_name, suffix_digits, MAX_ATTEMPTS,
};
pub use outcome::ResponseOutcome;
pub use store::FileStore;
