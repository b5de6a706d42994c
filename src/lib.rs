//! A persistent key-value store: one file holds a snapshot of a mapping from
//! string keys to string values, which is read wholesale, changed in memory and
//! written back wholesale.
//!
//! This crate holds the logic of that cycle: the store and its operations, the
//! snapshot encoding (bincode), and what a put or a get does to a snapshot's
//! bytes. Opening, reading and writing the file is left to the caller.

mod codec;
mod keystore;
mod store;

pub use codec::{bincode_bytes, bincode_entries, decoded_view, Error};
pub use keystore::{
    after_put, get_from_snapshot, get_path, stored_value, law_lost_update, law_missing_key,
    law_overwrite, law_put_then_get, put_in_snapshot, DB_PATH,
};
pub use store::{entries_map, keys_unique, lookup, opt_view, pairs_view, Store};
