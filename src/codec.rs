use crate::store::{entries_map, pairs_view};
use vstd::prelude::*;

verus! {

/// bincode's error (`bincode::Error` is a `Box` of it), carried through unread.
#[verifier::external_type_specification]
#[verifier::external_body]
pub struct ExBincodeErrorKind(bincode::ErrorKind);

/// The bytes that bincode's default configuration writes for a sequence of
/// key-value pairs: a length, then each key and value.
pub uninterp spec fn bincode_bytes(e: Seq<(Seq<char>, Seq<char>)>) -> Seq<u8>;

/// The pairs that bincode's default configuration reads from the bytes, or
/// `None` where it refuses them.
pub uninterp spec fn bincode_entries(b: Seq<u8>) -> Option<Seq<(Seq<char>, Seq<char>)>>;

/// The mapping that a snapshot's bytes hold: what bincode reads from them, or
/// the empty mapping where it refuses them (an empty, truncated or corrupt file).
pub open spec fn decoded_view(b: Seq<u8>) -> Map<Seq<char>, Seq<char>> {
    match bincode_entries(b) {
        Some(e) => entries_map(e),
        None => Map::empty(),
    }
}

/// Why an operation on the store failed.
#[derive(Debug)]
pub enum Error {
    /// The store's file could not be opened, read, written or flushed; holds the
    /// system's message.
    StdIO(String),
    /// A snapshot could not be encoded.
    Bincode(bincode::Error),
}

/// Relies on `bincode::serialize`: with the default options (no size limit) it
/// cannot fail on strings and a sequence of known length written into a `Vec`;
/// the bytes are a function of the pairs, and `bincode::deserialize` reads them
/// back as the same pairs.
#[verifier::external_body]
pub(crate) fn serialize_entries(entries: &Vec<(String, String)>) -> (r: Result<
    Vec<u8>,
    bincode::Error,
>)
    ensures
        r is Ok,
        match r {
            Ok(b) => b@ == bincode_bytes(pairs_view(entries@)) && bincode_entries(b@) == Some(
                pairs_view(entries@),
            ),
            Err(_) => true,
        },
{
    bincode::serialize(entries)
}

/// Relies on `bincode::deserialize`: what it reads is a function of the bytes,
/// and it fails on no bytes at all, where the length that leads the encoding
/// is missing.
#[verifier::external_body]
pub(crate) fn deserialize_entries(bytes: &[u8]) -> (r: Result<Vec<(String, String)>, bincode::Error>)
    ensures
        match r {
            Ok(v) => bincode_entries(bytes@) == Some(pairs_view(v@)),
            Err(_) => bincode_entries(bytes@) is None,
        },
        bytes@.len() == 0 ==> r is Err,
{
    bincode::deserialize(bytes)
}

} // verus!
