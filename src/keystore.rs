use crate::codec::{bincode_entries, decoded_view, Error};
use crate::store::{lookup, opt_view, Store};
use vstd::prelude::*;

verus! {

/// Where the store's file lives, relative to the process's working directory.
pub const DB_PATH: &'static str = "./rpkv.db";

/// The fixed location of the store's file.
pub fn get_path() -> (r: &'static str)
    ensures
        r@ == DB_PATH@,
{
    DB_PATH
}

/// `after` is a snapshot that a put of `value` under `key` wrote over the
/// snapshot `before`.
pub open spec fn after_put(before: Seq<u8>, key: Seq<char>, value: Seq<char>, after: Seq<u8>) -> bool {
    decoded_view(after) == decoded_view(before).insert(key, value)
}

/// What a get of `key` returns on the snapshot `snapshot`.
pub open spec fn stored_value(snapshot: Seq<u8>, key: Seq<char>) -> Option<Seq<char>> {
    lookup(decoded_view(snapshot), key)
}

/// The bytes to write back after storing `value` under `key` in the snapshot
/// `snapshot` (the file's current content): the whole store is decoded, the
/// entry is inserted or replaced, and the whole store is encoded again. This
/// always succeeds, and bincode reads the bytes written back without error.
pub fn put_in_snapshot(snapshot: &[u8], key: String, value: String) -> (r: Result<Vec<u8>, Error>)
    ensures
        r is Ok,
        match r {
            Ok(b) => {
                &&& bincode_entries(b@) is Some
                &&& after_put(snapshot@, key@, value@, b@)
                &&& snapshot@.len() == 0 ==> decoded_view(b@) == Map::<
                    Seq<char>,
                    Seq<char>,
                >::empty().insert(key@, value@)
            },
            Err(_) => true,
        },
{
    let mut store = Store::decode(snapshot);
    store.put(key, value);
    store.encode()
}

/// The value stored under `key` in the snapshot `snapshot`, or `None` where the
/// key is absent.
pub fn get_from_snapshot(snapshot: &[u8], key: &String) -> (r: Option<String>)
    ensures
        opt_view(r) == stored_value(snapshot@, key@),
        snapshot@.len() == 0 ==> r is None,
{
    let store = Store::decode(snapshot);
    store.get(key)
}

/// After a put of `value` under `key`, a get of `key` returns `value`.
pub proof fn law_put_then_get(before: Seq<u8>, key: Seq<char>, value: Seq<char>, after: Seq<u8>)
    requires
        after_put(before, key, value, after),
    ensures
        stored_value(after, key) == Some(value),
{
}

/// After a put of `v1` and then a put of `v2` under the same key, a get of that
/// key returns `v2`.
pub proof fn law_overwrite(
    s0: Seq<u8>,
    key: Seq<char>,
    v1: Seq<char>,
    s1: Seq<u8>,
    v2: Seq<char>,
    s2: Seq<u8>,
)
    requires
        after_put(s0, key, v1, s1),
        after_put(s1, key, v2, s2),
    ensures
        stored_value(s2, key) == Some(v2),
{
    assert(decoded_view(s2) == decoded_view(s0).insert(key, v1).insert(key, v2));
}

/// Starting from a snapshot that holds nothing (a new, empty or corrupt file),
/// after any run of puts none of which writes `key`, a get of `key` returns
/// absence.
pub proof fn law_missing_key(
    snapshots: Seq<Seq<u8>>,
    writes: Seq<(Seq<char>, Seq<char>)>,
    key: Seq<char>,
)
    requires
        snapshots.len() == writes.len() + 1,
        decoded_view(snapshots[0]) == Map::<Seq<char>, Seq<char>>::empty(),
        forall|i: int|
            0 <= i < writes.len() ==> after_put(
                #[trigger] snapshots[i],
                writes[i].0,
                writes[i].1,
                snapshots[i + 1],
            ),
        forall|i: int| 0 <= i < writes.len() ==> (#[trigger] writes[i]).0 != key,
    ensures
        stored_value(snapshots.last(), key) is None,
    decreases writes.len(),
{
    if writes.len() > 0 {
        let n = writes.len() - 1;
        law_missing_key(snapshots.drop_last(), writes.drop_last(), key);
        assert(snapshots.drop_last().last() == snapshots[n]);
        assert(after_put(snapshots[n], writes[n].0, writes[n].1, snapshots[n + 1]));
        assert(writes[n].0 != key);
    }
}

/// Puts are not serialised against each other: where two puts of different keys
/// both start from the snapshot `s0`, the snapshot that the second one writes
/// does not hold the first one's change, which is lost once it replaces the file.
pub proof fn law_lost_update(
    s0: Seq<u8>,
    k1: Seq<char>,
    v1: Seq<char>,
    s1: Seq<u8>,
    k2: Seq<char>,
    v2: Seq<char>,
    s2: Seq<u8>,
)
    requires
        after_put(s0, k1, v1, s1),
        after_put(s0, k2, v2, s2),
        k1 != k2,
    ensures
        stored_value(s1, k1) == Some(v1),
        stored_value(s2, k1) == stored_value(s0, k1),
        stored_value(s2, k2) == Some(v2),
{
}

} // verus!
