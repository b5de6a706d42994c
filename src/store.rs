use crate::codec::{
    bincode_bytes, bincode_entries, decoded_view, deserialize_entries, serialize_entries, Error,
};
use vstd::prelude::*;

verus! {

/// The entries of a snapshot as plain text pairs.
pub open spec fn pairs_view(s: Seq<(String, String)>) -> Seq<(Seq<char>, Seq<char>)> {
    s.map_values(|p: (String, String)| (p.0@, p.1@))
}

/// The mapping that a sequence of entries describes: entries are applied in
/// order, so a later entry for a key replaces an earlier one.
pub open spec fn entries_map(e: Seq<(Seq<char>, Seq<char>)>) -> Map<Seq<char>, Seq<char>>
    decreases e.len(),
{
    if e.len() == 0 {
        Map::empty()
    } else {
        entries_map(e.drop_last()).insert(e.last().0, e.last().1)
    }
}

/// No key occurs twice among the entries.
pub open spec fn keys_unique(e: Seq<(Seq<char>, Seq<char>)>) -> bool {
    forall|i: int, j: int| 0 <= i < j < e.len() ==> e[i].0 != e[j].0
}

/// What a get of `k` returns on the mapping `m`: its value, or absence.
pub open spec fn lookup(m: Map<Seq<char>, Seq<char>>, k: Seq<char>) -> Option<Seq<char>> {
    if m.contains_key(k) {
        Some(m[k])
    } else {
        None
    }
}

/// The text held by an optional string.
pub open spec fn opt_view(r: Option<String>) -> Option<Seq<char>> {
    match r {
        Some(s) => Some(s@),
        None => None,
    }
}

proof fn lemma_entries_map_index(e: Seq<(Seq<char>, Seq<char>)>, i: int)
    requires
        keys_unique(e),
        0 <= i < e.len(),
    ensures
        entries_map(e).contains_key(e[i].0),
        entries_map(e)[e[i].0] == e[i].1,
    decreases e.len(),
{
    if i < e.len() - 1 {
        lemma_entries_map_index(e.drop_last(), i);
    }
}

proof fn lemma_entries_map_absent(e: Seq<(Seq<char>, Seq<char>)>, k: Seq<char>)
    requires
        forall|i: int| 0 <= i < e.len() ==> e[i].0 != k,
    ensures
        !entries_map(e).contains_key(k),
    decreases e.len(),
{
    if e.len() > 0 {
        lemma_entries_map_absent(e.drop_last(), k);
    }
}

proof fn lemma_entries_map_update(e: Seq<(Seq<char>, Seq<char>)>, i: int, v: Seq<char>)
    requires
        keys_unique(e),
        0 <= i < e.len(),
    ensures
        entries_map(e.update(i, (e[i].0, v))) == entries_map(e).insert(e[i].0, v),
    decreases e.len(),
{
    let k = e[i].0;
    let u = e.update(i, (k, v));
    if i == e.len() - 1 {
        assert(u.drop_last() =~= e.drop_last());
        assert(entries_map(u) =~= entries_map(e).insert(k, v));
    } else {
        let d = e.drop_last();
        assert(u.drop_last() =~= d.update(i, (k, v)));
        lemma_entries_map_update(d, i, v);
        assert(entries_map(u) =~= entries_map(e).insert(k, v));
    }
}

/// A snapshot of the mapping from keys to values, held in memory.
pub struct Store {
    entries: Vec<(String, String)>,
}

impl View for Store {
    type V = Map<Seq<char>, Seq<char>>;

    closed spec fn view(&self) -> Map<Seq<char>, Seq<char>> {
        entries_map(self.entry_seq())
    }
}

impl Store {
    /// The entries in the order in which they are kept and encoded.
    pub closed spec fn entry_seq(&self) -> Seq<(Seq<char>, Seq<char>)> {
        pairs_view(self.entries@)
    }

    /// Each key is held once.
    pub closed spec fn wf(&self) -> bool {
        keys_unique(self.entry_seq())
    }

    /// The empty store.
    pub fn new() -> (r: Store)
        ensures
            r.wf(),
            r@ == Map::<Seq<char>, Seq<char>>::empty(),
    {
        let r = Store { entries: Vec::new() };
        assert(r.entry_seq() =~= Seq::empty());
        r
    }

    /// The value stored under `key`, or `None` where the key is absent.
    pub fn get(&self, key: &String) -> (r: Option<String>)
        requires
            self.wf(),
        ensures
            opt_view(r) == lookup(self@, key@),
    {
        let ghost e = self.entry_seq();
        let mut i: usize = 0;
        while i < self.entries.len()
            invariant
                e == self.entry_seq(),
                keys_unique(e),
                e.len() == self.entries@.len(),
                0 <= i <= e.len(),
                forall|j: int| 0 <= j < i ==> e[j].0 != key@,
            decreases self.entries@.len() - i,
        {
            if self.entries[i].0 == *key {
                proof {
                    lemma_entries_map_index(e, i as int);
                }
                return Some(self.entries[i].1.clone());
            }
            i = i + 1;
        }
        proof {
            lemma_entries_map_absent(e, key@);
        }
        None
    }

    /// Stores `value` under `key`, replacing the value held there before.
    pub fn put(&mut self, key: String, value: String)
        requires
            old(self).wf(),
        ensures
            final(self).wf(),
            final(self)@ == old(self)@.insert(key@, value@),
    {
        let ghost e = self.entry_seq();
        let mut i: usize = 0;
        while i < self.entries.len()
            invariant
                e == self.entry_seq(),
                *self == *old(self),
                keys_unique(e),
                e.len() == self.entries@.len(),
                0 <= i <= e.len(),
                forall|j: int| 0 <= j < i ==> e[j].0 != key@,
            decreases self.entries@.len() - i,
        {
            if self.entries[i].0 == key {
                self.entries.set(i, (key, value));
                proof {
                    assert(self.entry_seq() =~= e.update(i as int, (e[i as int].0, value@)));
                    lemma_entries_map_update(e, i as int, value@);
                }
                return;
            }
            i = i + 1;
        }
        self.entries.push((key, value));
        proof {
            let n = self.entry_seq();
            assert(n =~= e.push((key@, value@)));
            assert(n.drop_last() =~= e);
        }
    }
    /// The store that holds the pairs, taken in order: a later pair for a key
    /// replaces an earlier one.
    pub fn from_entries(entries: &Vec<(String, String)>) -> (r: Store)
        ensures
            r.wf(),
            r@ == entries_map(pairs_view(entries@)),
    {
        let ghost e = pairs_view(entries@);
        let mut r = Store::new();
        let mut i: usize = 0;
        while i < entries.len()
            invariant
                e == pairs_view(entries@),
                0 <= i <= entries@.len(),
                r.wf(),
                r@ == entries_map(e.take(i as int)),
            decreases entries@.len() - i,
        {
            let k = entries[i].0.clone();
            let v = entries[i].1.clone();
            r.put(k, v);
            proof {
                assert(e.take(i + 1).drop_last() =~= e.take(i as int));
            }
            i = i + 1;
        }
        assert(e.take(i as int) =~= e);
        r
    }

    /// The store that a snapshot's bytes hold. Bytes that bincode refuses (none
    /// at all, truncated or corrupt ones) give the empty store, not an error.
    pub fn decode(bytes: &[u8]) -> (r: Store)
        ensures
            r.wf(),
            r@ == decoded_view(bytes@),
            bytes@.len() == 0 ==> r@ == Map::<Seq<char>, Seq<char>>::empty(),
    {
        match deserialize_entries(bytes) {
            Ok(v) => Store::from_entries(&v),
            Err(_) => Store::new(),
        }
    }

    /// The snapshot's bytes for this store. Encoding always succeeds, and
    /// bincode reads the bytes back as exactly this store's entries.
    pub fn encode(&self) -> (r: Result<Vec<u8>, Error>)
        requires
            self.wf(),
        ensures
            r is Ok,
            match r {
                Ok(b) => {
                    &&& b@ == bincode_bytes(self.entry_seq())
                    &&& bincode_entries(b@) == Some(self.entry_seq())
                    &&& decoded_view(b@) == self@
                },
                Err(_) => true,
            },
    {
        match serialize_entries(&self.entries) {
            Ok(b) => Ok(b),
            Err(e) => Err(Error::Bincode(e)),
        }
    }
}

} // verus!
