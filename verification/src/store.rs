//! The preimage store: an in-memory map from 32-byte keys to byte strings.
//!
//! The keys are cryptographic hashes, so their bytes are already spread
//! evenly. The store therefore does not hash a key again: it files each
//! entry under the first eight bytes of its key, read as a number, and keeps
//! the few entries that share such a prefix together in a bucket.

use std::collections::HashMap;
use vstd::prelude::*;
use vstd::std_specs::hash::*;

verus! {

broadcast use vstd::std_specs::hash::group_hash_axioms;

/// What a key is filed under: its first eight bytes as a little-endian
/// number.
pub closed spec fn key_prefix(key: Seq<u8>) -> u64 {
    (key[0] as u64) | ((key[1] as u64) << 8) | ((key[2] as u64) << 16) | ((key[3] as u64) << 24)
        | ((key[4] as u64) << 32) | ((key[5] as u64) << 40) | ((key[6] as u64) << 48) | ((
    key[7] as u64) << 56)
}

fn prefix_of(key: &[u8; 32]) -> (prefix: u64)
    ensures
        prefix == key_prefix(key@),
{
    (key[0] as u64) | ((key[1] as u64) << 8) | ((key[2] as u64) << 16) | ((key[3] as u64) << 24)
        | ((key[4] as u64) << 32) | ((key[5] as u64) << 40) | ((key[6] as u64) << 48) | ((
    key[7] as u64) << 56)
}

fn keys_equal(a: &[u8; 32], b: &[u8; 32]) -> (equal: bool)
    ensures
        equal == (a@ == b@),
{
    let mut i: usize = 0;
    while i < 32
        invariant
            i <= 32,
            forall|j: int| 0 <= j < i ==> a@[j] == b@[j],
        decreases 32 - i,
    {
        if a[i] != b[i] {
            return false;
        }
        i = i + 1;
    }
    assert(a@ =~= b@);
    true
}

/// One entry of the store.
struct Slot {
    key: [u8; 32],
    value: Vec<u8>,
}

/// Whether the bucket has an entry for the key.
spec fn holds_key(bucket: Seq<Slot>, key: Seq<u8>) -> bool {
    exists|i: int| 0 <= i < bucket.len() && #[trigger] bucket[i].key@ == key
}

/// Whether the bucket filed under `prefix` agrees with `contents`: each of
/// its entries belongs under the prefix and is an entry of `contents`, and no
/// key occurs twice.
spec fn bucket_agrees(contents: Map<Seq<u8>, Seq<u8>>, prefix: u64, bucket: Seq<Slot>) -> bool {
    &&& forall|i: int|
        0 <= i < bucket.len() ==> {
            &&& key_prefix(#[trigger] bucket[i].key@) == prefix
            &&& contents.contains_key(bucket[i].key@)
            &&& contents[bucket[i].key@] == bucket[i].value@
        }
    &&& forall|i: int, j: int|
        0 <= i < j < bucket.len() ==> #[trigger] bucket[i].key@ != #[trigger] bucket[j].key@
}

/// The bucket after `slot` took the place of the entry at `found`, or was
/// added where there was none.
spec fn bucket_with(bucket: Seq<Slot>, found: Option<int>, slot: Slot) -> Seq<Slot> {
    match found {
        Some(i) => bucket.remove(i).push(slot),
        None => bucket.push(slot),
    }
}

proof fn lemma_bucket_with(
    contents: Map<Seq<u8>, Seq<u8>>,
    prefix: u64,
    bucket: Seq<Slot>,
    found: Option<int>,
    slot: Slot,
)
    requires
        bucket_agrees(contents, prefix, bucket),
        key_prefix(slot.key@) == prefix,
        match found {
            Some(i) => 0 <= i < bucket.len() && bucket[i].key@ == slot.key@,
            None => !holds_key(bucket, slot.key@),
        },
    ensures
        bucket_agrees(
            contents.insert(slot.key@, slot.value@),
            prefix,
            bucket_with(bucket, found, slot),
        ),
        holds_key(bucket_with(bucket, found, slot), slot.key@),
        forall|k: Seq<u8>|
            holds_key(bucket, k) ==> #[trigger] holds_key(bucket_with(bucket, found, slot), k),
{
    let after = bucket_with(bucket, found, slot);
    let updated = contents.insert(slot.key@, slot.value@);
    let last = after.len() - 1;
    assert(after[last] == slot);
    assert(after[last].key@ == slot.key@);
    // Where each entry of the new bucket comes from.
    assert forall|i: int| 0 <= i < last implies exists|j: int|
        0 <= j < bucket.len() && bucket[j] == #[trigger] after[i] && bucket[j].key@ != slot.key@
        && (found matches Some(f) ==> j == if i < f {
            i
        } else {
            i + 1
        }) && (found is None ==> j == i) by {
        match found {
            Some(f) => {
                let j = if i < f {
                    i
                } else {
                    i + 1
                };
                assert(bucket[j] == after[i]);
                if j < f {
                    assert(bucket[j].key@ != bucket[f].key@);
                } else {
                    assert(bucket[f].key@ != bucket[j].key@);
                }
            },
            None => {
                assert(bucket[i] == after[i]);
                assert(bucket[i].key@ != slot.key@);
            },
        }
    }
    assert forall|i: int| 0 <= i < after.len() implies {
        &&& key_prefix(#[trigger] after[i].key@) == prefix
        &&& updated.contains_key(after[i].key@)
        &&& updated[after[i].key@] == after[i].value@
    } by {
        if i < last {
            let j = choose|j: int|
                0 <= j < bucket.len() && bucket[j] == after[i] && bucket[j].key@ != slot.key@;
            assert(key_prefix(bucket[j].key@) == prefix);
        }
    }
    assert forall|i: int, j: int| 0 <= i < j < after.len() implies #[trigger] after[i].key@
        != #[trigger] after[j].key@ by {
        let from = |x: int|
            match found {
                Some(f) => if x < f {
                    x
                } else {
                    x + 1
                },
                None => x,
            };
        assert(bucket[from(i)] == after[i]);
        if j < last {
            assert(bucket[from(j)] == after[j]);
            assert(bucket[from(i)].key@ != bucket[from(j)].key@);
        } else {
            match found {
                Some(f) => {
                    if from(i) < f {
                        assert(bucket[from(i)].key@ != bucket[f].key@);
                    } else {
                        assert(bucket[f].key@ != bucket[from(i)].key@);
                    }
                },
                None => {
                    assert(bucket[i].key@ != slot.key@);
                },
            }
        }
    }
    assert forall|k: Seq<u8>| holds_key(bucket, k) implies #[trigger] holds_key(after, k) by {
        if k == slot.key@ {
            assert(after[last].key@ == k);
        } else {
            let j = choose|j: int| 0 <= j < bucket.len() && #[trigger] bucket[j].key@ == k;
            match found {
                Some(f) => {
                    let i = if j < f {
                        j
                    } else {
                        j - 1
                    };
                    assert(after[i] == bucket[j]);
                    assert(after[i].key@ == k);
                },
                None => {
                    assert(after[j] == bucket[j]);
                    assert(after[j].key@ == k);
                },
            }
        }
    }
}

/// An in-memory map from 32-byte preimage keys to preimage values.
pub struct PreimageStore {
    buckets: HashMap<u64, Vec<Slot>>,
    count: usize,
    contents: Ghost<Map<Seq<u8>, Seq<u8>>>,
}

impl View for PreimageStore {
    type V = Map<Seq<u8>, Seq<u8>>;

    /// The store as a map from keys to values.
    closed spec fn view(&self) -> Map<Seq<u8>, Seq<u8>> {
        self.contents@
    }
}

impl PreimageStore {
    /// The invariant of the store: what its buckets hold is what its view
    /// says, each entry is filed under its key's prefix, and the number of
    /// entries is known.
    pub closed spec fn wf(&self) -> bool {
        &&& self.contents@.dom().finite()
        &&& self.count == self.contents@.len()
        &&& forall|p: u64| #[trigger]
            self.buckets@.contains_key(p) ==> bucket_agrees(self.contents@, p, self.buckets@[p]@)
        &&& forall|k: Seq<u8>| #[trigger]
            self.contents@.contains_key(k) ==> {
                &&& k.len() == 32
                &&& self.buckets@.contains_key(key_prefix(k))
                &&& holds_key(self.buckets@[key_prefix(k)]@, k)
            }
    }

    /// A store is finite and holds only 32-byte keys.
    pub proof fn lemma_wf_view(&self)
        requires
            self.wf(),
        ensures
            self@.dom().finite(),
            forall|k: Seq<u8>| #[trigger] self@.contains_key(k) ==> k.len() == 32,
    {
    }

    /// An empty store with room for `capacity` entries.
    pub fn with_capacity(capacity: usize) -> (store: PreimageStore)
        ensures
            store.wf(),
            store@ == Map::<Seq<u8>, Seq<u8>>::empty(),
    {
        PreimageStore {
            buckets: HashMap::with_capacity(capacity),
            count: 0,
            contents: Ghost(Map::empty()),
        }
    }

    /// An empty store.
    pub fn new() -> (store: PreimageStore)
        ensures
            store.wf(),
            store@ == Map::<Seq<u8>, Seq<u8>>::empty(),
    {
        PreimageStore::with_capacity(0)
    }

    /// The number of entries.
    pub fn len(&self) -> (count: usize)
        requires
            self.wf(),
        ensures
            count == self@.len(),
    {
        self.count
    }

    /// Whether the store has no entry.
    pub fn is_empty(&self) -> (empty: bool)
        requires
            self.wf(),
        ensures
            empty == (self@.len() == 0),
            empty == (self@ == Map::<Seq<u8>, Seq<u8>>::empty()),
    {
        proof {
            if self.count == 0 {
                assert(self@.dom() =~= Set::empty());
                assert(self@ =~= Map::<Seq<u8>, Seq<u8>>::empty());
            }
        }
        self.count == 0
    }

    /// The value stored under `key`, if there is one.
    pub fn get(&self, key: &[u8; 32]) -> (value: Option<&Vec<u8>>)
        requires
            self.wf(),
        ensures
            match value {
                Some(v) => self@.contains_key(key@) && v@ == self@[key@],
                None => !self@.contains_key(key@),
            },
    {
        let prefix = prefix_of(key);
        match self.buckets.get(&prefix) {
            Some(bucket) => {
                match find_slot(bucket, key) {
                    Some(i) => Some(&bucket[i].value),
                    None => None,
                }
            },
            None => None,
        }
    }

    /// Whether a value is stored under `key`.
    pub fn contains_key(&self, key: &[u8; 32]) -> (found: bool)
        requires
            self.wf(),
        ensures
            found == self@.contains_key(key@),
    {
        self.get(key).is_some()
    }

    /// Stores `value` under `key` and returns the value that was stored
    /// there before, if there was one.
    pub fn insert(&mut self, key: [u8; 32], value: Vec<u8>) -> (previous: Option<Vec<u8>>)
        requires
            old(self).wf(),
            old(self)@.len() < usize::MAX,
        ensures
            final(self).wf(),
            final(self)@ == old(self)@.insert(key@, value@),
            match previous {
                Some(v) => old(self)@.contains_key(key@) && v@ == old(self)@[key@],
                None => !old(self)@.contains_key(key@),
            },
    {
        let prefix = prefix_of(&key);
        let ghost filed = self.buckets@;
        let ghost before = self.contents@;
        let mut bucket = match self.buckets.remove(&prefix) {
            Some(bucket) => bucket,
            None => Vec::new(),
        };
        let ghost old_bucket = bucket@;
        let found = find_slot(&bucket, &key);
        let ghost found_at: Option<int> = match found {
            Some(i) => Some(i as int),
            None => None,
        };
        proof {
            assert(bucket_agrees(before, prefix, old_bucket));
            if before.contains_key(key@) {
                assert(filed.contains_key(key_prefix(key@)));
                assert(holds_key(old_bucket, key@));
            }
        }
        let previous = match found {
            Some(i) => {
                let slot = bucket.remove(i);
                Some(slot.value)
            },
            None => {
                self.count = self.count + 1;
                None
            },
        };
        let slot = Slot { key, value };
        proof {
            lemma_bucket_with(before, prefix, old_bucket, found_at, slot);
        }
        bucket.push(slot);
        assert(bucket@ == bucket_with(old_bucket, found_at, slot));
        self.buckets.insert(prefix, bucket);
        self.contents = Ghost(before.insert(key@, value@));
        proof {
            let after = self.contents@;
            assert forall|p: u64| #[trigger] self.buckets@.contains_key(p) implies bucket_agrees(
                after,
                p,
                self.buckets@[p]@,
            ) by {
                if p != prefix {
                    assert(filed.contains_key(p));
                    assert(self.buckets@[p] == filed[p]);
                    assert(bucket_agrees(before, p, filed[p]@));
                }
            }
            assert forall|k: Seq<u8>| #[trigger] after.contains_key(k) implies {
                &&& k.len() == 32
                &&& self.buckets@.contains_key(key_prefix(k))
                &&& holds_key(self.buckets@[key_prefix(k)]@, k)
            } by {
                if k != key@ {
                    assert(before.contains_key(k));
                    if key_prefix(k) == prefix {
                        assert(holds_key(old_bucket, k));
                    } else {
                        assert(self.buckets@[key_prefix(k)] == filed[key_prefix(k)]);
                    }
                }
            }
        }
        previous
    }
}

fn find_slot(bucket: &Vec<Slot>, key: &[u8; 32]) -> (found: Option<usize>)
    ensures
        match found {
            Some(i) => i < bucket.len() && bucket@[i as int].key@ == key@,
            None => !holds_key(bucket@, key@),
        },
{
    let mut i: usize = 0;
    while i < bucket.len()
        invariant
            i <= bucket.len(),
            forall|j: int| 0 <= j < i ==> bucket@[j].key@ != key@,
        decreases bucket.len() - i,
    {
        if keys_equal(&bucket[i].key, key) {
            return Some(i);
        }
        i = i + 1;
    }
    None
}

} // verus!
