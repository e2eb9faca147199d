//! The bridge table: for each NFT of an older collection, identified by the
//! collection's token identifier and the NFT's nonce, the index of the NFT of
//! this collection that it is exchanged for.

use vstd::prelude::*;
use crate::byte_map::{bytes_equal, copy_bytes};

verus! {

/// A key of the bridge table: an older collection and a nonce in it.
pub type BridgeKey = (Seq<u8>, u64);

/// Indexes reserved for NFTs of older collections.
#[derive(Clone)]
pub struct BridgeTable {
    collections: Vec<Vec<u8>>,
    nonces: Vec<u64>,
    indexes: Vec<u64>,
    contents: Ghost<Map<BridgeKey, u64>>,
}

impl View for BridgeTable {
    type V = Map<BridgeKey, u64>;

    closed spec fn view(&self) -> Map<BridgeKey, u64> {
        self.contents@
    }
}

impl BridgeTable {
    closed spec fn key_at(&self, i: int) -> BridgeKey {
        (self.collections@[i]@, self.nonces@[i])
    }

    /// The map is consistent with the entries that hold it.
    pub closed spec fn wf(&self) -> bool {
        &&& self.collections.len() == self.nonces.len()
        &&& self.collections.len() == self.indexes.len()
        &&& forall|i: int, j: int|
            0 <= i < j < self.collections.len() ==> self.key_at(i) != self.key_at(j)
        &&& forall|i: int|
            0 <= i < self.collections.len() ==> #[trigger] self.contents@.contains_key(self.key_at(i))
                && self.contents@[self.key_at(i)] == self.indexes@[i]
        &&& forall|k: BridgeKey|
            #[trigger] self.contents@.contains_key(k) ==> exists|i: int|
                0 <= i < self.collections.len() && self.key_at(i) == k
    }

    /// An empty table.
    pub fn new() -> (table: Self)
        ensures
            table.wf(),
            table@ == Map::<BridgeKey, u64>::empty(),
    {
        BridgeTable {
            collections: Vec::new(),
            nonces: Vec::new(),
            indexes: Vec::new(),
            contents: Ghost(Map::empty()),
        }
    }

    fn find(&self, collection: &Vec<u8>, nonce: u64) -> (pos: Option<usize>)
        requires
            self.wf(),
        ensures
            match pos {
                Some(i) => i < self.collections.len() && self.key_at(i as int) == (collection@, nonce),
                None => !self@.contains_key((collection@, nonce)),
            },
    {
        let n = self.collections.len();
        let mut i: usize = 0;
        while i < n
            invariant
                self.wf(),
                n == self.collections.len(),
                i <= n,
                forall|j: int| 0 <= j < i ==> self.key_at(j) != (collection@, nonce),
            decreases n - i,
        {
            if self.nonces[i] == nonce && bytes_equal(&self.collections[i], collection) {
                return Some(i);
            }
            i = i + 1;
        }
        None
    }

    /// Whether an index is reserved for `nonce` of `collection`.
    pub fn contains(&self, collection: &Vec<u8>, nonce: u64) -> (found: bool)
        requires
            self.wf(),
        ensures
            found == self@.contains_key((collection@, nonce)),
    {
        self.find(collection, nonce).is_some()
    }

    /// Reserves `index` for `nonce` of `collection`.
    pub fn insert(&mut self, collection: &Vec<u8>, nonce: u64, index: u64)
        requires
            old(self).wf(),
        ensures
            final(self).wf(),
            final(self)@ == old(self)@.insert((collection@, nonce), index),
    {
        let ghost old_t = *self;
        let ghost old_contents = self.contents@;
        let ghost key = (collection@, nonce);
        match self.find(collection, nonce) {
            Some(i) => {
                self.indexes.set(i, index);
                self.contents = Ghost(old_contents.insert(key, index));
                assert forall|j: int| 0 <= j < self.collections.len() implies self.key_at(j) == old_t.key_at(j) by {
                    assert(self.collections@[j] == old_t.collections@[j]);
                }
                assert forall|a: int, b: int|
                    0 <= a < b < self.collections.len() implies self.key_at(a) != self.key_at(b) by {
                    assert(self.key_at(a) == old_t.key_at(a));
                    assert(self.key_at(b) == old_t.key_at(b));
                }
                assert forall|k: BridgeKey| #[trigger] self.contents@.contains_key(k) implies exists|
                    j: int,
                | 0 <= j < self.collections.len() && self.key_at(j) == k by {
                    if k != key {
                        assert(old_contents.contains_key(k));
                        let j = choose|j: int| 0 <= j < old_t.collections.len() && old_t.key_at(j) == k;
                        assert(self.key_at(j) == old_t.key_at(j));
                    } else {
                        assert(self.key_at(i as int) == old_t.key_at(i as int));
                    }
                }
                assert forall|j: int|
                    0 <= j < self.collections.len() implies #[trigger] self.contents@.contains_key(
                    self.key_at(j),
                ) && self.contents@[self.key_at(j)] == self.indexes@[j] by {
                    assert(self.key_at(j) == old_t.key_at(j));
                    assert(old_contents.contains_key(old_t.key_at(j)));
                }
            },
            None => {
                self.collections.push(copy_bytes(collection));
                self.nonces.push(nonce);
                self.indexes.push(index);
                self.contents = Ghost(old_contents.insert(key, index));
                let n = self.collections.len();
                assert(self.key_at(n - 1) == key);
                assert forall|i: int| 0 <= i < n - 1 implies self.key_at(i) == old_t.key_at(i) by {
                    assert(self.collections@[i] == old_t.collections@[i]);
                    assert(self.nonces@[i] == old_t.nonces@[i]);
                }
                assert forall|k: BridgeKey| #[trigger] self.contents@.contains_key(k) implies exists|
                    j: int,
                | 0 <= j < self.collections.len() && self.key_at(j) == k by {
                    if k != key {
                        assert(old_contents.contains_key(k));
                        let j = choose|j: int| 0 <= j < old_t.collections.len() && old_t.key_at(j) == k;
                        assert(self.key_at(j) == k);
                    }
                }
                assert forall|a: int, b: int|
                    0 <= a < b < self.collections.len() implies self.key_at(a) != self.key_at(b) by {
                    assert(self.key_at(a) == old_t.key_at(a));
                    if b == n - 1 {
                        assert(old_contents.contains_key(old_t.key_at(a)));
                    } else {
                        assert(self.key_at(b) == old_t.key_at(b));
                    }
                }
                assert forall|i: int|
                    0 <= i < self.collections.len() implies #[trigger] self.contents@.contains_key(
                    self.key_at(i),
                ) && self.contents@[self.key_at(i)] == self.indexes@[i] by {
                    if i < n - 1 {
                        assert(self.indexes@[i] == old_t.indexes@[i]);
                        assert(old_contents.contains_key(old_t.key_at(i)));
                    }
                }
            },
        }
    }

    /// Takes out the index reserved for `nonce` of `collection`, if any.
    pub fn remove(&mut self, collection: &Vec<u8>, nonce: u64) -> (index: Option<u64>)
        requires
            old(self).wf(),
        ensures
            final(self).wf(),
            index == (if old(self)@.contains_key((collection@, nonce)) {
                Some(old(self)@[(collection@, nonce)])
            } else {
                None::<u64>
            }),
            final(self)@ == old(self)@.remove((collection@, nonce)),
    {
        let ghost old_t = *self;
        let ghost old_contents = self.contents@;
        let ghost key = (collection@, nonce);
        match self.find(collection, nonce) {
            None => {
                assert(old_contents.remove(key) =~= old_contents);
                None
            },
            Some(i) => {
                self.collections.remove(i);
                self.nonces.remove(i);
                let index = self.indexes.remove(i);
                self.contents = Ghost(old_contents.remove(key));
                proof {
                    Self::lemma_remove_entry(old_t, *self, i as int);
                }
                Some(index)
            },
        }
    }

    /// Removing the entry at position `i` keeps the table consistent.
    proof fn lemma_remove_entry(old_t: Self, new_t: Self, i: int)
        requires
            old_t.wf(),
            0 <= i < old_t.collections.len(),
            new_t.collections@ == old_t.collections@.remove(i),
            new_t.nonces@ == old_t.nonces@.remove(i),
            new_t.indexes@ == old_t.indexes@.remove(i),
            new_t.contents@ == old_t.contents@.remove(old_t.key_at(i)),
        ensures
            new_t.wf(),
    {
        let n = old_t.collections.len();
        let key = old_t.key_at(i);
        assert forall|j: int| 0 <= j < n - 1 implies #[trigger] new_t.key_at(j) == old_t.key_at(
            if j < i {
                j
            } else {
                j + 1
            },
        ) && new_t.indexes@[j] == old_t.indexes@[if j < i {
            j
        } else {
            j + 1
        }] by {
            if j < i {
                assert(new_t.collections@[j] == old_t.collections@[j]);
                assert(new_t.nonces@[j] == old_t.nonces@[j]);
            } else {
                assert(new_t.collections@[j] == old_t.collections@[j + 1]);
                assert(new_t.nonces@[j] == old_t.nonces@[j + 1]);
            }
        }
        assert forall|a: int, b: int|
            0 <= a < b < new_t.collections.len() implies new_t.key_at(a) != new_t.key_at(b) by {
            let a0 = if a < i {
                a
            } else {
                a + 1
            };
            let b0 = if b < i {
                b
            } else {
                b + 1
            };
            assert(new_t.key_at(a) == old_t.key_at(a0));
            assert(new_t.key_at(b) == old_t.key_at(b0));
            assert(old_t.key_at(a0) != old_t.key_at(b0));
        }
        assert forall|j: int|
            0 <= j < new_t.collections.len() implies #[trigger] new_t.contents@.contains_key(
            new_t.key_at(j),
        ) && new_t.contents@[new_t.key_at(j)] == new_t.indexes@[j] by {
            let j0 = if j < i {
                j
            } else {
                j + 1
            };
            assert(new_t.key_at(j) == old_t.key_at(j0));
            assert(new_t.indexes@[j] == old_t.indexes@[j0]);
            assert(old_t.key_at(j0) != key);
            assert(old_t.contents@.contains_key(old_t.key_at(j0)));
        }
        assert forall|k: BridgeKey| #[trigger] new_t.contents@.contains_key(k) implies exists|j: int|
            0 <= j < new_t.collections.len() && new_t.key_at(j) == k by {
            assert(old_t.contents@.contains_key(k));
            let j0 = choose|j: int| 0 <= j < n && old_t.key_at(j) == k;
            assert(j0 != i);
            let j = if j0 < i {
                j0
            } else {
                j0 - 1
            };
            assert(new_t.key_at(j) == old_t.key_at(j0));
        }
    }

    /// A copy of the table.
    pub fn duplicate(&self) -> (copy: Self)
        requires
            self.wf(),
        ensures
            copy.wf(),
            copy@ == self@,
    {
        let mut collections: Vec<Vec<u8>> = Vec::new();
        let n = self.collections.len();
        let mut i: usize = 0;
        while i < n
            invariant
                n == self.collections.len(),
                i <= n,
                collections.len() == i,
                forall|j: int| 0 <= j < i ==> #[trigger] collections@[j]@ == self.collections@[j]@,
            decreases n - i,
        {
            collections.push(copy_bytes(&self.collections[i]));
            i = i + 1;
        }
        let nonces = self.nonces.clone();
        let indexes = self.indexes.clone();
        assert(nonces@ =~= self.nonces@);
        assert(indexes@ =~= self.indexes@);
        let copy = BridgeTable { collections, nonces, indexes, contents: Ghost(self.contents@) };
        assert forall|j: int| 0 <= j < n implies copy.key_at(j) == self.key_at(j) by {
            assert(copy.collections@[j]@ == self.collections@[j]@);
        }
        copy
    }
}

} // verus!
