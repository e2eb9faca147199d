//! Storage keyed by byte strings (addresses and token identifiers), with a
//! map from byte strings to values as its model.

use vstd::prelude::*;

verus! {

/// Whether two byte strings are equal.
pub fn bytes_equal(a: &Vec<u8>, b: &Vec<u8>) -> (equal: bool)
    ensures
        equal == (a@ == b@),
{
    if a.len() != b.len() {
        return false;
    }
    let n = a.len();
    let mut i: usize = 0;
    while i < n
        invariant
            n == a.len(),
            n == b.len(),
            i <= n,
            forall|j: int| 0 <= j < i ==> a@[j] == b@[j],
        decreases n - i,
    {
        if a[i] != b[i] {
            return false;
        }
        i = i + 1;
    }
    assert(a@ =~= b@);
    true
}

/// A copy of a byte string.
pub fn copy_bytes(a: &Vec<u8>) -> (copy: Vec<u8>)
    ensures
        copy@ == a@,
{
    let copy = a.clone();
    assert(copy@ =~= a@);
    copy
}

/// Values stored under byte-string keys.
#[derive(Clone)]
pub struct ByteMap<V> {
    keys: Vec<Vec<u8>>,
    vals: Vec<V>,
    contents: Ghost<Map<Seq<u8>, V>>,
}

impl<V> View for ByteMap<V> {
    type V = Map<Seq<u8>, V>;

    closed spec fn view(&self) -> Map<Seq<u8>, V> {
        self.contents@
    }
}

impl<V> ByteMap<V> {
    /// The map is consistent with the entries that hold it.
    pub closed spec fn wf(&self) -> bool {
        &&& self.keys.len() == self.vals.len()
        &&& forall|i: int, j: int|
            0 <= i < j < self.keys.len() ==> self.keys@[i]@ != self.keys@[j]@
        &&& forall|i: int|
            0 <= i < self.keys.len() ==> #[trigger] self.contents@.contains_key(self.keys@[i]@)
                && self.contents@[self.keys@[i]@] == self.vals@[i]
        &&& forall|k: Seq<u8>|
            #[trigger] self.contents@.contains_key(k) ==> exists|i: int|
                0 <= i < self.keys.len() && self.keys@[i]@ == k
    }

    /// An empty map.
    pub fn new() -> (map: Self)
        ensures
            map.wf(),
            map@ == Map::<Seq<u8>, V>::empty(),
    {
        ByteMap { keys: Vec::new(), vals: Vec::new(), contents: Ghost(Map::empty()) }
    }

    fn find(&self, key: &Vec<u8>) -> (pos: Option<usize>)
        requires
            self.wf(),
        ensures
            match pos {
                Some(i) => i < self.keys.len() && self.keys@[i as int]@ == key@,
                None => !self@.contains_key(key@),
            },
    {
        let n = self.keys.len();
        let mut i: usize = 0;
        while i < n
            invariant
                self.wf(),
                n == self.keys.len(),
                i <= n,
                forall|j: int| 0 <= j < i ==> self.keys@[j]@ != key@,
            decreases n - i,
        {
            if bytes_equal(&self.keys[i], key) {
                return Some(i);
            }
            i = i + 1;
        }
        None
    }

    /// A reference to the value stored under `key`, if any.
    pub fn get_ref(&self, key: &Vec<u8>) -> (value: Option<&V>)
        requires
            self.wf(),
        ensures
            match value {
                Some(v) => self@.contains_key(key@) && *v == self@[key@],
                None => !self@.contains_key(key@),
            },
    {
        match self.find(key) {
            Some(i) => {
                assert(self@.contains_key(self.keys@[i as int]@));
                Some(&self.vals[i])
            },
            None => None,
        }
    }

    /// Stores `value` under `key`, replacing what was stored there.
    pub fn insert(&mut self, key: &Vec<u8>, value: V)
        requires
            old(self).wf(),
        ensures
            final(self).wf(),
            final(self)@ == old(self)@.insert(key@, value),
    {
        let ghost old_contents = self.contents@;
        let ghost old_keys = self.keys@;
        let ghost old_vals = self.vals@;
        match self.find(key) {
            Some(i) => {
                self.vals.set(i, value);
                self.contents = Ghost(old_contents.insert(key@, value));
                assert forall|k: Seq<u8>| #[trigger] self.contents@.contains_key(k) implies exists|
                    j: int,
                | 0 <= j < self.keys.len() && self.keys@[j]@ == k by {
                    if k != key@ {
                        assert(old_contents.contains_key(k));
                        let j = choose|j: int| 0 <= j < old_keys.len() && old_keys[j]@ == k;
                        assert(self.keys@[j]@ == k);
                    } else {
                        assert(self.keys@[i as int]@ == k);
                    }
                }
            },
            None => {
                self.keys.push(copy_bytes(key));
                self.vals.push(value);
                self.contents = Ghost(old_contents.insert(key@, value));
                let n = self.keys.len();
                assert forall|k: Seq<u8>| #[trigger] self.contents@.contains_key(k) implies exists|
                    j: int,
                | 0 <= j < self.keys.len() && self.keys@[j]@ == k by {
                    if k != key@ {
                        assert(old_contents.contains_key(k));
                        let j = choose|j: int| 0 <= j < old_keys.len() && old_keys[j]@ == k;
                        assert(self.keys@[j] == old_keys[j]);
                    } else {
                        assert(self.keys@[n - 1]@ == k);
                    }
                }
                assert forall|i: int| 0 <= i < self.keys.len() implies #[trigger] self.contents@.contains_key(self.keys@[i]@)
                    && self.contents@[self.keys@[i]@] == self.vals@[i] by {
                    if i < n - 1 {
                        assert(self.keys@[i] == old_keys[i]);
                        assert(self.vals@[i] == old_vals[i]);
                        assert(old_contents.contains_key(old_keys[i]@));
                    }
                }
            },
        }
    }
}

impl<V: Copy> ByteMap<V> {
    /// The value stored under `key`, if any.
    pub fn get(&self, key: &Vec<u8>) -> (value: Option<V>)
        requires
            self.wf(),
        ensures
            value == (if self@.contains_key(key@) {
                Some(self@[key@])
            } else {
                None
            }),
    {
        match self.find(key) {
            Some(i) => Some(self.vals[i]),
            None => None,
        }
    }
}

} // verus!
