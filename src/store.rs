//! The cache content: a mapping from key to value with unique keys.
use vstd::prelude::*;
use crate::bytes::{copy_bytes, same_bytes};

verus! {

/// The cache content. Entries are kept as key/value pairs with no key
/// twice; the mathematical value is the map from each key to its value.
pub struct Store {
    entries: Vec<(Vec<u8>, Vec<u8>)>,
    contents: Ghost<Map<Seq<u8>, Seq<u8>>>,
}

impl View for Store {
    type V = Map<Seq<u8>, Seq<u8>>;

    closed spec fn view(&self) -> Map<Seq<u8>, Seq<u8>> {
        self.contents@
    }
}

impl Store {
    /// Keys are unique, and the entries list exactly the pairs of the map.
    pub closed spec fn wf(&self) -> bool {
        let e = self.entries@;
        &&& forall|i: int, j: int|
            0 <= i < j < e.len() ==> #[trigger] e[i].0@ != #[trigger] e[j].0@
        &&& forall|i: int|
            0 <= i < e.len() ==> #[trigger] self.contents@.contains_key(e[i].0@)
                && self.contents@[e[i].0@] == e[i].1@
        &&& forall|k: Seq<u8>|
            #[trigger] self.contents@.contains_key(k) ==> exists|i: int|
                0 <= i < e.len() && #[trigger] e[i].0@ == k
    }

    /// An empty store.
    pub fn new() -> (r: Store)
        ensures
            r.wf(),
            r@ == Map::<Seq<u8>, Seq<u8>>::empty(),
    {
        Store { entries: Vec::new(), contents: Ghost(Map::empty()) }
    }

    /// The number of keys held.
    pub fn len(&self) -> (r: usize)
        requires
            self.wf(),
        ensures
            r == self@.len(),
    {
        proof {
            self.lemma_len();
        }
        self.entries.len()
    }

    proof fn lemma_len(&self)
        requires
            self.wf(),
        ensures
            self@.len() == self.entries@.len(),
            self@.dom().finite(),
    {
        let e = self.entries@;
        let keys = Seq::new(e.len(), |i: int| e[i].0@);
        assert forall|i: int, j: int| 0 <= i < keys.len() && 0 <= j < keys.len() && i != j
            implies keys[i] != keys[j] by {
            if i < j {
                assert(e[i].0@ != e[j].0@);
            } else {
                assert(e[j].0@ != e[i].0@);
            }
        }
        keys.unique_seq_to_set();
        assert(keys.to_set() =~= self@.dom()) by {
            assert forall|k: Seq<u8>| keys.to_set().contains(k) <==> self@.dom().contains(k) by {
                if self@.dom().contains(k) {
                    let i = choose|i: int| 0 <= i < e.len() && #[trigger] e[i].0@ == k;
                    assert(keys[i] == k);
                }
                if keys.to_set().contains(k) {
                    let i = choose|i: int| 0 <= i < keys.len() && keys[i] == k;
                    assert(e[i].0@ == k);
                }
            }
        }
    }

    /// The index of the entry for `key`, if there is one.
    fn find(&self, key: &[u8]) -> (r: Option<usize>)
        requires
            self.wf(),
        ensures
            match r {
                Some(i) => i < self.entries@.len() && self.entries@[i as int].0@ == key@,
                None => !self@.contains_key(key@),
            },
    {
        let mut i: usize = 0;
        while i < self.entries.len()
            invariant
                self.wf(),
                i <= self.entries@.len(),
                forall|j: int| 0 <= j < i ==> #[trigger] self.entries@[j].0@ != key@,
            decreases self.entries@.len() - i,
        {
            if same_bytes(self.entries[i].0.as_slice(), key) {
                return Some(i);
            }
            i = i + 1;
        }
        None
    }

    /// A copy of the value held for `key`, or `None` when the key is absent.
    pub fn get(&self, key: &[u8]) -> (r: Option<Vec<u8>>)
        requires
            self.wf(),
        ensures
            match r {
                Some(v) => self@.contains_key(key@) && v@ == self@[key@],
                None => !self@.contains_key(key@),
            },
    {
        match self.find(key) {
            Some(i) => {
                assert(self@.contains_key(self.entries@[i as int].0@));
                Some(copy_bytes(self.entries[i].1.as_slice()))
            },
            None => None,
        }
    }

    /// Holds `value` for `key`, replacing whatever was held for it.
    pub fn set(&mut self, key: Vec<u8>, value: Vec<u8>)
        requires
            old(self).wf(),
        ensures
            final(self).wf(),
            final(self)@ == old(self)@.insert(key@, value@),
    {
        let ghost k = key@;
        let ghost v = value@;
        let ghost old_m = self@;
        let ghost m = self@.insert(k, v);
        match self.find(key.as_slice()) {
            Some(i) => {
                let ghost old_e = self.entries@;
                self.entries.set(i, (key, value));
                self.contents = Ghost(m);
                proof {
                    let e = self.entries@;
                    assert forall|a: int, b: int| 0 <= a < b < e.len() implies #[trigger] e[a].0@
                        != #[trigger] e[b].0@ by {
                        assert(old_e[a].0@ != old_e[b].0@);
                        assert(e[a].0@ == old_e[a].0@);
                        assert(e[b].0@ == old_e[b].0@);
                    }
                    assert forall|j: int| 0 <= j < e.len() implies #[trigger] m.contains_key(e[j].0@)
                        && m[e[j].0@] == e[j].1@ by {
                        if j != i {
                            assert(e[j] == old_e[j]);
                            assert(old_m.contains_key(old_e[j].0@));
                            assert(old_e[j].0@ != k) by {
                                if j < i {
                                    assert(old_e[j].0@ != old_e[i as int].0@);
                                } else {
                                    assert(old_e[i as int].0@ != old_e[j].0@);
                                }
                            }
                        }
                    }
                    assert forall|kk: Seq<u8>| #[trigger] m.contains_key(kk) implies exists|j: int|
                        0 <= j < e.len() && #[trigger] e[j].0@ == kk by {
                        if kk == k {
                            assert(e[i as int].0@ == kk);
                        } else {
                            let j = choose|j: int| 0 <= j < old_e.len() && #[trigger] old_e[j].0@ == kk;
                            assert(e[j].0@ == kk);
                        }
                    }
                    assert(self.wf());
                }
            },
            None => {
                let ghost old_e = self.entries@;
                self.entries.push((key, value));
                self.contents = Ghost(m);
                proof {
                    let e = self.entries@;
                    assert forall|a: int, b: int| 0 <= a < b < e.len() implies #[trigger] e[a].0@
                        != #[trigger] e[b].0@ by {
                        assert(e[a] == old_e[a]);
                        if b == old_e.len() {
                            assert(old_m.contains_key(old_e[a].0@));
                            assert(e[b].0@ == k);
                        } else {
                            assert(e[b] == old_e[b]);
                            assert(old_e[a].0@ != old_e[b].0@);
                        }
                    }
                    assert forall|j: int| 0 <= j < e.len() implies #[trigger] m.contains_key(e[j].0@)
                        && m[e[j].0@] == e[j].1@ by {
                        if j < old_e.len() {
                            assert(e[j] == old_e[j]);
                            assert(old_m.contains_key(old_e[j].0@));
                            assert(old_e[j].0@ != k);
                        }
                    }
                    assert forall|kk: Seq<u8>| #[trigger] m.contains_key(kk) implies exists|j: int|
                        0 <= j < e.len() && #[trigger] e[j].0@ == kk by {
                        if kk == k {
                            assert(e[old_e.len() as int].0@ == kk);
                        } else {
                            let j = choose|j: int| 0 <= j < old_e.len() && #[trigger] old_e[j].0@ == kk;
                            assert(e[j].0@ == kk);
                        }
                    }
                    assert(self.wf());
                }
            },
        }
    }
}

} // verus!
