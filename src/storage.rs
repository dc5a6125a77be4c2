//! An in-memory key/value store of byte strings.
use vstd::prelude::*;
use crate::error::NozyResult;
use crate::notes::clone_bytes;

verus! {

/// Byte strings stored under string keys, one value per key.
#[derive(Debug, Clone)]
pub struct WalletStorage {
    /// Entries in order of first insertion; no key occurs twice.
    data: Vec<(String, Vec<u8>)>,
}

/// Whether an entry of `s` has key `k`.
pub open spec fn has_key(s: Seq<(String, Vec<u8>)>, k: Seq<char>) -> bool {
    exists|i: int| 0 <= i < s.len() && s[i].0@ == k
}

/// The position of the entry with key `k`.
pub open spec fn key_index(s: Seq<(String, Vec<u8>)>, k: Seq<char>) -> int {
    choose|i: int| 0 <= i < s.len() && s[i].0@ == k
}

impl WalletStorage {
    /// The stored values by key.
    pub closed spec fn view(&self) -> Map<Seq<char>, Seq<u8>> {
        Map::new(
            |k: Seq<char>| has_key(self.data@, k),
            |k: Seq<char>| self.data@[key_index(self.data@, k)].1@,
        )
    }

    /// No key occurs twice.
    pub closed spec fn wf(&self) -> bool {
        forall|i: int, j: int|
            0 <= i < self.data@.len() && 0 <= j < self.data@.len() && i != j ==> self.data@[i].0@
                != self.data@[j].0@
    }

    pub fn new() -> (r: Self)
        ensures
            r.wf(),
            r.view() == Map::<Seq<char>, Seq<u8>>::empty(),
    {
        let r = WalletStorage { data: Vec::new() };
        assert(r.view() =~= Map::<Seq<char>, Seq<u8>>::empty());
        r
    }

    fn find(&self, key: &String) -> (r: Option<usize>)
        requires
            self.wf(),
        ensures
            r is None ==> !has_key(self.data@, key@),
            r matches Some(i) ==> i < self.data@.len() && self.data@[i as int].0@ == key@
                && key_index(self.data@, key@) == i,
    {
        let mut i: usize = 0;
        while i < self.data.len()
            invariant
                self.wf(),
                i <= self.data@.len(),
                forall|j: int| 0 <= j < i ==> (#[trigger] self.data@[j]).0@ != key@,
            decreases self.data@.len() - i,
        {
            if self.data[i].0 == *key {
                assert(self.data@[i as int].0@ == key@);
                assert(has_key(self.data@, key@));
                let ghost j = key_index(self.data@, key@);
                assert(self.data@[j].0@ == key@);
                assert(j == i);
                return Some(i);
            }
            i = i + 1;
        }
        None
    }

    /// Stores `value` under `key`, replacing what was there.
    pub fn store(&mut self, key: &str, value: &[u8]) -> (r: NozyResult<()>)
        requires
            old(self).wf(),
        ensures
            r is Ok,
            final(self).wf(),
            final(self).view() == old(self).view().insert(key@, value@),
    {
        let k = String::from_str(key);
        let mut v: Vec<u8> = Vec::new();
        crate::crypto::append_bytes(&mut v, value);
        let ghost before = self.data@;
        let ghost m0 = self.view();
        match self.find(&k) {
            Some(i) => {
                self.data.set(i, (k, v));
                assert forall|q: Seq<char>| has_key(before, q) implies has_key(self.data@, q) by {
                    let j = key_index(before, q);
                    if j == i {
                        assert(self.data@[j].0@ == key@);
                    } else {
                        assert(self.data@[j] == before[j]);
                    }
                }
                assert(has_key(self.data@, key@)) by {
                    assert(self.data@[i as int].0@ == key@);
                }
                assert forall|q: Seq<char>| has_key(self.data@, q) implies q == key@ || has_key(before, q) by {
                    let j = key_index(self.data@, q);
                    if j != i {
                        assert(self.data@[j] == before[j]);
                    }
                }
                assert forall|q: Seq<char>| has_key(self.data@, q) implies self.data@[key_index(
                    self.data@,
                    q,
                )].1@ == m0.insert(key@, value@)[q] by {
                    let j = key_index(self.data@, q);
                    if q != key@ {
                        assert(j != i);
                        assert(self.data@[j] == before[j]);
                        assert(has_key(before, q));
                        let oj = key_index(before, q);
                        assert(before[oj].0@ == q);
                        assert(oj != i);
                        assert(self.data@[oj] == before[oj]);
                    } else {
                        assert(self.data@[i as int].0@ == key@);
                    }
                }
                assert(self.view() =~= m0.insert(key@, value@));
            },
            None => {
                self.data.push((k, v));
                assert(has_key(self.data@, key@)) by {
                    assert(self.data@[before.len() as int].0@ == key@);
                }
                assert forall|q: Seq<char>| has_key(self.data@, q) implies q == key@ || has_key(before, q) by {
                    let j = key_index(self.data@, q);
                    if j < before.len() {
                        assert(self.data@[j] == before[j]);
                    }
                }
                assert forall|q: Seq<char>| has_key(self.data@, q) implies self.data@[key_index(
                    self.data@,
                    q,
                )].1@ == m0.insert(key@, value@)[q] by {
                    let j = key_index(self.data@, q);
                    if q != key@ {
                        assert(j < before.len());
                        assert(self.data@[j] == before[j]);
                        assert(has_key(before, q));
                        let oj = key_index(before, q);
                        assert(self.data@[oj] == before[oj]);
                    } else {
                        assert(self.data@[before.len() as int].0@ == key@);
                    }
                }
                assert forall|q: Seq<char>| has_key(before, q) implies has_key(self.data@, q) by {
                    let j = key_index(before, q);
                    assert(self.data@[j] == before[j]);
                }
                assert(self.view() =~= m0.insert(key@, value@));
            },
        }
        Ok(())
    }

    /// The value stored under `key`, if any.
    pub fn retrieve(&self, key: &str) -> (r: NozyResult<Option<Vec<u8>>>)
        requires
            self.wf(),
        ensures
            r matches Ok(o) && (o is Some <==> self.view().contains_key(key@)) && (o matches Some(
                v,
            ) ==> v@ == self.view()[key@]),
    {
        let k = String::from_str(key);
        match self.find(&k) {
            Some(i) => Ok(Some(clone_bytes(&self.data[i].1))),
            None => Ok(None),
        }
    }

    /// Whether a value is stored under `key`.
    pub fn contains(&self, key: &str) -> (r: bool)
        requires
            self.wf(),
        ensures
            r == self.view().contains_key(key@),
    {
        let k = String::from_str(key);
        self.find(&k).is_some()
    }

    /// Removes the value stored under `key`, if any.
    pub fn remove(&mut self, key: &str) -> (r: NozyResult<()>)
        requires
            old(self).wf(),
        ensures
            r is Ok,
            final(self).wf(),
            final(self).view() == old(self).view().remove(key@),
    {
        let k = String::from_str(key);
        let ghost before = self.data@;
        let ghost m0 = self.view();
        match self.find(&k) {
            Some(i) => {
                self.data.remove(i);
                assert forall|q: Seq<char>| has_key(self.data@, q) implies has_key(before, q)
                    && q != key@ && self.data@[key_index(self.data@, q)].1@ == m0[q] by {
                    let j = key_index(self.data@, q);
                    let oj = if j < i { j } else { j + 1 };
                    assert(before[oj] == self.data@[j]);
                    assert(has_key(before, q));
                    assert(key_index(before, q) == oj);
                }
                assert forall|q: Seq<char>| has_key(before, q) && q != key@ implies has_key(
                    self.data@,
                    q,
                ) by {
                    let j = key_index(before, q);
                    if j < i {
                        assert(self.data@[j] == before[j]);
                    } else {
                        assert(self.data@[j - 1] == before[j]);
                    }
                }
                assert(self.view() =~= m0.remove(key@));
            },
            None => {
                assert(self.view() =~= m0.remove(key@));
            },
        }
        Ok(())
    }

    /// Every key with a stored value, each once.
    pub fn get_all_keys(&self) -> (r: Vec<String>)
        requires
            self.wf(),
        ensures
            r@.len() == self.view().dom().len(),
            forall|i: int| 0 <= i < r@.len() ==> self.view().contains_key((#[trigger] r@[i])@),
            forall|k: Seq<char>|
                self.view().contains_key(k) ==> exists|i: int| 0 <= i < r@.len() && (#[trigger] r@[i])@ == k,
    {
        let mut r: Vec<String> = Vec::new();
        let mut i: usize = 0;
        while i < self.data.len()
            invariant
                i <= self.data@.len(),
                r@.len() == i,
                forall|j: int| 0 <= j < i ==> (#[trigger] r@[j])@ == self.data@[j].0@,
            decreases self.data@.len() - i,
        {
            r.push(self.data[i].0.clone());
            i = i + 1;
        }
        assert forall|j: int| 0 <= j < r@.len() implies self.view().contains_key((#[trigger] r@[j])@) by {
            assert(has_key(self.data@, r@[j]@));
        }
        assert forall|k: Seq<char>| self.view().contains_key(k) implies exists|j: int|
            0 <= j < r@.len() && (#[trigger] r@[j])@ == k by {
            let j = key_index(self.data@, k);
            assert(r@[j]@ == k);
        }
        proof {
            self.lemma_dom_len();
        }
        r
    }

    /// The number of keys is the number of entries.
    proof fn lemma_dom_len(&self)
        requires
            self.wf(),
        ensures
            self.view().dom().len() == self.data@.len(),
    {
        let keys = self.data@.map_values(|e: (String, Vec<u8>)| e.0@);
        assert(keys.no_duplicates());
        assert(self.view().dom() =~= keys.to_set()) by {
            assert forall|k: Seq<char>| keys.to_set().contains(k) implies self.view().dom().contains(k) by {
                let j = choose|j: int| 0 <= j < keys.len() && keys[j] == k;
                assert(self.data@[j].0@ == k);
            }
            assert forall|k: Seq<char>| self.view().dom().contains(k) implies keys.to_set().contains(k) by {
                let j = key_index(self.data@, k);
                assert(keys[j] == k);
            }
        }
        keys.unique_seq_to_set();
    }
}

} // verus!
