use vstd::prelude::*;

use std::io::Error;

use crate::bytes::{copy_bytes, same_bytes};
use crate::store::{bytes_of, lookup, InMemoryDBTrait};

verus! {

/// What `remove(k)` leaves of the entries `m`: in light mode `k` is gone,
/// otherwise nothing changes.
pub open spec fn removed(light: bool, m: Map<Seq<u8>, Seq<u8>>, k: Seq<u8>) -> Map<
    Seq<u8>,
    Seq<u8>,
> {
    if light {
        m.remove(k)
    } else {
        m
    }
}

/// A store held in memory, as a list of entries with distinct keys.
///
/// The entries sit in a `Vec` searched linearly rather than in a `HashMap`:
/// vstd specifies `HashMap` only for keys with a known hashing model
/// (integers, `bool` and the like), not for `Vec<u8>`, so a map keyed by
/// byte strings could not be given exact contracts here.
///
/// In light mode `remove` deletes; otherwise the store never loses an entry
/// and `remove` does nothing. No operation ever fails.
pub struct InMemoryDBStruct {
    light: bool,
    storage: Vec<(Vec<u8>, Vec<u8>)>,
    contents: Ghost<Map<Seq<u8>, Seq<u8>>>,
}

impl View for InMemoryDBStruct {
    type V = Map<Seq<u8>, Seq<u8>>;

    closed spec fn view(&self) -> Map<Seq<u8>, Seq<u8>> {
        self.contents@
    }
}

impl InMemoryDBStruct {
    /// Keys are distinct, and `contents` is a finite map holding exactly the listed entries.
    pub closed spec fn table_wf(&self) -> bool {
        &&& self.contents@.dom().finite()
        &&& forall|i: int, j: int|
            0 <= i < j < self.storage@.len() ==> self.storage@[i].0@ != self.storage@[j].0@
        &&& forall|i: int|
            0 <= i < self.storage@.len() ==> #[trigger] self.contents@.contains_key(
                self.storage@[i].0@,
            ) && self.contents@[self.storage@[i].0@] == self.storage@[i].1@
        &&& forall|k: Seq<u8>|
            #[trigger] self.contents@.contains_key(k) ==> exists|i: int|
                0 <= i < self.storage@.len() && self.storage@[i].0@ == k
    }

    /// A well-formed store holds finitely many entries.
    pub proof fn lemma_entries_finite(&self)
        requires
            self.table_wf(),
        ensures
            self@.dom().finite(),
    {
    }

    /// Whether `remove` deletes entries.
    pub closed spec fn is_light(&self) -> bool {
        self.light
    }

    /// An empty store; `light` fixes for good whether `remove` deletes.
    pub fn new(light: bool) -> (r: Self)
        ensures
            r.well_formed(),
            r@ == Map::<Seq<u8>, Seq<u8>>::empty(),
            r@.dom().finite(),
            r.is_light() == light,
    {
        InMemoryDBStruct { light, storage: Vec::new(), contents: Ghost(Map::empty()) }
    }

    /// Whether `remove` deletes entries.
    pub fn light(&self) -> (r: bool)
        ensures
            r == self.is_light(),
    {
        self.light
    }

    /// The position of the entry with key `key`, if there is one.
    fn position(&self, key: &[u8]) -> (r: Option<usize>)
        ensures
            match r {
                Some(i) => i < self.storage@.len() && self.storage@[i as int].0@ == key@,
                None => forall|i: int|
                    0 <= i < self.storage@.len() ==> self.storage@[i].0@ != key@,
            },
    {
        let mut i: usize = 0;
        while i < self.storage.len()
            invariant
                0 <= i <= self.storage@.len(),
                forall|j: int| 0 <= j < i ==> self.storage@[j].0@ != key@,
            decreases self.storage@.len() - i,
        {
            if same_bytes(self.storage[i].0.as_slice(), key) {
                return Some(i);
            }
            i += 1;
        }
        None
    }
}

impl InMemoryDBTrait for InMemoryDBStruct {
    open spec fn entries(&self) -> Map<Seq<u8>, Seq<u8>> {
        self@
    }

    open spec fn well_formed(&self) -> bool {
        self.table_wf()
    }

    fn get(&self, key: &[u8]) -> (r: Result<Option<Vec<u8>>, Error>)
        ensures
            r is Ok,
            bytes_of(r->Ok_0) == lookup(self@, key@),
    {
        match self.position(key) {
            Some(i) => Ok(Some(copy_bytes(self.storage[i].1.as_slice()))),
            None => Ok(None),
        }
    }

    fn contains(&self, key: &[u8]) -> (r: Result<bool, Error>)
        ensures
            r == Ok::<bool, Error>(self@.contains_key(key@)),
    {
        Ok(self.position(key).is_some())
    }

    fn insert(&mut self, key: Vec<u8>, value: Vec<u8>) -> (r: Result<(), Error>)
        ensures
            r is Ok,
            final(self)@ == old(self)@.insert(key@, value@),
            final(self).is_light() == old(self).is_light(),
    {
        let ghost old_storage = self.storage@;
        let ghost old_contents = self.contents@;
        let ghost k = key@;
        let ghost m = old_contents.insert(k, value@);
        match self.position(key.as_slice()) {
            Some(i) => {
                self.storage.set(i, (key, value));
                self.contents = Ghost(m);
                assert forall|k2: Seq<u8>| #[trigger] m.contains_key(k2) implies exists|j: int|
                    0 <= j < self.storage@.len() && self.storage@[j].0@ == k2 by {
                    if k2 != k {
                        let j = choose|j: int|
                            0 <= j < old_storage.len() && old_storage[j].0@ == k2;
                        assert(self.storage@[j].0@ == k2);
                    } else {
                        assert(self.storage@[i as int].0@ == k2);
                    }
                }
            },
            None => {
                self.storage.push((key, value));
                self.contents = Ghost(m);
                assert forall|k2: Seq<u8>| #[trigger] m.contains_key(k2) implies exists|j: int|
                    0 <= j < self.storage@.len() && self.storage@[j].0@ == k2 by {
                    if k2 != k {
                        let j = choose|j: int|
                            0 <= j < old_storage.len() && old_storage[j].0@ == k2;
                        assert(self.storage@[j].0@ == k2);
                    } else {
                        assert(self.storage@[old_storage.len() as int].0@ == k2);
                    }
                }
            },
        }
        assert forall|j: int| 0 <= j < self.storage@.len() implies #[trigger] m.contains_key(
            self.storage@[j].0@,
        ) && m[self.storage@[j].0@] == self.storage@[j].1@ by {
            if j < old_storage.len() && old_storage[j].0@ != k {
                assert(old_contents.contains_key(old_storage[j].0@));
            }
        }
        Ok(())
    }

    fn remove(&mut self, key: &[u8]) -> (r: Result<(), Error>)
        ensures
            r is Ok,
            final(self)@ == removed(old(self).is_light(), old(self)@, key@),
            final(self).is_light() == old(self).is_light(),
    {
        if self.light {
            if let Some(i) = self.position(key) {
                let ghost old_storage = self.storage@;
                let ghost old_contents = self.contents@;
                let ghost m = old_contents.remove(key@);
                self.storage.remove(i);
                self.contents = Ghost(m);
                assert(self.storage@ =~= old_storage.subrange(0, i as int) + old_storage.subrange(
                    i + 1,
                    old_storage.len() as int,
                ));
                assert forall|j: int| 0 <= j < self.storage@.len() implies #[trigger] m.contains_key(
                    self.storage@[j].0@,
                ) && m[self.storage@[j].0@] == self.storage@[j].1@ by {
                    let o = if j < i { j } else { j + 1 };
                    assert(self.storage@[j] == old_storage[o]);
                    assert(old_contents.contains_key(old_storage[o].0@));
                }
                assert forall|k2: Seq<u8>| #[trigger] m.contains_key(k2) implies exists|j: int|
                    0 <= j < self.storage@.len() && self.storage@[j].0@ == k2 by {
                    let o = choose|o: int| 0 <= o < old_storage.len() && old_storage[o].0@ == k2;
                    let j = if o < i { o } else { o - 1 };
                    assert(self.storage@[j] == old_storage[o]);
                }
                assert forall|a: int, b: int|
                    0 <= a < b < self.storage@.len() implies self.storage@[a].0@
                    != self.storage@[b].0@ by {
                    let oa = if a < i { a } else { a + 1 };
                    let ob = if b < i { b } else { b + 1 };
                    assert(self.storage@[a] == old_storage[oa]);
                    assert(self.storage@[b] == old_storage[ob]);
                }
            }
        }
        Ok(())
    }

    fn flush(&self) -> (r: Result<(), Error>)
        ensures
            r is Ok,
    {
        Ok(())
    }
}

} // verus!
