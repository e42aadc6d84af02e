use vstd::prelude::*;

use std::io::Error;

verus! {

/// The value that `m` holds under `k`, if any.
pub open spec fn lookup(m: Map<Seq<u8>, Seq<u8>>, k: Seq<u8>) -> Option<Seq<u8>> {
    if m.contains_key(k) {
        Some(m[k])
    } else {
        None
    }
}

/// The byte contents of an optional owned value.
pub open spec fn bytes_of(o: Option<Vec<u8>>) -> Option<Seq<u8>> {
    match o {
        Some(v) => Some(v@),
        None => None,
    }
}

/// A store of byte values under byte keys.
///
/// Every operation reports a fault through `Err`; a store that cannot fail
/// states so in its own contracts. `remove` may be a best-effort request:
/// when it succeeds the key is either gone or the store is as it was.
pub trait InMemoryDBTrait {
    /// The entries the store currently holds: at most one value per key.
    spec fn entries(&self) -> Map<Seq<u8>, Seq<u8>>;

    /// The store's internal invariant, which every operation keeps.
    spec fn well_formed(&self) -> bool;

    /// The value held under `key`, or `None` where there is none.
    fn get(&self, key: &[u8]) -> (r: Result<Option<Vec<u8>>, Error>)
        requires
            self.well_formed(),
        ensures
            r is Ok ==> bytes_of(r->Ok_0) == lookup(self.entries(), key@),
    ;

    /// Whether a value is held under `key`.
    fn contains(&self, key: &[u8]) -> (r: Result<bool, Error>)
        requires
            self.well_formed(),
        ensures
            r is Ok ==> r->Ok_0 == self.entries().contains_key(key@),
    ;

    /// Holds `value` under `key`, in place of any earlier value.
    fn insert(&mut self, key: Vec<u8>, value: Vec<u8>) -> (r: Result<(), Error>)
        requires
            old(self).well_formed(),
        ensures
            final(self).well_formed(),
            r is Ok ==> final(self).entries() == old(self).entries().insert(key@, value@),
    ;

    /// Asks that `key` be deleted; a store may keep it, by its own policy.
    fn remove(&mut self, key: &[u8]) -> (r: Result<(), Error>)
        requires
            old(self).well_formed(),
        ensures
            final(self).well_formed(),
            r is Ok ==> final(self).entries() == old(self).entries().remove(key@)
                || final(self).entries() == old(self).entries(),
    ;

    /// Asks that buffered state be made durable; a store without a buffer
    /// has nothing to do.
    fn flush(&self) -> (r: Result<(), Error>)
        requires
            self.well_formed(),
        default_ensures
            r is Ok,
    {
        Ok(())
    }
}

} // verus!
