use vstd::prelude::*;

use crate::memory::{removed, InMemoryDBStruct};
use crate::store::lookup;

verus! {

/// One call that a caller makes on an in-memory store, as it bears on the entries.
pub enum Operation {
    Insert(Seq<u8>, Seq<u8>),
    Remove(Seq<u8>),
    Flush,
}

/// The entries after one operation on `m`, as the operations' contracts give them.
pub open spec fn step(light: bool, m: Map<Seq<u8>, Seq<u8>>, op: Operation) -> Map<
    Seq<u8>,
    Seq<u8>,
> {
    match op {
        Operation::Insert(k, v) => m.insert(k, v),
        Operation::Remove(k) => removed(light, m, k),
        Operation::Flush => m,
    }
}

/// The entries after the operations `ops`, in order, starting from `m`.
pub open spec fn run(light: bool, m: Map<Seq<u8>, Seq<u8>>, ops: Seq<Operation>) -> Map<
    Seq<u8>,
    Seq<u8>,
>
    decreases ops.len(),
{
    if ops.len() == 0 {
        m
    } else {
        step(light, run(light, m, ops.drop_last()), ops.last())
    }
}

/// After `insert(k, v)`, `get(k)` gives `v` and `contains(k)` gives true.
pub proof fn lemma_insert_then_get(s: InMemoryDBStruct, k: Seq<u8>, v: Seq<u8>)
    ensures
        lookup(s@.insert(k, v), k) == Some(v),
        s@.insert(k, v).contains_key(k),
{
}

/// Of two inserts under one key, the last one wins.
pub proof fn lemma_last_write_wins(s: InMemoryDBStruct, k: Seq<u8>, v1: Seq<u8>, v2: Seq<u8>)
    ensures
        lookup(s@.insert(k, v1).insert(k, v2), k) == Some(v2),
{
}

/// A fresh store holds no key that no operation since inserted: `get` gives
/// nothing and `contains` gives false.
pub proof fn lemma_absent_unless_inserted(light: bool, ops: Seq<Operation>, k: Seq<u8>)
    requires
        forall|i: int, v: Seq<u8>| 0 <= i < ops.len() ==> ops[i] != Operation::Insert(k, v),
    ensures
        lookup(run(light, Map::empty(), ops), k) is None,
        !run(light, Map::empty(), ops).contains_key(k),
    decreases ops.len(),
{
    if ops.len() > 0 {
        lemma_absent_unless_inserted(light, ops.drop_last(), k);
        assert(forall|v: Seq<u8>| ops[ops.len() - 1] != Operation::Insert(k, v));
    }
}

/// In light mode, `remove(k)` after `insert(k, v)` leaves no value under `k`.
pub proof fn lemma_light_remove_deletes(s: InMemoryDBStruct, k: Seq<u8>, v: Seq<u8>)
    requires
        s.is_light(),
    ensures
        lookup(removed(s.is_light(), s@.insert(k, v), k), k) is None,
        !removed(s.is_light(), s@.insert(k, v), k).contains_key(k),
{
}

/// Outside light mode, `remove(k)` after `insert(k, v)` leaves `v` under `k`.
pub proof fn lemma_remove_keeps_outside_light(s: InMemoryDBStruct, k: Seq<u8>, v: Seq<u8>)
    requires
        !s.is_light(),
    ensures
        lookup(removed(s.is_light(), s@.insert(k, v), k), k) == Some(v),
        removed(s.is_light(), s@.insert(k, v), k).contains_key(k),
{
}

/// A `flush` placed anywhere among other operations changes none of the
/// entries that they leave.
pub proof fn lemma_flush_transparent(
    light: bool,
    m: Map<Seq<u8>, Seq<u8>>,
    ops: Seq<Operation>,
    i: int,
)
    requires
        0 <= i <= ops.len(),
    ensures
        run(light, m, ops.insert(i, Operation::Flush)) == run(light, m, ops),
    decreases ops.len(),
{
    let with_flush = ops.insert(i, Operation::Flush);
    if i == ops.len() {
        assert(with_flush.drop_last() =~= ops);
    } else {
        assert(with_flush.drop_last() =~= ops.drop_last().insert(i, Operation::Flush));
        assert(with_flush.last() == ops.last());
        lemma_flush_transparent(light, m, ops.drop_last(), i);
    }
}

} // verus!
