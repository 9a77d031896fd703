//! The persistent store as the engine sees it: a map from keys to values,
//! to which a batch of writes is applied as a whole.

use vstd::prelude::*;

verus! {

/// The store after a batch of writes was committed: every write is applied,
/// in the order of the batch.
pub open spec fn committed(
    store: Map<Seq<u8>, Seq<u8>>,
    writes: Seq<(Seq<u8>, Seq<u8>)>,
) -> Map<Seq<u8>, Seq<u8>>
    decreases writes.len(),
{
    if writes.len() == 0 {
        store
    } else {
        committed(store, writes.drop_last()).insert(writes.last().0, writes.last().1)
    }
}

/// What the store holds under a key, if anything.
pub open spec fn fetched(store: Map<Seq<u8>, Seq<u8>>, key: Seq<u8>) -> Option<Seq<u8>> {
    if store.contains_key(key) {
        Some(store[key])
    } else {
        None
    }
}

/// A committed batch changes the keys it writes and no other.
pub proof fn lemma_committed_elsewhere(
    store: Map<Seq<u8>, Seq<u8>>,
    writes: Seq<(Seq<u8>, Seq<u8>)>,
    key: Seq<u8>,
)
    requires
        forall|i: int| 0 <= i < writes.len() ==> (#[trigger] writes[i]).0 != key,
    ensures
        fetched(committed(store, writes), key) == fetched(store, key),
    decreases writes.len(),
{
    if writes.len() > 0 {
        let rest = writes.drop_last();
        assert forall|i: int| 0 <= i < rest.len() implies (#[trigger] rest[i]).0 != key by {
            assert(rest[i] == writes[i]);
        }
        lemma_committed_elsewhere(store, rest, key);
        assert(writes.last() == writes[writes.len() - 1]);
    }
}

/// After a batch was committed, a key that the batch writes once holds the
/// value written for it.
pub proof fn lemma_committed_here(
    store: Map<Seq<u8>, Seq<u8>>,
    writes: Seq<(Seq<u8>, Seq<u8>)>,
    k: int,
)
    requires
        0 <= k < writes.len(),
        forall|i: int| 0 <= i < writes.len() && i != k ==> (#[trigger] writes[i]).0 != writes[k].0,
    ensures
        fetched(committed(store, writes), writes[k].0) == Some(writes[k].1),
    decreases writes.len(),
{
    let rest = writes.drop_last();
    if k == writes.len() - 1 {
    } else {
        assert forall|i: int| 0 <= i < rest.len() && i != k implies (#[trigger] rest[i]).0
            != rest[k].0 by {
            assert(rest[i] == writes[i]);
            assert(rest[k] == writes[k]);
        }
        assert(rest[k] == writes[k]);
        lemma_committed_here(store, rest, k);
        assert(writes.last() == writes[writes.len() - 1]);
    }
}

} // verus!
