//! Laws that hold across the engine's operations.

use vstd::prelude::*;
use crate::batch::{completed, failures, lemma_planned_keeps_collections, planned, slot, successes};
use crate::codec::{decode_spec, encode_spec, law_codec_round_trip};
use crate::collection::MetaView;
use crate::document::{document_writes, PendingView};
use crate::engine::EngineView;
use crate::keys::{
    content_key_spec, law_document_keys_injective, law_key_families_disjoint, metadata_key_spec,
    vector_key_spec,
};
use crate::metric::DistanceMetric;
use crate::request::DocView;
use crate::search::{law_text_round_trip, payload_text};
use crate::store::{committed, fetched, lemma_committed_elsewhere, lemma_committed_here};

verus! {

/// In a consistent registry a name stands at one place only, and so does an
/// identifier.
pub proof fn lemma_places_are_unique(v: EngineView, name: Seq<char>)
    requires
        v.wf(),
        v.contains(name),
    ensures
        0 <= v.index_of(name) < v.collections.len(),
        v.get(name).name == name,
        v.has_id(v.get(name).id),
        v.index_of_id(v.get(name).id) == v.index_of(name),
        forall|i: int|
            0 <= i < v.collections.len() && (#[trigger] v.collections[i]).name == name ==> i
                == v.index_of(name),
{
    let i = v.index_of(name);
    let c = v.collections[i];
    assert(c.name == name);
    assert(v.has_id(c.id));
    let k = v.index_of_id(c.id);
    assert(v.collections[k].id == c.id);
    assert(k == i);
    assert forall|j: int|
        0 <= j < v.collections.len() && (#[trigger] v.collections[j]).name == name implies j
        == i by {
        let d = v.collections[j];
        assert(d.name == c.name);
    }
}

/// A document that was stored is counted once, by the collection it was
/// added to: that collection's count grows by exactly one, and nothing else
/// in the registry changes.
pub proof fn law_stored_document_counted_once(v: EngineView, name: Seq<char>)
    requires
        v.wf(),
        v.contains(name),
        v.get(name).doc_count < u64::MAX,
    ensures
        ({
            let i = v.index_of_id(v.get(name).id);
            let w = v.counted(i);
            &&& v.has_id(v.get(name).id)
            &&& w.wf()
            &&& w.contains(name)
            &&& w.get(name).doc_count == v.get(name).doc_count + 1
            &&& w.get(name).id == v.get(name).id
            &&& w.get(name).dim == v.get(name).dim
            &&& w.get(name).metric == v.get(name).metric
            &&& w.next_id == v.next_id
            &&& w.collections.len() == v.collections.len()
            &&& forall|j: int|
                0 <= j < v.collections.len() && j != i ==> #[trigger] w.collections[j]
                    == v.collections[j]
        }),
{
    lemma_places_are_unique(v, name);
    let i = v.index_of(name);
    let w = v.counted(i);
    assert(w.collections[i].name == name);
    assert(w.wf()) by {
        assert forall|a: int, b: int| 0 <= a < b < w.collections.len() implies ({
            let x = #[trigger] w.collections[a];
            let y = #[trigger] w.collections[b];
            x.name != y.name && x.id != y.id
        }) by {
            let x = v.collections[a];
            let y = v.collections[b];
            assert(x.name != y.name && x.id != y.id);
        }
        assert forall|a: int| 0 <= a < w.collections.len() implies ({
            let c = #[trigger] w.collections[a];
            c.dim >= 1 && 1 <= c.id < w.next_id
        }) by {
            let c = v.collections[a];
            assert(c.dim >= 1 && 1 <= c.id < v.next_id);
        }
    }
    lemma_places_are_unique(w, name);
    assert(w.index_of(name) == i);
}

/// A name is registered once: after a collection was created, its name is
/// taken, so that a second creation under it is refused; the registry has
/// grown by that one collection, and the name stands at one place only.
pub proof fn law_name_registered_once(
    v: EngineView,
    name: Seq<char>,
    metric: DistanceMetric,
    dim: usize,
)
    requires
        v.wf(),
        !v.contains(name),
        dim >= 1,
        v.next_id < u64::MAX,
    ensures
        ({
            let w = v.created(name, metric, dim);
            &&& w.wf()
            &&& w.contains(name)
            &&& w.get(name) == v.fresh(name, metric, dim)
            &&& w.collections.len() == v.collections.len() + 1
            &&& forall|i: int, j: int|
                0 <= i < w.collections.len() && 0 <= j < w.collections.len() && (
                #[trigger] w.collections[i]).name == name && (#[trigger] w.collections[j]).name
                    == name ==> i == j
        }),
{
    let w = v.created(name, metric, dim);
    let n = v.collections.len() as int;
    assert(w.collections[n] == v.fresh(name, metric, dim));
    assert(w.wf()) by {
        assert forall|a: int, b: int| 0 <= a < b < w.collections.len() implies ({
            let x = #[trigger] w.collections[a];
            let y = #[trigger] w.collections[b];
            x.name != y.name && x.id != y.id
        }) by {
            let x = v.collections[a];
            if b < n {
                let y = v.collections[b];
                assert(x.name != y.name && x.id != y.id);
            } else {
                assert(x.id < v.next_id);
            }
        }
        assert forall|a: int| 0 <= a < w.collections.len() implies ({
            let c = #[trigger] w.collections[a];
            c.dim >= 1 && 1 <= c.id < w.next_id
        }) by {
            if a < n {
                let c = v.collections[a];
                assert(c.dim >= 1 && 1 <= c.id < v.next_id);
            }
        }
    }
    assert(w.collections[n].name == name);
    lemma_places_are_unique(w, name);
    assert(w.index_of(name) == n);
}

/// A creation whose metadata could not be persisted leaves no trace in the
/// registry: once it is withdrawn, the collections are those from before,
/// and the name is free again.
pub proof fn law_failed_creation_leaves_no_trace(
    v: EngineView,
    name: Seq<char>,
    metric: DistanceMetric,
    dim: usize,
)
    requires
        v.wf(),
        !v.contains(name),
        dim >= 1,
        v.next_id < u64::MAX,
    ensures
        v.created(name, metric, dim).withdrawn(name).collections == v.collections,
        !v.created(name, metric, dim).withdrawn(name).contains(name),
{
    law_name_registered_once(v, name, metric, dim);
    let w = v.created(name, metric, dim);
    let n = v.collections.len() as int;
    assert(w.collections[n].name == name);
    lemma_places_are_unique(w, name);
    assert(w.index_of(name) == n);
    assert(w.withdrawn(name).collections =~= v.collections);
}

/// Collections are isolated from each other. Two collections of a
/// consistent registry have different identifiers, so that no key written
/// for a document of the one is a key of a document of the other; and a
/// document stored in the one leaves the other's metadata as it was.
pub proof fn law_collections_are_isolated(
    v: EngineView,
    a: Seq<char>,
    b: Seq<char>,
    doc_a: u64,
    doc_b: u64,
)
    requires
        v.wf(),
        v.contains(a),
        v.contains(b),
        a != b,
    ensures
        v.get(a).id != v.get(b).id,
        vector_key_spec(v.get(a).id, doc_a) != vector_key_spec(v.get(b).id, doc_b),
        metadata_key_spec(v.get(a).id, doc_a) != metadata_key_spec(v.get(b).id, doc_b),
        content_key_spec(v.get(a).id, doc_a) != content_key_spec(v.get(b).id, doc_b),
        forall|e: Seq<u32>, m: Seq<char>, c: Seq<char>, i: int|
            0 <= i < 3 ==> {
                let key = (#[trigger] document_writes(v.get(a).id, doc_a, e, m, c)[i]).0;
                key != metadata_key_spec(v.get(b).id, doc_b) && key != content_key_spec(
                    v.get(b).id,
                    doc_b,
                )
            },
        v.get(a).doc_count < u64::MAX ==> v.counted(v.index_of(a)).contains(b) && v.counted(
            v.index_of(a),
        ).get(b) == v.get(b),
{
    lemma_places_are_unique(v, a);
    lemma_places_are_unique(v, b);
    let i = v.index_of(a);
    let j = v.index_of(b);
    let x = v.collections[i];
    let y = v.collections[j];
    assert(x.name == a && y.name == b);
    assert(i != j);
    assert(x.id != y.id) by {
        if i < j {
            assert(x.name != y.name && x.id != y.id);
        } else {
            assert(y.name != x.name && y.id != x.id);
        }
    }
    law_document_keys_injective(x.id, doc_a, y.id, doc_b);
    law_key_families_disjoint(a, x.id, doc_a, y.id, doc_b);
    law_key_families_disjoint(a, y.id, doc_b, x.id, doc_a);
    if x.doc_count < u64::MAX {
        law_stored_document_counted_once(v, a);
        let w = v.counted(i);
        assert(w.collections[j] == y);
        assert(w.collections[j].name == b);
        lemma_places_are_unique(w, b);
        assert(w.index_of(b) == j);
    }
}

/// How many of the first `k` documents have an embedding whose length is
/// not `dim`.
pub open spec fn mismatches(dim: usize, docs: Seq<DocView>, k: int) -> nat
    decreases k,
{
    if k <= 0 {
        0
    } else {
        mismatches(dim, docs, k - 1) + if docs[k - 1].embedding.len() != dim {
            1nat
        } else {
            0nat
        }
    }
}

/// The places of a batch once every document of it was checked.
pub open spec fn checked_slots(v: EngineView, name: Seq<char>, docs: Seq<DocView>) -> Seq<
    Result<PendingView, Seq<char>>,
> {
    Seq::new(docs.len(), |i: int| slot(v, name, docs, i))
}

/// The state in which the collection at place `i` counts `c` documents
/// more.
pub open spec fn raised(v: EngineView, i: int, c: nat) -> EngineView {
    let m = v.collections[i];
    EngineView {
        collections: v.collections.update(
            i,
            MetaView { doc_count: (m.doc_count + c) as u64, ..m },
        ),
        next_id: v.next_id,
    }
}

proof fn lemma_batch_prefix(v: EngineView, name: Seq<char>, docs: Seq<DocView>, k: int)
    requires
        v.wf(),
        v.contains(name),
        0 <= k <= docs.len(),
        v.next_id + docs.len() <= u64::MAX,
        v.get(name).doc_count + docs.len() <= u64::MAX,
    ensures
        ({
            let dim = v.get(name).dim;
            let slots = checked_slots(v, name, docs);
            let w = planned(v, name, docs, docs.len() as int);
            let f = mismatches(dim, docs, k);
            &&& f <= k
            &&& completed(w, slots, k) == raised(w, v.index_of(name), (k - f) as nat)
            &&& failures(w, slots, k).len() == f
            &&& successes(w, slots, k).len() == k - f
        }),
    decreases k,
{
    let n = docs.len() as int;
    let dim = v.get(name).dim;
    let slots = checked_slots(v, name, docs);
    let w = planned(v, name, docs, n);
    let i0 = v.index_of(name);
    lemma_places_are_unique(v, name);
    lemma_planned_keeps_collections(v, name, docs, n);
    assert(w.collections == v.collections);
    if k == 0 {
        assert(raised(w, i0, 0).collections =~= w.collections);
    } else {
        let j = k - 1;
        lemma_batch_prefix(v, name, docs, j);
        let f = mismatches(dim, docs, j);
        let c = (j - f) as nat;
        let before = completed(w, slots, j);
        assert(before == raised(w, i0, c));
        let at = planned(v, name, docs, j);
        lemma_planned_keeps_collections(v, name, docs, j);
        assert(at.collections == v.collections);
        assert(at.contains(name));
        assert(at.get(name) == v.get(name));
        let d = docs[j];
        assert(slots[j] == slot(v, name, docs, j));
        if d.embedding.len() == dim {
            let cid = v.get(name).id;
            assert(slots[j] matches Ok(p) && p.collection_id == cid);
            assert(before.collections[i0].id == cid);
            assert(before.has_id(cid));
            let q = before.index_of_id(cid);
            assert(before.collections[q].id == cid);
            assert(q == i0) by {
                if q != i0 {
                    let x = v.collections[q];
                    let y = v.collections[i0];
                    assert(before.collections[q] == x);
                    if q < i0 {
                        assert(x.name != y.name && x.id != y.id);
                    } else {
                        assert(y.name != x.name && y.id != x.id);
                    }
                }
            }
            assert(before.counted(i0).collections =~= raised(w, i0, c + 1).collections);
        } else {
            assert(slots[j] is Err);
        }
    }
}

/// A batch succeeds in part. Of `N` documents for a registered collection,
/// `F` of them with an embedding of the wrong length, exactly `F` are
/// reported as failed; where the store takes every other one, `N - F`
/// identifiers come back in place of an overall success, and the
/// collection counts `N - F` documents more.
pub proof fn law_batch_partial_success(v: EngineView, name: Seq<char>, docs: Seq<DocView>)
    requires
        v.wf(),
        v.contains(name),
        v.next_id + docs.len() <= u64::MAX,
        v.get(name).doc_count + docs.len() <= u64::MAX,
    ensures
        ({
            let n = docs.len() as int;
            let f = mismatches(v.get(name).dim, docs, n);
            let slots = checked_slots(v, name, docs);
            let w = planned(v, name, docs, n);
            let end = completed(w, slots, n);
            &&& f <= n
            &&& failures(w, slots, n).len() == f
            &&& successes(w, slots, n).len() == n - f
            &&& end.contains(name)
            &&& end.get(name).doc_count == v.get(name).doc_count + (n - f)
            &&& end.collections.len() == v.collections.len()
            &&& forall|i: int|
                0 <= i < v.collections.len() && i != v.index_of(name)
                    ==> #[trigger] end.collections[i] == v.collections[i]
        }),
{
    let n = docs.len() as int;
    let f = mismatches(v.get(name).dim, docs, n);
    let slots = checked_slots(v, name, docs);
    let w = planned(v, name, docs, n);
    let i0 = v.index_of(name);
    lemma_batch_prefix(v, name, docs, n);
    lemma_places_are_unique(v, name);
    lemma_planned_keeps_collections(v, name, docs, n);
    let end = raised(w, i0, (n - f) as nat);
    assert(end.collections[i0].name == name);
    assert(end.contains(name));
    let q = end.index_of(name);
    assert(end.collections[q].name == name);
    assert(q == i0) by {
        if q != i0 {
            let x = v.collections[q];
            let y = v.collections[i0];
            assert(end.collections[q] == x);
            if q < i0 {
                assert(x.name != y.name && x.id != y.id);
            } else {
                assert(y.name != x.name && y.id != x.id);
            }
        }
    }
}

/// A stored document is read back. Once the writes of a document were
/// committed, whatever the store held before, its embedding is decoded from
/// what stands under the document's vector key, and its metadata and its
/// content are the texts that a query reads under its two payload keys.
pub proof fn law_stored_document_is_read_back(
    store: Map<Seq<u8>, Seq<u8>>,
    collection_id: u64,
    doc_id: u64,
    embedding: Seq<u32>,
    metadata: Seq<char>,
    content: Seq<char>,
)
    ensures
        ({
            let after = committed(
                store,
                document_writes(collection_id, doc_id, embedding, metadata, content),
            );
            &&& fetched(after, vector_key_spec(collection_id, doc_id)) == Some(
                encode_spec(embedding),
            )
            &&& decode_spec(encode_spec(embedding)) == embedding
            &&& payload_text(fetched(after, metadata_key_spec(collection_id, doc_id)))
                == metadata
            &&& payload_text(fetched(after, content_key_spec(collection_id, doc_id))) == content
        }),
{
    let writes = document_writes(collection_id, doc_id, embedding, metadata, content);
    law_key_families_disjoint(Seq::empty(), collection_id, doc_id, collection_id, doc_id);
    lemma_committed_here(store, writes, 0);
    lemma_committed_here(store, writes, 1);
    lemma_committed_here(store, writes, 2);
    law_codec_round_trip(embedding);
    law_text_round_trip(metadata);
    law_text_round_trip(content);
}

/// Storing a document leaves every other document's stored parts as they
/// were, in the same collection and in any other.
pub proof fn law_documents_do_not_overwrite_each_other(
    store: Map<Seq<u8>, Seq<u8>>,
    collection_id: u64,
    doc_id: u64,
    embedding: Seq<u32>,
    metadata: Seq<char>,
    content: Seq<char>,
    other_collection: u64,
    other_doc: u64,
)
    requires
        collection_id != other_collection || doc_id != other_doc,
    ensures
        ({
            let after = committed(
                store,
                document_writes(collection_id, doc_id, embedding, metadata, content),
            );
            &&& fetched(after, vector_key_spec(other_collection, other_doc)) == fetched(
                store,
                vector_key_spec(other_collection, other_doc),
            )
            &&& fetched(after, metadata_key_spec(other_collection, other_doc)) == fetched(
                store,
                metadata_key_spec(other_collection, other_doc),
            )
            &&& fetched(after, content_key_spec(other_collection, other_doc)) == fetched(
                store,
                content_key_spec(other_collection, other_doc),
            )
        }),
{
    let writes = document_writes(collection_id, doc_id, embedding, metadata, content);
    law_document_keys_injective(collection_id, doc_id, other_collection, other_doc);
    law_key_families_disjoint(Seq::empty(), collection_id, doc_id, other_collection, other_doc);
    law_key_families_disjoint(Seq::empty(), other_collection, other_doc, collection_id, doc_id);
    lemma_committed_elsewhere(store, writes, vector_key_spec(other_collection, other_doc));
    lemma_committed_elsewhere(store, writes, metadata_key_spec(other_collection, other_doc));
    lemma_committed_elsewhere(store, writes, content_key_spec(other_collection, other_doc));
}

} // verus!
