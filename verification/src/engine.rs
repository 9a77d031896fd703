//! The engine: the registry of collections and the identifier allocator.

use vstd::prelude::*;
use vstd::string::*;
use crate::collection::{
    ef_search, hnsw_params_spec, CollectionEntry, CollectionMeta, HnswParams, MetaView,
};
use crate::document::{document_batch, document_writes, PendingDocument, PendingView};
use crate::error::EngineError;
use crate::ids::IdAllocator;
use crate::metric::DistanceMetric;
use crate::search::{ef_search_clamped, SearchPlan};
use crate::text::same_text;

verus! {

/// The engine's state: every registered collection, in the order of
/// creation, and the counter from which identifiers are taken.
pub struct VectorDB {
    collections: Vec<CollectionEntry>,
    ids: IdAllocator,
}

/// The mathematical content of the engine's state.
pub ghost struct EngineView {
    /// The metadata of the registered collections, oldest first.
    pub collections: Seq<MetaView>,
    /// The identifier that is handed out next.
    pub next_id: u64,
}

impl EngineView {
    /// Whether a collection is registered under `name`.
    pub open spec fn contains(self, name: Seq<char>) -> bool {
        exists|i: int| 0 <= i < self.collections.len() && (#[trigger] self.collections[i]).name == name
    }

    /// The place of the collection registered under `name`.
    pub open spec fn index_of(self, name: Seq<char>) -> int {
        choose|i: int| 0 <= i < self.collections.len() && (#[trigger] self.collections[i]).name == name
    }

    /// The metadata of the collection registered under `name`.
    pub open spec fn get(self, name: Seq<char>) -> MetaView {
        self.collections[self.index_of(name)]
    }

    /// Whether a collection with the identifier `id` is registered.
    pub open spec fn has_id(self, id: u64) -> bool {
        exists|i: int| 0 <= i < self.collections.len() && (#[trigger] self.collections[i]).id == id
    }

    /// The place of the collection with the identifier `id`.
    pub open spec fn index_of_id(self, id: u64) -> int {
        choose|i: int| 0 <= i < self.collections.len() && (#[trigger] self.collections[i]).id == id
    }

    /// The invariant of the registry: no name and no identifier occurs twice,
    /// every dimension is at least one, and every identifier in use was
    /// handed out by the counter.
    pub open spec fn wf(self) -> bool {
        &&& self.next_id >= 1
        &&& forall|i: int|
            0 <= i < self.collections.len() ==> {
                let c = #[trigger] self.collections[i];
                c.dim >= 1 && 1 <= c.id < self.next_id
            }
        &&& forall|i: int, j: int|
            0 <= i < j < self.collections.len() ==> {
                let a = #[trigger] self.collections[i];
                let b = #[trigger] self.collections[j];
                a.name != b.name && a.id != b.id
            }
    }

    /// The state after one identifier was handed out.
    pub open spec fn minted(self) -> EngineView {
        EngineView { collections: self.collections, next_id: (self.next_id + 1) as u64 }
    }

    /// The metadata of a collection that was just created in this state.
    pub open spec fn fresh(self, name: Seq<char>, metric: DistanceMetric, dim: usize) -> MetaView {
        MetaView { id: self.next_id, name, dim, metric, doc_count: 0 }
    }

    /// The state after a collection was created.
    pub open spec fn created(self, name: Seq<char>, metric: DistanceMetric, dim: usize) -> EngineView {
        EngineView {
            collections: self.collections.push(self.fresh(name, metric, dim)),
            next_id: (self.next_id + 1) as u64,
        }
    }

    /// The state without the collection registered under `name`.
    pub open spec fn withdrawn(self, name: Seq<char>) -> EngineView {
        if self.contains(name) {
            EngineView {
                collections: self.collections.remove(self.index_of(name)),
                next_id: self.next_id,
            }
        } else {
            self
        }
    }

    /// Whether a vector of `len` components can go into, or be asked of, the
    /// collection registered under `name`.
    pub open spec fn admits(self, name: Seq<char>, len: nat) -> bool {
        self.contains(name) && self.get(name).dim == len
    }

    /// Why a vector is not admitted: the collection is missing, or else its
    /// dimension is another.
    pub open spec fn refusal(self, name: Seq<char>) -> EngineError {
        if self.contains(name) {
            EngineError::DimensionMismatch
        } else {
            EngineError::CollectionNotFound
        }
    }

    /// The identifier that a document gets: the one asked for, or else the
    /// next of the counter.
    pub open spec fn assigned_id(self, id: Option<u64>) -> u64 {
        match id {
            Some(x) => x,
            None => self.next_id,
        }
    }

    /// The state after a document was given its identifier.
    pub open spec fn after_assignment(self, id: Option<u64>) -> EngineView {
        match id {
            Some(_) => self,
            None => self.minted(),
        }
    }

    /// The document that waits to be stored once it was admitted.
    pub open spec fn pending(
        self,
        name: Seq<char>,
        id: Option<u64>,
        embedding: Seq<u32>,
        metadata: Seq<char>,
        content: Seq<char>,
    ) -> PendingView {
        PendingView {
            collection_id: self.get(name).id,
            doc_id: self.assigned_id(id),
            requested_id: id,
            writes: document_writes(
                self.get(name).id,
                self.assigned_id(id),
                embedding,
                metadata,
                content,
            ),
        }
    }

    /// What a query for `top_k` neighbours asks of the collection registered
    /// under `name`.
    pub open spec fn plan(self, name: Seq<char>, top_k: usize) -> SearchPlan {
        SearchPlan {
            collection_id: self.get(name).id,
            top_k,
            ef_search: ef_search_clamped(top_k),
        }
    }

    /// Whether every collection can count `n` documents more.
    pub open spec fn room_for(self, n: nat) -> bool {
        forall|i: int|
            0 <= i < self.collections.len() ==> (#[trigger] self.collections[i]).doc_count + n
                <= u64::MAX
    }

    /// The state after the collection at place `i` took in one document.
    pub open spec fn counted(self, i: int) -> EngineView {
        let c = self.collections[i];
        EngineView {
            collections: self.collections.update(
                i,
                MetaView { doc_count: (c.doc_count + 1) as u64, ..c },
            ),
            next_id: self.next_id,
        }
    }
}

/// The number of documents that a list of collections holds together.
pub open spec fn total_documents(collections: Seq<MetaView>) -> nat
    decreases collections.len(),
{
    if collections.len() == 0 {
        0
    } else {
        total_documents(collections.drop_last()) + collections.last().doc_count as nat
    }
}

/// The engine's size: how many collections it holds, and how many documents
/// they hold together.
#[derive(Clone, Copy, Debug, PartialEq, Eq, Structural)]
pub struct MemoryStats {
    pub collections_count: usize,
    pub total_documents: usize,
}

impl View for VectorDB {
    type V = EngineView;

    closed spec fn view(&self) -> EngineView {
        EngineView {
            collections: Seq::new(self.collections@.len(), |i: int| self.collections@[i].meta@),
            next_id: self.ids@,
        }
    }
}

impl VectorDB {
    /// Whether the engine's state is consistent: the registry's invariant
    /// holds, and every collection's index is configured for the
    /// collection's dimension. Every constructor establishes this and every
    /// operation keeps it.
    pub open spec fn wf(&self) -> bool {
        &&& self@.wf()
        &&& self.indexed()
    }

    /// Whether every collection's index is configured for the collection's
    /// dimension.
    pub closed spec fn indexed(&self) -> bool {
        forall|i: int| 0 <= i < self.collections@.len() ==> (#[trigger] self.collections@[i]).wf()
    }

    /// An engine with no collection, whose first identifier is 1.
    pub fn new() -> (db: Self)
        ensures
            db.wf(),
            db@ == (EngineView { collections: Seq::empty(), next_id: 1 }),
    {
        let db = VectorDB { collections: Vec::new(), ids: IdAllocator::new() };
        assert(db@.collections =~= Seq::empty());
        db
    }

    /// Whether the identifier counter has reached its end, so that no
    /// further identifier can be handed out.
    pub fn ids_exhausted(&self) -> (r: bool)
        ensures
            r == (self@.next_id == u64::MAX),
    {
        self.ids.is_exhausted()
    }

    /// The number of identifiers that can still be handed out.
    pub fn ids_left(&self) -> (r: u64)
        ensures
            r == u64::MAX - self@.next_id,
    {
        self.ids.remaining()
    }

    /// Whether every collection can count `n` documents more.
    pub fn has_room_for(&self, n: u64) -> (r: bool)
        ensures
            r == self@.room_for(n as nat),
    {
        let mut i: usize = 0;
        while i < self.collections.len()
            invariant
                i <= self.collections@.len(),
                self@.collections.len() == self.collections@.len(),
                forall|j: int|
                    0 <= j < i ==> (#[trigger] self@.collections[j]).doc_count + n <= u64::MAX,
            decreases self.collections@.len() - i,
        {
            if self.collections[i].meta.doc_count > u64::MAX - n {
                assert(self@.collections[i as int].doc_count + n > u64::MAX);
                return false;
            }
            i += 1;
        }
        true
    }

    /// Hands out the next identifier.
    fn generate_id(&mut self) -> (id: u64)
        requires
            old(self).wf(),
            old(self)@.next_id < u64::MAX,
        ensures
            final(self).wf(),
            id == old(self)@.next_id,
            final(self)@ == old(self)@.minted(),
    {
        let id = self.ids.next();
        assert(self@.collections =~= old(self)@.collections);
        id
    }

    /// The place of the collection registered under `name`, if there is one.
    fn position(&self, name: &str) -> (r: Option<usize>)
        requires
            self.wf(),
        ensures
            match r {
                Some(i) => self@.contains(name@) && i == self@.index_of(name@) && i
                    < self.collections@.len() && self.collections@[i as int].meta@ == self@.get(
                    name@,
                ),
                None => !self@.contains(name@),
            },
    {
        let mut i: usize = 0;
        while i < self.collections.len()
            invariant
                self.wf(),
                i <= self.collections@.len(),
                self@.collections.len() == self.collections@.len(),
                forall|j: int| 0 <= j < i ==> (#[trigger] self@.collections[j]).name != name@,
            decreases self.collections@.len() - i,
        {
            if same_text(self.collections[i].meta.name.as_str(), name) {
                proof {
                    let k = self@.index_of(name@);
                    assert(self@.collections[i as int].name == name@);
                    assert(self@.collections[k].name == name@);
                    assert(k == i);
                }
                return Some(i);
            }
            i += 1;
        }
        None
    }

    /// Registers a new, empty collection under `name` and returns its
    /// metadata. A name that is taken already is refused with `Duplicate`,
    /// and nothing changes.
    pub fn create_collection(&mut self, name: &str, metric: DistanceMetric, dim: usize) -> (r:
        Result<CollectionMeta, EngineError>)
        requires
            old(self).wf(),
            dim >= 1,
            old(self)@.next_id < u64::MAX,
        ensures
            final(self).wf(),
            match r {
                Ok(meta) => {
                    &&& !old(self)@.contains(name@)
                    &&& meta@ == old(self)@.fresh(name@, metric, dim)
                    &&& final(self)@ == old(self)@.created(name@, metric, dim)
                },
                Err(e) => {
                    &&& e == EngineError::Duplicate
                    &&& old(self)@.contains(name@)
                    &&& final(self)@ == old(self)@
                },
            },
    {
        if self.position(name).is_some() {
            return Err(EngineError::Duplicate);
        }
        let id = self.generate_id();
        let meta = CollectionMeta { id, name: name.to_owned(), dim, metric, doc_count: 0 };
        let entry = CollectionEntry::new(meta.clone());
        self.collections.push(entry);
        assert(self@.collections =~= old(self)@.created(name@, metric, dim).collections);
        Ok(meta)
    }

    /// The metadata of the collection registered under `name`.
    pub fn get_collection_by_name(&self, name: &str) -> (r: Result<CollectionMeta, EngineError>)
        requires
            self.wf(),
        ensures
            match r {
                Ok(meta) => self@.contains(name@) && meta@ == self@.get(name@),
                Err(e) => e == EngineError::CollectionNotFound && !self@.contains(name@),
            },
    {
        match self.position(name) {
            Some(i) => Ok(self.collections[i].meta.clone()),
            None => Err(EngineError::CollectionNotFound),
        }
    }

    /// The parameters with which the index of the collection registered
    /// under `name` is built: those that the collection's dimension calls
    /// for.
    pub fn index_params(&self, name: &str) -> (r: Result<HnswParams, EngineError>)
        requires
            self.wf(),
        ensures
            match r {
                Ok(p) => self@.contains(name@) && p == hnsw_params_spec(self@.get(name@).dim),
                Err(e) => e == EngineError::CollectionNotFound && !self@.contains(name@),
            },
    {
        match self.position(name) {
            Some(i) => Ok(self.collections[i].index_params()),
            None => Err(EngineError::CollectionNotFound),
        }
    }

    /// The metadata of every registered collection, oldest first.
    pub fn list_collections(&self) -> (r: Vec<CollectionMeta>)
        ensures
            r@.len() == self@.collections.len(),
            forall|i: int| 0 <= i < r@.len() ==> (#[trigger] r@[i])@ == self@.collections[i],
    {
        let mut out: Vec<CollectionMeta> = Vec::new();
        let mut i: usize = 0;
        while i < self.collections.len()
            invariant
                i <= self.collections@.len(),
                out@.len() == i,
                self@.collections.len() == self.collections@.len(),
                forall|j: int| 0 <= j < i ==> (#[trigger] out@[j])@ == self@.collections[j],
            decreases self.collections@.len() - i,
        {
            out.push(self.collections[i].meta.clone());
            i += 1;
        }
        out
    }

    /// The place of the collection with the identifier `id`, if there is one.
    fn position_of_id(&self, id: u64) -> (r: Option<usize>)
        requires
            self.wf(),
        ensures
            match r {
                Some(i) => self@.has_id(id) && i == self@.index_of_id(id) && i
                    < self.collections@.len(),
                None => !self@.has_id(id),
            },
    {
        let mut i: usize = 0;
        while i < self.collections.len()
            invariant
                self.wf(),
                i <= self.collections@.len(),
                self@.collections.len() == self.collections@.len(),
                forall|j: int| 0 <= j < i ==> (#[trigger] self@.collections[j]).id != id,
            decreases self.collections@.len() - i,
        {
            if self.collections[i].meta.id == id {
                proof {
                    let k = self@.index_of_id(id);
                    assert(self@.collections[i as int].id == id);
                    assert(self@.collections[k].id == id);
                    assert(k == i);
                }
                return Some(i);
            }
            i += 1;
        }
        None
    }

    /// Settles a creation once the collection's metadata was written to the
    /// persistent store, or could not be. After a failure the collection is
    /// withdrawn, so that no later operation sees it, and the store's error
    /// is handed on.
    pub fn confirm_collection(&mut self, name: &str, persisted: Result<(), String>) -> (r: Result<
        (),
        EngineError,
    >)
        requires
            old(self).wf(),
        ensures
            final(self).wf(),
            match persisted {
                Ok(_) => r is Ok && final(self)@ == old(self)@,
                Err(msg) => r == Err::<(), EngineError>(EngineError::Storage(msg)) && final(self)@
                    == old(self)@.withdrawn(name@),
            },
    {
        match persisted {
            Ok(_) => Ok(()),
            Err(msg) => {
                match self.position(name) {
                    Some(i) => {
                        self.collections.remove(i);
                        assert(self@.collections =~= old(self)@.collections.remove(i as int));
                    },
                    None => {},
                }
                Err(EngineError::Storage(msg))
            },
        }
    }

    /// Checks a document against the collection it is meant for, gives it an
    /// identifier and lays out the writes that store it. The collection's
    /// document count does not change before `complete_document` is told
    /// that the writes were committed. A document that is refused changes
    /// nothing.
    pub fn add_document(
        &mut self,
        col_name: &str,
        id: Option<u64>,
        embedding: &[u32],
        metadata: &str,
        content: &str,
    ) -> (r: Result<PendingDocument, EngineError>)
        requires
            old(self).wf(),
            id is None ==> old(self)@.next_id < u64::MAX,
        ensures
            final(self).wf(),
            match r {
                Ok(p) => {
                    &&& old(self)@.admits(col_name@, embedding@.len())
                    &&& p@ == old(self)@.pending(col_name@, id, embedding@, metadata@, content@)
                    &&& final(self)@ == old(self)@.after_assignment(id)
                },
                Err(e) => {
                    &&& !old(self)@.admits(col_name@, embedding@.len())
                    &&& e == old(self)@.refusal(col_name@)
                    &&& final(self)@ == old(self)@
                },
            },
    {
        let i = match self.position(col_name) {
            Some(i) => i,
            None => {
                return Err(EngineError::CollectionNotFound);
            },
        };
        if embedding.len() != self.collections[i].meta.dim {
            return Err(EngineError::DimensionMismatch);
        }
        let collection_id = self.collections[i].meta.id;
        let doc_id = match id {
            Some(x) => x,
            None => self.generate_id(),
        };
        let writes = document_batch(collection_id, doc_id, embedding, metadata, content);
        Ok(PendingDocument { collection_id, doc_id, requested_id: id, writes })
    }

    /// Counts one stored document for the collection with the identifier
    /// `collection_id`.
    pub(crate) fn count_document(&mut self, collection_id: u64) -> (r: Result<(), EngineError>)
        requires
            old(self).wf(),
            old(self)@.has_id(collection_id) ==> old(self)@.collections[old(self)@.index_of_id(
                collection_id,
            )].doc_count < u64::MAX,
        ensures
            final(self).wf(),
            if old(self)@.has_id(collection_id) {
                r is Ok && final(self)@ == old(self)@.counted(
                    old(self)@.index_of_id(collection_id),
                )
            } else {
                r == Err::<(), EngineError>(EngineError::CollectionNotFound) && final(self)@
                    == old(self)@
            },
    {
        match self.position_of_id(collection_id) {
            None => Err(EngineError::CollectionNotFound),
            Some(i) => {
                self.collections[i].meta.doc_count = self.collections[i].meta.doc_count + 1;
                assert(self@.collections =~= old(self)@.counted(i as int).collections);
                Ok(())
            },
        }
    }

    /// Settles an insertion once the document's writes were committed, or
    /// could not be. After a commit the collection counts one document more
    /// and the document's identifier is returned; after a failure nothing
    /// changes and the store's error is handed on. The pending document is
    /// used up, so that no document is counted twice.
    pub fn complete_document(&mut self, pending: PendingDocument, stored: Result<(), String>) -> (r:
        Result<u64, EngineError>)
        requires
            old(self).wf(),
            stored is Ok && old(self)@.has_id(pending.collection_id) ==> old(self)@.collections[old(
                self,
            )@.index_of_id(pending.collection_id)].doc_count < u64::MAX,
        ensures
            final(self).wf(),
            match stored {
                Err(msg) => r == Err::<u64, EngineError>(EngineError::Storage(msg)) && final(self)@
                    == old(self)@,
                Ok(_) => if old(self)@.has_id(pending.collection_id) {
                    r == Ok::<u64, EngineError>(pending.doc_id) && final(self)@ == old(
                        self,
                    )@.counted(old(self)@.index_of_id(pending.collection_id))
                } else {
                    r == Err::<u64, EngineError>(EngineError::CollectionNotFound) && final(self)@
                        == old(self)@
                },
            },
    {
        match stored {
            Err(msg) => Err(EngineError::Storage(msg)),
            Ok(_) => match self.count_document(pending.collection_id) {
                Ok(_) => Ok(pending.doc_id),
                Err(e) => Err(e),
            },
        }
    }

    /// Checks a query against the collection it is meant for and says what
    /// to ask of the collection's index. The engine's state does not change.
    pub fn search(&self, col_name: &str, query: &[u32], top_k: usize) -> (r: Result<
        SearchPlan,
        EngineError,
    >)
        requires
            self.wf(),
        ensures
            match r {
                Ok(plan) => self@.admits(col_name@, query@.len()) && plan == self@.plan(
                    col_name@,
                    top_k,
                ),
                Err(e) => !self@.admits(col_name@, query@.len()) && e == self@.refusal(col_name@),
            },
    {
        let i = match self.position(col_name) {
            Some(i) => i,
            None => {
                return Err(EngineError::CollectionNotFound);
            },
        };
        if query.len() != self.collections[i].meta.dim {
            return Err(EngineError::DimensionMismatch);
        }
        Ok(
            SearchPlan {
                collection_id: self.collections[i].meta.id,
                top_k,
                ef_search: ef_search(top_k),
            },
        )
    }

    /// Counts the collections and their documents. A total that a `usize`
    /// cannot express is reported as the largest `usize`.
    pub fn get_memory_stats(&self) -> (r: MemoryStats)
        ensures
            r.collections_count == self@.collections.len(),
            r.total_documents as nat == if total_documents(self@.collections) <= usize::MAX {
                total_documents(self@.collections)
            } else {
                usize::MAX as nat
            },
    {
        let ghost cs = self@.collections;
        let mut total: u64 = 0;
        let mut i: usize = 0;
        while i < self.collections.len()
            invariant
                i <= self.collections@.len(),
                cs == self@.collections,
                cs.len() == self.collections@.len(),
                total as nat == if total_documents(cs.subrange(0, i as int)) <= u64::MAX {
                    total_documents(cs.subrange(0, i as int))
                } else {
                    u64::MAX as nat
                },
            decreases self.collections@.len() - i,
        {
            let count: u64 = self.collections[i].meta.doc_count;
            proof {
                assert(cs.subrange(0, i + 1).drop_last() =~= cs.subrange(0, i as int));
                assert(cs.subrange(0, i + 1).last() == cs[i as int]);
                assert(cs[i as int].doc_count == count);
            }
            total = if count > u64::MAX - total {
                u64::MAX
            } else {
                total + count
            };
            i += 1;
        }
        assert(cs.subrange(0, i as int) =~= cs);
        let total_documents: usize = if total > usize::MAX as u64 {
            usize::MAX
        } else {
            total as usize
        };
        MemoryStats { collections_count: self.collections.len(), total_documents }
    }
}

} // verus!
