//! Batch insertion: many documents for one collection, each handled as a
//! single insertion would be, with the failures reported one by one.

use vstd::prelude::*;
use vstd::string::*;
use crate::document::{PendingDocument, PendingView};
use crate::engine::{EngineView, VectorDB};
use crate::error::EngineError;
use crate::request::{docs_view, AddDocumentRequest, DocView};
use crate::text::{describe_failure, failure_text};

verus! {

/// The content of one place of a batch: a document that waits to be stored,
/// or the report of why the document failed.
pub open spec fn slot_view(slot: Result<PendingDocument, String>) -> Result<PendingView, Seq<char>> {
    match slot {
        Ok(p) => Ok(p@),
        Err(m) => Err(m@),
    }
}

/// The contents of the places of a batch, in their order.
pub open spec fn slots_view(slots: Seq<Result<PendingDocument, String>>) -> Seq<
    Result<PendingView, Seq<char>>,
> {
    Seq::new(slots.len(), |i: int| slot_view(slots[i]))
}

/// The texts of a list of reports, in their order.
pub open spec fn texts(reports: Seq<String>) -> Seq<Seq<char>> {
    Seq::new(reports.len(), |i: int| reports[i]@)
}

/// The state after the first `k` documents of a batch were checked, one
/// after the other.
pub open spec fn planned(v: EngineView, name: Seq<char>, docs: Seq<DocView>, k: int) -> EngineView
    decreases k,
{
    if k <= 0 {
        v
    } else {
        let before = planned(v, name, docs, k - 1);
        let d = docs[k - 1];
        if before.admits(name, d.embedding.len()) {
            before.after_assignment(d.id)
        } else {
            before
        }
    }
}

/// What the place of document `i` holds once the batch was checked.
pub open spec fn slot(v: EngineView, name: Seq<char>, docs: Seq<DocView>, i: int) -> Result<
    PendingView,
    Seq<char>,
> {
    let before = planned(v, name, docs, i);
    let d = docs[i];
    if before.admits(name, d.embedding.len()) {
        Ok(before.pending(name, d.id, d.embedding, d.metadata, d.content))
    } else {
        Err(failure_text(d.id, before.refusal(name).message_spec()))
    }
}

/// The state after the first `k` places of a batch were settled, one after
/// the other: each stored document is counted by its collection.
pub open spec fn completed(v: EngineView, settled: Seq<Result<PendingView, Seq<char>>>, k: int) -> EngineView
    decreases k,
{
    if k <= 0 {
        v
    } else {
        let before = completed(v, settled, k - 1);
        match settled[k - 1] {
            Ok(p) => if before.has_id(p.collection_id) {
                before.counted(before.index_of_id(p.collection_id))
            } else {
                before
            },
            Err(_) => before,
        }
    }
}

/// How place `i` of a batch ends: with the identifier of the stored
/// document, or with the report of its failure.
pub open spec fn outcome(v: EngineView, settled: Seq<Result<PendingView, Seq<char>>>, i: int) -> Result<
    u64,
    Seq<char>,
> {
    match settled[i] {
        Ok(p) => if completed(v, settled, i).has_id(p.collection_id) {
            Ok(p.doc_id)
        } else {
            Err(failure_text(p.requested_id, EngineError::CollectionNotFound.message_spec()))
        },
        Err(m) => Err(m),
    }
}

/// The identifiers of the documents stored among the first `k` places, in
/// the order of the places.
pub open spec fn successes(v: EngineView, settled: Seq<Result<PendingView, Seq<char>>>, k: int) -> Seq<u64>
    decreases k,
{
    if k <= 0 {
        Seq::empty()
    } else {
        match outcome(v, settled, k - 1) {
            Ok(id) => successes(v, settled, k - 1).push(id),
            Err(_) => successes(v, settled, k - 1),
        }
    }
}

/// The reports of the documents that failed among the first `k` places, in
/// the order of the places.
pub open spec fn failures(v: EngineView, settled: Seq<Result<PendingView, Seq<char>>>, k: int) -> Seq<Seq<char>>
    decreases k,
{
    if k <= 0 {
        Seq::empty()
    } else {
        match outcome(v, settled, k - 1) {
            Ok(_) => failures(v, settled, k - 1),
            Err(m) => failures(v, settled, k - 1).push(m),
        }
    }
}

/// Checking documents leaves every collection as it was and takes no more
/// identifiers than there are documents.
pub proof fn lemma_planned_keeps_collections(v: EngineView, name: Seq<char>, docs: Seq<DocView>, k: int)
    requires
        0 <= k,
        v.next_id + k <= u64::MAX,
    ensures
        planned(v, name, docs, k).collections == v.collections,
        v.next_id <= planned(v, name, docs, k).next_id <= v.next_id + k,
    decreases k,
{
    if k > 0 {
        lemma_planned_keeps_collections(v, name, docs, k - 1);
    }
}

impl VectorDB {
    /// Checks the documents of a batch, in their order, as `add_document`
    /// checks one: each place of the result holds the document that waits to
    /// be stored, or the report of why it was refused. An empty batch and a
    /// missing collection are refused as a whole, and nothing changes.
    pub fn add_documents(&mut self, col_name: &str, docs: &Vec<AddDocumentRequest>) -> (r: Result<
        Vec<Result<PendingDocument, String>>,
        EngineError,
    >)
        requires
            old(self).wf(),
            old(self)@.next_id + docs@.len() <= u64::MAX,
        ensures
            final(self).wf(),
            match r {
                Ok(slots) => {
                    &&& docs@.len() > 0
                    &&& old(self)@.contains(col_name@)
                    &&& slots@.len() == docs@.len()
                    &&& forall|i: int|
                        0 <= i < slots@.len() ==> slot_view(#[trigger] slots@[i]) == slot(
                            old(self)@,
                            col_name@,
                            docs_view(docs@),
                            i,
                        )
                    &&& final(self)@ == planned(
                        old(self)@,
                        col_name@,
                        docs_view(docs@),
                        docs@.len() as int,
                    )
                },
                Err(e) => {
                    &&& final(self)@ == old(self)@
                    &&& if docs@.len() == 0 {
                        e == EngineError::EmptyBatch
                    } else {
                        e == EngineError::CollectionNotFound && !old(self)@.contains(col_name@)
                    }
                },
            },
    {
        if docs.len() == 0 {
            return Err(EngineError::EmptyBatch);
        }
        if self.get_collection_by_name(col_name).is_err() {
            return Err(EngineError::CollectionNotFound);
        }
        let ghost v0 = self@;
        let ghost dv = docs_view(docs@);
        let mut slots: Vec<Result<PendingDocument, String>> = Vec::new();
        let mut i: usize = 0;
        while i < docs.len()
            invariant
                self.wf(),
                i <= docs@.len(),
                dv == docs_view(docs@),
                v0.next_id + docs@.len() <= u64::MAX,
                self@ == planned(v0, col_name@, dv, i as int),
                slots@.len() == i,
                forall|j: int|
                    0 <= j < i ==> slot_view(#[trigger] slots@[j]) == slot(v0, col_name@, dv, j),
            decreases docs@.len() - i,
        {
            proof {
                lemma_planned_keeps_collections(v0, col_name@, dv, i as int);
            }
            let d = &docs[i];
            match self.add_document(
                col_name,
                d.id,
                d.embedding.as_slice(),
                d.metadata.as_str(),
                d.content.as_str(),
            ) {
                Ok(p) => {
                    slots.push(Ok(p));
                },
                Err(e) => {
                    let reason = e.message();
                    slots.push(Err(describe_failure(d.id, reason.as_str())));
                },
            }
            i += 1;
        }
        Ok(slots)
    }

    /// Settles a batch once its documents were stored, or could not be. The
    /// places are taken in their order; each stored document is counted by
    /// its collection. Where every place holds a stored document, the
    /// documents' identifiers are returned; otherwise the reports of the
    /// failed ones, while the stored ones stay counted. The batch is used
    /// up, so that no document is counted twice.
    pub fn complete_documents(&mut self, settled: Vec<Result<PendingDocument, String>>) -> (r:
        Result<Vec<u64>, Vec<String>>)
        requires
            old(self).wf(),
            old(self)@.room_for(settled@.len()),
        ensures
            final(self).wf(),
            final(self)@ == completed(old(self)@, slots_view(settled@), settled@.len() as int),
            match r {
                Ok(ids) => {
                    &&& failures(old(self)@, slots_view(settled@), settled@.len() as int).len()
                        == 0
                    &&& ids@ == successes(old(self)@, slots_view(settled@), settled@.len() as int)
                },
                Err(reports) => {
                    &&& reports@.len() > 0
                    &&& texts(reports@) == failures(
                        old(self)@,
                        slots_view(settled@),
                        settled@.len() as int,
                    )
                },
            },
    {
        let ghost v0 = self@;
        let ghost sv = slots_view(settled@);
        let mut ids: Vec<u64> = Vec::new();
        let mut reports: Vec<String> = Vec::new();
        let mut i: usize = 0;
        while i < settled.len()
            invariant
                self.wf(),
                i <= settled@.len(),
                sv == slots_view(settled@),
                self@ == completed(v0, sv, i as int),
                self@.room_for((settled@.len() - i) as nat),
                ids@ == successes(v0, sv, i as int),
                texts(reports@) == failures(v0, sv, i as int),
            decreases settled@.len() - i,
        {
            let ghost before = self@;
            match &settled[i] {
                Ok(p) => {
                    proof {
                        if before.has_id(p.collection_id) {
                            let k = before.index_of_id(p.collection_id);
                            assert(before.collections[k].doc_count + (settled@.len() - i)
                                <= u64::MAX);
                        }
                    }
                    match self.count_document(p.collection_id) {
                        Ok(_) => {
                            ids.push(p.doc_id);
                        },
                        Err(e) => {
                            let reason = e.message();
                            reports.push(describe_failure(p.requested_id, reason.as_str()));
                        },
                    }
                },
                Err(m) => {
                    reports.push(m.clone());
                },
            }
            i += 1;
        }
        if reports.len() == 0 {
            Ok(ids)
        } else {
            Err(reports)
        }
    }
}

/// Settles one place of a batch once the store has answered for it. A
/// refused document keeps its report; a document whose writes were committed
/// stays as it is; a document whose writes failed is replaced by the report
/// of the store's error.
pub fn settle(slot: Result<PendingDocument, String>, stored: Result<(), String>) -> (r: Result<
    PendingDocument,
    String,
>)
    ensures
        match slot {
            Err(m) => r == Err::<PendingDocument, String>(m),
            Ok(p) => match stored {
                Ok(_) => r == Ok::<PendingDocument, String>(p),
                Err(msg) => r matches Err(report) && report@ == failure_text(
                    p.requested_id,
                    msg@,
                ),
            },
        },
{
    match slot {
        Err(m) => Err(m),
        Ok(p) => match stored {
            Ok(_) => Ok(p),
            Err(msg) => Err(describe_failure(p.requested_id, msg.as_str())),
        },
    }
}

/// The size of the chunks in which a batch of `len` documents is handed to
/// `parallelism` workers: `len / parallelism`, and no less than one.
pub open spec fn chunk_size_spec(len: nat, parallelism: nat) -> nat {
    if len / parallelism >= 1 {
        len / parallelism
    } else {
        1
    }
}

/// The size of the chunks for a batch of `len` documents and `parallelism`
/// workers.
pub fn chunk_size(len: usize, parallelism: usize) -> (r: usize)
    requires
        parallelism >= 1,
    ensures
        r == chunk_size_spec(len as nat, parallelism as nat),
{
    let per_worker: usize = len / parallelism;
    if per_worker >= 1 {
        per_worker
    } else {
        1
    }
}

/// Calls `num_cpus::get`. Trusted: the number of logical processors that
/// this process may use is at least one.
#[verifier::external_body]
fn available_cpus() -> (n: usize)
    ensures
        n >= 1,
{
    num_cpus::get()
}

/// The size of the chunks for a batch of `len` documents on this machine,
/// with one worker for each processor. The number of processors is the
/// machine's, so the result is stated for whatever that number is.
pub fn batch_chunk_size(len: usize) -> (r: usize)
    ensures
        exists|p: nat| p >= 1 && r == chunk_size_spec(len as nat, p),
        1 <= r,
        r <= len || r == 1,
{
    let p = available_cpus();
    let r = chunk_size(len, p);
    assert(len / p <= len) by (nonlinear_arith)
        requires
            p >= 1,
    ;
    r
}

} // verus!
