//! What is written to the persistent store for one document.

use vstd::prelude::*;
use vstd::string::*;
use vstd::utf8::*;
use crate::codec::{encode_embedding, encode_spec};
use crate::keys::{
    content_key, content_key_spec, metadata_key, metadata_key_spec, vector_key, vector_key_spec,
};

verus! {

/// One write to the persistent store: the value that a key is to hold.
#[derive(Debug)]
pub struct KvPut {
    pub key: Vec<u8>,
    pub value: Vec<u8>,
}

impl View for KvPut {
    type V = (Seq<u8>, Seq<u8>);

    open spec fn view(&self) -> (Seq<u8>, Seq<u8>) {
        (self.key@, self.value@)
    }
}

/// The keys and values of a list of writes, in their order.
pub open spec fn puts_view(puts: Seq<KvPut>) -> Seq<(Seq<u8>, Seq<u8>)> {
    Seq::new(puts.len(), |i: int| puts[i]@)
}

/// The three writes that store one document: its encoded embedding, its
/// metadata text and its content text, each under its own key.
pub open spec fn document_writes(
    collection_id: u64,
    doc_id: u64,
    embedding: Seq<u32>,
    metadata: Seq<char>,
    content: Seq<char>,
) -> Seq<(Seq<u8>, Seq<u8>)> {
    seq![
        (vector_key_spec(collection_id, doc_id), encode_spec(embedding)),
        (metadata_key_spec(collection_id, doc_id), encode_utf8(metadata)),
        (content_key_spec(collection_id, doc_id), encode_utf8(content)),
    ]
}

/// A document that passed every check and waits to be stored. The writes
/// are to be committed as one atomic batch; only then is the embedding put
/// into the collection's index.
#[derive(Debug)]
pub struct PendingDocument {
    /// The collection that takes the document in.
    pub collection_id: u64,
    /// The document's identifier, the caller's or a fresh one.
    pub doc_id: u64,
    /// The identifier that the caller asked for, if any.
    pub requested_id: Option<u64>,
    /// The writes that store the document.
    pub writes: Vec<KvPut>,
}

/// The mathematical content of a `PendingDocument`.
pub ghost struct PendingView {
    pub collection_id: u64,
    pub doc_id: u64,
    pub requested_id: Option<u64>,
    pub writes: Seq<(Seq<u8>, Seq<u8>)>,
}

impl View for PendingDocument {
    type V = PendingView;

    open spec fn view(&self) -> PendingView {
        PendingView {
            collection_id: self.collection_id,
            doc_id: self.doc_id,
            requested_id: self.requested_id,
            writes: puts_view(self.writes@),
        }
    }
}

/// Lays out the writes that store one document.
pub fn document_batch(
    collection_id: u64,
    doc_id: u64,
    embedding: &[u32],
    metadata: &str,
    content: &str,
) -> (puts: Vec<KvPut>)
    ensures
        puts_view(puts@) == document_writes(
            collection_id,
            doc_id,
            embedding@,
            metadata@,
            content@,
        ),
{
    let mut puts: Vec<KvPut> = Vec::new();
    puts.push(KvPut { key: vector_key(collection_id, doc_id), value: encode_embedding(embedding) });
    puts.push(KvPut { key: metadata_key(collection_id, doc_id), value: metadata.as_bytes_vec() });
    puts.push(KvPut { key: content_key(collection_id, doc_id), value: content.as_bytes_vec() });
    assert(puts_view(puts@) =~= document_writes(
        collection_id,
        doc_id,
        embedding@,
        metadata@,
        content@,
    ));
    puts
}

} // verus!
