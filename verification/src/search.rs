//! Queries: what to ask of the index, which payloads to fetch, and how the
//! answer is put together.

use vstd::prelude::*;
use vstd::string::*;
use vstd::utf8::*;
use crate::collection::ef_search_spec;
use crate::keys::{content_key, content_key_spec, metadata_key, metadata_key_spec};

verus! {

/// What a query that passed every check asks of the collection's index.
#[derive(Clone, Copy, Debug, PartialEq, Eq, Structural)]
pub struct SearchPlan {
    /// The collection whose index is asked and whose payloads are fetched.
    pub collection_id: u64,
    /// The number of neighbours that the caller wants, at most.
    pub top_k: usize,
    /// The width of the candidate list with which the index is searched.
    pub ef_search: usize,
}

/// The candidate width of a query, held to what a `usize` can express.
pub open spec fn ef_search_clamped(top_k: usize) -> usize {
    if ef_search_spec(top_k as nat) <= usize::MAX {
        ef_search_spec(top_k as nat) as usize
    } else {
        usize::MAX
    }
}

/// A neighbour as the index reports it, together with what the persistent
/// store holds under the neighbour's two payload keys.
#[derive(Debug)]
pub struct Neighbour {
    /// The document's identifier.
    pub id: u64,
    /// The distance to the query, as the bits of a 32-bit IEEE number.
    pub distance: u32,
    /// The bytes stored as the document's metadata, if any.
    pub metadata: Option<Vec<u8>>,
    /// The bytes stored as the document's content, if any.
    pub content: Option<Vec<u8>>,
}

/// One row of a query's answer.
#[derive(Debug)]
pub struct SearchHit {
    pub id: u64,
    /// The distance to the query, as the bits of a 32-bit IEEE number.
    pub distance: u32,
    pub metadata: String,
    pub content: String,
}

/// The mathematical content of a `SearchHit`.
pub ghost struct HitView {
    pub id: u64,
    pub distance: u32,
    pub metadata: Seq<char>,
    pub content: Seq<char>,
}

impl View for SearchHit {
    type V = HitView;

    open spec fn view(&self) -> HitView {
        HitView {
            id: self.id,
            distance: self.distance,
            metadata: self.metadata@,
            content: self.content@,
        }
    }
}

/// The text that `String::from_utf8_lossy` makes of bytes that are not
/// valid UTF-8.
pub uninterp spec fn utf8_lossy_text(bytes: Seq<u8>) -> Seq<char>;

/// The text that stored bytes are read as: the text they encode, where they
/// are valid UTF-8, and a repaired text otherwise.
pub open spec fn text_of(bytes: Seq<u8>) -> Seq<char> {
    if valid_utf8(bytes) {
        decode_utf8(bytes)
    } else {
        utf8_lossy_text(bytes)
    }
}

/// The text of a payload; a payload that the store does not hold is the
/// empty text.
pub open spec fn payload_text(stored: Option<Seq<u8>>) -> Seq<char> {
    match stored {
        Some(bytes) => text_of(bytes),
        None => Seq::empty(),
    }
}

/// The bytes of a payload as it was fetched.
pub open spec fn payload_view(stored: Option<Vec<u8>>) -> Option<Seq<u8>> {
    match stored {
        Some(bytes) => Some(bytes@),
        None => None,
    }
}

/// The row that a neighbour becomes.
pub open spec fn hit_of(n: Neighbour) -> HitView {
    HitView {
        id: n.id,
        distance: n.distance,
        metadata: payload_text(payload_view(n.metadata)),
        content: payload_text(payload_view(n.content)),
    }
}

/// Calls `String::from_utf8_lossy` and owns the result. Trusted: bytes that
/// are valid UTF-8 give the text they encode; for other bytes the result is
/// the function's own, a function of the bytes alone.
#[verifier::external_body]
fn utf8_lossy(bytes: &[u8]) -> (r: String)
    ensures
        r@ == if valid_utf8(bytes@) {
            decode_utf8(bytes@)
        } else {
            utf8_lossy_text(bytes@)
        },
{
    String::from_utf8_lossy(bytes).into_owned()
}

/// Reads one payload as text.
pub fn read_payload(stored: &Option<Vec<u8>>) -> (r: String)
    ensures
        r@ == payload_text(payload_view(*stored)),
{
    match stored {
        Some(bytes) => utf8_lossy(bytes.as_slice()),
        None => String::new(),
    }
}

impl SearchPlan {
    /// Whether the index has to be asked at all: a query for no neighbour
    /// is answered with none.
    pub fn needs_index(&self) -> (r: bool)
        ensures
            r == (self.top_k > 0),
    {
        self.top_k > 0
    }

    /// The keys under which the metadata and the content of a neighbour are
    /// stored, in this order.
    pub fn payload_keys(&self, doc_id: u64) -> (keys: (Vec<u8>, Vec<u8>))
        ensures
            keys.0@ == metadata_key_spec(self.collection_id, doc_id),
            keys.1@ == content_key_spec(self.collection_id, doc_id),
    {
        (metadata_key(self.collection_id, doc_id), content_key(self.collection_id, doc_id))
    }

    /// Puts the answer together: the neighbours in the order in which the
    /// index reported them, no more than were asked for, each with its
    /// payloads read as text.
    pub fn results(&self, found: &Vec<Neighbour>) -> (hits: Vec<SearchHit>)
        ensures
            hits@.len() == if found@.len() <= self.top_k {
                found@.len()
            } else {
                self.top_k as nat
            },
            forall|i: int| 0 <= i < hits@.len() ==> (#[trigger] hits@[i])@ == hit_of(found@[i]),
    {
        let n: usize = if found.len() <= self.top_k {
            found.len()
        } else {
            self.top_k
        };
        let mut hits: Vec<SearchHit> = Vec::new();
        let mut i: usize = 0;
        while i < n
            invariant
                i <= n <= found@.len(),
                hits@.len() == i,
                forall|j: int| 0 <= j < i ==> (#[trigger] hits@[j])@ == hit_of(found@[j]),
            decreases n - i,
        {
            let nb = &found[i];
            hits.push(
                SearchHit {
                    id: nb.id,
                    distance: nb.distance,
                    metadata: read_payload(&nb.metadata),
                    content: read_payload(&nb.content),
                },
            );
            i += 1;
        }
        hits
    }
}

/// A text that was stored as its UTF-8 bytes is read back unchanged.
pub proof fn law_text_round_trip(text: Seq<char>)
    ensures
        text_of(encode_utf8(text)) == text,
{
    encode_utf8_valid_utf8(text);
    encode_utf8_decode_utf8(text);
}

} // verus!
