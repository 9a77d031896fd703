//! The byte format of a stored embedding.
//!
//! An embedding of `n` components is kept as `4·n` bytes: each component's
//! 32-bit pattern in turn, least significant byte first.

use vstd::prelude::*;
use crate::error::EngineError;

verus! {

/// The four bytes of one component, least significant first.
pub open spec fn word_bytes(w: u32) -> Seq<u8> {
    seq![
        (w & 0xff) as u8,
        ((w >> 8) & 0xff) as u8,
        ((w >> 16) & 0xff) as u8,
        ((w >> 24) & 0xff) as u8,
    ]
}

/// The component that four bytes stand for, least significant first.
pub open spec fn word_of(b0: u8, b1: u8, b2: u8, b3: u8) -> u32 {
    (b0 as u32) | ((b1 as u32) << 8) | ((b2 as u32) << 16) | ((b3 as u32) << 24)
}

/// The stored form of an embedding.
pub open spec fn encode_spec(v: Seq<u32>) -> Seq<u8> {
    Seq::new(4 * v.len(), |i: int| word_bytes(v[i / 4])[i % 4])
}

/// The embedding that stored bytes stand for; meant for a whole number of
/// components, any bytes beyond that are left aside.
pub open spec fn decode_spec(b: Seq<u8>) -> Seq<u32> {
    Seq::new(
        (b.len() / 4) as nat,
        |i: int| word_of(b[4 * i], b[4 * i + 1], b[4 * i + 2], b[4 * i + 3]),
    )
}

proof fn lemma_word_round_trip(w: u32)
    ensures
        word_of(word_bytes(w)[0], word_bytes(w)[1], word_bytes(w)[2], word_bytes(w)[3]) == w,
{
    assert(((w & 0xff) as u8 as u32) | ((((w >> 8) & 0xff) as u8 as u32) << 8) | ((((w >> 16)
        & 0xff) as u8 as u32) << 16) | ((((w >> 24) & 0xff) as u8 as u32) << 24) == w)
        by (bit_vector);
}

proof fn lemma_bytes_round_trip(b0: u8, b1: u8, b2: u8, b3: u8)
    ensures
        word_bytes(word_of(b0, b1, b2, b3)) == seq![b0, b1, b2, b3],
{
    let w = word_of(b0, b1, b2, b3);
    assert((w & 0xff) as u8 == b0 && ((w >> 8) & 0xff) as u8 == b1 && ((w >> 16) & 0xff) as u8
        == b2 && ((w >> 24) & 0xff) as u8 == b3) by (bit_vector)
        requires
            w == (b0 as u32) | ((b1 as u32) << 8) | ((b2 as u32) << 16) | ((b3 as u32) << 24),
    ;
}

/// Writes an embedding in its stored form.
pub fn encode_embedding(v: &[u32]) -> (out: Vec<u8>)
    ensures
        out@ == encode_spec(v@),
{
    let mut out: Vec<u8> = Vec::new();
    let mut i: usize = 0;
    while i < v.len()
        invariant
            i <= v@.len(),
            out@.len() == 4 * i,
            forall|j: int| 0 <= j < 4 * i ==> out@[j] == word_bytes(v@[j / 4])[j % 4],
        decreases v@.len() - i,
    {
        let w: u32 = v[i];
        out.push((w & 0xff) as u8);
        out.push(((w >> 8) & 0xff) as u8);
        out.push(((w >> 16) & 0xff) as u8);
        out.push(((w >> 24) & 0xff) as u8);
        i += 1;
    }
    out
}

/// Reads an embedding back from its stored form. Bytes whose number is not a
/// multiple of four are no embedding and are rejected.
pub fn decode_embedding(bytes: &[u8]) -> (r: Result<Vec<u32>, EngineError>)
    ensures
        match r {
            Ok(v) => bytes@.len() % 4 == 0 && v@ == decode_spec(bytes@),
            Err(e) => bytes@.len() % 4 != 0 && e == EngineError::CorruptEmbedding,
        },
{
    if bytes.len() % 4 != 0 {
        return Err(EngineError::CorruptEmbedding);
    }
    let n: usize = bytes.len() / 4;
    let mut out: Vec<u32> = Vec::new();
    let mut k: usize = 0;
    while k < n
        invariant
            k <= n,
            n == bytes@.len() / 4,
            4 * n <= bytes@.len() <= usize::MAX,
            out@.len() == k,
            forall|j: int|
                0 <= j < k ==> out@[j] == word_of(
                    bytes@[4 * j],
                    bytes@[4 * j + 1],
                    bytes@[4 * j + 2],
                    bytes@[4 * j + 3],
                ),
        decreases n - k,
    {
        let base: usize = 4 * k;
        let b0: u8 = bytes[base];
        let b1: u8 = bytes[base + 1];
        let b2: u8 = bytes[base + 2];
        let b3: u8 = bytes[base + 3];
        out.push((b0 as u32) | ((b1 as u32) << 8) | ((b2 as u32) << 16) | ((b3 as u32) << 24));
        k += 1;
    }
    Ok(out)
}

/// Reads the embedding that the store holds under a document's vector key.
/// Bytes that are no embedding are treated as if the store held nothing.
pub fn read_embedding(stored: &Option<Vec<u8>>) -> (r: Option<Vec<u32>>)
    ensures
        match *stored {
            Some(bytes) => if bytes@.len() % 4 == 0 {
                r matches Some(v) && v@ == decode_spec(bytes@)
            } else {
                r is None
            },
            None => r is None,
        },
{
    match stored {
        Some(bytes) => match decode_embedding(bytes.as_slice()) {
            Ok(v) => Some(v),
            Err(_) => None,
        },
        None => None,
    }
}

/// The stored form of an embedding takes four bytes for each component.
pub proof fn law_encoded_length(v: Seq<u32>)
    ensures
        encode_spec(v).len() == 4 * v.len(),
{
}

/// Every embedding is read back unchanged from its stored form.
pub proof fn law_codec_round_trip(v: Seq<u32>)
    ensures
        encode_spec(v).len() % 4 == 0,
        decode_spec(encode_spec(v)) == v,
{
    let b = encode_spec(v);
    assert forall|i: int| 0 <= i < v.len() implies decode_spec(b)[i] == v[i] by {
        lemma_word_round_trip(v[i]);
    }
}

/// Stored bytes that hold a whole number of components are the stored form
/// of the embedding that is read from them, and of no other.
pub proof fn law_decode_then_encode(b: Seq<u8>)
    requires
        b.len() % 4 == 0,
    ensures
        encode_spec(decode_spec(b)) == b,
{
    let v = decode_spec(b);
    assert forall|j: int| 0 <= j < b.len() implies encode_spec(v)[j] == b[j] by {
        let i = j / 4;
        lemma_bytes_round_trip(b[4 * i], b[4 * i + 1], b[4 * i + 2], b[4 * i + 3]);
    }
}

} // verus!
