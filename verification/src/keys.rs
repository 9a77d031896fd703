//! The key layout of the persistent store.
//!
//! Every key is a tag, a colon and what the tag speaks of: `col:<name>` for a
//! collection's metadata, and `vec:`, `meta:` and `content:` followed by
//! `<collection id>:<document id>` for the three parts of a document. The
//! identifiers are written in decimal ASCII.

use vstd::prelude::*;
use vstd::string::*;
use vstd::utf8::*;

verus! {

/// The byte `:` that separates the parts of a key.
pub const COLON: u8 = 58;

/// The ASCII digit for a value below ten.
pub open spec fn digit(d: nat) -> u8 {
    (48 + d) as u8
}

/// A number in decimal ASCII, without sign and without leading zeros.
pub open spec fn decimal(n: nat) -> Seq<u8>
    decreases n,
{
    if n < 10 {
        seq![digit(n)]
    } else {
        decimal(n / 10).push(digit(n % 10))
    }
}

/// The bytes `col:`.
pub open spec fn collection_tag() -> Seq<u8> {
    seq![99u8, 111u8, 108u8, COLON]
}

/// The bytes `vec:`.
pub open spec fn vector_tag() -> Seq<u8> {
    seq![118u8, 101u8, 99u8, COLON]
}

/// The bytes `meta:`.
pub open spec fn metadata_tag() -> Seq<u8> {
    seq![109u8, 101u8, 116u8, 97u8, COLON]
}

/// The bytes `content:`.
pub open spec fn content_tag() -> Seq<u8> {
    seq![99u8, 111u8, 110u8, 116u8, 101u8, 110u8, 116u8, COLON]
}

/// `<collection id>:<document id>`, the part that the three keys of one
/// document share.
pub open spec fn document_suffix(collection_id: u64, doc_id: u64) -> Seq<u8> {
    decimal(collection_id as nat) + seq![COLON] + decimal(doc_id as nat)
}

/// The key under which a collection's metadata is kept.
pub open spec fn collection_key_spec(name: Seq<char>) -> Seq<u8> {
    collection_tag() + encode_utf8(name)
}

/// The key under which a document's encoded embedding is kept.
pub open spec fn vector_key_spec(collection_id: u64, doc_id: u64) -> Seq<u8> {
    vector_tag() + document_suffix(collection_id, doc_id)
}

/// The key under which a document's metadata text is kept.
pub open spec fn metadata_key_spec(collection_id: u64, doc_id: u64) -> Seq<u8> {
    metadata_tag() + document_suffix(collection_id, doc_id)
}

/// The key under which a document's content text is kept.
pub open spec fn content_key_spec(collection_id: u64, doc_id: u64) -> Seq<u8> {
    content_tag() + document_suffix(collection_id, doc_id)
}

/// Appends the decimal form of `n` to `out`.
pub fn push_decimal(out: &mut Vec<u8>, n: u64)
    ensures
        final(out)@ == old(out)@ + decimal(n as nat),
    decreases n,
{
    if n >= 10 {
        push_decimal(out, n / 10);
    }
    let d: u8 = (n % 10) as u8;
    out.push(48u8 + d);
    assert(final(out)@ =~= old(out)@ + decimal(n as nat));
}

fn push_document_suffix(out: &mut Vec<u8>, collection_id: u64, doc_id: u64)
    ensures
        final(out)@ == old(out)@ + document_suffix(collection_id, doc_id),
{
    push_decimal(out, collection_id);
    out.push(COLON);
    push_decimal(out, doc_id);
    assert(final(out)@ =~= old(out)@ + document_suffix(collection_id, doc_id));
}

/// Builds the key `col:<name>`.
pub fn collection_key(name: &str) -> (key: Vec<u8>)
    ensures
        key@ == collection_key_spec(name@),
{
    let mut key: Vec<u8> = Vec::new();
    key.push(99u8);
    key.push(111u8);
    key.push(108u8);
    key.push(COLON);
    let bytes = name.as_bytes();
    let mut i: usize = 0;
    while i < bytes.len()
        invariant
            i <= bytes@.len(),
            bytes@ == encode_utf8(name@),
            key@ == collection_tag() + bytes@.subrange(0, i as int),
        decreases bytes@.len() - i,
    {
        key.push(bytes[i]);
        i += 1;
        assert(key@ =~= collection_tag() + bytes@.subrange(0, i as int));
    }
    assert(bytes@.subrange(0, i as int) =~= bytes@);
    key
}

/// Builds the key `vec:<collection id>:<document id>`.
pub fn vector_key(collection_id: u64, doc_id: u64) -> (key: Vec<u8>)
    ensures
        key@ == vector_key_spec(collection_id, doc_id),
{
    let mut key: Vec<u8> = Vec::new();
    key.push(118u8);
    key.push(101u8);
    key.push(99u8);
    key.push(COLON);
    assert(key@ =~= vector_tag());
    push_document_suffix(&mut key, collection_id, doc_id);
    key
}

/// Builds the key `meta:<collection id>:<document id>`.
pub fn metadata_key(collection_id: u64, doc_id: u64) -> (key: Vec<u8>)
    ensures
        key@ == metadata_key_spec(collection_id, doc_id),
{
    let mut key: Vec<u8> = Vec::new();
    key.push(109u8);
    key.push(101u8);
    key.push(116u8);
    key.push(97u8);
    key.push(COLON);
    assert(key@ =~= metadata_tag());
    push_document_suffix(&mut key, collection_id, doc_id);
    key
}

/// Builds the key `content:<collection id>:<document id>`.
pub fn content_key(collection_id: u64, doc_id: u64) -> (key: Vec<u8>)
    ensures
        key@ == content_key_spec(collection_id, doc_id),
{
    let mut key: Vec<u8> = Vec::new();
    key.push(99u8);
    key.push(111u8);
    key.push(110u8);
    key.push(116u8);
    key.push(101u8);
    key.push(110u8);
    key.push(116u8);
    key.push(COLON);
    assert(key@ =~= content_tag());
    push_document_suffix(&mut key, collection_id, doc_id);
    key
}

} // verus!

verus! {

/// The decimal form of a number is not empty and holds ASCII digits only.
pub proof fn lemma_decimal_digits(n: nat)
    ensures
        decimal(n).len() >= 1,
        n >= 10 ==> decimal(n).len() >= 2,
        forall|i: int| 0 <= i < decimal(n).len() ==> 48 <= #[trigger] decimal(n)[i] <= 57,
    decreases n,
{
    if n >= 10 {
        lemma_decimal_digits(n / 10);
    }
}

/// Two numbers with the same decimal form are the same number.
pub proof fn lemma_decimal_injective(a: nat, b: nat)
    requires
        decimal(a) == decimal(b),
    ensures
        a == b,
    decreases a,
{
    lemma_decimal_digits(a);
    lemma_decimal_digits(b);
    if a < 10 && b < 10 {
        assert(decimal(a)[0] == digit(a));
        assert(decimal(b)[0] == digit(b));
    } else if a < 10 || b < 10 {
        assert(decimal(a).len() == decimal(b).len());
    } else {
        let x = decimal(a / 10);
        let y = decimal(b / 10);
        assert(x =~= decimal(a).drop_last());
        assert(y =~= decimal(b).drop_last());
        assert(decimal(a).last() == digit(a % 10));
        assert(decimal(b).last() == digit(b % 10));
        lemma_decimal_injective(a / 10, b / 10);
        assert(a == 10 * (a / 10) + a % 10);
        assert(b == 10 * (b / 10) + b % 10);
    }
}

/// The shared part of a document's keys tells the collection and the
/// document apart from every other pair.
pub proof fn lemma_document_suffix_injective(c1: u64, d1: u64, c2: u64, d2: u64)
    requires
        document_suffix(c1, d1) == document_suffix(c2, d2),
    ensures
        c1 == c2 && d1 == d2,
{
    let a = decimal(c1 as nat);
    let b = decimal(c2 as nat);
    let x = document_suffix(c1, d1);
    let y = document_suffix(c2, d2);
    lemma_decimal_digits(c1 as nat);
    lemma_decimal_digits(c2 as nat);
    if a.len() < b.len() {
        assert(x[a.len() as int] == COLON);
        assert(y[a.len() as int] == b[a.len() as int]);
    } else if b.len() < a.len() {
        assert(y[b.len() as int] == COLON);
        assert(x[b.len() as int] == a[b.len() as int]);
    } else {
        assert(a =~= x.subrange(0, a.len() as int));
        assert(b =~= y.subrange(0, a.len() as int));
        lemma_decimal_injective(c1 as nat, c2 as nat);
        assert(decimal(d1 as nat) =~= x.subrange(a.len() as int + 1, x.len() as int));
        assert(decimal(d2 as nat) =~= y.subrange(a.len() as int + 1, y.len() as int));
        lemma_decimal_injective(d1 as nat, d2 as nat);
    }
}

/// No two documents share a key: each of the three keys of a document names
/// its collection and its identifier and no other.
pub proof fn law_document_keys_injective(c1: u64, d1: u64, c2: u64, d2: u64)
    ensures
        vector_key_spec(c1, d1) == vector_key_spec(c2, d2) ==> c1 == c2 && d1 == d2,
        metadata_key_spec(c1, d1) == metadata_key_spec(c2, d2) ==> c1 == c2 && d1 == d2,
        content_key_spec(c1, d1) == content_key_spec(c2, d2) ==> c1 == c2 && d1 == d2,
{
    let s1 = document_suffix(c1, d1);
    let s2 = document_suffix(c2, d2);
    if vector_key_spec(c1, d1) == vector_key_spec(c2, d2) {
        assert(s1 =~= vector_key_spec(c1, d1).subrange(4, 4 + s1.len() as int));
        assert(s2 =~= vector_key_spec(c2, d2).subrange(4, 4 + s2.len() as int));
        assert(vector_tag().len() == 4);
        assert(s1.len() == s2.len());
        assert(s1 == s2);
        lemma_document_suffix_injective(c1, d1, c2, d2);
    }
    if metadata_key_spec(c1, d1) == metadata_key_spec(c2, d2) {
        assert(s1 =~= metadata_key_spec(c1, d1).subrange(5, 5 + s1.len() as int));
        assert(s2 =~= metadata_key_spec(c2, d2).subrange(5, 5 + s2.len() as int));
        assert(metadata_tag().len() == 5);
        assert(s1.len() == s2.len());
        assert(s1 == s2);
        lemma_document_suffix_injective(c1, d1, c2, d2);
    }
    if content_key_spec(c1, d1) == content_key_spec(c2, d2) {
        assert(s1 =~= content_key_spec(c1, d1).subrange(8, 8 + s1.len() as int));
        assert(s2 =~= content_key_spec(c2, d2).subrange(8, 8 + s2.len() as int));
        assert(content_tag().len() == 8);
        assert(s1.len() == s2.len());
        assert(s1 == s2);
        lemma_document_suffix_injective(c1, d1, c2, d2);
    }
}

/// The four families of keys are disjoint: a key of one kind is never a key
/// of another, whatever the name and the identifiers.
pub proof fn law_key_families_disjoint(name: Seq<char>, c1: u64, d1: u64, c2: u64, d2: u64)
    ensures
        vector_key_spec(c1, d1) != metadata_key_spec(c2, d2),
        vector_key_spec(c1, d1) != content_key_spec(c2, d2),
        metadata_key_spec(c1, d1) != content_key_spec(c2, d2),
        collection_key_spec(name) != vector_key_spec(c1, d1),
        collection_key_spec(name) != metadata_key_spec(c1, d1),
        collection_key_spec(name) != content_key_spec(c1, d1),
{
    assert(vector_key_spec(c1, d1)[0] == 118u8);
    assert(metadata_key_spec(c1, d1)[0] == 109u8);
    assert(metadata_key_spec(c2, d2)[0] == 109u8);
    assert(content_key_spec(c1, d1)[2] == 110u8);
    assert(content_key_spec(c2, d2)[0] == 99u8);
    assert(collection_key_spec(name)[0] == 99u8);
    assert(collection_key_spec(name)[2] == 108u8);
}

/// Two collections with different names have different metadata keys.
pub proof fn law_collection_key_injective(a: Seq<char>, b: Seq<char>)
    requires
        collection_key_spec(a) == collection_key_spec(b),
    ensures
        a == b,
{
    let ea = encode_utf8(a);
    let eb = encode_utf8(b);
    assert(ea =~= collection_key_spec(a).subrange(4, 4 + ea.len() as int));
    assert(eb =~= collection_key_spec(b).subrange(4, 4 + eb.len() as int));
    assert(collection_key_spec(a).len() == 4 + ea.len());
    assert(collection_key_spec(b).len() == 4 + eb.len());
    assert(ea == eb);
    encode_utf8_decode_utf8(a);
    encode_utf8_decode_utf8(b);
}

} // verus!
