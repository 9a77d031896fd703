use vectordb::codec::encode_embedding;
use vectordb::document::document_batch;
use vectordb::{DistanceMetric, EngineError, VectorDB};

fn bits(v: &[f32]) -> Vec<u32> {
    v.iter().map(|x| x.to_bits()).collect()
}

fn engine_with_c1() -> VectorDB {
    let mut db = VectorDB::new();
    db.create_collection("c1", DistanceMetric::Cosine, 3).unwrap();
    db
}

#[test]
fn the_batch_of_a_document_holds_three_writes() {
    let e = bits(&[1.0, 0.0, 0.0]);
    let puts = document_batch(4, 17, &e, "{\"k\":1}", "hello");
    assert_eq!(puts.len(), 3);
    assert_eq!(puts[0].key, b"vec:4:17".to_vec());
    assert_eq!(puts[0].value, encode_embedding(&e));
    assert_eq!(puts[0].value, vec![0, 0, 0x80, 0x3f, 0, 0, 0, 0, 0, 0, 0, 0]);
    assert_eq!(puts[1].key, b"meta:4:17".to_vec());
    assert_eq!(puts[1].value, b"{\"k\":1}".to_vec());
    assert_eq!(puts[2].key, b"content:4:17".to_vec());
    assert_eq!(puts[2].value, b"hello".to_vec());
}

#[test]
fn add_document_lays_out_the_writes() {
    let mut db = engine_with_c1();
    let e = bits(&[0.5, -1.0, 2.0]);
    let p = db.add_document("c1", Some(42), &e, "m\u{e9}ta", "text").unwrap();
    assert_eq!(p.collection_id, 1);
    assert_eq!(p.doc_id, 42);
    assert_eq!(p.requested_id, Some(42));
    assert_eq!(p.writes.len(), 3);
    assert_eq!(p.writes[0].key, b"vec:1:42".to_vec());
    assert_eq!(p.writes[0].value, encode_embedding(&e));
    assert_eq!(p.writes[1].key, b"meta:1:42".to_vec());
    assert_eq!(p.writes[1].value, "m\u{e9}ta".as_bytes().to_vec());
    assert_eq!(p.writes[2].key, b"content:1:42".to_vec());
    assert_eq!(p.writes[2].value, b"text".to_vec());
}

#[test]
fn a_given_identifier_takes_none_from_the_counter() {
    let mut db = engine_with_c1();
    let left = db.ids_left();
    let p = db.add_document("c1", Some(7), &bits(&[1.0, 2.0, 3.0]), "", "").unwrap();
    assert_eq!(p.doc_id, 7);
    assert_eq!(db.ids_left(), left);
}

#[test]
fn a_missing_identifier_is_taken_from_the_counter() {
    let mut db = engine_with_c1();
    let e = bits(&[1.0, 2.0, 3.0]);
    let a = db.add_document("c1", None, &e, "", "").unwrap();
    let b = db.add_document("c1", None, &e, "", "").unwrap();
    assert_eq!((a.doc_id, a.requested_id), (2, None));
    assert_eq!((b.doc_id, b.requested_id), (3, None));
    assert_eq!(a.writes[0].key, b"vec:1:2".to_vec());
    assert_eq!(b.writes[2].key, b"content:1:3".to_vec());
    let c2 = db.create_collection("c2", DistanceMetric::Dot, 1).unwrap();
    assert_eq!(c2.id, 4);
}

#[test]
fn add_document_to_a_missing_collection() {
    let mut db = engine_with_c1();
    let r = db.add_document("nope", None, &bits(&[1.0, 0.0, 0.0]), "", "");
    assert_eq!(r.unwrap_err(), EngineError::CollectionNotFound);
    assert_eq!(db.ids_left(), u64::MAX - 2);
}

#[test]
fn dimension_mismatch_on_add_changes_nothing() {
    let mut db = engine_with_c1();
    let r = db.add_document("c1", None, &bits(&[1.0, 0.0]), "m", "c");
    assert_eq!(r.unwrap_err(), EngineError::DimensionMismatch);
    assert_eq!(db.get_collection_by_name("c1").unwrap().doc_count, 0);
    assert_eq!(db.ids_left(), u64::MAX - 2);
    let r = db.add_document("c1", Some(5), &bits(&[1.0, 0.0, 0.0, 0.0]), "m", "c");
    assert_eq!(r.unwrap_err(), EngineError::DimensionMismatch);
    let r = db.add_document("c1", Some(5), &[], "m", "c");
    assert_eq!(r.unwrap_err(), EngineError::DimensionMismatch);
    assert_eq!(db.get_collection_by_name("c1").unwrap().doc_count, 0);
    assert_eq!(db.get_memory_stats().total_documents, 0);
}

#[test]
fn a_stored_document_is_counted_once() {
    let mut db = engine_with_c1();
    db.create_collection("other", DistanceMetric::Euclidean, 3).unwrap();
    let e = bits(&[1.0, 0.0, 0.0]);
    for n in 1..=5u64 {
        let p = db.add_document("c1", None, &e, "m", "c").unwrap();
        assert_eq!(db.get_collection_by_name("c1").unwrap().doc_count, n - 1);
        let id = p.doc_id;
        assert_eq!(db.complete_document(p, Ok(())), Ok(id));
        assert_eq!(db.get_collection_by_name("c1").unwrap().doc_count, n);
        assert_eq!(db.get_collection_by_name("other").unwrap().doc_count, 0);
    }
    let c1 = db.get_collection_by_name("c1").unwrap();
    assert_eq!((c1.id, c1.dim, c1.metric), (1, 3, DistanceMetric::Cosine));
}

#[test]
fn a_failed_write_is_not_counted() {
    let mut db = engine_with_c1();
    let p = db.add_document("c1", Some(1), &bits(&[1.0, 0.0, 0.0]), "m", "c").unwrap();
    let r = db.complete_document(p, Err("write stalled".to_string()));
    assert_eq!(r, Err(EngineError::Storage("write stalled".to_string())));
    assert_eq!(db.get_collection_by_name("c1").unwrap().doc_count, 0);
}

#[test]
fn completion_for_a_withdrawn_collection() {
    let mut db = engine_with_c1();
    let p = db.add_document("c1", Some(1), &bits(&[1.0, 0.0, 0.0]), "m", "c").unwrap();
    let _ = db.confirm_collection("c1", Err("gone".to_string()));
    assert_eq!(db.complete_document(p, Ok(())), Err(EngineError::CollectionNotFound));
}

#[test]
fn statistics_count_collections_and_documents() {
    let mut db = engine_with_c1();
    db.create_collection("c2", DistanceMetric::Euclidean, 2).unwrap();
    let e3 = bits(&[1.0, 0.0, 0.0]);
    let e2 = bits(&[1.0, 0.0]);
    for _ in 0..4 {
        let p = db.add_document("c1", None, &e3, "", "").unwrap();
        db.complete_document(p, Ok(())).unwrap();
    }
    for _ in 0..3 {
        let p = db.add_document("c2", None, &e2, "", "").unwrap();
        db.complete_document(p, Ok(())).unwrap();
    }
    let stats = db.get_memory_stats();
    assert_eq!(stats.collections_count, 2);
    assert_eq!(stats.total_documents, 7);
    assert!(db.has_room_for(1));
    assert!(db.has_room_for(u64::MAX - 4));
    assert!(!db.has_room_for(u64::MAX - 3));
}
