use vectordb::search::read_payload;
use vectordb::{DistanceMetric, EngineError, Neighbour, SearchPlan, VectorDB};

fn bits(v: &[f32]) -> Vec<u32> {
    v.iter().map(|x| x.to_bits()).collect()
}

fn neighbour(id: u64, distance: f32, metadata: Option<&[u8]>, content: Option<&[u8]>) -> Neighbour {
    Neighbour {
        id,
        distance: distance.to_bits(),
        metadata: metadata.map(|b| b.to_vec()),
        content: content.map(|b| b.to_vec()),
    }
}

#[test]
fn search_says_what_to_ask_of_the_index() {
    let mut db = VectorDB::new();
    db.create_collection("a", DistanceMetric::Dot, 2).unwrap();
    db.create_collection("c1", DistanceMetric::Cosine, 3).unwrap();
    let q = bits(&[1.0, 0.0, 0.0]);
    assert_eq!(
        db.search("c1", &q, 2),
        Ok(SearchPlan { collection_id: 2, top_k: 2, ef_search: 50 })
    );
    assert_eq!(
        db.search("c1", &q, 40),
        Ok(SearchPlan { collection_id: 2, top_k: 40, ef_search: 80 })
    );
    assert_eq!(
        db.search("a", &bits(&[0.0, 1.0]), 0),
        Ok(SearchPlan { collection_id: 1, top_k: 0, ef_search: 50 })
    );
}

#[test]
fn search_in_a_missing_collection() {
    let db = VectorDB::new();
    assert_eq!(db.search("c1", &bits(&[1.0]), 1), Err(EngineError::CollectionNotFound));
}

#[test]
fn dimension_mismatch_on_search() {
    let mut db = VectorDB::new();
    db.create_collection("c1", DistanceMetric::Cosine, 3).unwrap();
    assert_eq!(db.search("c1", &bits(&[1.0, 0.0]), 5), Err(EngineError::DimensionMismatch));
    assert_eq!(db.search("c1", &bits(&[1.0, 0.0, 0.0, 0.0]), 5), Err(EngineError::DimensionMismatch));
    assert_eq!(db.search("c1", &[], 5), Err(EngineError::DimensionMismatch));
    assert_eq!(db.get_collection_by_name("c1").unwrap().doc_count, 0);
}

#[test]
fn a_query_for_no_neighbour_needs_no_index() {
    let plan = SearchPlan { collection_id: 1, top_k: 0, ef_search: 50 };
    assert!(!plan.needs_index());
    assert!(plan.results(&vec![neighbour(1, 0.0, None, None)]).is_empty());
    let plan = SearchPlan { collection_id: 1, top_k: 1, ef_search: 50 };
    assert!(plan.needs_index());
}

#[test]
fn payload_keys_name_the_collection_and_the_document() {
    let plan = SearchPlan { collection_id: 12, top_k: 3, ef_search: 50 };
    let (meta, content) = plan.payload_keys(345);
    assert_eq!(meta, b"meta:12:345".to_vec());
    assert_eq!(content, b"content:12:345".to_vec());
}

#[test]
fn results_keep_the_order_of_the_index() {
    let plan = SearchPlan { collection_id: 1, top_k: 5, ef_search: 50 };
    let found = vec![
        neighbour(3, 0.0, Some(b"m3"), Some(b"c3")),
        neighbour(1, 0.25, Some(b"m1"), Some(b"c1")),
        neighbour(2, 0.5, Some(b"m2"), Some(b"c2")),
    ];
    let hits = plan.results(&found);
    let rows: Vec<(u64, f32, &str, &str)> = hits
        .iter()
        .map(|h| (h.id, f32::from_bits(h.distance), h.metadata.as_str(), h.content.as_str()))
        .collect();
    assert_eq!(rows, vec![(3, 0.0, "m3", "c3"), (1, 0.25, "m1", "c1"), (2, 0.5, "m2", "c2")]);
}

#[test]
fn results_are_no_more_than_were_asked_for() {
    let plan = SearchPlan { collection_id: 1, top_k: 2, ef_search: 50 };
    let found = vec![
        neighbour(3, 0.0, None, None),
        neighbour(1, 0.25, None, None),
        neighbour(2, 0.5, None, None),
    ];
    let hits = plan.results(&found);
    assert_eq!(hits.iter().map(|h| h.id).collect::<Vec<u64>>(), vec![3, 1]);
    assert!(plan.results(&Vec::new()).is_empty());
}

#[test]
fn a_missing_payload_is_the_empty_text() {
    let plan = SearchPlan { collection_id: 1, top_k: 2, ef_search: 50 };
    let hits = plan.results(&vec![
        neighbour(9, 1.5, None, Some(b"only content")),
        neighbour(8, 2.5, Some(b"only meta"), None),
    ]);
    assert_eq!((hits[0].metadata.as_str(), hits[0].content.as_str()), ("", "only content"));
    assert_eq!((hits[1].metadata.as_str(), hits[1].content.as_str()), ("only meta", ""));
    assert_eq!(f32::from_bits(hits[0].distance), 1.5);
}

#[test]
fn payloads_are_read_as_utf8() {
    assert_eq!(read_payload(&None), "");
    assert_eq!(read_payload(&Some(Vec::new())), "");
    assert_eq!(read_payload(&Some(b"plain".to_vec())), "plain");
    assert_eq!(read_payload(&Some("caf\u{e9} \u{65e5}\u{672c}".as_bytes().to_vec())), "caf\u{e9} \u{65e5}\u{672c}");
}

#[test]
fn invalid_bytes_are_repaired() {
    assert_eq!(read_payload(&Some(vec![b'a', 0xff, b'b'])), "a\u{fffd}b");
    assert_eq!(read_payload(&Some(vec![0xe6, 0x97])), "\u{fffd}");
    let plan = SearchPlan { collection_id: 1, top_k: 1, ef_search: 50 };
    let hits = plan.results(&vec![neighbour(1, 0.0, Some(&[0xc0, b'x']), Some(b"ok"))]);
    assert_eq!(hits[0].metadata, "\u{fffd}x");
    assert_eq!(hits[0].content, "ok");
}

#[test]
fn a_stored_text_is_read_back_unchanged() {
    let mut db = VectorDB::new();
    db.create_collection("c1", DistanceMetric::Cosine, 1).unwrap();
    let p = db
        .add_document("c1", Some(1), &bits(&[1.0]), "{\"lang\":\"\u{65e5}\u{672c}\u{8a9e}\"}", "na\u{ef}ve \u{1f600}")
        .unwrap();
    let plan = db.search("c1", &bits(&[1.0]), 1).unwrap();
    let (mk, ck) = plan.payload_keys(1);
    assert_eq!(mk, p.writes[1].key);
    assert_eq!(ck, p.writes[2].key);
    let found = vec![Neighbour {
        id: 1,
        distance: 0f32.to_bits(),
        metadata: Some(p.writes[1].value.clone()),
        content: Some(p.writes[2].value.clone()),
    }];
    let hits = plan.results(&found);
    assert_eq!(hits[0].metadata, "{\"lang\":\"\u{65e5}\u{672c}\u{8a9e}\"}");
    assert_eq!(hits[0].content, "na\u{ef}ve \u{1f600}");
}
