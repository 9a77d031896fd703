use vectordb::collection::{ef_search, optimize_hnsw_params, INDEX_CAPACITY, INDEX_LAYERS};
use vectordb::{
    CollectionEntry, CollectionMeta, CreateCollectionRequest, DistanceMetric, EngineError,
    HnswParams, VectorDB,
};

#[test]
fn a_new_engine_is_empty() {
    let db = VectorDB::new();
    assert!(db.list_collections().is_empty());
    assert_eq!(db.get_collection_by_name("c1").unwrap_err(), EngineError::CollectionNotFound);
    let stats = db.get_memory_stats();
    assert_eq!(stats.collections_count, 0);
    assert_eq!(stats.total_documents, 0);
    assert!(!db.ids_exhausted());
    assert_eq!(db.ids_left(), u64::MAX - 1);
}

#[test]
fn create_returns_the_metadata() {
    let mut db = VectorDB::new();
    let meta = db.create_collection("c1", DistanceMetric::Cosine, 3).unwrap();
    assert_eq!(meta.id, 1);
    assert_eq!(meta.name, "c1");
    assert_eq!(meta.dim, 3);
    assert_eq!(meta.metric, DistanceMetric::Cosine);
    assert_eq!(meta.doc_count, 0);
}

#[test]
fn identifiers_start_at_one_and_grow() {
    let mut db = VectorDB::new();
    let a = db.create_collection("a", DistanceMetric::Dot, 2).unwrap();
    let b = db.create_collection("b", DistanceMetric::Euclidean, 5).unwrap();
    let c = db.create_collection("c", DistanceMetric::Cosine, 7).unwrap();
    assert_eq!((a.id, b.id, c.id), (1, 2, 3));
    assert_eq!(db.ids_left(), u64::MAX - 4);
}

#[test]
fn get_collection_by_name_finds_what_was_created() {
    let mut db = VectorDB::new();
    db.create_collection("a", DistanceMetric::Dot, 2).unwrap();
    db.create_collection("b", DistanceMetric::Euclidean, 5).unwrap();
    let b = db.get_collection_by_name("b").unwrap();
    assert_eq!((b.id, b.name.as_str(), b.dim, b.metric, b.doc_count), (2, "b", 5, DistanceMetric::Euclidean, 0));
    let a = db.get_collection_by_name("a").unwrap();
    assert_eq!((a.id, a.name.as_str(), a.dim, a.metric, a.doc_count), (1, "a", 2, DistanceMetric::Dot, 0));
    assert_eq!(db.get_collection_by_name("A").unwrap_err(), EngineError::CollectionNotFound);
    assert_eq!(db.get_collection_by_name("").unwrap_err(), EngineError::CollectionNotFound);
}

#[test]
fn duplicate_create_is_refused() {
    let mut db = VectorDB::new();
    let before = db.list_collections().len();
    assert!(db.create_collection("dup", DistanceMetric::Cosine, 8).is_ok());
    let second = db.create_collection("dup", DistanceMetric::Cosine, 8);
    assert_eq!(second.unwrap_err(), EngineError::Duplicate);
    assert_eq!(db.list_collections().len(), before + 1);
}

#[test]
fn duplicate_create_changes_nothing() {
    let mut db = VectorDB::new();
    db.create_collection("dup", DistanceMetric::Cosine, 8).unwrap();
    let left = db.ids_left();
    let second = db.create_collection("dup", DistanceMetric::Euclidean, 4);
    assert_eq!(second.unwrap_err(), EngineError::Duplicate);
    assert_eq!(db.ids_left(), left);
    let meta = db.get_collection_by_name("dup").unwrap();
    assert_eq!((meta.dim, meta.metric), (8, DistanceMetric::Cosine));
    let names: Vec<String> = db.list_collections().into_iter().map(|m| m.name).collect();
    assert_eq!(names.iter().filter(|n| n.as_str() == "dup").count(), 1);
}

#[test]
fn list_collections_is_in_order_of_creation() {
    let mut db = VectorDB::new();
    for (i, name) in ["x", "y", "z"].iter().enumerate() {
        db.create_collection(name, DistanceMetric::Euclidean, i + 1).unwrap();
    }
    let list = db.list_collections();
    let seen: Vec<(u64, String, usize)> = list.into_iter().map(|m| (m.id, m.name, m.dim)).collect();
    assert_eq!(
        seen,
        vec![(1, "x".to_string(), 1), (2, "y".to_string(), 2), (3, "z".to_string(), 3)]
    );
}

#[test]
fn confirmed_creation_stays() {
    let mut db = VectorDB::new();
    db.create_collection("c1", DistanceMetric::Cosine, 3).unwrap();
    assert_eq!(db.confirm_collection("c1", Ok(())), Ok(()));
    assert!(db.get_collection_by_name("c1").is_ok());
    assert_eq!(db.list_collections().len(), 1);
}

#[test]
fn failed_creation_leaves_no_trace() {
    let mut db = VectorDB::new();
    db.create_collection("keep", DistanceMetric::Dot, 4).unwrap();
    db.create_collection("c1", DistanceMetric::Cosine, 3).unwrap();
    let r = db.confirm_collection("c1", Err("disk full".to_string()));
    assert_eq!(r, Err(EngineError::Storage("disk full".to_string())));
    assert_eq!(db.get_collection_by_name("c1").unwrap_err(), EngineError::CollectionNotFound);
    let names: Vec<String> = db.list_collections().into_iter().map(|m| m.name).collect();
    assert_eq!(names, vec!["keep".to_string()]);
    let again = db.create_collection("c1", DistanceMetric::Cosine, 3).unwrap();
    assert_eq!(again.id, 3);
}

#[test]
fn failed_confirmation_of_an_unknown_name_reports_the_error_only() {
    let mut db = VectorDB::new();
    db.create_collection("keep", DistanceMetric::Dot, 4).unwrap();
    let r = db.confirm_collection("ghost", Err("io".to_string()));
    assert_eq!(r, Err(EngineError::Storage("io".to_string())));
    assert_eq!(db.list_collections().len(), 1);
}

#[test]
fn request_with_a_known_metric_creates() {
    let mut db = VectorDB::new();
    let req = CreateCollectionRequest {
        name: "docs".to_string(),
        metric: "Euclidean".to_string(),
        dimension: 16,
    };
    let meta = db.create_from_request(&req).unwrap();
    assert_eq!((meta.id, meta.name.as_str(), meta.dim, meta.metric), (1, "docs", 16, DistanceMetric::Euclidean));
    assert_eq!(db.create_from_request(&req.clone()).unwrap_err(), EngineError::Duplicate);
}

#[test]
fn request_with_an_unknown_metric_is_refused() {
    let mut db = VectorDB::new();
    let req = CreateCollectionRequest {
        name: "docs".to_string(),
        metric: "hamming".to_string(),
        dimension: 16,
    };
    assert_eq!(db.create_from_request(&req).unwrap_err(), EngineError::BadMetric);
    assert!(db.list_collections().is_empty());
    assert_eq!(db.ids_left(), u64::MAX - 1);
}

#[test]
fn graph_parameters_follow_the_dimension() {
    let small = HnswParams { m: 16, max_m0: 32, ef_construction: 150 };
    let medium = HnswParams { m: 12, max_m0: 24, ef_construction: 150 };
    let large = HnswParams { m: 8, max_m0: 16, ef_construction: 100 };
    assert_eq!(optimize_hnsw_params(1), small);
    assert_eq!(optimize_hnsw_params(384), small);
    assert_eq!(optimize_hnsw_params(385), medium);
    assert_eq!(optimize_hnsw_params(768), medium);
    assert_eq!(optimize_hnsw_params(769), large);
    assert_eq!(optimize_hnsw_params(4096), large);
    assert_eq!(INDEX_CAPACITY, 100_000);
    assert_eq!(INDEX_LAYERS, 10);
}

#[test]
fn an_entry_carries_the_parameters_of_its_dimension() {
    let meta = CollectionMeta {
        id: 9,
        name: "wide".to_string(),
        dim: 1000,
        metric: DistanceMetric::Dot,
        doc_count: 0,
    };
    let entry = CollectionEntry::new(meta.clone());
    assert_eq!(entry.index_params(), optimize_hnsw_params(1000));
    assert_eq!(entry.meta.name, "wide");
    assert_eq!(entry.meta.id, 9);
}

#[test]
fn candidate_width_is_twice_k_and_at_least_fifty() {
    assert_eq!(ef_search(0), 50);
    assert_eq!(ef_search(1), 50);
    assert_eq!(ef_search(24), 50);
    assert_eq!(ef_search(25), 50);
    assert_eq!(ef_search(26), 52);
    assert_eq!(ef_search(100), 200);
    assert_eq!(ef_search(usize::MAX / 2), usize::MAX - 1);
    assert_eq!(ef_search(usize::MAX / 2 + 1), usize::MAX);
    assert_eq!(ef_search(usize::MAX), usize::MAX);
}

#[test]
fn error_messages() {
    assert_eq!(EngineError::CollectionNotFound.message(), "Collection not found");
    assert_eq!(EngineError::Duplicate.message(), "duplicate");
    assert_eq!(EngineError::DimensionMismatch.message(), "Embedding dimension mismatch");
    assert_eq!(EngineError::CorruptEmbedding.message(), "Corrupt embedding");
    assert_eq!(EngineError::Storage("lock held".to_string()).message(), "lock held");
    assert_eq!(EngineError::BadMetric.message(), "Unknown metric");
    assert_eq!(EngineError::EmptyBatch.message(), "No documents provided");
}

#[test]
fn the_allocator_counts_up_from_one() {
    let mut ids = vectordb::IdAllocator::new();
    assert!(!ids.is_exhausted());
    assert_eq!(ids.remaining(), u64::MAX - 1);
    assert_eq!((ids.next(), ids.next(), ids.next()), (1, 2, 3));
    assert_eq!(ids.remaining(), u64::MAX - 4);
}

#[test]
fn the_engine_knows_the_parameters_of_each_index() {
    let mut db = VectorDB::new();
    db.create_collection("small", DistanceMetric::Cosine, 128).unwrap();
    db.create_collection("medium", DistanceMetric::Cosine, 512).unwrap();
    db.create_collection("large", DistanceMetric::Cosine, 1536).unwrap();
    assert_eq!(db.index_params("small"), Ok(HnswParams { m: 16, max_m0: 32, ef_construction: 150 }));
    assert_eq!(db.index_params("medium"), Ok(HnswParams { m: 12, max_m0: 24, ef_construction: 150 }));
    assert_eq!(db.index_params("large"), Ok(HnswParams { m: 8, max_m0: 16, ef_construction: 100 }));
    assert_eq!(db.index_params("none"), Err(EngineError::CollectionNotFound));
}
