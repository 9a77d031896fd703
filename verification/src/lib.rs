//! The in-process core of an embedded, multi-collection vector database.
//!
//! The crate holds the collection registry, the identifier allocator, the
//! key layout of the persistent store, the byte format of stored embeddings
//! and the rules that every insertion and every query has to pass. The
//! persistent store and the nearest-neighbour index are driven by the caller:
//! each operation here decides what has to be written or looked up, and a
//! second call takes the outcome and settles the state.
//!
//! Embeddings and distances are carried as the bit patterns of 32-bit IEEE
//! numbers, one `u32` each.

pub mod batch;
pub mod codec;
pub mod collection;
pub mod document;
pub mod engine;
pub mod error;
pub mod ids;
pub mod keys;
pub mod laws;
pub mod metric;
pub mod request;
pub mod search;
pub mod store;
pub mod text;

pub use batch::{batch_chunk_size, chunk_size, settle};
pub use collection::{CollectionEntry, CollectionMeta, HnswParams};
pub use document::{KvPut, PendingDocument};
pub use engine::{EngineView, MemoryStats, VectorDB};
pub use error::EngineError;
pub use ids::IdAllocator;
pub use metric::DistanceMetric;
pub use request::{batch_collection, AddDocumentRequest, CreateCollectionRequest};
pub use search::{Neighbour, SearchHit, SearchPlan};
