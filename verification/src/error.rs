//! The failures that the engine reports.

use vstd::prelude::*;
use vstd::string::*;

verus! {

/// Why an operation of the engine did not succeed.
#[derive(Debug, PartialEq, Eq)]
pub enum EngineError {
    /// No collection is registered under the given name.
    CollectionNotFound,
    /// A collection with the given name exists already.
    Duplicate,
    /// An embedding or a query has another length than the collection's dimension.
    DimensionMismatch,
    /// Stored bytes are not the encoding of an embedding.
    CorruptEmbedding,
    /// The persistent store failed; the text is the store's own.
    Storage(String),
    /// A text that names no metric was given where a metric was expected.
    BadMetric,
    /// A batch insertion was asked for with no document in it.
    EmptyBatch,
}

impl EngineError {
    /// The text that `message` returns.
    pub open spec fn message_spec(self) -> Seq<char> {
        match self {
            EngineError::CollectionNotFound => "Collection not found"@,
            EngineError::Duplicate => "duplicate"@,
            EngineError::DimensionMismatch => "Embedding dimension mismatch"@,
            EngineError::CorruptEmbedding => "Corrupt embedding"@,
            EngineError::Storage(msg) => msg@,
            EngineError::BadMetric => "Unknown metric"@,
            EngineError::EmptyBatch => "No documents provided"@,
        }
    }

    /// A human-readable description of the failure.
    pub fn message(&self) -> (r: String)
        ensures
            r@ == self.message_spec(),
    {
        match self {
            EngineError::CollectionNotFound => String::from_str("Collection not found"),
            EngineError::Duplicate => String::from_str("duplicate"),
            EngineError::DimensionMismatch => String::from_str("Embedding dimension mismatch"),
            EngineError::CorruptEmbedding => String::from_str("Corrupt embedding"),
            EngineError::Storage(msg) => msg.clone(),
            EngineError::BadMetric => String::from_str("Unknown metric"),
            EngineError::EmptyBatch => String::from_str("No documents provided"),
        }
    }
}

} // verus!
