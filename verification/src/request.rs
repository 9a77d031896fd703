//! Requests as they reach the engine from outside.

use vstd::prelude::*;
use vstd::string::*;
use crate::collection::CollectionMeta;
use crate::engine::VectorDB;
use crate::error::EngineError;
use crate::metric::DistanceMetric;

verus! {

/// The request to create a collection: its name, the name of its metric and
/// its dimension.
#[derive(Debug)]
pub struct CreateCollectionRequest {
    pub name: String,
    pub metric: String,
    pub dimension: usize,
}

/// The request to add one document. The embedding is given as the bit
/// patterns of its components.
#[derive(Debug)]
pub struct AddDocumentRequest {
    /// The identifier that the document is to have; a fresh one is assigned
    /// where none is given.
    pub id: Option<u64>,
    pub embedding: Vec<u32>,
    pub metadata: String,
    pub content: String,
    pub collection_name: String,
}

/// The mathematical content of an `AddDocumentRequest`.
pub ghost struct DocView {
    pub id: Option<u64>,
    pub embedding: Seq<u32>,
    pub metadata: Seq<char>,
    pub content: Seq<char>,
    pub collection_name: Seq<char>,
}

impl View for AddDocumentRequest {
    type V = DocView;

    open spec fn view(&self) -> DocView {
        DocView {
            id: self.id,
            embedding: self.embedding@,
            metadata: self.metadata@,
            content: self.content@,
            collection_name: self.collection_name@,
        }
    }
}

impl Clone for CreateCollectionRequest {
    fn clone(&self) -> (r: Self)
        ensures
            r.name@ == self.name@,
            r.metric@ == self.metric@,
            r.dimension == self.dimension,
    {
        CreateCollectionRequest {
            name: self.name.clone(),
            metric: self.metric.clone(),
            dimension: self.dimension,
        }
    }
}

impl Clone for AddDocumentRequest {
    fn clone(&self) -> (r: Self)
        ensures
            r@ == self@,
    {
        AddDocumentRequest {
            id: self.id,
            embedding: self.embedding.clone(),
            metadata: self.metadata.clone(),
            content: self.content.clone(),
            collection_name: self.collection_name.clone(),
        }
    }
}

/// The contents of a list of requests, in their order.
pub open spec fn docs_view(docs: Seq<AddDocumentRequest>) -> Seq<DocView> {
    Seq::new(docs.len(), |i: int| docs[i]@)
}

/// The collection that a batch of requests is meant for: the one that its
/// first document names. A batch without documents is meant for none.
pub fn batch_collection(docs: &Vec<AddDocumentRequest>) -> (r: Result<&str, EngineError>)
    ensures
        match r {
            Ok(name) => docs@.len() > 0 && name@ == docs@[0].collection_name@,
            Err(e) => docs@.len() == 0 && e == EngineError::EmptyBatch,
        },
{
    if docs.len() == 0 {
        Err(EngineError::EmptyBatch)
    } else {
        Ok(docs[0].collection_name.as_str())
    }
}

impl VectorDB {
    /// Creates the collection that a request describes. A metric name that
    /// names no metric is refused with `BadMetric`, and nothing changes;
    /// otherwise the request is handled as `create_collection` handles it.
    pub fn create_from_request(&mut self, req: &CreateCollectionRequest) -> (r: Result<
        CollectionMeta,
        EngineError,
    >)
        requires
            old(self).wf(),
            req.dimension >= 1,
            old(self)@.next_id < u64::MAX,
        ensures
            final(self).wf(),
            match DistanceMetric::parse(req.metric@) {
                None => r matches Err(e) && e == EngineError::BadMetric && final(self)@ == old(
                    self,
                )@,
                Some(metric) => match r {
                    Ok(meta) => {
                        &&& !old(self)@.contains(req.name@)
                        &&& meta@ == old(self)@.fresh(req.name@, metric, req.dimension)
                        &&& final(self)@ == old(self)@.created(req.name@, metric, req.dimension)
                    },
                    Err(e) => {
                        &&& e == EngineError::Duplicate
                        &&& old(self)@.contains(req.name@)
                        &&& final(self)@ == old(self)@
                    },
                },
            },
    {
        match DistanceMetric::from_str(req.metric.as_str()) {
            None => Err(EngineError::BadMetric),
            Some(metric) => self.create_collection(req.name.as_str(), metric, req.dimension),
        }
    }
}

} // verus!
