//! A collection: its metadata and the configuration of its index.

use vstd::prelude::*;
use vstd::string::*;
use crate::metric::DistanceMetric;

verus! {

/// What is known of a collection: its identifier and name, the dimension and
/// the metric it was created with, and how many documents it holds.
#[derive(Debug)]
pub struct CollectionMeta {
    pub id: u64,
    pub name: String,
    pub dim: usize,
    pub metric: DistanceMetric,
    pub doc_count: u64,
}

/// The mathematical content of a `CollectionMeta`.
pub ghost struct MetaView {
    pub id: u64,
    pub name: Seq<char>,
    pub dim: usize,
    pub metric: DistanceMetric,
    pub doc_count: u64,
}

impl View for CollectionMeta {
    type V = MetaView;

    open spec fn view(&self) -> MetaView {
        MetaView {
            id: self.id,
            name: self.name@,
            dim: self.dim,
            metric: self.metric,
            doc_count: self.doc_count,
        }
    }
}

impl Clone for CollectionMeta {
    fn clone(&self) -> (r: Self)
        ensures
            r@ == self@,
    {
        CollectionMeta {
            id: self.id,
            name: self.name.clone(),
            dim: self.dim,
            metric: self.metric,
            doc_count: self.doc_count,
        }
    }
}

/// The number of elements that a new index is laid out for. The index grows
/// beyond it.
pub const INDEX_CAPACITY: usize = 100_000;

/// The number of layers that a new index is laid out for.
pub const INDEX_LAYERS: usize = 10;

/// The parameters with which the nearest-neighbour graph of a collection is
/// built.
#[derive(Clone, Copy, Debug, PartialEq, Eq, Structural)]
pub struct HnswParams {
    /// Links per node above the bottom layer.
    pub m: usize,
    /// Links per node on the bottom layer.
    pub max_m0: usize,
    /// Width of the candidate list while the graph is built.
    pub ef_construction: usize,
}

/// The graph parameters for a dimension: fewer links for longer vectors.
pub open spec fn hnsw_params_spec(dim: usize) -> HnswParams {
    if dim <= 384 {
        HnswParams { m: 16, max_m0: 32, ef_construction: 150 }
    } else if dim <= 768 {
        HnswParams { m: 12, max_m0: 24, ef_construction: 150 }
    } else {
        HnswParams { m: 8, max_m0: 16, ef_construction: 100 }
    }
}

/// The width of the candidate list for a query that asks for `top_k`
/// neighbours: twice `top_k`, and no less than fifty.
pub open spec fn ef_search_spec(top_k: nat) -> nat {
    if 2 * top_k >= 50 {
        2 * top_k
    } else {
        50
    }
}

/// Chooses the graph parameters for a collection of the given dimension.
pub fn optimize_hnsw_params(dim: usize) -> (p: HnswParams)
    ensures
        p == hnsw_params_spec(dim),
        p.max_m0 == 2 * p.m,
{
    let m: usize = if dim > 768 {
        8
    } else if dim > 384 {
        12
    } else {
        16
    };
    let ef_construction: usize = if dim > 768 {
        100
    } else {
        150
    };
    HnswParams { m, max_m0: m * 2, ef_construction }
}

/// The width of the candidate list for a query, held to what a `usize` can
/// express.
pub fn ef_search(top_k: usize) -> (ef: usize)
    ensures
        ef as nat == if ef_search_spec(top_k as nat) <= usize::MAX {
            ef_search_spec(top_k as nat)
        } else {
            usize::MAX as nat
        },
{
    if top_k > usize::MAX / 2 {
        usize::MAX
    } else if 2 * top_k >= 50 {
        2 * top_k
    } else {
        50
    }
}

/// A registered collection: its metadata together with the configuration of
/// the index that answers its queries.
#[derive(Debug)]
pub struct CollectionEntry {
    pub meta: CollectionMeta,
    pub index: HnswParams,
}

impl CollectionEntry {
    /// Whether the index configuration is the one that the dimension calls
    /// for.
    pub open spec fn wf(&self) -> bool {
        self.index == hnsw_params_spec(self.meta.dim)
    }

    /// An entry for a collection that holds no document yet.
    pub fn new(meta: CollectionMeta) -> (e: Self)
        ensures
            e.meta == meta,
            e.wf(),
    {
        let index = optimize_hnsw_params(meta.dim);
        CollectionEntry { meta, index }
    }

    /// The parameters with which the entry's index is built.
    pub fn index_params(&self) -> (p: HnswParams)
        ensures
            p == self.index,
    {
        self.index
    }
}

} // verus!
