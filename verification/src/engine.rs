//! The query-processor abstraction: a processor turns a query rectangle
//! into an ordered run of typed tiles or collection chunks.  Concrete
//! sources implement the processor traits; operators compose them.  The
//! closed set of pixel types is dispatched through a tagged union with one
//! variant per type.

use vstd::prelude::*;

use crate::collections::{same_rows, FeatureCollection};
use crate::context::QueryContextImpl;
use crate::error::Error;
use crate::primitives::{
    RasterQueryRectangle, SpatialPartition2D, SpatialResolution, TimeInterval,
    VectorQueryRectangle,
};
use crate::raster::{GridOrEmpty2D, RasterDataType, RasterTile2D};

verus! {

/// Static metadata describing a raster operator's output shape,
/// independent of any specific query.
#[derive(Clone, Copy, Debug, PartialEq, Eq, Structural)]
pub struct RasterResultDescriptor {
    pub data_type: RasterDataType,
    pub bands: u32,
    pub time: Option<TimeInterval>,
    pub bbox: Option<SpatialPartition2D>,
    pub resolution: Option<SpatialResolution>,
}

impl RasterResultDescriptor {
    /// The same descriptor with another pixel type, the shape an operator
    /// that recomputes every pixel produces.
    pub fn map_data_type(&self, data_type: RasterDataType) -> (r: RasterResultDescriptor)
        ensures
            r == (RasterResultDescriptor { data_type, ..*self }),
    {
        RasterResultDescriptor {
            data_type,
            bands: self.bands,
            time: self.time,
            bbox: self.bbox,
            resolution: self.resolution,
        }
    }
}

/// Static metadata describing a vector operator's output shape.
#[derive(Clone, Copy, Debug, PartialEq, Eq, Structural)]
pub struct VectorResultDescriptor {
    pub time: Option<TimeInterval>,
    pub columns: u32,
}

/// Two tiles with the same observations: metadata, shape and pixels.
pub open spec fn same_tile(a: RasterTile2D, b: RasterTile2D) -> bool {
    &&& a.time == b.time
    &&& a.tile_position == b.tile_position
    &&& a.band == b.band
    &&& a.global_geo_transform == b.global_geo_transform
    &&& a.cache_hint == b.cache_hint
    &&& a.grid_array.spec_shape() == b.grid_array.spec_shape()
    &&& a.grid_array.spec_is_empty() == b.grid_array.spec_is_empty()
    &&& forall|row: int, col: int|
        #![trigger a.grid_array.spec_value_at(row, col)]
        a.grid_array.spec_value_at(row, col) == b.grid_array.spec_value_at(row, col)
}

/// Copies a tile, keeping all its observations.
pub fn clone_tile(t: &RasterTile2D) -> (r: RasterTile2D)
    requires
        t.wf(),
    ensures
        same_tile(r, *t),
        r.wf(),
{
    let grid_array = match &t.grid_array {
        GridOrEmpty2D::Empty(s) => GridOrEmpty2D::Empty(*s),
        GridOrEmpty2D::Grid(g) => {
            let shape = g.shape();
            let mut data: Vec<Option<i64>> = Vec::new();
            let mut i: usize = 0;
            let ghost values = g.values();
            while i < g.values_len()
                invariant
                    i <= values.len(),
                    values == g.values(),
                    data@ =~= values.take(i as int),
                decreases values.len() - i,
            {
                data.push(g.value_at_linear(i));
                i += 1;
            }
            proof {
                assert(data@ =~= values);
            }
            match crate::raster::Grid2D::new(shape, data) {
                Ok(g2) => GridOrEmpty2D::Grid(g2),
                Err(_) => {
                    // The copied data has the grid's own length.
                    proof {
                        assert(false);
                    }
                    GridOrEmpty2D::Empty(shape)
                },
            }
        },
    };
    RasterTile2D {
        time: t.time,
        tile_position: t.tile_position,
        band: t.band,
        global_geo_transform: t.global_geo_transform,
        grid_array,
        cache_hint: t.cache_hint,
    }
}

/// A processor of one concrete pixel type: asynchronously in the full
/// system, here as the run of tiles the query yields.  Sources and
/// operators implement this; contracts promise at least well-formed tiles.
pub trait RasterQueryProcessor: Sized {
    fn raster_query(&self, query: &RasterQueryRectangle, ctx: &QueryContextImpl) -> (r: Result<
        Vec<RasterTile2D>,
        Error,
    >)
        requires
            query.wf(),
        ensures
            r matches Ok(tiles) ==> forall|i: int|
                0 <= i < tiles@.len() ==> (#[trigger] tiles@[i]).wf(),
    ;
}

/// A processor yielding feature-collection chunks for a vector query.
pub trait VectorQueryProcessor: Sized {
    fn vector_query(&self, query: &VectorQueryRectangle, ctx: &QueryContextImpl) -> (r: Result<
        Vec<FeatureCollection>,
        Error,
    >)
        requires
            query.wf(),
        ensures
            r matches Ok(chunks) ==> forall|i: int|
                0 <= i < chunks@.len() ==> (#[trigger] chunks@[i]).wf(),
    ;
}

/// The closed tagged union over the supported pixel types: one variant per
/// type, each wrapping the processor that yields tiles of that type.
#[derive(Debug)]
pub enum TypedRasterQueryProcessor<P> {
    U8(P),
    U16(P),
    U32(P),
    U64(P),
    I8(P),
    I16(P),
    I32(P),
    I64(P),
    F32(P),
    F64(P),
}

impl<P> TypedRasterQueryProcessor<P> {
    /// The pixel type this variant stands for.
    pub open spec fn spec_raster_data_type(self) -> RasterDataType {
        match self {
            TypedRasterQueryProcessor::U8(_) => RasterDataType::U8,
            TypedRasterQueryProcessor::U16(_) => RasterDataType::U16,
            TypedRasterQueryProcessor::U32(_) => RasterDataType::U32,
            TypedRasterQueryProcessor::U64(_) => RasterDataType::U64,
            TypedRasterQueryProcessor::I8(_) => RasterDataType::I8,
            TypedRasterQueryProcessor::I16(_) => RasterDataType::I16,
            TypedRasterQueryProcessor::I32(_) => RasterDataType::I32,
            TypedRasterQueryProcessor::I64(_) => RasterDataType::I64,
            TypedRasterQueryProcessor::F32(_) => RasterDataType::F32,
            TypedRasterQueryProcessor::F64(_) => RasterDataType::F64,
        }
    }

    /// The wrapped processor, whatever the variant.
    pub open spec fn spec_inner(self) -> P {
        match self {
            TypedRasterQueryProcessor::U8(p) => p,
            TypedRasterQueryProcessor::U16(p) => p,
            TypedRasterQueryProcessor::U32(p) => p,
            TypedRasterQueryProcessor::U64(p) => p,
            TypedRasterQueryProcessor::I8(p) => p,
            TypedRasterQueryProcessor::I16(p) => p,
            TypedRasterQueryProcessor::I32(p) => p,
            TypedRasterQueryProcessor::I64(p) => p,
            TypedRasterQueryProcessor::F32(p) => p,
            TypedRasterQueryProcessor::F64(p) => p,
        }
    }

    pub fn raster_data_type(&self) -> (r: RasterDataType)
        ensures
            r == self.spec_raster_data_type(),
    {
        match self {
            TypedRasterQueryProcessor::U8(_) => RasterDataType::U8,
            TypedRasterQueryProcessor::U16(_) => RasterDataType::U16,
            TypedRasterQueryProcessor::U32(_) => RasterDataType::U32,
            TypedRasterQueryProcessor::U64(_) => RasterDataType::U64,
            TypedRasterQueryProcessor::I8(_) => RasterDataType::I8,
            TypedRasterQueryProcessor::I16(_) => RasterDataType::I16,
            TypedRasterQueryProcessor::I32(_) => RasterDataType::I32,
            TypedRasterQueryProcessor::I64(_) => RasterDataType::I64,
            TypedRasterQueryProcessor::F32(_) => RasterDataType::F32,
            TypedRasterQueryProcessor::F64(_) => RasterDataType::F64,
        }
    }

    /// The single generic dispatch point: every call site reaches the
    /// wrapped processor through this accessor instead of matching ten
    /// variants itself.
    pub fn inner(&self) -> (r: &P)
        ensures
            *r == self.spec_inner(),
    {
        match self {
            TypedRasterQueryProcessor::U8(p) => p,
            TypedRasterQueryProcessor::U16(p) => p,
            TypedRasterQueryProcessor::U32(p) => p,
            TypedRasterQueryProcessor::U64(p) => p,
            TypedRasterQueryProcessor::I8(p) => p,
            TypedRasterQueryProcessor::I16(p) => p,
            TypedRasterQueryProcessor::I32(p) => p,
            TypedRasterQueryProcessor::I64(p) => p,
            TypedRasterQueryProcessor::F32(p) => p,
            TypedRasterQueryProcessor::F64(p) => p,
        }
    }
}

/// An initialized raster operator: its output shape is fixed and a typed
/// processor can be constructed from it any number of times.
pub trait InitializedRasterOperator: Sized {
    type Proc: RasterQueryProcessor;

    fn result_descriptor(&self) -> RasterResultDescriptor;

    fn query_processor(&self) -> Result<TypedRasterQueryProcessor<Self::Proc>, Error>;
}

/// A raster source with a fixed run of tiles: every query yields copies of
/// them.  The test double the engine's own tests run against.
#[derive(Debug)]
pub struct MockRasterSource {
    tiles: Vec<RasterTile2D>,
    result_descriptor: RasterResultDescriptor,
}

impl MockRasterSource {
    /// Every tile a mock source was built with is well-formed.
    #[verifier::type_invariant]
    pub closed spec fn type_inv(self) -> bool {
        forall|i: int| 0 <= i < self.tiles@.len() ==> (#[trigger] self.tiles@[i]).wf()
    }

    pub closed spec fn tiles_seq(self) -> Seq<RasterTile2D> {
        self.tiles@
    }

    pub closed spec fn spec_result_descriptor(self) -> RasterResultDescriptor {
        self.result_descriptor
    }

    pub fn result_descriptor(&self) -> (r: RasterResultDescriptor)
        ensures
            r == self.spec_result_descriptor(),
    {
        self.result_descriptor
    }

    pub fn new(tiles: Vec<RasterTile2D>, result_descriptor: RasterResultDescriptor) -> (r:
        MockRasterSource)
        requires
            forall|i: int| 0 <= i < tiles@.len() ==> (#[trigger] tiles@[i]).wf(),
        ensures
            r.tiles_seq() == tiles@,
            r.spec_result_descriptor() == result_descriptor,
            forall|i: int| 0 <= i < r.tiles_seq().len() ==> (#[trigger] r.tiles_seq()[i]).wf(),
    {
        MockRasterSource { tiles, result_descriptor }
    }
}

impl RasterQueryProcessor for MockRasterSource {
    fn raster_query(&self, query: &RasterQueryRectangle, ctx: &QueryContextImpl) -> (r: Result<
        Vec<RasterTile2D>,
        Error,
    >)
        ensures
            r matches Ok(tiles) ==> tiles@.len() == self.tiles_seq().len() && forall|i: int|
                0 <= i < tiles@.len() ==> same_tile(#[trigger] tiles@[i], self.tiles_seq()[i])
                    && tiles@[i].wf(),
    {
        proof {
            use_type_invariant(self);
        }
        let mut out: Vec<RasterTile2D> = Vec::new();
        let mut i: usize = 0;
        while i < self.tiles.len()
            invariant
                i <= self.tiles_seq().len(),
                out@.len() == i,
                forall|k: int| 0 <= k < self.tiles_seq().len() ==> (#[trigger] self.tiles_seq()[k]).wf(),
                forall|k: int|
                    0 <= k < i ==> same_tile(#[trigger] out@[k], self.tiles_seq()[k])
                        && out@[k].wf(),
            decreases self.tiles_seq().len() - i,
        {
            out.push(clone_tile(&self.tiles[i]));
            i += 1;
        }
        Ok(out)
    }
}

/// A vector source with a fixed run of chunks; every query yields them
/// once.  Querying a second time yields no chunks.
#[derive(Debug)]
pub struct MockFeatureCollectionSource {
    collections: Vec<FeatureCollection>,
}

impl MockFeatureCollectionSource {
    /// Every chunk a mock source was built with is well-formed.
    #[verifier::type_invariant]
    pub closed spec fn type_inv(self) -> bool {
        forall|i: int| 0 <= i < self.collections@.len() ==> (#[trigger] self.collections@[i]).wf()
    }

    pub closed spec fn chunks_seq(self) -> Seq<FeatureCollection> {
        self.collections@
    }

    pub fn single(collection: FeatureCollection) -> (r: MockFeatureCollectionSource)
        requires
            collection.wf(),
        ensures
            r.chunks_seq().len() == 1,
            same_rows(r.chunks_seq()[0], collection),
            r.chunks_seq()[0].wf(),
    {
        let c = MockFeatureCollectionSource { collections: vec![collection] };
        proof {
            assert(c.collections@[0].wf());
        }
        c
    }
}

impl VectorQueryProcessor for MockFeatureCollectionSource {
    fn vector_query(&self, query: &VectorQueryRectangle, ctx: &QueryContextImpl) -> (r: Result<
        Vec<FeatureCollection>,
        Error,
    >)
        ensures
            r matches Ok(chunks) ==> chunks@.len() == self.chunks_seq().len() && forall|i: int|
                0 <= i < chunks@.len() ==> same_rows(#[trigger] chunks@[i], self.chunks_seq()[i])
                    && chunks@[i].wf(),
    {
        proof {
            use_type_invariant(self);
        }
        let mut out: Vec<FeatureCollection> = Vec::new();
        let mut i: usize = 0;
        while i < self.collections.len()
            invariant
                i <= self.chunks_seq().len(),
                out@.len() == i,
                forall|k: int|
                    0 <= k < self.chunks_seq().len() ==> (#[trigger] self.chunks_seq()[k]).wf(),
                forall|k: int|
                    0 <= k < i ==> same_rows(#[trigger] out@[k], self.chunks_seq()[k])
                        && out@[k].wf(),
            decreases self.chunks_seq().len() - i,
        {
            out.push(self.collections[i].clone());
            i += 1;
        }
        Ok(out)
    }
}

} // verus!
