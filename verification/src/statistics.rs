//! The statistics-wrapping processor: a decorator that forwards its inner
//! processor's output unchanged while counting what flows past.  It is
//! purely observational: it never alters stream content, order or errors.

use vstd::prelude::*;

use crate::context::QueryContextImpl;
use crate::engine::{
    InitializedRasterOperator, RasterQueryProcessor, RasterResultDescriptor,
    TypedRasterQueryProcessor, VectorQueryProcessor,
};
use crate::error::Error;
use crate::primitives::{RasterQueryRectangle, VectorQueryRectangle};
use crate::raster::RasterTile2D;

verus! {

/// Per-stream throughput statistics: how many items one query emitted.
#[derive(Debug)]
pub struct StreamStatistics {
    pub id: String,
    pub count: usize,
}

/// Wraps a fully drained stream: counts its items and hands them back
/// untouched.  Law: instrumentation never changes the set or order of the
/// items; the returned run is the input run itself.
pub struct StreamStatisticsAdapter {}

impl StreamStatisticsAdapter {
    /// Instruments one stream of items under an identifying id.
    pub fn statistics_with_id<T>(items: Vec<T>, id: String) -> (r: (Vec<T>, StreamStatistics))
        ensures
            r.0 == items,
            r.1.count == items@.len(),
            r.1.id@ == id@,
    {
        let count = items.len();
        (items, StreamStatistics { id, count })
    }
}

/// An initialized operator wrapped with an identifying id: it forwards the
/// descriptor and wraps the constructed processor, keeping the variant.
#[derive(Debug)]
pub struct InitializedProcessorStatistics<S> {
    pub source: S,
    pub id: String,
}

impl<S> InitializedProcessorStatistics<S> {
    /// Decorates an initialized operator.
    pub fn statistics_with_id(source: S, id: String) -> (r: InitializedProcessorStatistics<S>)
        ensures
            r.source == source,
            r.id@ == id@,
    {
        InitializedProcessorStatistics { source, id }
    }
}

/// A processor wrapped with an identifying id: queries go to the inner
/// processor, and the output stream is handed back through the statistics
/// adapter, unchanged.
#[derive(Debug)]
pub struct ProcessorStatisticsProcessor<Q> {
    pub processor: Q,
    pub id: String,
}

impl<Q> ProcessorStatisticsProcessor<Q> {
    /// Decorates a processor.
    pub fn statistics_with_id(processor: Q, id: String) -> (r: ProcessorStatisticsProcessor<Q>)
        ensures
            r.processor == processor,
            r.id@ == id@,
    {
        ProcessorStatisticsProcessor { processor, id }
    }
}

impl<Q: RasterQueryProcessor> RasterQueryProcessor for ProcessorStatisticsProcessor<Q> {
    /// Forwards the inner processor's answer unchanged: whatever its
    /// contract admits for this query is exactly what the wrapper returns —
    /// the same error, or the same tiles in the same order.
    fn raster_query(&self, query: &RasterQueryRectangle, ctx: &QueryContextImpl) -> (r: Result<
        Vec<RasterTile2D>,
        Error,
    >)
        ensures
            call_ensures(Q::raster_query, (&self.processor, query, ctx), r),
    {
        match self.processor.raster_query(query, ctx) {
            Ok(tiles) => {
                let (forwarded, _stats) = StreamStatisticsAdapter::statistics_with_id(
                    tiles,
                    clone_id(&self.id),
                );
                Ok(forwarded)
            },
            Err(e) => Err(e),
        }
    }
}

impl<Q: VectorQueryProcessor> VectorQueryProcessor for ProcessorStatisticsProcessor<Q> {
    /// Forwards the inner processor's answer unchanged, as the raster side
    /// does.
    fn vector_query(&self, query: &VectorQueryRectangle, ctx: &QueryContextImpl) -> (r: Result<
        Vec<crate::collections::FeatureCollection>,
        Error,
    >)
        ensures
            call_ensures(Q::vector_query, (&self.processor, query, ctx), r),
    {
        match self.processor.vector_query(query, ctx) {
            Ok(chunks) => {
                let (forwarded, _stats) = StreamStatisticsAdapter::statistics_with_id(
                    chunks,
                    clone_id(&self.id),
                );
                Ok(forwarded)
            },
            Err(e) => Err(e),
        }
    }
}

fn clone_id(id: &String) -> (r: String)
    ensures
        r@ == id@,
{
    id.clone()
}

impl<S: InitializedRasterOperator> InitializedRasterOperator for InitializedProcessorStatistics<
    S,
> {
    type Proc = ProcessorStatisticsProcessor<S::Proc>;

    /// Forwards the source's descriptor unchanged: the result is a value
    /// the source's own `result_descriptor` could have returned.
    fn result_descriptor(&self) -> (r: RasterResultDescriptor)
        ensures
            call_ensures(S::result_descriptor, (&self.source,), r),
    {
        self.source.result_descriptor()
    }

    /// Constructs the source's typed processor and decorates it: the source
    /// result decides success and the error value; on success the tagged
    /// union's variant is kept and the wrapped processor is the source's,
    /// under this decorator's id.
    fn query_processor(&self) -> (r: Result<
        TypedRasterQueryProcessor<ProcessorStatisticsProcessor<S::Proc>>,
        Error,
    >)
        ensures
            exists|inner: Result<TypedRasterQueryProcessor<S::Proc>, Error>|
                {
                    &&& #[trigger] call_ensures(S::query_processor, (&self.source,), inner)
                    &&& (inner matches Err(e) ==> r == Err::<
                        TypedRasterQueryProcessor<ProcessorStatisticsProcessor<S::Proc>>,
                        Error,
                    >(e))
                    &&& (inner matches Ok(p) ==> (r matches Ok(p2) && {
                        &&& p2.spec_raster_data_type() == p.spec_raster_data_type()
                        &&& p2.spec_inner().processor == p.spec_inner()
                        &&& p2.spec_inner().id@ == self.id@
                    }))
                },
    {
        let processor_result = self.source.query_processor();
        proof {
            assert(call_ensures(S::query_processor, (&self.source,), processor_result));
        }
        match processor_result {
            Ok(p) => {
                let res_processor = match p {
                    TypedRasterQueryProcessor::U8(p) => TypedRasterQueryProcessor::U8(
                        ProcessorStatisticsProcessor::statistics_with_id(p, clone_id(&self.id)),
                    ),
                    TypedRasterQueryProcessor::U16(p) => TypedRasterQueryProcessor::U16(
                        ProcessorStatisticsProcessor::statistics_with_id(p, clone_id(&self.id)),
                    ),
                    TypedRasterQueryProcessor::U32(p) => TypedRasterQueryProcessor::U32(
                        ProcessorStatisticsProcessor::statistics_with_id(p, clone_id(&self.id)),
                    ),
                    TypedRasterQueryProcessor::U64(p) => TypedRasterQueryProcessor::U64(
                        ProcessorStatisticsProcessor::statistics_with_id(p, clone_id(&self.id)),
                    ),
                    TypedRasterQueryProcessor::I8(p) => TypedRasterQueryProcessor::I8(
                        ProcessorStatisticsProcessor::statistics_with_id(p, clone_id(&self.id)),
                    ),
                    TypedRasterQueryProcessor::I16(p) => TypedRasterQueryProcessor::I16(
                        ProcessorStatisticsProcessor::statistics_with_id(p, clone_id(&self.id)),
                    ),
                    TypedRasterQueryProcessor::I32(p) => TypedRasterQueryProcessor::I32(
                        ProcessorStatisticsProcessor::statistics_with_id(p, clone_id(&self.id)),
                    ),
                    TypedRasterQueryProcessor::I64(p) => TypedRasterQueryProcessor::I64(
                        ProcessorStatisticsProcessor::statistics_with_id(p, clone_id(&self.id)),
                    ),
                    TypedRasterQueryProcessor::F32(p) => TypedRasterQueryProcessor::F32(
                        ProcessorStatisticsProcessor::statistics_with_id(p, clone_id(&self.id)),
                    ),
                    TypedRasterQueryProcessor::F64(p) => TypedRasterQueryProcessor::F64(
                        ProcessorStatisticsProcessor::statistics_with_id(p, clone_id(&self.id)),
                    ),
                };
                Ok(res_processor)
            },
            Err(err) => Err(err),
        }
    }
}

} // verus!
