//! The raster-vector join processor: plans each vector chunk (short-circuit
//! or raster query), folds the raster tile stream per time window through
//! the joiner, and merges the emitted chunks to the query context's byte
//! budget.  Successive raster sources are chained, one new column each.

use vstd::prelude::*;

use crate::adapters::{concat_geoms, merge_chunks};
use crate::aggregator::{
    spec_output_cell, spec_output_data_type, AggSlot, FeatureAggregationMethod,
};
use crate::collections::{
    columns_filtered, mask_filter, spec_bbox_hull, spec_time_hull, FeatureCollection,
};
use crate::context::QueryContextImpl;
use crate::engine::{RasterQueryProcessor, TypedRasterQueryProcessor, VectorQueryProcessor};
use crate::error::Error;
use crate::join::{narrowed_times, slot_after_points, time_mask, VectorRasterJoiner};
use crate::primitives::{
    BandSelection, QueryRectangle, RasterQueryRectangle, SpatialPartition2D, TimeInterval,
    VectorQueryRectangle,
};
use crate::raster::{RasterDataType, RasterTile2D};

verus! {

/// What to do with one vector chunk: answer it from the chunk alone with an
/// all-null column, or query the raster over the intersected rectangle.
#[derive(Debug)]
pub enum ChunkPlan {
    SkipRaster(FeatureCollection),
    QueryRaster(RasterQueryRectangle),
}

/// Whether a chunk short-circuits: it is empty, or its spatial or temporal
/// hull misses the query.
pub open spec fn spec_chunk_skips(collection: FeatureCollection, query: QueryRectangle<
    crate::primitives::BoundingBox2D,
    crate::primitives::ColumnSelection,
>) -> bool {
    ||| collection.spec_len() == 0
    ||| spec_bbox_hull(collection.geoms()).spec_intersection(query.spatial_bounds) is None
    ||| spec_time_hull(collection.time_seq()).spec_intersect(query.time_interval) is None
}

/// Decides one vector chunk: a chunk that is empty or misses the query in
/// space or time is answered immediately with an all-null column of the
/// raster's attribute type — no raster query is issued for it.  Otherwise
/// the raster is to be queried over the intersected rectangle.
pub fn plan_collection_chunk(
    collection: &FeatureCollection,
    query: &VectorQueryRectangle,
    raster_data_type: RasterDataType,
    new_column_name: &str,
) -> (r: Result<ChunkPlan, Error>)
    requires
        collection.wf(),
        query.wf(),
    ensures
        r is Err <==> (spec_chunk_skips(*collection, *query) && collection.has_column_name(
            new_column_name@,
        )),
        r is Err ==> r == Err::<ChunkPlan, Error>(Error::ColumnAlreadyExists),
        r matches Ok(p) ==> (p is SkipRaster <==> spec_chunk_skips(*collection, *query)),
        r matches Ok(p) ==> (p matches ChunkPlan::SkipRaster(c) ==> c.wf() && skip_output(
            c,
            *collection,
            raster_data_type,
            new_column_name@,
        )),
        r matches Ok(p) ==> (p matches ChunkPlan::QueryRaster(rect) ==> rect.wf()
            && is_planned_rect(rect, *collection, *query)),
    {
        let empty = collection.is_empty();
        let mut skip = empty;
        let mut bbox_isect: Option<crate::primitives::BoundingBox2D> = None;
        let mut time_isect: Option<TimeInterval> = None;
        if !empty {
            bbox_isect = match collection.bbox() {
                Some(hull) => hull.intersection(&query.spatial_bounds),
                None => None,
            };
            time_isect = match collection.time_bounds() {
                Some(hull) => hull.intersect(&query.time_interval),
                None => None,
            };
            skip = bbox_isect.is_none() || time_isect.is_none();
        }
        if skip {
            let null_column = raster_data_type.to_feature_data_type().null_feature_data(
                collection.len(),
            );
            let with_nulls = collection.add_column(new_column_name, null_column)?;
            proof {
                let ncols = collection.num_columns() as int;
                assert forall|j: int|
                    0 <= j < ncols implies #[trigger] with_nulls.col_cells(j)
                    == collection.col_cells(j) by {}
                assert forall|j: int|
                    0 <= j < ncols implies #[trigger] with_nulls.col_name(j)
                    == collection.col_name(j) by {
                    assert(with_nulls.col_cells(j) == collection.col_cells(j));
                }
                assert forall|j: int|
                    0 <= j < ncols implies #[trigger] with_nulls.col_type(j)
                    == collection.col_type(j) by {
                    assert(with_nulls.col_cells(j) == collection.col_cells(j));
                }
                assert forall|i: int|
                    0 <= i < collection.spec_len() implies (#[trigger] with_nulls.col_cells(ncols)[
                    i]).is_null() by {
                    assert(with_nulls.col_cells(ncols) == crate::collections::fd_cells(
                        null_column,
                    ));
                }
                assert(skip_output(with_nulls, *collection, raster_data_type, new_column_name@));
            }
            Ok(ChunkPlan::SkipRaster(with_nulls))
        } else {
            let time_interval = match time_isect {
                Some(t) => t,
                None => {
                    proof {
                        assert(false);
                    }
                    return Err(Error::ColumnAlreadyExists);
                },
            };
            let bbox = match bbox_isect {
                Some(b) => b,
                None => {
                    proof {
                        assert(false);
                    }
                    return Err(Error::ColumnAlreadyExists);
                },
            };
            proof {
                assert(time_interval.wf());
            }
            let spatial_bounds = SpatialPartition2D::with_bbox_and_resolution(
                bbox,
                query.spatial_resolution,
            );
            Ok(
                ChunkPlan::QueryRaster(
                    QueryRectangle {
                        spatial_bounds,
                        time_interval,
                        spatial_resolution: query.spatial_resolution,
                        attributes: BandSelection::first(),
                    },
                ),
            )
        }
    }

/// Law: a query whose time interval is disjoint from the collection's
/// temporal hull is answered from the chunk alone — the plan then yields
/// the all-null column and no raster query.  Every feature's own interval
/// then misses the query too, except at most a touching instant at a hull
/// boundary, which the half-open window semantics admits.
pub proof fn lemma_plan_skips_disjoint_time(
    collection: FeatureCollection,
    query: VectorQueryRectangle,
)
    requires
        collection.wf(),
        query.wf(),
        spec_time_hull(collection.time_seq()).spec_intersect(query.time_interval) is None,
    ensures
        spec_chunk_skips(collection, query),
        forall|i: int|
            #![trigger collection.time_seq()[i]]
            0 <= i < collection.time_seq().len() ==> {
                ||| collection.time_seq()[i].spec_intersect(query.time_interval) is None
                ||| collection.time_seq()[i].spec_intersect(
                    query.time_interval,
                ).unwrap().spec_is_instant()
            },
{
    assert forall|i: int|
        #![trigger collection.time_seq()[i]]
        0 <= i < collection.time_seq().len() implies {
        ||| collection.time_seq()[i].spec_intersect(query.time_interval) is None
        ||| collection.time_seq()[i].spec_intersect(
            query.time_interval,
        ).unwrap().spec_is_instant()
    } by {
        lemma_hull_covers(collection.time_seq(), i);
    }
}

/// The temporal hull contains every row's interval.
pub proof fn lemma_hull_covers(times: Seq<TimeInterval>, i: int)
    requires
        0 <= i < times.len(),
    ensures
        spec_time_hull(times).start <= times[i].start,
        spec_time_hull(times).end >= times[i].end,
    decreases times.len(),
{
    if times.len() > 1 {
        if i < times.len() - 1 {
            lemma_hull_covers(times.drop_last(), i);
        }
    }
}

/// Whether tile `i` starts a new time window: it is the first, or its time
/// differs from its predecessor's.
pub open spec fn is_window_boundary(tiles: Seq<RasterTile2D>, i: int) -> bool {
    i == 0 || tiles[i].time != tiles[i - 1].time
}

/// The number of time windows among the first `n` tiles.
pub open spec fn window_count(tiles: Seq<RasterTile2D>, n: int) -> int
    decreases n,
{
    if n <= 0 {
        0
    } else {
        window_count(tiles, n - 1) + if is_window_boundary(tiles, n - 1) {
            1int
        } else {
            0int
        }
    }
}

/// The first window boundary at or after position `i`, or the run's end.
pub open spec fn next_boundary(tiles: Seq<RasterTile2D>, i: int) -> int
    decreases tiles.len() - i,
{
    if i < 0 || i >= tiles.len() {
        tiles.len() as int
    } else if is_window_boundary(tiles, i) {
        i
    } else {
        next_boundary(tiles, i + 1)
    }
}

/// Where the `k`-th time window starts: the `k`-th boundary of the run.
pub open spec fn nth_window_start(tiles: Seq<RasterTile2D>, k: int) -> int
    decreases k,
{
    if k <= 0 {
        0
    } else {
        next_boundary(tiles, nth_window_start(tiles, k - 1) + 1)
    }
}

/// A boundary-free run up to a boundary (or the end) pins `next_boundary`.
pub proof fn lemma_next_boundary_of_run(tiles: Seq<RasterTile2D>, a: int, b: int)
    requires
        0 < a <= b <= tiles.len(),
        forall|i: int| a <= i < b ==> !is_window_boundary(tiles, i),
        b == tiles.len() || is_window_boundary(tiles, b),
    ensures
        next_boundary(tiles, a) == b,
    decreases b - a,
{
    if a == b {
    } else {
        lemma_next_boundary_of_run(tiles, a + 1, b);
    }
}

/// Whether `[s, e)` is one complete time window of the tile run.
pub open spec fn is_window(tiles: Seq<RasterTile2D>, s: int, e: int) -> bool {
    &&& 0 <= s < e <= tiles.len()
    &&& is_window_boundary(tiles, s)
    &&& (e == tiles.len() || is_window_boundary(tiles, e))
    &&& forall|i: int| s < i < e ==> !is_window_boundary(tiles, i)
}

/// The conservative cache hint of the tiles `[s, e)` of one window.
pub open spec fn window_hint(tiles: Seq<RasterTile2D>, s: int, e: int) -> crate::primitives::CacheHint
    decreases e - s,
{
    if e <= s {
        crate::primitives::CacheHint { expires: i64::MAX }
    } else {
        window_hint(tiles, s, e - 1).spec_merged(tiles[e - 1].cache_hint)
    }
}

/// A feature's slot after the tiles `[s, e)` of one window, in order;
/// `None` is the overflow outcome.
pub open spec fn slot_after_tile_range(
    slot: AggSlot,
    pts: Seq<crate::primitives::Coordinate2D>,
    tiles: Seq<RasterTile2D>,
    s: int,
    e: int,
    ignore_no_data: bool,
) -> Option<AggSlot>
    decreases e - s,
{
    if e <= s {
        Some(slot)
    } else {
        match slot_after_tile_range(slot, pts, tiles, s, e - 1, ignore_no_data) {
            None => None,
            Some(x) => slot_after_points(x, pts, tiles[e - 1], ignore_no_data),
        }
    }
}

/// Folds a raster tile run through the joiner, one time window at a time:
/// tiles sharing one contiguous time interval feed one joiner state built
/// from the original, unfiltered collection; at each window boundary the
/// accumulated window is flushed as one output chunk with the new column.
/// An empty tile run is the dedicated "empty input" error: true emptiness
/// is handled before any raster query is issued.
pub fn join_collection_and_tiles(
    collection: &FeatureCollection,
    tiles: &Vec<RasterTile2D>,
    aggregation_method: FeatureAggregationMethod,
    ignore_no_data: bool,
    new_column_name: &str,
) -> (r: Result<Vec<FeatureCollection>, Error>)
    requires
        collection.wf(),
        forall|i: int| 0 <= i < tiles@.len() ==> (#[trigger] tiles@[i]).wf(),
    ensures
        tiles@.len() == 0 <==> r == Err::<Vec<FeatureCollection>, Error>(Error::EmptyInput),
        r is Err ==> (r == Err::<Vec<FeatureCollection>, Error>(Error::EmptyInput) || r == Err::<
            Vec<FeatureCollection>,
            Error,
        >(Error::ColumnAlreadyExists) || r == Err::<Vec<FeatureCollection>, Error>(
            Error::NumericOverflow,
        )),
        (tiles@.len() > 0 && collection.has_column_name(new_column_name@)) ==> r is Err,
        r matches Ok(outs) ==> {
            &&& outs@.len() == window_count(tiles@, tiles@.len() as int)
            &&& forall|k: int| 0 <= k < outs@.len() ==> (#[trigger] outs@[k]).wf()
            &&& forall|k: int|
                0 <= k < outs@.len() ==> #[trigger] kth_window_output(
                    outs@,
                    k,
                    *collection,
                    tiles@,
                    aggregation_method,
                    ignore_no_data,
                    new_column_name@,
                )
        },
{
    let n = tiles.len();
    let mut outs: Vec<FeatureCollection> = Vec::new();
    let mut joiner = VectorRasterJoiner::new(aggregation_method, ignore_no_data);
    let ghost mut ws: int = 0;
    let mut ti: usize = 0;
    while ti < n
        invariant
            ti <= n,
            n == tiles@.len(),
            collection.wf(),
            forall|i: int| 0 <= i < n ==> (#[trigger] tiles@[i]).wf(),
            joiner.wf(),
            joiner.aggregation_method == aggregation_method,
            joiner.ignore_no_data == ignore_no_data,
            ti == 0 ==> joiner.state is None && ws == 0 && outs@.len() == 0
                && joiner.cache_hint.expires == i64::MAX,
            ti > 0 ==> {
                &&& 0 <= ws < ti
                &&& is_window_boundary(tiles@, ws)
                &&& ws == nth_window_start(tiles@, outs@.len() as int)
                &&& forall|i: int| ws < i < ti ==> !is_window_boundary(tiles@, i)
                &&& window_count(tiles@, ti as int) == outs@.len() + 1
                &&& joiner.cache_hint == window_hint(tiles@, ws, ti as int)
                &&& joiner.state matches Some(st) && joiner_window_inv(
                    st,
                    *collection,
                    tiles@,
                    ws,
                    ti as int,
                    ignore_no_data,
                )
            },
            forall|k: int|
                0 <= k < outs@.len() ==> (#[trigger] outs@[k]).wf(),
            forall|k: int|
                0 <= k < outs@.len() ==> #[trigger] kth_window_output(
                    outs@,
                    k,
                    *collection,
                    tiles@,
                    aggregation_method,
                    ignore_no_data,
                    new_column_name@,
                ),
        decreases n - ti,
    {
        let tile = &tiles[ti];
        if ti > 0 && !same_time(&tile.time, &tiles[ti - 1].time) {
            let ghost outs_before = outs@;
            let flushed = match joiner.into_collection(new_column_name) {
                Ok(c) => c,
                Err(e) => {
                    proof {
                        assert(joiner.state is Some);
                        assert(e != Error::EmptyInput);
                    }
                    return Err(e);
                },
            };
            proof {
                let st = joiner.state.unwrap();
                assert(st.aggregator.spec_method() == aggregation_method);
                lemma_window_flush(
                    flushed,
                    st,
                    *collection,
                    tiles@,
                    ws,
                    ti as int,
                    aggregation_method,
                    ignore_no_data,
                    new_column_name@,
                );
                assert(is_window_boundary(tiles@, ti as int));
                assert(is_window(tiles@, ws, ti as int));
                lemma_next_boundary_of_run(tiles@, ws + 1, ti as int);
                assert(nth_window_start(tiles@, outs_before.len() + 1 as int) == ti);
            }
            outs.push(flushed);
            proof {
                assert(outs@ == outs_before.push(flushed));
                assert forall|k: int|
                    0 <= k < outs@.len() implies #[trigger] kth_window_output(
                    outs@,
                    k,
                    *collection,
                    tiles@,
                    aggregation_method,
                    ignore_no_data,
                    new_column_name@,
                ) by {
                    if k < outs_before.len() {
                        assert(outs@[k] == outs_before[k]);
                        assert(kth_window_output(
                            outs_before,
                            k,
                            *collection,
                            tiles@,
                            aggregation_method,
                            ignore_no_data,
                            new_column_name@,
                        ));
                    } else {
                        assert(outs@[k] == flushed);
                        assert(nth_window_start(tiles@, k) == ws);
                        assert(nth_window_start(tiles@, k + 1) == ti);
                        assert(window_output(
                            outs@[k],
                            *collection,
                            tiles@,
                            ws,
                            ti as int,
                            aggregation_method,
                            ignore_no_data,
                            new_column_name@,
                        ));
                    }
                }
                assert(window_count(tiles@, ti + 1) == window_count(tiles@, ti as int) + 1);
            }
            joiner = VectorRasterJoiner::new(aggregation_method, ignore_no_data);
            proof {
                ws = ti as int;
            }
        } else {
            proof {
                if ti > 0 {
                    assert(!is_window_boundary(tiles@, ti as int));
                    assert(window_count(tiles@, ti + 1) == window_count(tiles@, ti as int));
                } else {
                    assert(window_count(tiles@, 0) == 0);
                    assert(window_count(tiles@, 1) == 1);
                }
            }
        }
        let ghost pre_state = joiner.state;
        joiner = match joiner.extract_raster_values(collection, tile) {
            Ok(j) => j,
            Err(e) => {
                return Err(e);
            },
        };
        proof {
            let st = joiner.state.unwrap();
            if pre_state is None {
                assert(joiner_window_inv(
                    st,
                    *collection,
                    tiles@,
                    ws,
                    ti + 1,
                    ignore_no_data,
                )) by {
                    lemma_window_inv_first(st, *collection, tiles@, ti as int, ignore_no_data);
                }
            } else {
                let st0 = pre_state.unwrap();
                assert(crate::join::tile_applied(st, st0, tiles@[ti as int], ignore_no_data));
                lemma_window_inv_step(
                    st,
                    st0,
                    *collection,
                    tiles@,
                    ws,
                    ti as int,
                    ignore_no_data,
                );
            }
            assert(window_hint(tiles@, ws, ws) == (crate::primitives::CacheHint {
                expires: i64::MAX,
            }));
            assert(joiner.cache_hint == window_hint(tiles@, ws, ti + 1));
        }
        ti += 1;
    }
    let ghost outs_before = outs@;
    let flushed = match joiner.into_collection(new_column_name) {
        Ok(c) => c,
        Err(e) => {
            proof {
                if n > 0 {
                    assert(joiner.state is Some);
                    assert(e != Error::EmptyInput);
                } else {
                    assert(joiner.state is None);
                    assert(e == Error::EmptyInput);
                }
            }
            return Err(e);
        },
    };
    proof {
        assert(n > 0);
        let st = joiner.state.unwrap();
        assert(st.aggregator.spec_method() == aggregation_method);
        lemma_window_flush(
            flushed,
            st,
            *collection,
            tiles@,
            ws,
            n as int,
            aggregation_method,
            ignore_no_data,
            new_column_name@,
        );
        assert(is_window(tiles@, ws, n as int));
        lemma_next_boundary_of_run(tiles@, ws + 1, n as int);
        assert(nth_window_start(tiles@, outs_before.len() + 1 as int) == n);
        let m = time_mask(collection.time_seq(), tiles@[ws].time);
        assert(columns_filtered(st.collection, *collection, m));
        lemma_filtered_has_name(st.collection, *collection, new_column_name@);
    }
    outs.push(flushed);
    proof {
        assert(outs@ == outs_before.push(flushed));
        assert forall|k: int|
            0 <= k < outs@.len() implies #[trigger] kth_window_output(
            outs@,
            k,
            *collection,
            tiles@,
            aggregation_method,
            ignore_no_data,
            new_column_name@,
        ) by {
            if k < outs_before.len() {
                assert(outs@[k] == outs_before[k]);
                assert(kth_window_output(
                    outs_before,
                    k,
                    *collection,
                    tiles@,
                    aggregation_method,
                    ignore_no_data,
                    new_column_name@,
                ));
            } else {
                assert(outs@[k] == flushed);
                assert(nth_window_start(tiles@, k) == ws);
                assert(nth_window_start(tiles@, k + 1) == n);
                assert(window_output(
                    outs@[k],
                    *collection,
                    tiles@,
                    ws,
                    n as int,
                    aggregation_method,
                    ignore_no_data,
                    new_column_name@,
                ));
            }
        }
    }
    Ok(outs)
}

/// Columns filtered from a source have exactly the source's names.
pub proof fn lemma_filtered_has_name(
    dst: FeatureCollection,
    src: FeatureCollection,
    name: Seq<char>,
)
    requires
        exists|m: Seq<bool>| columns_filtered(dst, src, m),
    ensures
        dst.has_column_name(name) <==> src.has_column_name(name),
{
    let m = choose|m: Seq<bool>| columns_filtered(dst, src, m);
    if dst.has_column_name(name) {
        let j = choose|j: int| 0 <= j < dst.num_columns() && dst.col_name(j) == name;
        assert(dst.col_cells(j) == mask_filter(src.col_cells(j), m));
        assert(src.col_name(j) == name);
    }
    if src.has_column_name(name) {
        let j = choose|j: int| 0 <= j < src.num_columns() && src.col_name(j) == name;
        assert(dst.col_cells(j) == mask_filter(src.col_cells(j), m));
        assert(dst.col_name(j) == name);
    }
}

/// The raster-vector join processor: a vector source, one raster source per
/// new column, the aggregation method and the no-data policy.
pub struct RasterVectorJoinProcessor<V, R> {
    collection: V,
    raster_processors: Vec<TypedRasterQueryProcessor<R>>,
    column_names: Vec<String>,
    aggregation_method: FeatureAggregationMethod,
    ignore_no_data: bool,
}

impl<V, R> RasterVectorJoinProcessor<V, R> {
    pub closed spec fn spec_aggregation_method(self) -> FeatureAggregationMethod {
        self.aggregation_method
    }

    pub closed spec fn spec_ignore_no_data(self) -> bool {
        self.ignore_no_data
    }

    pub closed spec fn spec_column_names(self) -> Seq<Seq<char>> {
        Seq::new(self.column_names@.len(), |j: int| self.column_names@[j]@)
    }

    pub closed spec fn num_raster_sources(self) -> nat {
        self.raster_processors@.len()
    }

    /// The vector source this processor queries first.
    pub closed spec fn vector_source(self) -> V {
        self.collection
    }

    /// The typed raster source of stage `s`.
    pub closed spec fn raster_source(self, s: int) -> TypedRasterQueryProcessor<R> {
        self.raster_processors@[s]
    }

    /// How many raster sources take part: one per configured column name.
    pub open spec fn spec_sources_used(self) -> int {
        if self.num_raster_sources() <= self.spec_column_names().len() {
            self.num_raster_sources() as int
        } else {
            self.spec_column_names().len() as int
        }
    }

    pub fn new(
        collection: V,
        raster_processors: Vec<TypedRasterQueryProcessor<R>>,
        column_names: Vec<String>,
        aggregation_method: FeatureAggregationMethod,
        ignore_no_data: bool,
    ) -> (r: RasterVectorJoinProcessor<V, R>)
        ensures
            r.spec_aggregation_method() == aggregation_method,
            r.spec_ignore_no_data() == ignore_no_data,
            r.num_raster_sources() == raster_processors@.len(),
            r.spec_column_names().len() == column_names@.len(),
            forall|j: int|
                0 <= j < column_names@.len() ==> #[trigger] r.spec_column_names()[j]
                    == column_names@[j]@,
    {
        RasterVectorJoinProcessor {
            collection,
            raster_processors,
            column_names,
            aggregation_method,
            ignore_no_data,
        }
    }
}

/// Whether every chunk of a run carries a column of this name.
pub open spec fn all_chunks_have_column(cs: Seq<FeatureCollection>, name: Seq<char>) -> bool {
    forall|q: int| 0 <= q < cs.len() ==> (#[trigger] cs[q]).has_column_name(name)
}

/// What the short-circuit answer for a chunk holds: the chunk's own rows
/// and columns, plus the all-null column of the raster's attribute type.
pub open spec fn skip_output(
    c: FeatureCollection,
    chunk: FeatureCollection,
    raster_data_type: RasterDataType,
    name: Seq<char>,
) -> bool {
    let ncols = chunk.num_columns() as int;
    &&& c.geoms() == chunk.geoms()
    &&& c.time_seq() == chunk.time_seq()
    &&& c.num_columns() == ncols + 1
    &&& forall|j: int| 0 <= j < ncols ==> #[trigger] c.col_cells(j) == chunk.col_cells(j)
    &&& forall|j: int| 0 <= j < ncols ==> #[trigger] c.col_name(j) == chunk.col_name(j)
    &&& forall|j: int| 0 <= j < ncols ==> #[trigger] c.col_type(j) == chunk.col_type(j)
    &&& c.col_name(ncols) == name
    &&& c.col_type(ncols) == raster_data_type.spec_feature_data_type()
    &&& forall|i: int| 0 <= i < chunk.spec_len() ==> (#[trigger] c.col_cells(ncols)[i]).is_null()
}

/// The raster rectangle the planner issues for a non-skipped chunk: the
/// chunk's hulls intersected with the query, the query's resolution, the
/// first band.
pub open spec fn is_planned_rect(
    rect: RasterQueryRectangle,
    chunk: FeatureCollection,
    query: VectorQueryRectangle,
) -> bool {
    &&& rect.spatial_bounds == crate::primitives::spec_bbox_partition(
        spec_bbox_hull(chunk.geoms()).spec_intersection(query.spatial_bounds).unwrap(),
    )
    &&& rect.time_interval == spec_time_hull(chunk.time_seq()).spec_intersect(
        query.time_interval,
    ).unwrap()
    &&& rect.spatial_resolution == query.spatial_resolution
    &&& rect.attributes@ == seq![0u32]
}

/// What one whole join stage owes: every input chunk was either answered
/// directly or joined against the planned raster query's tile run, and the
/// stage's output holds exactly those fragments' rows, re-chunked to the
/// budget.
pub open spec fn stage_ok<R: RasterQueryProcessor>(
    input: Seq<FeatureCollection>,
    output: Seq<FeatureCollection>,
    processor: TypedRasterQueryProcessor<R>,
    ctx: QueryContextImpl,
    query: VectorQueryRectangle,
    method: FeatureAggregationMethod,
    ignore_no_data: bool,
    name: Seq<char>,
) -> bool {
    exists|fragments: Seq<Seq<FeatureCollection>>, runs: Seq<Option<Vec<RasterTile2D>>>|
        {
            &&& #[trigger] fragments.len() == input.len()
            &&& #[trigger] runs.len() == input.len()
            &&& forall|q: int|
                0 <= q < input.len() ==> #[trigger] chunk_stage_ok(
                    input[q],
                    query,
                    processor.spec_raster_data_type(),
                    processor.spec_inner(),
                    ctx,
                    runs[q],
                    fragments[q],
                    method,
                    ignore_no_data,
                    name,
                )
            &&& concat_geoms(output) == concat_geoms(fragments.flatten())
            &&& crate::adapters::concat_times(output) == crate::adapters::concat_times(
                fragments.flatten(),
            )
            &&& (fragments.flatten().len() > 0 ==> forall|j: int|
                0 <= j < fragments.flatten()[0].num_columns()
                    ==> #[trigger] crate::adapters::concat_col(output, j)
                    == crate::adapters::concat_col(fragments.flatten(), j))
            &&& forall|k: int|
                0 <= k < output.len() ==> (#[trigger] output[k]).wf() && output[k].spec_len() > 0
                    && (output[k].spec_byte_size() <= ctx.spec_chunk_byte_size().0
                    || output[k].spec_len() == 1)
        }
}

/// What one stage of the join owes for one chunk, whatever the raster
/// source answered: either the chunk short-circuited (no raster query, one
/// all-null fragment), or the raster was queried over the planned rectangle
/// and the fragments are exactly that tile run's window outputs.
pub open spec fn chunk_stage_ok<R: RasterQueryProcessor>(
    chunk: FeatureCollection,
    query: VectorQueryRectangle,
    raster_data_type: RasterDataType,
    processor: R,
    ctx: QueryContextImpl,
    run: Option<Vec<RasterTile2D>>,
    fragments: Seq<FeatureCollection>,
    method: FeatureAggregationMethod,
    ignore_no_data: bool,
    name: Seq<char>,
) -> bool {
    match run {
        None => {
            &&& spec_chunk_skips(chunk, query)
            &&& fragments.len() == 1
            &&& skip_output(fragments[0], chunk, raster_data_type, name)
        },
        Some(tiles) => {
            &&& !spec_chunk_skips(chunk, query)
            &&& exists|rect: RasterQueryRectangle|
                #[trigger] is_planned_rect(rect, chunk, query) && call_ensures(
                    R::raster_query,
                    (&processor, &rect, &ctx),
                    Ok::<Vec<RasterTile2D>, Error>(tiles),
                )
            &&& fragments.len() == window_count(tiles@, tiles@.len() as int)
            &&& forall|w: int|
                0 <= w < fragments.len() ==> #[trigger] kth_window_output(
                    fragments,
                    w,
                    chunk,
                    tiles@,
                    method,
                    ignore_no_data,
                    name,
                )
        },
    }
}

impl<V: VectorQueryProcessor, R: RasterQueryProcessor> RasterVectorJoinProcessor<V, R> {
    /// Joins one raster source into a run of vector chunks: each chunk is
    /// planned (short-circuit or raster query), joined per time window, and
    /// the emitted fragments are re-merged to the context's byte budget.
    /// Whatever the raster source answered, every emitted chunk carries the
    /// new column, keeps every column all input chunks shared, and respects
    /// the byte budget unless it holds a single row.
    fn process_collections(
        &self,
        chunks: Vec<FeatureCollection>,
        raster_processor: &TypedRasterQueryProcessor<R>,
        new_column_name: &str,
        query: &VectorQueryRectangle,
        ctx: &QueryContextImpl,
    ) -> (r: Result<Vec<FeatureCollection>, Error>)
        requires
            query.wf(),
            forall|k: int| 0 <= k < chunks@.len() ==> (#[trigger] chunks@[k]).wf(),
        ensures
            r matches Ok(outs) ==> forall|k: int|
                0 <= k < outs@.len() ==> (#[trigger] outs@[k]).wf(),
            r matches Ok(outs) ==> forall|k: int|
                0 <= k < outs@.len() ==> (#[trigger] outs@[k]).spec_len() > 0,
            r matches Ok(outs) ==> forall|k: int|
                0 <= k < outs@.len() ==> (#[trigger] outs@[k]).spec_byte_size()
                    <= ctx.spec_chunk_byte_size().0 || outs@[k].spec_len() == 1,
            r matches Ok(outs) ==> forall|k: int|
                0 <= k < outs@.len() ==> (#[trigger] outs@[k]).has_column_name(new_column_name@),
            r matches Ok(outs) ==> forall|nm: Seq<char>, k: int|
                all_chunks_have_column(chunks@, nm) && 0 <= k < outs@.len() ==> (
                #[trigger] outs@[k].has_column_name(nm)),
            r matches Err(e) ==> {
                ||| e == Error::ColumnAlreadyExists
                ||| e == Error::EmptyInput
                ||| e == Error::NumericOverflow
                ||| e == Error::SchemaMismatch
                ||| exists|q: int, rect: RasterQueryRectangle|
                    0 <= q < chunks@.len() && #[trigger] is_planned_rect(rect, chunks@[q], *query)
                        && call_ensures(
                        R::raster_query,
                        (&raster_processor.spec_inner(), &rect, ctx),
                        Err::<Vec<RasterTile2D>, Error>(e),
                    )
            },
            r matches Ok(outs) ==> stage_ok(
                chunks@,
                outs@,
                *raster_processor,
                *ctx,
                *query,
                self.spec_aggregation_method(),
                self.spec_ignore_no_data(),
                new_column_name@,
            ),
    {
        let mut produced: Vec<FeatureCollection> = Vec::new();
        let ghost mut fragments: Seq<Seq<FeatureCollection>> = Seq::empty();
        let ghost mut runs: Seq<Option<Vec<RasterTile2D>>> = Seq::empty();
        let mut k: usize = 0;
        while k < chunks.len()
            invariant
                k <= chunks@.len(),
                query.wf(),
                forall|q: int| 0 <= q < chunks@.len() ==> (#[trigger] chunks@[q]).wf(),
                forall|q: int| 0 <= q < produced@.len() ==> (#[trigger] produced@[q]).wf(),
                forall|q: int|
                    0 <= q < produced@.len() ==> (#[trigger] produced@[q]).has_column_name(
                        new_column_name@,
                    ),
                forall|nm: Seq<char>, q: int|
                    all_chunks_have_column(chunks@, nm) && 0 <= q < produced@.len() ==> (
                    #[trigger] produced@[q].has_column_name(nm)),
                fragments.len() == k,
                runs.len() == k,
                produced@ == fragments.flatten(),
                forall|q: int|
                    0 <= q < k ==> #[trigger] chunk_stage_ok(
                        chunks@[q],
                        *query,
                        raster_processor.spec_raster_data_type(),
                        raster_processor.spec_inner(),
                        *ctx,
                        runs[q],
                        fragments[q],
                        self.spec_aggregation_method(),
                        self.spec_ignore_no_data(),
                        new_column_name@,
                    ),
            decreases chunks@.len() - k,
        {
            let chunk = &chunks[k];
            let plan = plan_collection_chunk(
                chunk,
                query,
                raster_processor.raster_data_type(),
                new_column_name,
            )?;
            let ghost pre = produced@;
            match plan {
                ChunkPlan::SkipRaster(answered) => {
                    let ghost ans = answered;
                    produced.push(answered);
                    proof {
                        let oldfrag = fragments;
                        fragments = fragments.push(seq![ans]);
                        runs = runs.push(None);
                        oldfrag.lemma_flatten_push(seq![ans]);
                        assert(fragments.flatten() =~= oldfrag.flatten() + seq![ans]);
                        assert(produced@ =~= pre + seq![ans]);
                        assert(produced@ =~= fragments.flatten());
                        assert(chunk_stage_ok(
                            chunks@[k as int],
                            *query,
                            raster_processor.spec_raster_data_type(),
                            raster_processor.spec_inner(),
                            *ctx,
                            None::<Vec<RasterTile2D>>,
                            seq![ans],
                            self.spec_aggregation_method(),
                            self.spec_ignore_no_data(),
                            new_column_name@,
                        ));
                        let ncols = chunks@[k as int].num_columns() as int;
                        assert forall|q: int|
                            0 <= q < produced@.len() implies (#[trigger] produced@[q]).has_column_name(
                            new_column_name@,
                        ) by {
                            if q < pre.len() {
                                assert(produced@[q] == pre[q]);
                            } else {
                                assert(produced@[q].col_name(ncols) == new_column_name@);
                            }
                        }
                        assert forall|nm: Seq<char>, q: int|
                            all_chunks_have_column(chunks@, nm) && 0 <= q < produced@.len() implies (
                            #[trigger] produced@[q].has_column_name(nm)) by {
                            if q < pre.len() {
                                assert(produced@[q] == pre[q]);
                                assert(pre[q].has_column_name(nm));
                            } else {
                                assert(chunks@[k as int].has_column_name(nm));
                                let j = choose|j: int|
                                    0 <= j < chunks@[k as int].num_columns() && chunks@[k as int].col_name(
                                        j,
                                    ) == nm;
                                assert(produced@[q].col_name(j) == chunks@[k as int].col_name(j));
                            }
                        }
                    }
                },
                ChunkPlan::QueryRaster(rect) => {
                    let tiles = match raster_processor.inner().raster_query(&rect, ctx) {
                        Ok(t) => t,
                        Err(e) => {
                            proof {
                                assert(is_planned_rect(rect, chunks@[k as int], *query)
                                    && call_ensures(
                                    R::raster_query,
                                    (&raster_processor.spec_inner(), &rect, ctx),
                                    Err::<Vec<RasterTile2D>, Error>(e),
                                ));
                            }
                            return Err(e);
                        },
                    };
                    proof {
                        assert(call_ensures(
                            R::raster_query,
                            (&raster_processor.spec_inner(), &rect, ctx),
                            Ok::<Vec<RasterTile2D>, Error>(tiles),
                        ));
                    }
                    let mut joined = join_collection_and_tiles(
                        chunk,
                        &tiles,
                        self.aggregation_method,
                        self.ignore_no_data,
                        new_column_name,
                    )?;
                    let ghost jseq = joined@;
                    produced.append(&mut joined);
                    proof {
                        let oldfrag = fragments;
                        fragments = fragments.push(jseq);
                        runs = runs.push(Some(tiles));
                        oldfrag.lemma_flatten_push(jseq);
                        assert(fragments.flatten() =~= oldfrag.flatten() + jseq);
                        assert(produced@ =~= fragments.flatten());
                        assert(chunk_stage_ok(
                            chunks@[k as int],
                            *query,
                            raster_processor.spec_raster_data_type(),
                            raster_processor.spec_inner(),
                            *ctx,
                            Some(tiles),
                            jseq,
                            self.spec_aggregation_method(),
                            self.spec_ignore_no_data(),
                            new_column_name@,
                        )) by {
                            assert(is_planned_rect(rect, chunks@[k as int], *query) && call_ensures(
                                R::raster_query,
                                (&raster_processor.spec_inner(), &rect, &*ctx),
                                Ok::<Vec<RasterTile2D>, Error>(tiles),
                            ));
                        }
                        let ncols = chunks@[k as int].num_columns() as int;
                        assert(produced@ == pre + jseq);
                        assert forall|q: int|
                            0 <= q < produced@.len() implies (#[trigger] produced@[q]).wf() by {
                            if q < pre.len() {
                                assert(produced@[q] == pre[q]);
                            } else {
                                assert(produced@[q] == jseq[q - pre.len()]);
                            }
                        }
                        assert forall|q: int|
                            0 <= q < produced@.len() implies (#[trigger] produced@[q]).has_column_name(
                            new_column_name@,
                        ) by {
                            if q < pre.len() {
                                assert(produced@[q] == pre[q]);
                            } else {
                                let k2 = q - pre.len();
                                assert(produced@[q] == jseq[k2]);
                                assert(kth_window_output(
                                    jseq,
                                    k2,
                                    chunks@[k as int],
                                    tiles@,
                                    self.aggregation_method,
                                    self.ignore_no_data,
                                    new_column_name@,
                                ));
                                assert(produced@[q].col_name(ncols) == new_column_name@);
                            }
                        }
                        assert forall|nm: Seq<char>, q: int|
                            all_chunks_have_column(chunks@, nm) && 0 <= q < produced@.len() implies (
                            #[trigger] produced@[q].has_column_name(nm)) by {
                            if q < pre.len() {
                                assert(produced@[q] == pre[q]);
                                assert(pre[q].has_column_name(nm));
                            } else {
                                let k2 = q - pre.len();
                                assert(produced@[q] == jseq[k2]);
                                assert(kth_window_output(
                                    jseq,
                                    k2,
                                    chunks@[k as int],
                                    tiles@,
                                    self.aggregation_method,
                                    self.ignore_no_data,
                                    new_column_name@,
                                ));
                                assert(chunks@[k as int].has_column_name(nm));
                                let j = choose|j: int|
                                    0 <= j < chunks@[k as int].num_columns() && chunks@[k as int].col_name(
                                        j,
                                    ) == nm;
                                assert(produced@[q].col_name(j) == chunks@[k as int].col_name(j));
                            }
                        }
                    }
                },
            }
            k += 1;
        }
        let outs = match merge_chunks(&produced, ctx.chunk_byte_size().bytes()) {
            Ok(o) => o,
            Err(e) => {
                return Err(e);
            },
        };
        proof {
            assert(concat_geoms(outs@) == concat_geoms(fragments.flatten()));
            assert(crate::adapters::concat_times(outs@) == crate::adapters::concat_times(
                fragments.flatten(),
            ));
            assert(stage_ok(
                chunks@,
                outs@,
                *raster_processor,
                *ctx,
                *query,
                self.spec_aggregation_method(),
                self.spec_ignore_no_data(),
                new_column_name@,
            ));
            if produced@.len() == 0 {
                assert(concat_geoms(produced@).len() == 0);
                if outs@.len() > 0 {
                    crate::adapters::lemma_concat_geoms_min_len(outs@);
                }
            } else {
                assert forall|q: int|
                    0 <= q < outs@.len() implies (#[trigger] outs@[q]).has_column_name(
                    new_column_name@,
                ) by {
                    assert(outs@[q].spec_schema_eq(produced@[0]));
                    crate::collections::lemma_schema_eq_has_name(
                        outs@[q],
                        produced@[0],
                        new_column_name@,
                    );
                }
                assert forall|nm: Seq<char>, q: int|
                    all_chunks_have_column(chunks@, nm) && 0 <= q < outs@.len() implies (
                    #[trigger] outs@[q].has_column_name(nm)) by {
                    assert(produced@[0].has_column_name(nm));
                    assert(outs@[q].spec_schema_eq(produced@[0]));
                    crate::collections::lemma_schema_eq_has_name(outs@[q], produced@[0], nm);
                }
            }
        }
        Ok(outs)
    }
}

impl<V: VectorQueryProcessor, R: RasterQueryProcessor> VectorQueryProcessor
    for RasterVectorJoinProcessor<V, R> {
    /// Queries the vector source and chains the raster sources over its
    /// chunk stream, one new aggregated column per source, in order: the
    /// vector source's answer is consumed first — its error propagates
    /// unchanged before any raster stage, and with no raster stage it is
    /// the result itself.  On success the result is the last of a chain of
    /// intermediate streams, each obtained from its predecessor by one full
    /// join stage against the corresponding raster source, so every emitted
    /// chunk carries every configured column name.
    fn vector_query(&self, query: &VectorQueryRectangle, ctx: &QueryContextImpl) -> (r: Result<
        Vec<FeatureCollection>,
        Error,
    >)
        ensures
            r matches Ok(outs) ==> forall|k: int, j: int|
                0 <= k < outs@.len() && 0 <= j < self.spec_sources_used() ==> (
                #[trigger] outs@[k].has_column_name(self.spec_column_names()[j])),
            exists|src: Result<Vec<FeatureCollection>, Error>|
                {
                    &&& #[trigger] call_ensures(
                        V::vector_query,
                        (&self.vector_source(), query, ctx),
                        src,
                    )
                    &&& (src matches Err(e) ==> r == Err::<Vec<FeatureCollection>, Error>(e))
                    &&& (self.spec_sources_used() == 0 ==> r == src)
                },
            r matches Ok(outs) ==> exists|stages: Seq<Vec<FeatureCollection>>|
                {
                    &&& #[trigger] stages.len() == self.spec_sources_used() + 1
                    &&& call_ensures(
                        V::vector_query,
                        (&self.vector_source(), query, ctx),
                        Ok::<Vec<FeatureCollection>, Error>(stages[0]),
                    )
                    &&& forall|s: int|
                        0 <= s < self.spec_sources_used() ==> #[trigger] stage_ok(
                            stages[s]@,
                            stages[s + 1]@,
                            self.raster_source(s),
                            *ctx,
                            *query,
                            self.spec_aggregation_method(),
                            self.spec_ignore_no_data(),
                            self.spec_column_names()[s],
                        )
                    &&& outs == stages[stages.len() - 1]
                },
    {
        let initial = match self.collection.vector_query(query, ctx) {
            Ok(v) => v,
            Err(e) => {
                proof {
                    let witness: Result<Vec<FeatureCollection>, Error> = Err(e);
                    assert(call_ensures(
                        V::vector_query,
                        (&self.vector_source(), query, ctx),
                        witness,
                    ));
                }
                return Err(e);
            },
        };
        let ghost src0: Result<Vec<FeatureCollection>, Error> = Ok(initial);
        let ghost mut stages: Seq<Vec<FeatureCollection>> = seq![initial];
        proof {
            assert(call_ensures(V::vector_query, (&self.vector_source(), query, ctx), src0));
        }
        let mut stream = initial;
        let n = if self.raster_processors.len() <= self.column_names.len() {
            self.raster_processors.len()
        } else {
            self.column_names.len()
        };
        proof {
            assert(n == self.spec_sources_used());
        }
        let mut s: usize = 0;
        while s < n
            invariant
                s <= n,
                n <= self.raster_processors@.len(),
                n <= self.column_names@.len(),
                n == self.spec_sources_used(),
                query.wf(),
                call_ensures(V::vector_query, (&self.vector_source(), query, ctx), src0),
                src0 is Ok,
                n == 0 ==> src0 == Ok::<Vec<FeatureCollection>, Error>(stream),
                stages.len() == s + 1,
                src0 == Ok::<Vec<FeatureCollection>, Error>(stages[0]),
                stages[stages.len() - 1] == stream,
                forall|t: int|
                    0 <= t < s ==> #[trigger] stage_ok(
                        stages[t]@,
                        stages[t + 1]@,
                        self.raster_source(t),
                        *ctx,
                        *query,
                        self.spec_aggregation_method(),
                        self.spec_ignore_no_data(),
                        self.spec_column_names()[t],
                    ),
                forall|q: int| 0 <= q < stream@.len() ==> (#[trigger] stream@[q]).wf(),
                forall|q: int, j: int|
                    0 <= q < stream@.len() && 0 <= j < s ==> (#[trigger] stream@[q].has_column_name(
                        self.spec_column_names()[j],
                    )),
            decreases n - s,
        {
            let ghost before = stream@;
            stream = match self.process_collections(
                stream,
                &self.raster_processors[s],
                self.column_names[s].as_str(),
                query,
                ctx,
            ) {
                Ok(v) => v,
                Err(e) => {
                    return Err(e);
                },
            };
            proof {
                stages = stages.push(stream);
                assert(self.raster_source(s as int) == self.raster_processors@[s as int]);
                assert(stage_ok(
                    before,
                    stream@,
                    self.raster_source(s as int),
                    *ctx,
                    *query,
                    self.spec_aggregation_method(),
                    self.spec_ignore_no_data(),
                    self.spec_column_names()[s as int],
                ));
                assert(self.column_names@[s as int]@ == self.spec_column_names()[s as int]);
                assert forall|q: int, j: int|
                    0 <= q < stream@.len() && 0 <= j < s + 1 implies (
                #[trigger] stream@[q].has_column_name(self.spec_column_names()[j])) by {
                    if j < s {
                        assert(all_chunks_have_column(before, self.spec_column_names()[j])) by {
                            assert forall|c: int|
                                0 <= c < before.len() implies (#[trigger] before[c]).has_column_name(
                                self.spec_column_names()[j],
                            ) by {
                                assert(before[c].has_column_name(self.spec_column_names()[j]));
                            }
                        }
                        assert(stream@[q].has_column_name(self.spec_column_names()[j]));
                    } else {
                        assert(stream@[q].has_column_name(self.column_names@[s as int]@));
                    }
                }
            }
            s += 1;
        }
        Ok(stream)
    }
}

/// Time interval equality, the window-boundary test of the tile stream.
fn same_time(a: &TimeInterval, b: &TimeInterval) -> (r: bool)
    ensures
        r == (a == b),
{
    a.start == b.start && a.end == b.end
}

/// Whether position `k` of the output run carries exactly the `k`-th time
/// window's output.
pub open spec fn kth_window_output(
    outs: Seq<FeatureCollection>,
    k: int,
    collection: FeatureCollection,
    tiles: Seq<RasterTile2D>,
    method: FeatureAggregationMethod,
    ignore_no_data: bool,
    name: Seq<char>,
) -> bool {
    window_output(
        outs[k],
        collection,
        tiles,
        nth_window_start(tiles, k),
        nth_window_start(tiles, k + 1),
        method,
        ignore_no_data,
        name,
    )
}

/// The joiner state halfway through one window: its collection is the
/// original filtered by the window's time, and each slot is the fold of the
/// window's tiles seen so far.
pub open spec fn joiner_window_inv(
    st: crate::join::JoinerState,
    collection: FeatureCollection,
    tiles: Seq<RasterTile2D>,
    s: int,
    upto: int,
    ignore_no_data: bool,
) -> bool {
    let wt = tiles[s].time;
    let m = time_mask(collection.time_seq(), wt);
    &&& st.collection.wf()
    &&& st.collection.geoms() == mask_filter(collection.geoms(), m)
    &&& st.collection.time_seq() == narrowed_times(collection.time_seq(), wt)
    &&& columns_filtered(st.collection, collection, m)
    &&& st.aggregator.slots_seq().len() == st.collection.spec_len()
    &&& forall|i: int|
        0 <= i < st.collection.spec_len() ==> Some(#[trigger] st.aggregator.slots_seq()[i])
            == slot_after_tile_range(
            AggSlot::spec_empty(),
            st.collection.geoms()[i],
            tiles,
            s,
            upto,
            ignore_no_data,
        )
}

/// The invariant after the first tile of a window.
pub proof fn lemma_window_inv_first(
    st: crate::join::JoinerState,
    collection: FeatureCollection,
    tiles: Seq<RasterTile2D>,
    s: int,
    ignore_no_data: bool,
)
    requires
        0 <= s < tiles.len(),
        st.collection.wf(),
        st.collection.geoms() == mask_filter(
            collection.geoms(),
            time_mask(collection.time_seq(), tiles[s].time),
        ),
        st.collection.time_seq() == narrowed_times(collection.time_seq(), tiles[s].time),
        columns_filtered(st.collection, collection, time_mask(collection.time_seq(), tiles[s].time)),
        st.aggregator.slots_seq().len() == st.collection.spec_len(),
        forall|i: int|
            0 <= i < st.collection.spec_len() ==> Some(#[trigger] st.aggregator.slots_seq()[i])
                == slot_after_points(
                AggSlot::spec_empty(),
                st.collection.geoms()[i],
                tiles[s],
                ignore_no_data,
            ),
    ensures
        joiner_window_inv(st, collection, tiles, s, s + 1, ignore_no_data),
{
    assert forall|i: int|
        0 <= i < st.collection.spec_len() implies Some(#[trigger] st.aggregator.slots_seq()[i])
        == slot_after_tile_range(
        AggSlot::spec_empty(),
        st.collection.geoms()[i],
        tiles,
        s,
        s + 1,
        ignore_no_data,
    ) by {
        assert(slot_after_tile_range(
            AggSlot::spec_empty(),
            st.collection.geoms()[i],
            tiles,
            s,
            s,
            ignore_no_data,
        ) == Some(AggSlot::spec_empty()));
    }
}

/// The invariant after one more tile of the same window.
pub proof fn lemma_window_inv_step(
    st: crate::join::JoinerState,
    st0: crate::join::JoinerState,
    collection: FeatureCollection,
    tiles: Seq<RasterTile2D>,
    s: int,
    ti: int,
    ignore_no_data: bool,
)
    requires
        0 <= s <= ti < tiles.len(),
        st.collection.wf(),
        joiner_window_inv(st0, collection, tiles, s, ti, ignore_no_data),
        crate::join::tile_applied(st, st0, tiles[ti], ignore_no_data),
        st.aggregator.slots_seq().len() == st0.aggregator.slots_seq().len(),
    ensures
        joiner_window_inv(st, collection, tiles, s, ti + 1, ignore_no_data),
{
    assert(st.collection.geoms() == st0.collection.geoms());
    assert(st.collection.time_seq() == st0.collection.time_seq());
    assert(st.collection.spec_len() == st.collection.geoms().len());
    assert(st0.collection.spec_len() == st0.collection.geoms().len());
    let m = time_mask(collection.time_seq(), tiles[s].time);
    assert(columns_filtered(st.collection, collection, m)) by {
        assert(st.collection.num_columns() == st0.collection.num_columns());
        assert forall|j: int|
            0 <= j < collection.num_columns() implies #[trigger] st.collection.col_cells(j)
            == mask_filter(collection.col_cells(j), m) by {
            assert(st.collection.col_cells(j) == st0.collection.col_cells(j));
            assert(st0.collection.col_cells(j) == mask_filter(collection.col_cells(j), m));
        }
        assert forall|j: int|
            0 <= j < collection.num_columns() implies #[trigger] st.collection.col_name(j)
            == collection.col_name(j) by {
            assert(st.collection.col_name(j) == st0.collection.col_name(j));
            assert(st0.collection.col_cells(j) == mask_filter(collection.col_cells(j), m));
            assert(st0.collection.col_name(j) == collection.col_name(j));
        }
        assert forall|j: int|
            0 <= j < collection.num_columns() implies #[trigger] st.collection.col_type(j)
            == collection.col_type(j) by {
            assert(st.collection.col_type(j) == st0.collection.col_type(j));
            assert(st0.collection.col_cells(j) == mask_filter(collection.col_cells(j), m));
            assert(st0.collection.col_type(j) == collection.col_type(j));
        }
    }
    assert forall|i: int|
        0 <= i < st.collection.spec_len() implies Some(#[trigger] st.aggregator.slots_seq()[i])
        == slot_after_tile_range(
        AggSlot::spec_empty(),
        st.collection.geoms()[i],
        tiles,
        s,
        ti + 1,
        ignore_no_data,
    ) by {
        assert(0 <= i < st0.aggregator.slots_seq().len());
        assert(Some(st.aggregator.slots_seq()[i]) == slot_after_points(
            st0.aggregator.slots_seq()[i],
            st0.collection.geoms()[i],
            tiles[ti],
            ignore_no_data,
        ));
        assert(Some(st0.aggregator.slots_seq()[i]) == slot_after_tile_range(
            AggSlot::spec_empty(),
            st0.collection.geoms()[i],
            tiles,
            s,
            ti,
            ignore_no_data,
        ));
        assert(st.collection.geoms()[i] == st0.collection.geoms()[i]);
    }
}

/// A flush at a window boundary emits exactly that window's output.
pub proof fn lemma_window_flush(
    flushed: FeatureCollection,
    st: crate::join::JoinerState,
    collection: FeatureCollection,
    tiles: Seq<RasterTile2D>,
    s: int,
    e: int,
    method: FeatureAggregationMethod,
    ignore_no_data: bool,
    name: Seq<char>,
)
    requires
        0 <= s < e <= tiles.len(),
        st.collection.wf(),
        joiner_window_inv(st, collection, tiles, s, e, ignore_no_data),
        flushed.wf(),
        flushed.geoms() == st.collection.geoms(),
        flushed.time_seq() == st.collection.time_seq(),
        flushed.num_columns() == st.collection.num_columns() + 1,
        forall|j: int|
            0 <= j < st.collection.num_columns() ==> #[trigger] flushed.col_cells(j)
                == st.collection.col_cells(j),
        forall|j: int|
            0 <= j < st.collection.num_columns() ==> #[trigger] flushed.col_name(j)
                == st.collection.col_name(j),
        forall|j: int|
            0 <= j < st.collection.num_columns() ==> #[trigger] flushed.col_type(j)
                == st.collection.col_type(j),
        flushed.col_name(st.collection.num_columns() as int) == name,
        flushed.col_type(st.collection.num_columns() as int) == spec_output_data_type(method),
        flushed.hint() == window_hint(tiles, s, e),
        st.aggregator.spec_method() == method,
        forall|i: int|
            0 <= i < st.collection.spec_len() ==> #[trigger] flushed.col_cells(
                st.collection.num_columns() as int,
            )[i] == spec_output_cell(method, st.aggregator.slots_seq()[i]),
    ensures
        window_output(flushed, collection, tiles, s, e, method, ignore_no_data, name),
{
    let wt = tiles[s].time;
    let m = time_mask(collection.time_seq(), wt);
    let ncols = collection.num_columns() as int;
    assert(st.collection.num_columns() == ncols);
    assert forall|j: int| 0 <= j < ncols implies #[trigger] flushed.col_cells(j) == mask_filter(
        collection.col_cells(j),
        m,
    ) by {
        assert(st.collection.col_cells(j) == mask_filter(collection.col_cells(j), m));
    }
    assert forall|j: int| 0 <= j < ncols implies #[trigger] flushed.col_name(j)
        == collection.col_name(j) by {
        assert(st.collection.col_cells(j) == mask_filter(collection.col_cells(j), m));
        assert(st.collection.col_name(j) == collection.col_name(j));
    }
    assert forall|j: int| 0 <= j < ncols implies #[trigger] flushed.col_type(j)
        == collection.col_type(j) by {
        assert(st.collection.col_cells(j) == mask_filter(collection.col_cells(j), m));
        assert(st.collection.col_type(j) == collection.col_type(j));
    }
    assert forall|i: int|
        0 <= i < flushed.spec_len() implies (slot_after_tile_range(
        AggSlot::spec_empty(),
        #[trigger] flushed.geoms()[i],
        tiles,
        s,
        e,
        ignore_no_data,
    ) matches Some(slot) && flushed.col_cells(ncols)[i] == spec_output_cell(method, slot)) by {
        assert(flushed.spec_len() == flushed.geoms().len());
        assert(st.collection.spec_len() == st.collection.geoms().len());
        assert(0 <= i < st.collection.spec_len());
        assert(flushed.geoms()[i] == st.collection.geoms()[i]);
        assert(Some(st.aggregator.slots_seq()[i]) == slot_after_tile_range(
            AggSlot::spec_empty(),
            st.collection.geoms()[i],
            tiles,
            s,
            e,
            ignore_no_data,
        ));
        assert(flushed.col_cells(ncols)[i] == spec_output_cell(
            method,
            st.aggregator.slots_seq()[i],
        ));
    }
}

/// What one emitted window chunk holds: the original rows whose time meets
/// the window, times narrowed, the original columns filtered alike, and one
/// new column of the window's aggregates.
pub open spec fn window_output(
    out: FeatureCollection,
    collection: FeatureCollection,
    tiles: Seq<RasterTile2D>,
    s: int,
    e: int,
    method: FeatureAggregationMethod,
    ignore_no_data: bool,
    name: Seq<char>,
) -> bool {
    let wt = tiles[s].time;
    let m = time_mask(collection.time_seq(), wt);
    let ncols = collection.num_columns() as int;
    &&& out.geoms() == mask_filter(collection.geoms(), m)
    &&& out.time_seq() == narrowed_times(collection.time_seq(), wt)
    &&& out.num_columns() == ncols + 1
    &&& forall|j: int|
        0 <= j < ncols ==> #[trigger] out.col_cells(j) == mask_filter(collection.col_cells(j), m)
    &&& forall|j: int| 0 <= j < ncols ==> #[trigger] out.col_name(j) == collection.col_name(j)
    &&& forall|j: int| 0 <= j < ncols ==> #[trigger] out.col_type(j) == collection.col_type(j)
    &&& out.col_name(ncols) == name
    &&& out.col_type(ncols) == spec_output_data_type(method)
    &&& out.hint() == window_hint(tiles, s, e)
    &&& forall|i: int|
        0 <= i < out.spec_len() ==> (slot_after_tile_range(
            AggSlot::spec_empty(),
            #[trigger] out.geoms()[i],
            tiles,
            s,
            e,
            ignore_no_data,
        ) matches Some(slot) && out.col_cells(ncols)[i] == spec_output_cell(method, slot))
}

} // verus!
