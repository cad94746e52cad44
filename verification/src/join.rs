//! The raster-vector join: for each vector feature, accumulate the raster
//! pixel values covered by its geometry across time, per time-sliced raster
//! tile, through an online aggregator.
//!
//! One joiner holds the working state for one raster time window.  On the
//! first tile of a window it filters the original collection to the rows
//! whose time intersects the tile's time, narrows those rows' intervals to
//! the intersection and creates one aggregator slot per surviving row; every
//! tile of the window then feeds the covered pixels into the slots; the
//! flush attaches the aggregated column and the merged cache hint.

use vstd::prelude::*;

use crate::aggregator::{
    create_feature_aggregator, spec_output_cell, spec_output_data_type, AggSlot,
    FeatureAggregationMethod, FeatureAggregator,
};
use crate::collections::{
    columns_filtered, fd_cells, mask_filter, same_rows, FeatureCollection, MultiPoint,
};
use crate::error::Error;
use crate::primitives::{CacheHint, Coordinate2D, TimeInterval};
use crate::raster::{GeoTransform, GridIdx2D, RasterTile2D};

verus! {

/// Which rows of a time column survive a window: those whose interval meets
/// the window's.
pub open spec fn time_mask(times: Seq<TimeInterval>, window: TimeInterval) -> Seq<bool> {
    Seq::new(times.len(), |i: int| times[i].spec_intersect(window) is Some)
}

/// The narrowed time column of the surviving rows: each kept interval is
/// replaced by its intersection with the window, in row order.
pub open spec fn narrowed_times(times: Seq<TimeInterval>, window: TimeInterval) -> Seq<
    TimeInterval,
>
    decreases times.len(),
{
    if times.len() == 0 {
        Seq::empty()
    } else {
        let prefix = narrowed_times(times.drop_last(), window);
        match times.last().spec_intersect(window) {
            Some(t) => prefix.push(t),
            None => prefix,
        }
    }
}

/// Unfolds one step of `narrowed_times` over growing prefixes.
pub proof fn lemma_narrowed_times_take_step(times: Seq<TimeInterval>, window: TimeInterval, i: int)
    requires
        0 <= i < times.len(),
    ensures
        narrowed_times(times.take(i + 1), window) == match times[i].spec_intersect(window) {
            Some(t) => narrowed_times(times.take(i), window).push(t),
            None => narrowed_times(times.take(i), window),
        },
{
    assert(times.take(i + 1).drop_last() =~= times.take(i));
    match times[i].spec_intersect(window) {
        Some(t) => {
            assert(narrowed_times(times.take(i + 1), window) =~= narrowed_times(
                times.take(i),
                window,
            ).push(t));
        },
        None => {
            assert(narrowed_times(times.take(i + 1), window) =~= narrowed_times(
                times.take(i),
                window,
            ));
        },
    }
}

/// The narrowed times are exactly one per surviving row.
pub proof fn lemma_narrowed_times_len(times: Seq<TimeInterval>, window: TimeInterval)
    ensures
        narrowed_times(times, window).len() == mask_filter(times, time_mask(times, window)).len(),
    decreases times.len(),
{
    if times.len() > 0 {
        lemma_narrowed_times_len(times.drop_last(), window);
        assert(time_mask(times, window).drop_last() =~= time_mask(times.drop_last(), window));
    }
}

/// Every narrowed time is well-formed.
pub proof fn lemma_narrowed_times_wf(times: Seq<TimeInterval>, window: TimeInterval)
    ensures
        forall|i: int|
            0 <= i < narrowed_times(times, window).len() ==> (#[trigger] narrowed_times(
                times,
                window,
            )[i]).wf(),
    decreases times.len(),
{
    if times.len() > 0 {
        lemma_narrowed_times_wf(times.drop_last(), window);
        let prefix = narrowed_times(times.drop_last(), window);
        let nt = narrowed_times(times, window);
        assert forall|i: int| 0 <= i < nt.len() implies (#[trigger] nt[i]).wf() by {
            match times.last().spec_intersect(window) {
                Some(t) => {
                    assert(t.wf());
                    if i < prefix.len() {
                        assert(nt[i] == prefix[i]);
                    } else {
                        assert(nt[i] == t);
                    }
                },
                None => {
                    assert(nt[i] == prefix[i]);
                },
            }
        }
    }
}

/// The global pixels a feature covers on a tile grid: one per point.
pub fn covered_pixels(geometry: &MultiPoint, transform: &GeoTransform) -> (r: Vec<GridIdx2D>)
    requires
        geometry.wf(),
        transform.wf(),
    ensures
        r@.len() == geometry.points_seq().len(),
        forall|k: int|
            0 <= k < r@.len() ==> #[trigger] r@[k] == transform.spec_pixel_of(
                geometry.points_seq()[k],
            ),
{
    let mut out: Vec<GridIdx2D> = Vec::new();
    let mut k: usize = 0;
    while k < geometry.num_points()
        invariant
            k <= geometry.points_seq().len(),
            geometry.wf(),
            transform.wf(),
            out@.len() == k,
            forall|q: int|
                0 <= q < k ==> #[trigger] out@[q] == transform.spec_pixel_of(
                    geometry.points_seq()[q],
                ),
        decreases geometry.points_seq().len() - k,
    {
        let p = geometry.point_at(k);
        out.push(transform.pixel_of(p));
        k += 1;
    }
    out
}

/// The slot of one feature after one tile: its points are looked up in tile
/// space in order; a point outside the tile is skipped, an in-tile no-data
/// pixel feeds a null, a value feeds the accumulators.  `None` is the
/// overflow outcome.
pub open spec fn slot_after_points(
    slot: AggSlot,
    pts: Seq<Coordinate2D>,
    raster: RasterTile2D,
    ignore_no_data: bool,
) -> Option<AggSlot>
    decreases pts.len(),
{
    if pts.len() == 0 {
        Some(slot)
    } else {
        match slot_after_points(slot, pts.drop_last(), raster, ignore_no_data) {
            None => None,
            Some(s) => {
                let idx = raster.global_geo_transform.spec_pixel_of(pts.last());
                if raster.spec_contains_grid_idx(idx) {
                    match raster.spec_value_at_grid_idx(idx) {
                        Some(v) => if s.spec_value_fits(v) {
                            Some(s.spec_with_value(v))
                        } else {
                            None
                        },
                        None => Some(s.spec_with_null(ignore_no_data)),
                    }
                } else {
                    Some(s)
                }
            },
        }
    }
}

/// Unfolds one step of `slot_after_points` over growing prefixes.
pub proof fn lemma_slot_after_points_take_step(
    slot: AggSlot,
    pts: Seq<Coordinate2D>,
    raster: RasterTile2D,
    ignore_no_data: bool,
    k: int,
)
    requires
        0 <= k < pts.len(),
    ensures
        slot_after_points(slot, pts.take(k + 1), raster, ignore_no_data) == match slot_after_points(
            slot,
            pts.take(k),
            raster,
            ignore_no_data,
        ) {
            None => None::<AggSlot>,
            Some(s) => {
                let idx = raster.global_geo_transform.spec_pixel_of(pts[k]);
                if raster.spec_contains_grid_idx(idx) {
                    match raster.spec_value_at_grid_idx(idx) {
                        Some(v) => if s.spec_value_fits(v) {
                            Some(s.spec_with_value(v))
                        } else {
                            None::<AggSlot>
                        },
                        None => Some(s.spec_with_null(ignore_no_data)),
                    }
                } else {
                    Some(s)
                }
            },
        },
{
    assert(pts.take(k + 1).drop_last() =~= pts.take(k));
    assert(pts.take(k + 1).last() == pts[k]);
}

/// Once a prefix overflows, the whole feature overflows.
pub proof fn lemma_slot_after_points_none_stays(
    slot: AggSlot,
    pts: Seq<Coordinate2D>,
    raster: RasterTile2D,
    ignore_no_data: bool,
    k: int,
)
    requires
        0 <= k <= pts.len(),
        slot_after_points(slot, pts.take(k), raster, ignore_no_data) is None,
    ensures
        slot_after_points(slot, pts, raster, ignore_no_data) is None,
    decreases pts.len() - k,
{
    if k < pts.len() {
        lemma_slot_after_points_take_step(slot, pts, raster, ignore_no_data, k);
        lemma_slot_after_points_none_stays(slot, pts, raster, ignore_no_data, k + 1);
    } else {
        assert(pts.take(k) =~= pts);
    }
}

/// The working state of one raster time window: the filtered, narrowed
/// collection and one aggregator slot per surviving row.
#[derive(Debug)]
pub struct JoinerState {
    pub collection: FeatureCollection,
    pub aggregator: FeatureAggregator,
}

/// The per-window join driver for one vector-raster pairing.
#[derive(Debug)]
pub struct VectorRasterJoiner {
    pub state: Option<JoinerState>,
    pub aggregation_method: FeatureAggregationMethod,
    pub ignore_no_data: bool,
    pub cache_hint: CacheHint,
}

impl VectorRasterJoiner {
    /// The state, where present, is internally consistent.
    pub open spec fn wf(self) -> bool {
        self.state matches Some(st) ==> {
            &&& st.collection.wf()
            &&& st.aggregator.wf()
            &&& st.aggregator.slots_seq().len() == st.collection.spec_len()
            &&& st.aggregator.spec_method() == self.aggregation_method
            &&& st.aggregator.spec_ignore_no_data() == self.ignore_no_data
        }
    }

    /// A joiner with no window seen yet and the neutral cache hint.
    pub fn new(aggregation_method: FeatureAggregationMethod, ignore_no_data: bool) -> (r:
        VectorRasterJoiner)
        ensures
            r.state is None,
            r.aggregation_method == aggregation_method,
            r.ignore_no_data == ignore_no_data,
            r.cache_hint.expires == i64::MAX,
            r.wf(),
    {
        VectorRasterJoiner {
            state: None,
            aggregation_method,
            ignore_no_data,
            cache_hint: CacheHint::max_duration(),
        }
    }

    /// Starts the window `raster_time`: keeps the rows of `collection`
    /// whose time intersects it, narrows their intervals to the
    /// intersection and zeroes one aggregator slot per kept row.
    pub fn initialize(&mut self, collection: &FeatureCollection, raster_time: &TimeInterval)
        requires
            collection.wf(),
            raster_time.wf(),
        ensures
            final(self).wf(),
            final(self).state is Some,
            final(self).state matches Some(st) ==> st.collection.geoms() == mask_filter(
                collection.geoms(),
                time_mask(collection.time_seq(), *raster_time),
            ),
            final(self).state matches Some(st) ==> st.collection.time_seq() == narrowed_times(
                collection.time_seq(),
                *raster_time,
            ),
            final(self).state matches Some(st) ==> columns_filtered(
                st.collection,
                *collection,
                time_mask(collection.time_seq(), *raster_time),
            ),
            final(self).state matches Some(st) ==> st.aggregator.slots_seq().len()
                == st.collection.spec_len(),
            final(self).state matches Some(st) ==> forall|i: int|
                0 <= i < st.aggregator.slots_seq().len()
                    ==> #[trigger] st.aggregator.slots_seq()[i] == AggSlot::spec_empty(),
            final(self).aggregation_method == old(self).aggregation_method,
            final(self).ignore_no_data == old(self).ignore_no_data,
            final(self).cache_hint == old(self).cache_hint,
    {
        let n = collection.len();
        let mut mask: Vec<bool> = Vec::new();
        let mut kept_times: Vec<TimeInterval> = Vec::new();
        let mut i: usize = 0;
        let ghost times = collection.time_seq();
        proof {
            assert(mask@ =~= time_mask(times, *raster_time).take(0));
            assert(kept_times@ =~= narrowed_times(times.take(0), *raster_time));
        }
        while i < n
            invariant
                i <= n,
                n == collection.spec_len(),
                collection.wf(),
                times == collection.time_seq(),
                times.len() == n,
                mask@ == time_mask(times, *raster_time).take(i as int),
                kept_times@ == narrowed_times(times.take(i as int), *raster_time),
            decreases n - i,
        {
            let t = collection.time_at(i);
            proof {
                lemma_narrowed_times_take_step(times, *raster_time, i as int);
                assert(time_mask(times, *raster_time).take(i + 1) =~= time_mask(
                    times,
                    *raster_time,
                ).take(i as int).push(times[i as int].spec_intersect(*raster_time) is Some));
            }
            match t.intersect(raster_time) {
                Some(narrowed) => {
                    mask.push(true);
                    kept_times.push(narrowed);
                },
                None => {
                    mask.push(false);
                },
            }
            i += 1;
        }
        proof {
            assert(time_mask(times, *raster_time).take(n as int) =~= time_mask(
                times,
                *raster_time,
            ));
            assert(times.take(n as int) =~= times);
        }
        let filtered = match collection.filter(mask) {
            Ok(c) => c,
            Err(_) => {
                // The mask has one entry per row by construction.
                proof {
                    assert(false);
                }
                return ;
            },
        };
        proof {
            lemma_narrowed_times_len(times, *raster_time);
            lemma_narrowed_times_wf(times, *raster_time);
            assert(collection.geoms().len() == collection.spec_len());
            assert(times.len() == collection.spec_len());
            crate::collections::lemma_mask_filter_same_len(
                times,
                collection.geoms(),
                time_mask(times, *raster_time),
            );
            assert(filtered.spec_len() == filtered.geoms().len());
            assert(kept_times@.len() == filtered.spec_len());
        }
        let narrowed = match filtered.replace_time(&kept_times) {
            Ok(c) => c,
            Err(_) => {
                // One narrowed interval per kept row by construction.
                proof {
                    assert(false);
                }
                return ;
            },
        };
        let aggregator = create_feature_aggregator(
            narrowed.len(),
            self.aggregation_method,
            self.ignore_no_data,
        );
        proof {
            let m = time_mask(collection.time_seq(), *raster_time);
            assert(narrowed.geoms() == filtered.geoms());
            assert(narrowed.geoms() == mask_filter(collection.geoms(), m));
            assert(narrowed.time_seq() == kept_times@);
            assert(columns_filtered(filtered, *collection, m));
            assert forall|j: int|
                #![trigger narrowed.col_cells(j)]
                0 <= j < collection.num_columns() implies {
                &&& narrowed.col_name(j) == collection.col_name(j)
                &&& narrowed.col_type(j) == collection.col_type(j)
                &&& narrowed.col_cells(j) == mask_filter(collection.col_cells(j), m)
            } by {
                assert(narrowed.col_cells(j) == filtered.col_cells(j));
                assert(filtered.col_cells(j) == mask_filter(collection.col_cells(j), m));
            }
            assert(narrowed.spec_len() == narrowed.geoms().len());
        }
        self.state = Some(JoinerState { collection: narrowed, aggregator });
        proof {
            let st = self.state.unwrap();
            let m = time_mask(collection.time_seq(), *raster_time);
            assert(st.collection.geoms() == mask_filter(collection.geoms(), m));
            assert(st.collection.time_seq() == narrowed_times(
                collection.time_seq(),
                *raster_time,
            ));
            assert(st.collection.num_columns() == collection.num_columns());
            assert(st.aggregator.slots_seq().len() == st.collection.spec_len());
            assert(columns_filtered(st.collection, *collection, m)) by {
                assert(st.collection.num_columns() == collection.num_columns());
                assert forall|j: int|
                    0 <= j < collection.num_columns() implies #[trigger] st.collection.col_cells(j)
                    == mask_filter(collection.col_cells(j), m) by {
                    assert(st.collection.col_cells(j) == narrowed.col_cells(j));
                }
                assert forall|j: int|
                    0 <= j < collection.num_columns() implies #[trigger] st.collection.col_name(j)
                    == collection.col_name(j) by {
                    assert(st.collection.col_cells(j) == narrowed.col_cells(j));
                    assert(st.collection.col_name(j) == narrowed.col_name(j));
                }
                assert forall|j: int|
                    0 <= j < collection.num_columns() implies #[trigger] st.collection.col_type(j)
                    == collection.col_type(j) by {
                    assert(st.collection.col_cells(j) == narrowed.col_cells(j));
                    assert(st.collection.col_type(j) == narrowed.col_type(j));
                }
            }
            assert(self.wf());
        }
    }

    /// Feeds one raster tile into the window: every feature's covered
    /// pixels are looked up and fed to its aggregator slot, and the tile's
    /// cache hint is merged.  On the first tile of a not-yet-initialized
    /// window the state is built from the original, unfiltered collection
    /// and the tile's time first.
    pub fn extract_raster_values(
        self,
        initial_collection: &FeatureCollection,
        raster: &RasterTile2D,
    ) -> (r: Result<VectorRasterJoiner, Error>)
        requires
            self.wf(),
            initial_collection.wf(),
            raster.wf(),
        ensures
            r matches Ok(j2) ==> {
                &&& j2.wf()
                &&& j2.state is Some
                &&& j2.aggregation_method == self.aggregation_method
                &&& j2.ignore_no_data == self.ignore_no_data
                &&& j2.cache_hint == self.cache_hint.spec_merged(raster.cache_hint)
            },
            r is Err ==> r == Err::<VectorRasterJoiner, Error>(Error::NumericOverflow),
            self.state matches Some(st0) ==> (r is Ok <==> all_slots_fit(
                st0,
                *raster,
                self.ignore_no_data,
            )),
            self.state is None ==> {
                let kept = mask_filter(
                    initial_collection.geoms(),
                    time_mask(initial_collection.time_seq(), raster.time),
                );
                r is Ok <==> forall|i: int|
                    0 <= i < kept.len() ==> slot_after_points(
                        AggSlot::spec_empty(),
                        #[trigger] kept[i],
                        *raster,
                        self.ignore_no_data,
                    ) is Some
            },
            self.state matches Some(st0) ==> (r matches Ok(j2) ==> tile_applied(
                j2.state.unwrap(),
                st0,
                *raster,
                self.ignore_no_data,
            )),
            self.state is None ==> (r matches Ok(j2) ==> {
                let st2 = j2.state.unwrap();
                let m = time_mask(initial_collection.time_seq(), raster.time);
                &&& st2.collection.geoms() == mask_filter(initial_collection.geoms(), m)
                &&& st2.collection.time_seq() == narrowed_times(
                    initial_collection.time_seq(),
                    raster.time,
                )
                &&& columns_filtered(st2.collection, *initial_collection, m)
                &&& st2.aggregator.slots_seq().len() == st2.collection.spec_len()
                &&& forall|i: int|
                    0 <= i < st2.collection.spec_len() ==> Some(
                        #[trigger] st2.aggregator.slots_seq()[i],
                    ) == slot_after_points(
                        AggSlot::spec_empty(),
                        st2.collection.geoms()[i],
                        *raster,
                        self.ignore_no_data,
                    )
            }),
    {
        let mut joiner = self;
        if joiner.state.is_none() {
            joiner.initialize(initial_collection, &raster.time);
        }
        let ghost pre = joiner;
        let (collection, mut aggregator) = match joiner.state {
            Some(st) => (st.collection, st.aggregator),
            None => {
                proof {
                    assert(false);
                }
                return Err(Error::NumericOverflow);
            },
        };
        let ghost st0 = pre.state.unwrap();
        let ghost slots0 = st0.aggregator.slots_seq();
        let ghost geoms = st0.collection.geoms();
        let ignore = joiner.ignore_no_data;
        let n = collection.len();
        let mut i: usize = 0;
        while i < n
            invariant
                i <= n,
                n == collection.spec_len(),
                collection.wf(),
                raster.wf(),
                collection == st0.collection,
                geoms == collection.geoms(),
                slots0 == st0.aggregator.slots_seq(),
                geoms.len() == n,
                slots0.len() == n,
                ignore == pre.ignore_no_data,
                ignore == self.ignore_no_data,
                self.state is Some ==> st0 == self.state.unwrap(),
                self.state is None ==> geoms == mask_filter(
                    initial_collection.geoms(),
                    time_mask(initial_collection.time_seq(), raster.time),
                ),
                self.state is None ==> forall|q: int|
                    0 <= q < slots0.len() ==> #[trigger] slots0[q] == AggSlot::spec_empty(),
                aggregator.slots_seq().len() == n,
                aggregator.spec_method() == st0.aggregator.spec_method(),
                aggregator.spec_ignore_no_data() == st0.aggregator.spec_ignore_no_data(),
                aggregator.spec_ignore_no_data() == ignore,
                aggregator.wf(),
                st0.aggregator.wf(),
                forall|k: int|
                    0 <= k < i ==> Some(#[trigger] aggregator.slots_seq()[k]) == slot_after_points(
                        slots0[k],
                        geoms[k],
                        *raster,
                        ignore,
                    ),
                forall|k: int| i <= k < n ==> #[trigger] aggregator.slots_seq()[k] == slots0[k],
            decreases n - i,
        {
            let geometry = collection.geometry_at(i);
            proof {
                assert(crate::collections::points_wf(geoms[i as int]));
            }
            let pixels = covered_pixels(geometry, &raster.global_geo_transform);
            let ghost pts = geoms[i as int];
            let num_pixels = pixels.len();
            let mut k: usize = 0;
            while k < num_pixels
                invariant
                    k <= num_pixels,
                    0 <= i < n,
                    n == collection.spec_len(),
                    raster.wf(),
                    num_pixels == pts.len(),
                    pts == geoms[i as int],
                    geoms == st0.collection.geoms(),
                    slots0 == st0.aggregator.slots_seq(),
                    geoms.len() == n,
                    slots0.len() == n,
                    ignore == self.ignore_no_data,
                    self.state is Some ==> st0 == self.state.unwrap(),
                    self.state is None ==> geoms == mask_filter(
                        initial_collection.geoms(),
                        time_mask(initial_collection.time_seq(), raster.time),
                    ),
                    self.state is None ==> forall|q: int|
                        0 <= q < slots0.len() ==> #[trigger] slots0[q] == AggSlot::spec_empty(),
                    pixels@.len() == num_pixels,
                    forall|q: int|
                        0 <= q < num_pixels ==> #[trigger] pixels@[q]
                            == raster.global_geo_transform.spec_pixel_of(pts[q]),
                    aggregator.slots_seq().len() == n,
                    aggregator.spec_method() == st0.aggregator.spec_method(),
                    aggregator.spec_ignore_no_data() == st0.aggregator.spec_ignore_no_data(),
                    aggregator.spec_ignore_no_data() == ignore,
                    aggregator.wf(),
                    st0.aggregator.wf(),
                    Some(aggregator.slots_seq()[i as int]) == slot_after_points(
                        slots0[i as int],
                        pts.take(k as int),
                        *raster,
                        ignore,
                    ),
                    forall|q: int|
                        0 <= q < i ==> Some(#[trigger] aggregator.slots_seq()[q])
                            == slot_after_points(slots0[q], geoms[q], *raster, ignore),
                    forall|q: int| i < q < n ==> #[trigger] aggregator.slots_seq()[q] == slots0[q],
                decreases num_pixels - k,
            {
                proof {
                    lemma_slot_after_points_take_step(
                        slots0[i as int],
                        pts,
                        *raster,
                        ignore,
                        k as int,
                    );
                }
                let idx = pixels[k];
                match raster.get_at_grid_index(idx) {
                    Ok(Some(v)) => {
                        match aggregator.add_value(i, v) {
                            Ok(()) => {},
                            Err(e) => {
                                proof {
                                    lemma_slot_after_points_none_stays(
                                        slots0[i as int],
                                        pts,
                                        *raster,
                                        ignore,
                                        k + 1,
                                    );
                                    assert(slot_after_points(
                                        slots0[i as int],
                                        geoms[i as int],
                                        *raster,
                                        ignore,
                                    ) is None);
                                    assert(slot_after_points(
                                        st0.aggregator.slots_seq()[i as int],
                                        st0.collection.geoms()[i as int],
                                        *raster,
                                        ignore,
                                    ) is None);
                                    assert(!all_slots_fit(st0, *raster, ignore));
                                    if self.state is None {
                                        let kept = mask_filter(
                                            initial_collection.geoms(),
                                            time_mask(
                                                initial_collection.time_seq(),
                                                raster.time,
                                            ),
                                        );
                                        assert(slots0[i as int] == AggSlot::spec_empty());
                                        assert(kept[i as int] == geoms[i as int]);
                                        assert(slot_after_points(
                                            AggSlot::spec_empty(),
                                            kept[i as int],
                                            *raster,
                                            ignore,
                                        ) is None);
                                    }
                                }
                                return Err(e);
                            },
                        }
                    },
                    Ok(None) => {
                        aggregator.add_null(i);
                    },
                    Err(_) => {
                        // The pixel lies outside this tile: skipped, not null.
                    },
                }
                k += 1;
            }
            proof {
                assert(pts.take(pts.len() as int) =~= pts);
            }
            i += 1;
        }
        let mut cache_hint = joiner.cache_hint;
        cache_hint.merge_with(&raster.cache_hint);
        let result = VectorRasterJoiner {
            state: Some(JoinerState { collection, aggregator }),
            aggregation_method: joiner.aggregation_method,
            ignore_no_data: joiner.ignore_no_data,
            cache_hint,
        };
        proof {
            let st2 = result.state.unwrap();
            assert(tile_applied(st2, st0, *raster, ignore)) by {
                assert(same_rows(st2.collection, st0.collection));
                assert forall|q: int|
                    0 <= q < slots0.len() implies Some(#[trigger] st2.aggregator.slots_seq()[q])
                    == slot_after_points(slots0[q], st0.collection.geoms()[q], *raster, ignore) by {
                    assert(Some(aggregator.slots_seq()[q]) == slot_after_points(
                        slots0[q],
                        geoms[q],
                        *raster,
                        ignore,
                    ));
                }
            }
            assert(all_slots_fit(st0, *raster, ignore)) by {
                assert forall|q: int|
                    0 <= q < st0.aggregator.slots_seq().len() implies slot_after_points(
                    #[trigger] st0.aggregator.slots_seq()[q],
                    st0.collection.geoms()[q],
                    *raster,
                    ignore,
                ) is Some by {
                    assert(Some(aggregator.slots_seq()[q]) == slot_after_points(
                        slots0[q],
                        geoms[q],
                        *raster,
                        ignore,
                    ));
                }
            }
            if self.state is None {
                let kept = mask_filter(
                    initial_collection.geoms(),
                    time_mask(initial_collection.time_seq(), raster.time),
                );
                assert forall|q: int|
                    0 <= q < kept.len() implies slot_after_points(
                    AggSlot::spec_empty(),
                    #[trigger] kept[q],
                    *raster,
                    ignore,
                ) is Some by {
                    assert(kept[q] == geoms[q]);
                    assert(slots0[q] == AggSlot::spec_empty());
                    assert(Some(aggregator.slots_seq()[q]) == slot_after_points(
                        slots0[q],
                        geoms[q],
                        *raster,
                        ignore,
                    ));
                }
            }
            assert(result.wf());
        }
        Ok(result)
    }

    /// Flushes the window: attaches the aggregated values as a new column
    /// and stamps the merged cache hint.  Reaching the flush with no
    /// initialized state means the input should have been handled as empty
    /// before any raster query; it is reported as the dedicated error.
    pub fn into_collection(self, new_column_name: &str) -> (r: Result<FeatureCollection, Error>)
        requires
            self.wf(),
        ensures
            self.state is None <==> r == Err::<FeatureCollection, Error>(Error::EmptyInput),
            (self.state matches Some(st) && st.collection.has_column_name(new_column_name@)) <==> r
                == Err::<FeatureCollection, Error>(Error::ColumnAlreadyExists),
            r is Ok <==> (self.state matches Some(st) && !st.collection.has_column_name(
                new_column_name@,
            )),
            self.state matches Some(st) ==> (r matches Ok(c) ==> c.wf() && c.geoms()
                == st.collection.geoms() && c.time_seq() == st.collection.time_seq()
                && c.num_columns() == st.collection.num_columns() + 1 && c.hint()
                == self.cache_hint),
            self.state matches Some(st) ==> (r matches Ok(c) ==> forall|j: int|
                0 <= j < st.collection.num_columns() ==> #[trigger] c.col_cells(j)
                    == st.collection.col_cells(j)),
            self.state matches Some(st) ==> (r matches Ok(c) ==> forall|j: int|
                0 <= j < st.collection.num_columns() ==> #[trigger] c.col_name(j)
                    == st.collection.col_name(j)),
            self.state matches Some(st) ==> (r matches Ok(c) ==> forall|j: int|
                0 <= j < st.collection.num_columns() ==> #[trigger] c.col_type(j)
                    == st.collection.col_type(j)),
            self.state matches Some(st) ==> (r matches Ok(c) ==> c.col_name(
                st.collection.num_columns() as int,
            ) == new_column_name@ && c.col_type(st.collection.num_columns() as int)
                == spec_output_data_type(self.aggregation_method) && c.col_cells(
                st.collection.num_columns() as int,
            ).len() == st.collection.spec_len()),
            self.state matches Some(st) ==> (r matches Ok(c) ==> forall|i: int|
                0 <= i < st.collection.spec_len() ==> #[trigger] c.col_cells(
                    st.collection.num_columns() as int,
                )[i] == spec_output_cell(self.aggregation_method, st.aggregator.slots_seq()[i])),
    {
        let cache_hint = self.cache_hint;
        let state = match self.state {
            Some(st) => st,
            None => {
                return Err(Error::EmptyInput);
            },
        };
        let data = state.aggregator.into_data();
        let mut new_collection = match state.collection.add_column(new_column_name, data) {
            Ok(c) => c,
            Err(e) => {
                proof {
                    assert(e == Error::ColumnAlreadyExists);
                }
                return Err(e);
            },
        };
        let ghost before = new_collection;
        new_collection.set_cache_hint(cache_hint);
        proof {
            let st = self.state.unwrap();
            let n = st.collection.num_columns() as int;
            assert(new_collection.geoms() == st.collection.geoms());
            assert(new_collection.time_seq() == st.collection.time_seq());
            assert(new_collection.num_columns() == n + 1);
            assert forall|j: int|
                0 <= j < n implies #[trigger] new_collection.col_cells(j)
                == st.collection.col_cells(j) by {
                assert(new_collection.col_cells(j) == before.col_cells(j));
                assert(before.col_cells(j) == st.collection.col_cells(j));
            }
            assert forall|j: int|
                0 <= j < n implies #[trigger] new_collection.col_name(j)
                == st.collection.col_name(j) by {
                assert(new_collection.col_cells(j) == before.col_cells(j));
                assert(new_collection.col_name(j) == before.col_name(j));
                assert(before.col_cells(j) == st.collection.col_cells(j));
                assert(before.col_name(j) == st.collection.col_name(j));
            }
            assert forall|j: int|
                0 <= j < n implies #[trigger] new_collection.col_type(j)
                == st.collection.col_type(j) by {
                assert(new_collection.col_cells(j) == before.col_cells(j));
                assert(new_collection.col_type(j) == before.col_type(j));
                assert(before.col_cells(j) == st.collection.col_cells(j));
                assert(before.col_type(j) == st.collection.col_type(j));
            }
            assert(new_collection.col_cells(n) == before.col_cells(n));
            assert(before.col_cells(n) == fd_cells(data));
            assert(new_collection.col_name(n) == new_column_name@);
            assert(new_collection.col_type(n) == spec_output_data_type(self.aggregation_method));
            assert forall|i: int|
                0 <= i < st.collection.spec_len() implies #[trigger] new_collection.col_cells(n)[i]
                == spec_output_cell(self.aggregation_method, st.aggregator.slots_seq()[i]) by {
                assert(fd_cells(data)[i] == spec_output_cell(
                    st.aggregator.spec_method(),
                    st.aggregator.slots_seq()[i],
                ));
            }
        }
        Ok(new_collection)
    }
}

/// Whether every feature of a window state can take this tile without
/// leaving the representable range.
pub open spec fn all_slots_fit(st: JoinerState, raster: RasterTile2D, ignore_no_data: bool) -> bool {
    forall|i: int|
        0 <= i < st.aggregator.slots_seq().len() ==> slot_after_points(
            #[trigger] st.aggregator.slots_seq()[i],
            st.collection.geoms()[i],
            raster,
            ignore_no_data,
        ) is Some
}

/// Whether `st2` is `st0` after one tile: same rows, and every slot is the
/// old slot with the feature's covered pixels of this tile applied.
pub open spec fn tile_applied(
    st2: JoinerState,
    st0: JoinerState,
    raster: RasterTile2D,
    ignore_no_data: bool,
) -> bool {
    &&& same_rows(st2.collection, st0.collection)
    &&& st2.aggregator.slots_seq().len() == st0.aggregator.slots_seq().len()
    &&& forall|i: int|
        0 <= i < st0.aggregator.slots_seq().len() ==> Some(
            #[trigger] st2.aggregator.slots_seq()[i],
        ) == slot_after_points(
            st0.aggregator.slots_seq()[i],
            st0.collection.geoms()[i],
            raster,
            ignore_no_data,
        )
}

} // verus!
