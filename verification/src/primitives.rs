//! Spatio-temporal value types: time intervals, coordinates, rectangles,
//! resolutions, cache hints, band selections and query rectangles.
//!
//! Coordinates are positions in a fixed global integer grid; all geometric
//! algebra is exact.

use vstd::prelude::*;

use crate::error::Error;

verus! {

/// Largest coordinate magnitude the engine supports.  Keeping coordinates
/// well below `i64` range makes every geometric computation overflow-free.
pub const COORD_LIMIT: i64 = 0x4000_0000_0000;

/// A time instant, in milliseconds relative to the epoch.
pub type TimeInstance = i64;

/// A half-open time interval `[start, end)`; an interval with
/// `start == end` is an instant.
#[derive(Clone, Copy, Debug, PartialEq, Eq, Structural)]
pub struct TimeInterval {
    pub start: TimeInstance,
    pub end: TimeInstance,
}

impl TimeInterval {
    /// A time interval never ends before it starts.
    pub open spec fn wf(self) -> bool {
        self.start <= self.end
    }

    /// An instant: start and end coincide.
    pub open spec fn spec_is_instant(self) -> bool {
        self.start == self.end
    }

    /// Whether the instant `t` lies inside the interval.  For an instant the
    /// single point counts; otherwise the interval is half-open.
    pub open spec fn spec_contains_instant(self, t: TimeInstance) -> bool {
        self.start <= t && (t < self.end || (self.spec_is_instant() && t == self.start))
    }

    /// The intersection as a mathematical value, if the two intervals meet.
    pub open spec fn spec_intersect(self, other: TimeInterval) -> Option<TimeInterval> {
        let s = if self.start >= other.start {
            self.start
        } else {
            other.start
        };
        let e = if self.end <= other.end {
            self.end
        } else {
            other.end
        };
        if s < e {
            Some(TimeInterval { start: s, end: e })
        } else if s == e && self.spec_contains_instant(s) && other.spec_contains_instant(s) {
            Some(TimeInterval { start: s, end: e })
        } else {
            None
        }
    }

    pub fn new(start: TimeInstance, end: TimeInstance) -> (r: Result<TimeInterval, Error>)
        ensures
            start <= end <==> (r matches Ok(t) && t == (TimeInterval { start, end })),
            start > end <==> r == Err::<TimeInterval, Error>(Error::TimeIntervalStartAfterEnd),
    {
        if start <= end {
            Ok(TimeInterval { start, end })
        } else {
            Err(Error::TimeIntervalStartAfterEnd)
        }
    }

    /// Builds the interval without the runtime check; the caller vouches for
    /// the ordering.
    pub fn new_unchecked(start: TimeInstance, end: TimeInstance) -> (r: TimeInterval)
        requires
            start <= end,
        ensures
            r == (TimeInterval { start, end }),
    {
        TimeInterval { start, end }
    }

    /// The degenerate interval holding exactly one instant.
    pub fn new_instant(t: TimeInstance) -> (r: TimeInterval)
        ensures
            r == (TimeInterval { start: t, end: t }),
            r.spec_is_instant(),
    {
        TimeInterval { start: t, end: t }
    }

    pub fn is_instant(&self) -> (r: bool)
        ensures
            r == self.spec_is_instant(),
    {
        self.start == self.end
    }

    pub fn contains_instant(&self, t: TimeInstance) -> (r: bool)
        ensures
            r == self.spec_contains_instant(t),
    {
        self.start <= t && (t < self.end || (self.start == self.end && t == self.start))
    }

    /// Whether the two intervals share at least one instant.
    pub fn intersects(&self, other: &TimeInterval) -> (r: bool)
        ensures
            r == self.spec_intersect(*other).is_some(),
    {
        let s = if self.start >= other.start {
            self.start
        } else {
            other.start
        };
        let e = if self.end <= other.end {
            self.end
        } else {
            other.end
        };
        s < e || (s == e && self.contains_instant(s) && other.contains_instant(s))
    }

    /// The shared part of the two intervals, or `None` where they are
    /// disjoint.
    pub fn intersect(&self, other: &TimeInterval) -> (r: Option<TimeInterval>)
        ensures
            r == self.spec_intersect(*other),
    {
        let s = if self.start >= other.start {
            self.start
        } else {
            other.start
        };
        let e = if self.end <= other.end {
            self.end
        } else {
            other.end
        };
        if s < e || (s == e && self.contains_instant(s) && other.contains_instant(s)) {
            Some(TimeInterval { start: s, end: e })
        } else {
            None
        }
    }

    /// The smallest interval containing both inputs (their temporal hull).
    pub fn extend(&self, other: &TimeInterval) -> (r: TimeInterval)
        ensures
            r.start == if self.start <= other.start { self.start } else { other.start },
            r.end == if self.end >= other.end { self.end } else { other.end },
    {
        TimeInterval {
            start: if self.start <= other.start { self.start } else { other.start },
            end: if self.end >= other.end { self.end } else { other.end },
        }
    }
}

/// Law: intersecting an intersection with the same second interval again
/// changes nothing.  Whatever `a.intersect(b)` returns, intersecting that
/// result with `b` once more returns it unchanged.
pub proof fn lemma_intersect_idempotent(a: TimeInterval, b: TimeInterval)
    requires
        a.wf(),
        b.wf(),
        a.spec_intersect(b).is_some(),
    ensures
        a.spec_intersect(b).unwrap().spec_intersect(b) == a.spec_intersect(b),
{
}

/// A conservative validity annotation for produced data: the instant until
/// which a cached copy may be served.  Merging two hints keeps the earlier
/// expiration, the more conservative of the two.
#[derive(Clone, Copy, Debug, PartialEq, Eq, Structural)]
pub struct CacheHint {
    pub expires: TimeInstance,
}

impl CacheHint {
    /// The hint that never expires; the neutral element of merging.
    pub fn max_duration() -> (r: CacheHint)
        ensures
            r.expires == i64::MAX,
    {
        CacheHint { expires: i64::MAX }
    }

    pub fn with_expiration(expires: TimeInstance) -> (r: CacheHint)
        ensures
            r.expires == expires,
    {
        CacheHint { expires }
    }

    /// Narrows this hint to the more conservative of the two.
    pub fn merge_with(&mut self, other: &CacheHint)
        ensures
            final(self).expires == if old(self).expires <= other.expires {
                old(self).expires
            } else {
                other.expires
            },
    {
        if other.expires < self.expires {
            self.expires = other.expires;
        }
    }

    /// The merged value as a function, for use in contracts.
    pub open spec fn spec_merged(self, other: CacheHint) -> CacheHint {
        CacheHint {
            expires: if self.expires <= other.expires {
                self.expires
            } else {
                other.expires
            },
        }
    }
}

/// A position in the global integer grid.
#[derive(Clone, Copy, Debug, PartialEq, Eq, Structural)]
pub struct Coordinate2D {
    pub x: i64,
    pub y: i64,
}

impl Coordinate2D {
    /// Coordinates stay well inside `i64` so that sums and small products
    /// never overflow.
    pub open spec fn wf(self) -> bool {
        -COORD_LIMIT <= self.x <= COORD_LIMIT && -COORD_LIMIT <= self.y <= COORD_LIMIT
    }

    pub fn new(x: i64, y: i64) -> (r: Result<Coordinate2D, Error>)
        ensures
            (r matches Ok(c) && c == (Coordinate2D { x, y })) <==> (Coordinate2D { x, y }).wf(),
            r is Err ==> r == Err::<Coordinate2D, Error>(Error::CoordinateOutOfRange),
    {
        if -COORD_LIMIT <= x && x <= COORD_LIMIT && -COORD_LIMIT <= y && y <= COORD_LIMIT {
            Ok(Coordinate2D { x, y })
        } else {
            Err(Error::CoordinateOutOfRange)
        }
    }
}

/// The step width of a query, in grid units per pixel, strictly positive in
/// both axes.
#[derive(Clone, Copy, Debug, PartialEq, Eq, Structural)]
pub struct SpatialResolution {
    pub x: i64,
    pub y: i64,
}

impl SpatialResolution {
    pub open spec fn wf(self) -> bool {
        0 < self.x <= COORD_LIMIT && 0 < self.y <= COORD_LIMIT
    }

    pub fn new(x: i64, y: i64) -> (r: Result<SpatialResolution, Error>)
        ensures
            (r matches Ok(s) && s == (SpatialResolution { x, y })) <==> (SpatialResolution {
                x,
                y,
            }).wf(),
            r is Err ==> r == Err::<SpatialResolution, Error>(Error::InvalidSpatialResolution),
    {
        if 0 < x && x <= COORD_LIMIT && 0 < y && y <= COORD_LIMIT {
            Ok(SpatialResolution { x, y })
        } else {
            Err(Error::InvalidSpatialResolution)
        }
    }
}

/// An axis-aligned rectangle given by its lower-left and upper-right
/// corners; closed on all sides.
#[derive(Clone, Copy, Debug, PartialEq, Eq, Structural)]
pub struct BoundingBox2D {
    pub lower_left: Coordinate2D,
    pub upper_right: Coordinate2D,
}

impl BoundingBox2D {
    pub open spec fn wf(self) -> bool {
        &&& self.lower_left.wf()
        &&& self.upper_right.wf()
        &&& self.lower_left.x <= self.upper_right.x
        &&& self.lower_left.y <= self.upper_right.y
    }

    pub open spec fn spec_contains_coord(self, c: Coordinate2D) -> bool {
        self.lower_left.x <= c.x <= self.upper_right.x && self.lower_left.y <= c.y
            <= self.upper_right.y
    }

    /// The shared region of two boxes, if any; closed rectangles intersect
    /// even where they only touch.
    pub open spec fn spec_intersection(self, other: BoundingBox2D) -> Option<BoundingBox2D> {
        let llx = if self.lower_left.x >= other.lower_left.x {
            self.lower_left.x
        } else {
            other.lower_left.x
        };
        let lly = if self.lower_left.y >= other.lower_left.y {
            self.lower_left.y
        } else {
            other.lower_left.y
        };
        let urx = if self.upper_right.x <= other.upper_right.x {
            self.upper_right.x
        } else {
            other.upper_right.x
        };
        let ury = if self.upper_right.y <= other.upper_right.y {
            self.upper_right.y
        } else {
            other.upper_right.y
        };
        if llx <= urx && lly <= ury {
            Some(
                BoundingBox2D {
                    lower_left: Coordinate2D { x: llx, y: lly },
                    upper_right: Coordinate2D { x: urx, y: ury },
                },
            )
        } else {
            None
        }
    }

    /// Whether this box contains the whole of `inner`.
    pub open spec fn spec_covers(self, inner: BoundingBox2D) -> bool {
        &&& self.lower_left.x <= inner.lower_left.x
        &&& self.lower_left.y <= inner.lower_left.y
        &&& inner.upper_right.x <= self.upper_right.x
        &&& inner.upper_right.y <= self.upper_right.y
    }

    pub fn new(lower_left: Coordinate2D, upper_right: Coordinate2D) -> (r: Result<
        BoundingBox2D,
        Error,
    >)
        requires
            lower_left.wf(),
            upper_right.wf(),
        ensures
            (r matches Ok(b) && b == (BoundingBox2D { lower_left, upper_right })) <==> (
            BoundingBox2D { lower_left, upper_right }).wf(),
            r is Err ==> r == Err::<BoundingBox2D, Error>(Error::InvalidBoundingBox),
    {
        if lower_left.x <= upper_right.x && lower_left.y <= upper_right.y {
            Ok(BoundingBox2D { lower_left, upper_right })
        } else {
            Err(Error::InvalidBoundingBox)
        }
    }

    pub fn new_unchecked(lower_left: Coordinate2D, upper_right: Coordinate2D) -> (r: BoundingBox2D)
        requires
            (BoundingBox2D { lower_left, upper_right }).wf(),
        ensures
            r == (BoundingBox2D { lower_left, upper_right }),
    {
        BoundingBox2D { lower_left, upper_right }
    }

    pub fn intersection(&self, other: &BoundingBox2D) -> (r: Option<BoundingBox2D>)
        ensures
            r == self.spec_intersection(*other),
    {
        let llx = if self.lower_left.x >= other.lower_left.x {
            self.lower_left.x
        } else {
            other.lower_left.x
        };
        let lly = if self.lower_left.y >= other.lower_left.y {
            self.lower_left.y
        } else {
            other.lower_left.y
        };
        let urx = if self.upper_right.x <= other.upper_right.x {
            self.upper_right.x
        } else {
            other.upper_right.x
        };
        let ury = if self.upper_right.y <= other.upper_right.y {
            self.upper_right.y
        } else {
            other.upper_right.y
        };
        if llx <= urx && lly <= ury {
            Some(
                BoundingBox2D {
                    lower_left: Coordinate2D { x: llx, y: lly },
                    upper_right: Coordinate2D { x: urx, y: ury },
                },
            )
        } else {
            None
        }
    }

    /// The smallest box containing both inputs.
    pub fn extend(&self, other: &BoundingBox2D) -> (r: BoundingBox2D)
        requires
            self.wf(),
            other.wf(),
        ensures
            r.wf(),
            r.spec_covers(*self),
            r.spec_covers(*other),
            r.lower_left.x == if self.lower_left.x <= other.lower_left.x {
                self.lower_left.x
            } else {
                other.lower_left.x
            },
            r.lower_left.y == if self.lower_left.y <= other.lower_left.y {
                self.lower_left.y
            } else {
                other.lower_left.y
            },
            r.upper_right.x == if self.upper_right.x >= other.upper_right.x {
                self.upper_right.x
            } else {
                other.upper_right.x
            },
            r.upper_right.y == if self.upper_right.y >= other.upper_right.y {
                self.upper_right.y
            } else {
                other.upper_right.y
            },
    {
        BoundingBox2D {
            lower_left: Coordinate2D {
                x: if self.lower_left.x <= other.lower_left.x {
                    self.lower_left.x
                } else {
                    other.lower_left.x
                },
                y: if self.lower_left.y <= other.lower_left.y {
                    self.lower_left.y
                } else {
                    other.lower_left.y
                },
            },
            upper_right: Coordinate2D {
                x: if self.upper_right.x >= other.upper_right.x {
                    self.upper_right.x
                } else {
                    other.upper_right.x
                },
                y: if self.upper_right.y >= other.upper_right.y {
                    self.upper_right.y
                } else {
                    other.upper_right.y
                },
            },
        }
    }
}

/// A pixel-aligned query region given by its upper-left and lower-right
/// corners, as raster space counts y downward.
#[derive(Clone, Copy, Debug, PartialEq, Eq, Structural)]
pub struct SpatialPartition2D {
    pub upper_left: Coordinate2D,
    pub lower_right: Coordinate2D,
}

impl SpatialPartition2D {
    pub open spec fn wf(self) -> bool {
        &&& self.upper_left.wf()
        &&& self.lower_right.wf()
        &&& self.upper_left.x <= self.lower_right.x
        &&& self.lower_right.y <= self.upper_left.y
    }

    pub fn new(upper_left: Coordinate2D, lower_right: Coordinate2D) -> (r: Result<
        SpatialPartition2D,
        Error,
    >)
        requires
            upper_left.wf(),
            lower_right.wf(),
        ensures
            (r matches Ok(p) && p == (SpatialPartition2D { upper_left, lower_right })) <==> (
            SpatialPartition2D { upper_left, lower_right }).wf(),
            r is Err ==> r == Err::<SpatialPartition2D, Error>(Error::InvalidBoundingBox),
    {
        if upper_left.x <= lower_right.x && lower_right.y <= upper_left.y {
            Ok(SpatialPartition2D { upper_left, lower_right })
        } else {
            Err(Error::InvalidBoundingBox)
        }
    }

    /// The partition covering a bounding box: same corners, reinterpreted in
    /// raster orientation.  The box is already grid-aligned in this model,
    /// so no rounding against the resolution is necessary.
    pub fn with_bbox_and_resolution(bbox: BoundingBox2D, resolution: SpatialResolution) -> (r:
        SpatialPartition2D)
        requires
            bbox.wf(),
            resolution.wf(),
        ensures
            r.wf(),
            r.upper_left == (Coordinate2D { x: bbox.lower_left.x, y: bbox.upper_right.y }),
            r.lower_right == (Coordinate2D { x: bbox.upper_right.x, y: bbox.lower_left.y }),
    {
        SpatialPartition2D {
            upper_left: Coordinate2D { x: bbox.lower_left.x, y: bbox.upper_right.y },
            lower_right: Coordinate2D { x: bbox.upper_right.x, y: bbox.lower_left.y },
        }
    }
}

/// No band index occurs twice.
pub open spec fn distinct_bands(s: Seq<u32>) -> bool {
    forall|i: int, j: int| 0 <= i < j < s.len() ==> s[i] != s[j]
}

/// The bands of a raster query, by index, in query order.
///
/// A well-formed selection is non-empty and duplicate-free; `new` enforces
/// this, `new_unchecked` leaves it to the caller.
#[derive(Debug)]
pub struct BandSelection(Vec<u32>);

impl View for BandSelection {
    type V = Seq<u32>;

    closed spec fn view(&self) -> Seq<u32> {
        self.0@
    }
}

impl Clone for BandSelection {
    fn clone(&self) -> (r: BandSelection)
        ensures
            r@ == self@,
    {
        let bands = self.0.clone();
        proof {
            assert forall|i: int| 0 <= i < self.0@.len() implies bands@[i] == self.0@[i] by {
                assert(cloned::<u32>(self.0[i], bands[i]));
            }
            assert(bands@ =~= self.0@);
        }
        BandSelection(bands)
    }
}

impl BandSelection {
    pub open spec fn wf(self) -> bool {
        self@.len() > 0 && distinct_bands(self@)
    }

    /// Validating constructor: fails on an empty list and on a duplicate
    /// band index, in this order of checks, and succeeds on everything
    /// else.
    pub fn new(bands: Vec<u32>) -> (r: Result<BandSelection, Error>)
        ensures
            r is Ok <==> (distinct_bands(bands@) && bands@.len() > 0),
            r matches Ok(b) ==> b@ == bands@ && b.wf(),
            !distinct_bands(bands@) <==> r == Err::<BandSelection, Error>(
                Error::DuplicateBandInQueryBandSelection,
            ),
            (distinct_bands(bands@) && bands@.len() == 0) <==> r == Err::<BandSelection, Error>(
                Error::QueryBandSelectionMustNotBeEmpty,
            ),
    {
        let n = bands.len();
        let mut i: usize = 0;
        while i < n
            invariant
                i <= n,
                n == bands@.len(),
                forall|p: int, q: int| 0 <= p < q < n && p < i ==> bands@[p] != bands@[q],
            decreases n - i,
        {
            let mut j: usize = i + 1;
            while j < n
                invariant
                    i < j <= n,
                    n == bands@.len(),
                    forall|q: int| i < q < j ==> bands@[i as int] != bands@[q],
                decreases n - j,
            {
                if bands[i] == bands[j] {
                    return Err(Error::DuplicateBandInQueryBandSelection);
                }
                j += 1;
            }
            i += 1;
        }
        if bands.is_empty() {
            return Err(Error::QueryBandSelectionMustNotBeEmpty);
        }
        Ok(BandSelection(bands))
    }

    /// Wraps the list as it stands; the caller vouches for well-formedness.
    pub fn new_unchecked(bands: Vec<u32>) -> (r: BandSelection)
        ensures
            r@ == bands@,
    {
        BandSelection(bands)
    }

    /// The selection of only the first band.
    pub fn first() -> (r: BandSelection)
        ensures
            r@ == seq![0u32],
            r.wf(),
    {
        let bands = vec![0u32];
        assert(bands@ =~= seq![0u32]);
        BandSelection(bands)
    }

    /// The selection of the first `n` bands, in ascending order.
    pub fn first_n(n: u32) -> (r: BandSelection)
        ensures
            r@.len() == n,
            forall|i: int| 0 <= i < n ==> r@[i] == i,
            n > 0 ==> r.wf(),
    {
        let mut bands: Vec<u32> = Vec::new();
        let mut i: u32 = 0;
        while i < n
            invariant
                i <= n,
                bands@.len() == i,
                forall|k: int| 0 <= k < i ==> bands@[k] == k,
            decreases n - i,
        {
            bands.push(i);
            i += 1;
        }
        BandSelection(bands)
    }

    /// The selection of exactly one band.
    pub fn new_single(band: u32) -> (r: BandSelection)
        ensures
            r@ == seq![band],
            r.wf(),
    {
        let bands = vec![band];
        assert(bands@ =~= seq![band]);
        BandSelection(bands)
    }

    /// How many bands are selected.
    pub fn count(&self) -> (r: u32)
        requires
            self@.len() <= u32::MAX,
        ensures
            r == self@.len(),
    {
        self.0.len() as u32
    }

    pub fn as_slice(&self) -> (r: &[u32])
        ensures
            r@ == self@,
    {
        self.0.as_slice()
    }

    pub fn as_vec(&self) -> (r: Vec<u32>)
        ensures
            r@ == self@,
    {
        let mut out: Vec<u32> = Vec::new();
        let mut i: usize = 0;
        while i < self.0.len()
            invariant
                i <= self@.len(),
                out@ =~= self@.take(i as int),
            decreases self@.len() - i,
        {
            out.push(self.0[i]);
            i += 1;
        }
        proof {
            assert(out@ =~= self@);
        }
        out
    }
}

impl Default for BandSelection {
    /// The default selection: only the first band.
    fn default() -> (r: BandSelection)
        ensures
            r@ == seq![0u32],
            r.wf(),
    {
        BandSelection::first()
    }
}

/// What a vector query selects: always all columns.
#[derive(Clone, Copy, Debug, PartialEq, Eq, Structural)]
pub struct ColumnSelection {}

impl ColumnSelection {
    pub fn all() -> (r: ColumnSelection)
        ensures
            r == (ColumnSelection {  }),
    {
        ColumnSelection {  }
    }
}

impl Default for ColumnSelection {
    /// The default selection: all columns.
    fn default() -> (r: ColumnSelection)
        ensures
            r == (ColumnSelection {  }),
    {
        ColumnSelection {  }
    }
}

/// What a plot query selects: always all series.
#[derive(Clone, Copy, Debug, PartialEq, Eq, Structural)]
pub struct PlotSeriesSelection {}

impl PlotSeriesSelection {
    pub fn all() -> (r: PlotSeriesSelection)
        ensures
            r == (PlotSeriesSelection {  }),
    {
        PlotSeriesSelection {  }
    }
}

/// The spatial-bounds flavours a query rectangle can carry.
pub trait AxisAlignedRectangle: Sized + Clone {
    /// Well-formedness of the concrete rectangle type.
    spec fn rect_wf(&self) -> bool;
}

impl AxisAlignedRectangle for BoundingBox2D {
    open spec fn rect_wf(&self) -> bool {
        self.wf()
    }
}

impl AxisAlignedRectangle for SpatialPartition2D {
    open spec fn rect_wf(&self) -> bool {
        self.wf()
    }
}

/// The attribute-selection flavours a query rectangle can carry.
pub trait QueryAttributeSelection: Sized + Clone {
    /// Well-formedness of the concrete selection type.
    spec fn sel_wf(&self) -> bool;
}

impl QueryAttributeSelection for BandSelection {
    open spec fn sel_wf(&self) -> bool {
        self.wf()
    }
}

impl QueryAttributeSelection for ColumnSelection {
    open spec fn sel_wf(&self) -> bool {
        true
    }
}

impl QueryAttributeSelection for PlotSeriesSelection {
    open spec fn sel_wf(&self) -> bool {
        true
    }
}

/// The immutable parameters of one query: spatial bounds, time interval,
/// resolution and attribute selection.
#[derive(Clone, Debug)]
pub struct QueryRectangle<S: AxisAlignedRectangle, A: QueryAttributeSelection> {
    pub spatial_bounds: S,
    pub time_interval: TimeInterval,
    pub spatial_resolution: SpatialResolution,
    pub attributes: A,
}

impl<S: AxisAlignedRectangle, A: QueryAttributeSelection> QueryRectangle<S, A> {
    pub open spec fn wf(self) -> bool {
        &&& self.spatial_bounds.rect_wf()
        &&& self.time_interval.wf()
        &&& self.spatial_resolution.wf()
        &&& self.attributes.sel_wf()
    }
}

pub type VectorQueryRectangle = QueryRectangle<BoundingBox2D, ColumnSelection>;

pub type RasterQueryRectangle = QueryRectangle<SpatialPartition2D, BandSelection>;

pub type PlotQueryRectangle = QueryRectangle<BoundingBox2D, PlotSeriesSelection>;

/// The partition a bounding box covers: the same corners, reinterpreted in
/// raster orientation.
pub open spec fn spec_bbox_partition(bbox: BoundingBox2D) -> SpatialPartition2D {
    SpatialPartition2D {
        upper_left: Coordinate2D { x: bbox.lower_left.x, y: bbox.upper_right.y },
        lower_right: Coordinate2D { x: bbox.upper_right.x, y: bbox.lower_left.y },
    }
}

/// Types whose spatial bounds can be turned into a pixel-aligned partition.
pub trait SpatialPartitioned {
    /// What must hold of the value before the conversion is meaningful.
    spec fn partition_inputs_wf(&self) -> bool;

    /// Which partition the value covers, as a mathematical value.
    spec fn spec_spatial_partition(&self) -> SpatialPartition2D;

    fn spatial_partition(&self) -> (r: SpatialPartition2D)
        requires
            self.partition_inputs_wf(),
        ensures
            r == self.spec_spatial_partition(),
            r.wf(),
    ;
}

impl SpatialPartitioned for QueryRectangle<BoundingBox2D, ColumnSelection> {
    open spec fn partition_inputs_wf(&self) -> bool {
        self.spatial_bounds.wf() && self.spatial_resolution.wf()
    }

    open spec fn spec_spatial_partition(&self) -> SpatialPartition2D {
        spec_bbox_partition(self.spatial_bounds)
    }

    fn spatial_partition(&self) -> (r: SpatialPartition2D) {
        SpatialPartition2D::with_bbox_and_resolution(self.spatial_bounds, self.spatial_resolution)
    }
}

impl SpatialPartitioned for QueryRectangle<BoundingBox2D, PlotSeriesSelection> {
    open spec fn partition_inputs_wf(&self) -> bool {
        self.spatial_bounds.wf() && self.spatial_resolution.wf()
    }

    open spec fn spec_spatial_partition(&self) -> SpatialPartition2D {
        spec_bbox_partition(self.spatial_bounds)
    }

    fn spatial_partition(&self) -> (r: SpatialPartition2D) {
        SpatialPartition2D::with_bbox_and_resolution(self.spatial_bounds, self.spatial_resolution)
    }
}

impl SpatialPartitioned for QueryRectangle<SpatialPartition2D, BandSelection> {
    open spec fn partition_inputs_wf(&self) -> bool {
        self.spatial_bounds.wf()
    }

    open spec fn spec_spatial_partition(&self) -> SpatialPartition2D {
        self.spatial_bounds
    }

    fn spatial_partition(&self) -> (r: SpatialPartition2D) {
        self.spatial_bounds
    }
}

impl QueryRectangle<SpatialPartition2D, BandSelection> {
    /// A raster query over the partition of a vector or plot query,
    /// carrying the given band selection and the source's time and
    /// resolution unchanged.
    pub fn from_qrect_and_bands<A: QueryAttributeSelection>(
        query: &QueryRectangle<BoundingBox2D, A>,
        bands: BandSelection,
    ) -> (r: RasterQueryRectangle) where QueryRectangle<BoundingBox2D, A>: SpatialPartitioned
        requires
            query.partition_inputs_wf(),
        ensures
            r.spatial_bounds == query.spec_spatial_partition(),
            r.spatial_bounds.wf(),
            r.time_interval == query.time_interval,
            r.spatial_resolution == query.spatial_resolution,
            r.attributes@ == bands@,
    {
        QueryRectangle {
            spatial_bounds: query.spatial_partition(),
            time_interval: query.time_interval,
            spatial_resolution: query.spatial_resolution,
            attributes: bands,
        }
    }

    /// The same query with another band selection.
    pub fn select_bands(&self, bands: BandSelection) -> (r: RasterQueryRectangle)
        ensures
            r.spatial_bounds == self.spatial_bounds,
            r.time_interval == self.time_interval,
            r.spatial_resolution == self.spatial_resolution,
            r.attributes@ == bands@,
    {
        QueryRectangle {
            spatial_bounds: self.spatial_bounds,
            time_interval: self.time_interval,
            spatial_resolution: self.spatial_resolution,
            attributes: bands,
        }
    }
}

} // verus!
