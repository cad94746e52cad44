//! Columnar feature collections: one row per feature, a geometry column, a
//! time-interval column and typed attribute columns of equal length.
//!
//! Collections support filtering by a boolean mask (row order preserved),
//! column addition and bulk time replacement, and carry a cache hint that is
//! merged conservatively like tiles' hints.  Contracts speak about the
//! collection through its observations: the sequence of geometry views, the
//! time column, and each attribute column's name, type and cells.
//!
//! The geometry column holds multi-points; line and polygon geometry are
//! not part of this library's model.

use vstd::prelude::*;

use crate::error::Error;
use crate::primitives::{BoundingBox2D, CacheHint, Coordinate2D, TimeInterval};

verus! {

/// Keeps the elements of `s` whose mask entry is true, in order.
pub open spec fn mask_filter<T>(s: Seq<T>, m: Seq<bool>) -> Seq<T>
    recommends
        s.len() == m.len(),
    decreases s.len(),
{
    if s.len() == 0 {
        Seq::empty()
    } else {
        let prefix = mask_filter(s.drop_last(), m.drop_last());
        if m.last() {
            prefix.push(s.last())
        } else {
            prefix
        }
    }
}

/// Law: a mask of all-true keeps every element: the filtered sequence is the
/// input itself.
pub proof fn lemma_mask_filter_all_true<T>(s: Seq<T>, m: Seq<bool>)
    requires
        s.len() == m.len(),
        forall|i: int| 0 <= i < m.len() ==> m[i],
    ensures
        mask_filter(s, m) == s,
    decreases s.len(),
{
    if s.len() == 0 {
        assert(mask_filter(s, m) =~= s);
    } else {
        lemma_mask_filter_all_true(s.drop_last(), m.drop_last());
        assert(mask_filter(s, m) =~= s);
    }
}

/// Unfolds one step of `mask_filter` over growing prefixes, the shape a
/// forward loop produces.
pub proof fn lemma_mask_filter_take_step<T>(s: Seq<T>, m: Seq<bool>, i: int)
    requires
        s.len() == m.len(),
        0 <= i < s.len(),
    ensures
        mask_filter(s.take(i + 1), m.take(i + 1)) == if m[i] {
            mask_filter(s.take(i), m.take(i)).push(s[i])
        } else {
            mask_filter(s.take(i), m.take(i))
        },
{
    assert(s.take(i + 1).drop_last() =~= s.take(i));
    assert(m.take(i + 1).drop_last() =~= m.take(i));
    if m[i] {
        assert(mask_filter(s.take(i + 1), m.take(i + 1)) =~= mask_filter(
            s.take(i),
            m.take(i),
        ).push(s[i]));
    } else {
        assert(mask_filter(s.take(i + 1), m.take(i + 1)) =~= mask_filter(s.take(i), m.take(i)));
    }
}

/// The filtered sequence never grows.
pub proof fn lemma_mask_filter_len<T>(s: Seq<T>, m: Seq<bool>)
    requires
        s.len() == m.len(),
    ensures
        mask_filter(s, m).len() <= s.len(),
    decreases s.len(),
{
    if s.len() > 0 {
        lemma_mask_filter_len(s.drop_last(), m.drop_last());
    }
}

/// A feature made of one or more points.
#[derive(Debug)]
pub struct MultiPoint {
    points: Vec<Coordinate2D>,
}

impl MultiPoint {
    /// The coordinates, as a mathematical sequence.
    pub closed spec fn points_seq(self) -> Seq<Coordinate2D> {
        self.points@
    }

    /// A multi-point holds at least one coordinate, all inside the grid.
    pub open spec fn wf(self) -> bool {
        self.points_seq().len() > 0 && forall|i: int|
            0 <= i < self.points_seq().len() ==> self.points_seq()[i].wf()
    }

    /// The feature's axis-aligned bounding box.
    pub open spec fn spec_bbox(self) -> BoundingBox2D {
        points_bbox(self.points_seq())
    }

    pub fn new(points: Vec<Coordinate2D>) -> (r: Result<MultiPoint, Error>)
        requires
            forall|i: int| 0 <= i < points@.len() ==> points@[i].wf(),
        ensures
            points@.len() > 0 <==> (r matches Ok(g) && g.points_seq() == points@ && g.wf()),
            points@.len() == 0 <==> r == Err::<MultiPoint, Error>(Error::EmptyGeometry),
    {
        if points.is_empty() {
            Err(Error::EmptyGeometry)
        } else {
            Ok(MultiPoint { points })
        }
    }

    /// The single-point feature.
    pub fn single(p: Coordinate2D) -> (r: MultiPoint)
        requires
            p.wf(),
        ensures
            r.points_seq() == seq![p],
            r.wf(),
    {
        let points = vec![p];
        assert(points@ =~= seq![p]);
        MultiPoint { points }
    }

    pub fn num_points(&self) -> (r: usize)
        ensures
            r == self.points_seq().len(),
    {
        self.points.len()
    }

    pub fn point_at(&self, i: usize) -> (r: Coordinate2D)
        requires
            i < self.points_seq().len(),
        ensures
            r == self.points_seq()[i as int],
    {
        self.points[i]
    }

    pub fn bounding_box(&self) -> (r: BoundingBox2D)
        requires
            self.wf(),
        ensures
            r == self.spec_bbox(),
            r.wf(),
    {
        let mut b = BoundingBox2D { lower_left: self.points[0], upper_right: self.points[0] };
        let mut i: usize = 1;
        proof {
            assert(self.points_seq().take(1).len() == 1);
            assert(b == points_bbox(self.points_seq().take(1)));
        }
        while i < self.points.len()
            invariant
                1 <= i <= self.points_seq().len(),
                self.wf(),
                b == points_bbox(self.points_seq().take(i as int)),
                b.wf(),
            decreases self.points_seq().len() - i,
        {
            let p = self.points[i];
            proof {
                let pts = self.points_seq();
                assert(pts.take(i + 1).drop_last() =~= pts.take(i as int));
                assert(pts.take(i + 1).len() == i + 1);
                assert(pts.take(i + 1).last() == pts[i as int]);
            }
            b = BoundingBox2D {
                lower_left: Coordinate2D {
                    x: if b.lower_left.x <= p.x {
                        b.lower_left.x
                    } else {
                        p.x
                    },
                    y: if b.lower_left.y <= p.y {
                        b.lower_left.y
                    } else {
                        p.y
                    },
                },
                upper_right: Coordinate2D {
                    x: if b.upper_right.x >= p.x {
                        b.upper_right.x
                    } else {
                        p.x
                    },
                    y: if b.upper_right.y >= p.y {
                        b.upper_right.y
                    } else {
                        p.y
                    },
                },
            };
            i += 1;
        }
        proof {
            assert(self.points_seq().take(self.points_seq().len() as int) =~= self.points_seq());
        }
        b
    }
}

impl Clone for MultiPoint {
    /// Clones observe the same point sequence.
    fn clone(&self) -> (r: MultiPoint)
        ensures
            r.points_seq() == self.points_seq(),
    {
        let mut out: Vec<Coordinate2D> = Vec::new();
        let mut i: usize = 0;
        while i < self.points.len()
            invariant
                i <= self.points@.len(),
                out@ =~= self.points@.take(i as int),
            decreases self.points@.len() - i,
        {
            out.push(self.points[i]);
            i += 1;
        }
        proof {
            assert(out@ =~= self.points@);
        }
        MultiPoint { points: out }
    }
}

/// The bounding box of a non-empty run of coordinates.
pub open spec fn points_bbox(pts: Seq<Coordinate2D>) -> BoundingBox2D
    recommends
        pts.len() > 0,
    decreases pts.len(),
{
    if pts.len() <= 1 {
        BoundingBox2D { lower_left: pts[0], upper_right: pts[0] }
    } else {
        let b = points_bbox(pts.drop_last());
        let p = pts.last();
        BoundingBox2D {
            lower_left: Coordinate2D {
                x: if b.lower_left.x <= p.x {
                    b.lower_left.x
                } else {
                    p.x
                },
                y: if b.lower_left.y <= p.y {
                    b.lower_left.y
                } else {
                    p.y
                },
            },
            upper_right: Coordinate2D {
                x: if b.upper_right.x >= p.x {
                    b.upper_right.x
                } else {
                    p.x
                },
                y: if b.upper_right.y >= p.y {
                    b.upper_right.y
                } else {
                    p.y
                },
            },
        }
    }
}

/// An exact rational value: the output of a mean aggregation.
#[derive(Clone, Copy, Debug, PartialEq, Eq, Structural)]
pub struct Fraction {
    pub num: i64,
    pub den: u64,
}

impl Fraction {
    pub open spec fn wf(self) -> bool {
        self.den > 0
    }
}

/// The cell type of an attribute column.
#[derive(Clone, Copy, Debug, PartialEq, Eq, Structural)]
pub enum FeatureDataType {
    Int,
    Ratio,
    Text,
    Bool,
}

/// One attribute cell, as a mathematical value; `None` is null.
pub enum CellValue {
    Int(Option<i64>),
    Ratio(Option<Fraction>),
    Text(Option<Seq<char>>),
    Bool(Option<bool>),
}

impl CellValue {
    /// Whether the cell is null, whatever its type.
    pub open spec fn is_null(self) -> bool {
        match self {
            CellValue::Int(o) => o is None,
            CellValue::Ratio(o) => o is None,
            CellValue::Text(o) => o is None,
            CellValue::Bool(o) => o is None,
        }
    }
}

/// One attribute column; a `None` cell is null.
#[derive(Debug)]
pub enum FeatureData {
    Int(Vec<Option<i64>>),
    Ratio(Vec<Option<Fraction>>),
    Text(Vec<Option<String>>),
    Bool(Vec<Option<bool>>),
}

/// The characters of an optional text cell.
pub open spec fn text_cell_view(o: Option<String>) -> Option<Seq<char>> {
    match o {
        Some(s) => Some(s@),
        None => None,
    }
}

/// The cells of a column, as mathematical values.
pub open spec fn fd_cells(fd: FeatureData) -> Seq<CellValue> {
    match fd {
        FeatureData::Int(v) => v@.map_values(|o: Option<i64>| CellValue::Int(o)),
        FeatureData::Ratio(v) => v@.map_values(|o: Option<Fraction>| CellValue::Ratio(o)),
        FeatureData::Text(v) => v@.map_values(|o: Option<String>| CellValue::Text(text_cell_view(o))),
        FeatureData::Bool(v) => v@.map_values(|o: Option<bool>| CellValue::Bool(o)),
    }
}

/// Copies an optional text cell, keeping its characters.
fn clone_text_cell(o: &Option<String>) -> (r: Option<String>)
    ensures
        text_cell_view(r) == text_cell_view(*o),
{
    match o {
        Some(s) => Some(clone_string(s)),
        None => None,
    }
}

impl FeatureData {
    pub open spec fn spec_len(self) -> nat {
        fd_cells(self).len()
    }

    pub open spec fn spec_data_type(self) -> FeatureDataType {
        match self {
            FeatureData::Int(_) => FeatureDataType::Int,
            FeatureData::Ratio(_) => FeatureDataType::Ratio,
            FeatureData::Text(_) => FeatureDataType::Text,
            FeatureData::Bool(_) => FeatureDataType::Bool,
        }
    }

    /// Ratio cells must carry a positive denominator.
    pub open spec fn wf(self) -> bool {
        match self {
            FeatureData::Ratio(v) => forall|i: int|
                0 <= i < v@.len() ==> (#[trigger] v@[i] matches Some(f) ==> f.wf()),
            _ => true,
        }
    }

    pub fn len(&self) -> (r: usize)
        ensures
            r == self.spec_len(),
    {
        match self {
            FeatureData::Int(v) => v.len(),
            FeatureData::Ratio(v) => v.len(),
            FeatureData::Text(v) => v.len(),
            FeatureData::Bool(v) => v.len(),
        }
    }

    pub fn data_type(&self) -> (r: FeatureDataType)
        ensures
            r == self.spec_data_type(),
    {
        match self {
            FeatureData::Int(_) => FeatureDataType::Int,
            FeatureData::Ratio(_) => FeatureDataType::Ratio,
            FeatureData::Text(_) => FeatureDataType::Text,
            FeatureData::Bool(_) => FeatureDataType::Bool,
        }
    }
}

impl FeatureDataType {
    /// The all-null column of this type with `len` cells: the value a
    /// feature gets where no data contributed at all.
    pub fn null_feature_data(&self, len: usize) -> (r: FeatureData)
        ensures
            r.spec_data_type() == *self,
            r.spec_len() == len,
            forall|i: int| 0 <= i < len ==> fd_cells(r)[i].is_null(),
            r.wf(),
    {
        match self {
            FeatureDataType::Int => {
                let mut v: Vec<Option<i64>> = Vec::new();
                let mut i: usize = 0;
                while i < len
                    invariant
                        i <= len,
                        v@.len() == i,
                        forall|k: int| 0 <= k < i ==> v@[k] is None,
                    decreases len - i,
                {
                    v.push(None);
                    i += 1;
                }
                FeatureData::Int(v)
            },
            FeatureDataType::Ratio => {
                let mut v: Vec<Option<Fraction>> = Vec::new();
                let mut i: usize = 0;
                while i < len
                    invariant
                        i <= len,
                        v@.len() == i,
                        forall|k: int| 0 <= k < i ==> v@[k] is None,
                    decreases len - i,
                {
                    v.push(None);
                    i += 1;
                }
                FeatureData::Ratio(v)
            },
            FeatureDataType::Text => {
                let mut v: Vec<Option<String>> = Vec::new();
                let mut i: usize = 0;
                while i < len
                    invariant
                        i <= len,
                        v@.len() == i,
                        forall|k: int| 0 <= k < i ==> v@[k] is None,
                    decreases len - i,
                {
                    v.push(None);
                    i += 1;
                }
                FeatureData::Text(v)
            },
            FeatureDataType::Bool => {
                let mut v: Vec<Option<bool>> = Vec::new();
                let mut i: usize = 0;
                while i < len
                    invariant
                        i <= len,
                        v@.len() == i,
                        forall|k: int| 0 <= k < i ==> v@[k] is None,
                    decreases len - i,
                {
                    v.push(None);
                    i += 1;
                }
                FeatureData::Bool(v)
            },
        }
    }
}

/// A named attribute column.
#[derive(Debug)]
pub struct Column {
    pub name: String,
    pub data: FeatureData,
}

/// `mask_filter` and `map_values` commute: filtering the mapped sequence is
/// mapping the filtered one.
pub proof fn lemma_mask_filter_map<T, U>(s: Seq<T>, m: Seq<bool>, f: spec_fn(T) -> U)
    requires
        s.len() == m.len(),
    ensures
        mask_filter(s.map_values(f), m) == mask_filter(s, m).map_values(f),
    decreases s.len(),
{
    if s.len() == 0 {
        assert(mask_filter(s.map_values(f), m) =~= mask_filter(s, m).map_values(f));
    } else {
        lemma_mask_filter_map(s.drop_last(), m.drop_last(), f);
        assert(s.map_values(f).drop_last() =~= s.drop_last().map_values(f));
        assert(mask_filter(s.map_values(f), m) =~= mask_filter(s, m).map_values(f));
    }
}

/// Copies a column, keeping its cells.
fn clone_data(data: &FeatureData) -> (r: FeatureData)
    ensures
        fd_cells(r) == fd_cells(*data),
        r.spec_data_type() == data.spec_data_type(),
        data.wf() ==> r.wf(),
{
    let ghost cells = fd_cells(*data);
    match data {
        FeatureData::Int(v) => {
            let mut out: Vec<Option<i64>> = Vec::new();
            let mut i: usize = 0;
            while i < v.len()
                invariant
                    i <= v@.len(),
                    out@ =~= v@.take(i as int),
                decreases v@.len() - i,
            {
                out.push(v[i]);
                i += 1;
            }
            proof {
                assert(out@ =~= v@);
            }
            FeatureData::Int(out)
        },
        FeatureData::Ratio(v) => {
            let mut out: Vec<Option<Fraction>> = Vec::new();
            let mut i: usize = 0;
            while i < v.len()
                invariant
                    i <= v@.len(),
                    out@ =~= v@.take(i as int),
                decreases v@.len() - i,
            {
                out.push(v[i]);
                i += 1;
            }
            proof {
                assert(out@ =~= v@);
            }
            FeatureData::Ratio(out)
        },
        FeatureData::Text(v) => {
            let mut out: Vec<Option<String>> = Vec::new();
            let mut i: usize = 0;
            while i < v.len()
                invariant
                    i <= v@.len(),
                    out@.len() == i,
                    fd_cells(FeatureData::Text(out)) =~= cells.take(i as int),
                    cells == fd_cells(*data),
                    cells == fd_cells(FeatureData::Text(*v)),
                    cells.len() == v@.len(),
                decreases v@.len() - i,
            {
                let cell: Option<String> = clone_text_cell(&v[i]);
                proof {
                    let f = |o: Option<String>| CellValue::Text(text_cell_view(o));
                    assert(cells =~= v@.map_values(f));
                    assert(out@.push(cell).map_values(f) =~= out@.map_values(f).push(f(cell)));
                    assert(cells[i as int] == f(v@[i as int]));
                    assert(f(cell) == cells[i as int]);
                    assert(cells.take(i + 1) =~= cells.take(i as int).push(cells[i as int]));
                }
                out.push(cell);
                i += 1;
            }
            proof {
                assert(cells.take(cells.len() as int) =~= cells);
            }
            FeatureData::Text(out)
        },
        FeatureData::Bool(v) => {
            let mut out: Vec<Option<bool>> = Vec::new();
            let mut i: usize = 0;
            while i < v.len()
                invariant
                    i <= v@.len(),
                    out@ =~= v@.take(i as int),
                decreases v@.len() - i,
            {
                out.push(v[i]);
                i += 1;
            }
            proof {
                assert(out@ =~= v@);
            }
            FeatureData::Bool(out)
        },
    }
}

/// Copies a string, keeping its characters.
fn clone_string(s: &String) -> (r: String)
    ensures
        r@ == s@,
{
    s.clone()
}

/// Keeps the cells of a column whose mask entry is true, in order.
fn filter_data(data: &FeatureData, mask: &Vec<bool>) -> (r: FeatureData)
    requires
        data.spec_len() == mask@.len(),
    ensures
        fd_cells(r) == mask_filter(fd_cells(*data), mask@),
        r.spec_data_type() == data.spec_data_type(),
        data.wf() ==> r.wf(),
{
    let ghost cells = fd_cells(*data);
    match data {
        FeatureData::Int(v) => {
            let mut out: Vec<Option<i64>> = Vec::new();
            let mut i: usize = 0;
            while i < v.len()
                invariant
                    i <= v@.len(),
                    v@.len() == mask@.len(),
                    out@ == mask_filter(v@.take(i as int), mask@.take(i as int)),
                decreases v@.len() - i,
            {
                proof {
                    lemma_mask_filter_take_step(v@, mask@, i as int);
                }
                if mask[i] {
                    out.push(v[i]);
                }
                i += 1;
            }
            proof {
                assert(v@.take(v@.len() as int) =~= v@);
                assert(mask@.take(mask@.len() as int) =~= mask@);
                lemma_mask_filter_map(
                    v@,
                    mask@,
                    |o: Option<i64>| CellValue::Int(o),
                );
            }
            FeatureData::Int(out)
        },
        FeatureData::Ratio(v) => {
            let mut out: Vec<Option<Fraction>> = Vec::new();
            let mut i: usize = 0;
            while i < v.len()
                invariant
                    i <= v@.len(),
                    v@.len() == mask@.len(),
                    out@ == mask_filter(v@.take(i as int), mask@.take(i as int)),
                decreases v@.len() - i,
            {
                proof {
                    lemma_mask_filter_take_step(v@, mask@, i as int);
                }
                if mask[i] {
                    out.push(v[i]);
                }
                i += 1;
            }
            proof {
                assert(v@.take(v@.len() as int) =~= v@);
                assert(mask@.take(mask@.len() as int) =~= mask@);
                lemma_mask_filter_map(
                    v@,
                    mask@,
                    |o: Option<Fraction>| CellValue::Ratio(o),
                );
                lemma_mask_filter_len(v@, mask@);
                if data.wf() {
                    assert forall|k: int| 0 <= k < out@.len() implies (#[trigger] out@[k] matches
                        Some(f) ==> f.wf()) by {
                        lemma_mask_filter_member(v@, mask@, k);
                    }
                }
            }
            FeatureData::Ratio(out)
        },
        FeatureData::Text(v) => {
            let mut out: Vec<Option<String>> = Vec::new();
            let mut i: usize = 0;
            while i < v.len()
                invariant
                    i <= v@.len(),
                    v@.len() == mask@.len(),
                    cells == fd_cells(*data),
                    cells == fd_cells(FeatureData::Text(*v)),
                    cells.len() == v@.len(),
                    fd_cells(FeatureData::Text(out)) == mask_filter(
                        cells.take(i as int),
                        mask@.take(i as int),
                    ),
                decreases v@.len() - i,
            {
                proof {
                    lemma_mask_filter_take_step(cells, mask@, i as int);
                }
                if mask[i] {
                    let cell: Option<String> = clone_text_cell(&v[i]);
                    proof {
                        let f = |o: Option<String>| CellValue::Text(text_cell_view(o));
                        assert(cells =~= v@.map_values(f));
                        assert(out@.push(cell).map_values(f) =~= out@.map_values(f).push(f(cell)));
                        assert(cells[i as int] == f(v@[i as int]));
                        assert(f(cell) == cells[i as int]);
                    }
                    out.push(cell);
                }
                i += 1;
            }
            proof {
                assert(cells.take(cells.len() as int) =~= cells);
                assert(mask@.take(mask@.len() as int) =~= mask@);
            }
            FeatureData::Text(out)
        },
        FeatureData::Bool(v) => {
            let mut out: Vec<Option<bool>> = Vec::new();
            let mut i: usize = 0;
            while i < v.len()
                invariant
                    i <= v@.len(),
                    v@.len() == mask@.len(),
                    out@ == mask_filter(v@.take(i as int), mask@.take(i as int)),
                decreases v@.len() - i,
            {
                proof {
                    lemma_mask_filter_take_step(v@, mask@, i as int);
                }
                if mask[i] {
                    out.push(v[i]);
                }
                i += 1;
            }
            proof {
                assert(v@.take(v@.len() as int) =~= v@);
                assert(mask@.take(mask@.len() as int) =~= mask@);
                lemma_mask_filter_map(
                    v@,
                    mask@,
                    |o: Option<bool>| CellValue::Bool(o),
                );
            }
            FeatureData::Bool(out)
        },
    }
}

/// Whether a point run is a valid geometry view: non-empty, inside the grid.
pub open spec fn points_wf(pts: Seq<Coordinate2D>) -> bool {
    pts.len() > 0 && forall|i: int| 0 <= i < pts.len() ==> pts[i].wf()
}

/// Whether a cell is a valid value of its type.
pub open spec fn cell_wf(c: CellValue) -> bool {
    match c {
        CellValue::Ratio(o) => (o matches Some(f) ==> f.wf()),
        _ => true,
    }
}

/// The type a cell belongs to.
pub open spec fn cell_kind(c: CellValue) -> FeatureDataType {
    match c {
        CellValue::Int(_) => FeatureDataType::Int,
        CellValue::Ratio(_) => FeatureDataType::Ratio,
        CellValue::Text(_) => FeatureDataType::Text,
        CellValue::Bool(_) => FeatureDataType::Bool,
    }
}

/// Every cell of a column belongs to the column's type, and well-formed
/// columns have well-formed cells.
pub proof fn lemma_fd_cells_kind(fd: FeatureData)
    ensures
        forall|i: int|
            0 <= i < fd_cells(fd).len() ==> cell_kind(#[trigger] fd_cells(fd)[i])
                == fd.spec_data_type(),
        fd.wf() ==> forall|i: int| 0 <= i < fd_cells(fd).len() ==> cell_wf(#[trigger] fd_cells(fd)[i]),
{
}

/// The views of a run of geometries.
pub open spec fn geom_views(v: Seq<MultiPoint>) -> Seq<Seq<Coordinate2D>> {
    v.map_values(|g: MultiPoint| g.points_seq())
}

/// A columnar table of features: a geometry column, a time column and typed
/// attribute columns, all of one length, plus a cache hint.
#[derive(Debug)]
pub struct FeatureCollection {
    geometries: Vec<MultiPoint>,
    time_intervals: Vec<TimeInterval>,
    columns: Vec<Column>,
    cache_hint: CacheHint,
}

impl FeatureCollection {
    /// The conservative cache validity of this data; consumers merge it.
    pub closed spec fn hint(self) -> CacheHint {
        self.cache_hint
    }

    /// The number of features (rows).
    pub closed spec fn spec_len(self) -> nat {
        self.geometries@.len()
    }

    /// The geometry column, each feature as its point run.
    pub closed spec fn geoms(self) -> Seq<Seq<Coordinate2D>> {
        geom_views(self.geometries@)
    }

    /// The time column.
    pub closed spec fn time_seq(self) -> Seq<TimeInterval> {
        self.time_intervals@
    }

    /// The number of attribute columns.
    pub closed spec fn num_columns(self) -> nat {
        self.columns@.len()
    }

    /// The name of column `j`.
    pub closed spec fn col_name(self, j: int) -> Seq<char> {
        self.columns@[j].name@
    }

    /// The cell type of column `j`.
    pub closed spec fn col_type(self, j: int) -> FeatureDataType {
        self.columns@[j].data.spec_data_type()
    }

    /// The cells of column `j`.
    pub closed spec fn col_cells(self, j: int) -> Seq<CellValue> {
        fd_cells(self.columns@[j].data)
    }

    /// Whether some column carries this name.
    pub open spec fn has_column_name(self, n: Seq<char>) -> bool {
        exists|j: int| 0 <= j < self.num_columns() && self.col_name(j) == n
    }

    /// All columns have the feature count's length, every value is valid,
    /// and no two columns share a name.
    pub open spec fn wf(self) -> bool {
        &&& self.geoms().len() == self.spec_len()
        &&& self.time_seq().len() == self.spec_len()
        &&& forall|i: int| 0 <= i < self.spec_len() ==> (#[trigger] self.time_seq()[i]).wf()
        &&& forall|i: int| 0 <= i < self.spec_len() ==> points_wf(#[trigger] self.geoms()[i])
        &&& forall|j: int|
            0 <= j < self.num_columns() ==> (#[trigger] self.col_cells(j)).len() == self.spec_len()
        &&& forall|j: int, i: int|
            0 <= j < self.num_columns() && 0 <= i < self.spec_len() ==> cell_wf(
                #[trigger] self.col_cells(j)[i],
            ) && cell_kind(self.col_cells(j)[i]) == self.col_type(j)
        &&& forall|j1: int, j2: int|
            0 <= j1 < j2 < self.num_columns() ==> self.col_name(j1) != self.col_name(j2)
    }

    pub fn len(&self) -> (r: usize)
        ensures
            r == self.spec_len(),
    {
        self.geometries.len()
    }

    pub fn cache_hint(&self) -> (r: CacheHint)
        ensures
            r == self.hint(),
    {
        self.cache_hint
    }

    /// Overwrites the cache hint, leaving the data untouched.
    pub fn set_cache_hint(&mut self, hint: CacheHint)
        ensures
            final(self).hint() == hint,
            final(self).geoms() == old(self).geoms(),
            final(self).time_seq() == old(self).time_seq(),
            final(self).num_columns() == old(self).num_columns(),
            forall|j: int|
                #![trigger final(self).col_cells(j)]
                0 <= j < old(self).num_columns() ==> {
                    &&& final(self).col_name(j) == old(self).col_name(j)
                    &&& final(self).col_cells(j) == old(self).col_cells(j)
                    &&& final(self).col_type(j) == old(self).col_type(j)
                },
            old(self).wf() ==> final(self).wf(),
    {
        self.cache_hint = hint;
        proof {
            assert(self.geoms() =~= old(self).geoms());
            if old(self).wf() {
                assert forall|i: int| 0 <= i < self.spec_len() implies points_wf(
                    #[trigger] self.geoms()[i],
                ) by {
                    assert(self.geoms()[i] == old(self).geoms()[i]);
                }
                assert(self.time_seq().len() == self.spec_len());
                assert forall|i: int| 0 <= i < self.spec_len() implies (
                #[trigger] self.time_seq()[i]).wf() by {
                    assert(self.time_seq()[i] == old(self).time_seq()[i]);
                }
                assert forall|j: int| 0 <= j < self.num_columns() implies (
                #[trigger] self.col_cells(j)).len() == self.spec_len() by {
                    assert(self.col_cells(j) == old(self).col_cells(j));
                }
                assert forall|j: int, i: int|
                    0 <= j < self.num_columns() && 0 <= i < self.spec_len() implies cell_wf(
                    #[trigger] self.col_cells(j)[i],
                ) && cell_kind(self.col_cells(j)[i]) == self.col_type(j) by {
                    assert(self.col_cells(j) == old(self).col_cells(j));
                    assert(cell_wf(old(self).col_cells(j)[i]));
                }
                assert forall|j1: int, j2: int|
                    0 <= j1 < j2 < self.num_columns() implies self.col_name(j1) != self.col_name(
                    j2,
                ) by {
                    assert(old(self).col_name(j1) != old(self).col_name(j2));
                }
                assert(self.wf());
            }
        }
    }

    pub fn is_empty(&self) -> (r: bool)
        ensures
            r == (self.spec_len() == 0),
    {
        self.geometries.is_empty()
    }

    pub fn num_cols(&self) -> (r: usize)
        ensures
            r == self.num_columns(),
    {
        self.columns.len()
    }

    /// Read access to column `j`.
    pub fn column_at(&self, j: usize) -> (r: &Column)
        requires
            j < self.num_columns(),
        ensures
            r.name@ == self.col_name(j as int),
            fd_cells(r.data) == self.col_cells(j as int),
            r.data.spec_data_type() == self.col_type(j as int),
    {
        &self.columns[j]
    }

    /// Read access to the geometry of feature `i`.
    pub fn geometry_at(&self, i: usize) -> (r: &MultiPoint)
        requires
            i < self.spec_len(),
        ensures
            r.points_seq() == self.geoms()[i as int],
    {
        &self.geometries[i]
    }

    /// Read access to the time interval of feature `i`.
    pub fn time_at(&self, i: usize) -> (r: TimeInterval)
        requires
            i < self.time_seq().len(),
        ensures
            r == self.time_seq()[i as int],
    {
        self.time_intervals[i]
    }

    /// Builds a collection from its columns; all must share one length and
    /// the column names must be distinct.
    pub fn from_data(
        geometries: Vec<MultiPoint>,
        time_intervals: Vec<TimeInterval>,
        columns: Vec<Column>,
        cache_hint: CacheHint,
    ) -> (r: Result<FeatureCollection, Error>)
        requires
            forall|i: int| 0 <= i < geometries@.len() ==> (#[trigger] geometries@[i]).wf(),
            forall|i: int| 0 <= i < time_intervals@.len() ==> (#[trigger] time_intervals@[i]).wf(),
            forall|j: int| 0 <= j < columns@.len() ==> (#[trigger] columns@[j].data).wf(),
        ensures
            r matches Ok(c) ==> {
                &&& c.wf()
                &&& c.geoms() == geometries@.map_values(|g: MultiPoint| g.points_seq())
                &&& c.time_seq() == time_intervals@
                &&& c.num_columns() == columns@.len()
                &&& forall|j: int|
                    0 <= j < columns@.len() ==> c.col_name(j) == #[trigger] columns@[j].name@
                        && c.col_cells(j) == fd_cells(columns@[j].data)
                &&& c.hint() == cache_hint
            },
            r is Ok <==> {
                &&& time_intervals@.len() == geometries@.len()
                &&& forall|j: int|
                    0 <= j < columns@.len() ==> (#[trigger] columns@[j].data).spec_len()
                        == geometries@.len()
                &&& forall|j1: int, j2: int|
                    0 <= j1 < j2 < columns@.len() ==> columns@[j1].name@ != columns@[j2].name@
            },
            r is Err ==> (r == Err::<FeatureCollection, Error>(Error::UnequalColumnLengths) || r
                == Err::<FeatureCollection, Error>(Error::ColumnAlreadyExists)),
    {
        let n = geometries.len();
        if time_intervals.len() != n {
            return Err(Error::UnequalColumnLengths);
        }
        let mut j: usize = 0;
        while j < columns.len()
            invariant
                j <= columns@.len(),
                n == geometries@.len(),
                forall|k: int| 0 <= k < j ==> (#[trigger] columns@[k].data).spec_len() == n,
            decreases columns@.len() - j,
        {
            if columns[j].data.len() != n {
                return Err(Error::UnequalColumnLengths);
            }
            j += 1;
        }
        let mut j1: usize = 0;
        while j1 < columns.len()
            invariant
                j1 <= columns@.len(),
                forall|p: int, q: int|
                    0 <= p < q < columns@.len() && p < j1 ==> columns@[p].name@ != columns@[q].name@,
            decreases columns@.len() - j1,
        {
            let mut j2: usize = j1 + 1;
            while j2 < columns.len()
                invariant
                    j1 < j2 <= columns@.len(),
                    forall|q: int| j1 < q < j2 ==> columns@[j1 as int].name@ != columns@[q].name@,
                decreases columns@.len() - j2,
            {
                if columns[j1].name == columns[j2].name {
                    return Err(Error::ColumnAlreadyExists);
                }
                j2 += 1;
            }
            j1 += 1;
        }
        let c = FeatureCollection { geometries, time_intervals, columns, cache_hint };
        proof {
            assert forall|j: int| 0 <= j < c.num_columns() implies (#[trigger] c.col_cells(
                j,
            )).len() == c.spec_len() by {
                assert(c.columns@[j].data.spec_len() == n);
            }
            assert forall|j: int, i: int|
                0 <= j < c.num_columns() && 0 <= i < c.spec_len() implies cell_wf(
                #[trigger] c.col_cells(j)[i],
            ) && cell_kind(c.col_cells(j)[i]) == c.col_type(j) by {
                lemma_fd_cells_kind(c.columns@[j].data);
            }
        }
        Ok(c)
    }

    /// Keeps the features whose mask entry is true, preserving row order;
    /// fails when the mask does not match the feature count.
    pub fn filter(&self, mask: Vec<bool>) -> (r: Result<FeatureCollection, Error>)
        requires
            self.wf(),
        ensures
            r is Ok <==> mask@.len() == self.spec_len(),
            r is Err ==> r == Err::<FeatureCollection, Error>(Error::FilterLengthMismatch),
            r matches Ok(c) ==> {
                &&& c.geoms() == mask_filter(self.geoms(), mask@)
                &&& c.time_seq() == mask_filter(self.time_seq(), mask@)
                &&& columns_filtered(c, *self, mask@)
                &&& c.hint() == self.hint()
                &&& c.wf()
            },
    {
        if mask.len() != self.geometries.len() {
            return Err(Error::FilterLengthMismatch);
        }
        let ghost gviews = self.geoms();
        let mut geometries: Vec<MultiPoint> = Vec::new();
        let mut i: usize = 0;
        proof {
            let f = |g: MultiPoint| g.points_seq();
            assert(gviews =~= self.geometries@.map_values(f));
        }
        while i < self.geometries.len()
            invariant
                i <= self.geometries@.len(),
                self.geometries@.len() == mask@.len(),
                gviews == self.geoms(),
                gviews.len() == mask@.len(),
                geometries@.map_values(|g: MultiPoint| g.points_seq()) == mask_filter(
                    gviews.take(i as int),
                    mask@.take(i as int),
                ),
            decreases self.geometries@.len() - i,
        {
            proof {
                lemma_mask_filter_take_step(gviews, mask@, i as int);
            }
            if mask[i] {
                let g = self.geometries[i].clone();
                proof {
                    let f = |g: MultiPoint| g.points_seq();
                    assert(gviews =~= self.geometries@.map_values(f));
                    assert(geometries@.push(g).map_values(f) =~= geometries@.map_values(f).push(
                        f(g),
                    ));
                    assert(f(g) == gviews[i as int]);
                }
                geometries.push(g);
            }
            i += 1;
        }
        let mut time_intervals: Vec<TimeInterval> = Vec::new();
        let mut i: usize = 0;
        proof {
            assert(self.time_seq().len() == self.spec_len());
        }
        while i < self.time_intervals.len()
            invariant
                i <= self.time_intervals@.len(),
                self.time_intervals@.len() == mask@.len(),
                time_intervals@ == mask_filter(
                    self.time_intervals@.take(i as int),
                    mask@.take(i as int),
                ),
            decreases self.time_intervals@.len() - i,
        {
            proof {
                lemma_mask_filter_take_step(self.time_intervals@, mask@, i as int);
            }
            if mask[i] {
                time_intervals.push(self.time_intervals[i]);
            }
            i += 1;
        }
        let mut columns: Vec<Column> = Vec::new();
        let mut j: usize = 0;
        proof {
            assert forall|k: int| 0 <= k < self.columns@.len() implies fd_cells(
                #[trigger] self.columns@[k].data,
            ).len() == mask@.len() by {
                assert(self.col_cells(k).len() == self.spec_len());
            }
        }
        while j < self.columns.len()
            invariant
                j <= self.columns@.len(),
                columns@.len() == j,
                forall|k: int|
                    0 <= k < j ==> {
                        &&& (#[trigger] columns@[k]).name@ == self.columns@[k].name@
                        &&& columns@[k].data.spec_data_type()
                            == self.columns@[k].data.spec_data_type()
                        &&& fd_cells(columns@[k].data) == mask_filter(
                            fd_cells(self.columns@[k].data),
                            mask@,
                        )
                    },
                mask@.len() == self.spec_len(),
                forall|k: int|
                    0 <= k < self.columns@.len() ==> fd_cells(
                        #[trigger] self.columns@[k].data,
                    ).len() == mask@.len(),
            decreases self.columns@.len() - j,
        {
            let col = &self.columns[j];
            let data = filter_data(&col.data, &mask);
            columns.push(Column { name: clone_string(&col.name), data });
            j += 1;
        }
        proof {
            assert(gviews.take(gviews.len() as int) =~= gviews);
            assert(self.time_intervals@.take(self.time_intervals@.len() as int)
                =~= self.time_intervals@);
            assert(mask@.take(mask@.len() as int) =~= mask@);
        }
        let c = FeatureCollection {
            geometries,
            time_intervals,
            columns,
            cache_hint: self.cache_hint,
        };
        proof {
            lemma_filtered_wf(*self, c, mask@);
        }
        Ok(c)
    }

    /// Returns this collection with one more column; fails when the name is
    /// taken or the column's length does not match the feature count.
    pub fn add_column(&self, new_column_name: &str, data: FeatureData) -> (r: Result<
        FeatureCollection,
        Error,
    >)
        requires
            self.wf(),
            data.wf(),
        ensures
            self.has_column_name(new_column_name@) <==> r == Err::<FeatureCollection, Error>(
                Error::ColumnAlreadyExists,
            ),
            (!self.has_column_name(new_column_name@) && data.spec_len() != self.spec_len()) <==> r
                == Err::<FeatureCollection, Error>(Error::ColumnLengthMismatch),
            r is Ok <==> (!self.has_column_name(new_column_name@) && data.spec_len()
                == self.spec_len()),
            r matches Ok(c) ==> {
                &&& c.wf()
                &&& c.geoms() == self.geoms()
                &&& c.time_seq() == self.time_seq()
                &&& c.num_columns() == self.num_columns() + 1
                &&& forall|j: int|
                    #![trigger c.col_cells(j)]
                    0 <= j < self.num_columns() ==> {
                        &&& c.col_name(j) == self.col_name(j)
                        &&& c.col_type(j) == self.col_type(j)
                        &&& c.col_cells(j) == self.col_cells(j)
                    }
                &&& c.col_name(self.num_columns() as int) == new_column_name@
                &&& c.col_type(self.num_columns() as int) == data.spec_data_type()
                &&& c.col_cells(self.num_columns() as int) == fd_cells(data)
                &&& c.hint() == self.hint()
            },
    {
        let name_owned: String = new_column_name.to_owned();
        let mut j: usize = 0;
        while j < self.columns.len()
            invariant
                j <= self.columns@.len(),
                name_owned@ == new_column_name@,
                forall|k: int| 0 <= k < j ==> (#[trigger] self.columns@[k]).name@ != new_column_name@,
            decreases self.columns@.len() - j,
        {
            if self.columns[j].name.eq(&name_owned) {
                proof {
                    assert(self.col_name(j as int) == new_column_name@);
                }
                return Err(Error::ColumnAlreadyExists);
            }
            j += 1;
        }
        proof {
            assert forall|j: int|
                0 <= j < self.num_columns() implies self.col_name(j) != new_column_name@ by {
                assert(self.columns@[j].name@ != new_column_name@);
            }
        }
        if data.len() != self.geometries.len() {
            return Err(Error::ColumnLengthMismatch);
        }
        let geometries = clone_geometries(&self.geometries);
        let time_intervals = clone_times(&self.time_intervals);
        let mut columns = clone_columns(&self.columns);
        let ghost old_columns = columns@;
        columns.push(Column { name: name_owned, data });
        let c = FeatureCollection {
            geometries,
            time_intervals,
            columns,
            cache_hint: self.cache_hint,
        };
        proof {
            assert(c.geoms().len() == c.geometries@.len());
            assert(self.geoms().len() == self.geometries@.len());
            assert(c.geoms() == self.geoms());
            assert(c.spec_len() == self.spec_len());
            assert forall|j: int|
                #![trigger c.col_cells(j)]
                0 <= j < self.num_columns() implies {
                &&& c.col_name(j) == self.col_name(j)
                &&& c.col_type(j) == self.col_type(j)
                &&& c.col_cells(j) == self.col_cells(j)
            } by {
                assert(c.columns@[j] == old_columns[j]);
            }
            let n = self.num_columns() as int;
            assert(c.col_cells(n) == fd_cells(data));
            assert forall|j: int| 0 <= j < c.num_columns() implies (#[trigger] c.col_cells(
                j,
            )).len() == c.spec_len() by {
                if j < n {
                    assert(c.col_cells(j) == self.col_cells(j));
                }
            }
            assert forall|j: int, i: int|
                0 <= j < c.num_columns() && 0 <= i < c.spec_len() implies cell_wf(
                #[trigger] c.col_cells(j)[i],
            ) && cell_kind(c.col_cells(j)[i]) == c.col_type(j) by {
                lemma_fd_cells_kind(c.columns@[j].data);
            }
            assert forall|j1: int, j2: int|
                0 <= j1 < j2 < c.num_columns() implies c.col_name(j1) != c.col_name(j2) by {
                assert(c.col_cells(j1) == c.col_cells(j1));
                assert(c.col_cells(j2) == c.col_cells(j2));
                if j2 < n {
                    assert(self.col_name(j1) != self.col_name(j2));
                } else {
                    assert(self.col_name(j1) != new_column_name@);
                }
            }
            assert(c.wf());
        }
        Ok(c)
    }

    /// Returns this collection with the whole time column replaced; fails
    /// when the replacement does not match the feature count.
    pub fn replace_time(&self, new_time_intervals: &Vec<TimeInterval>) -> (r: Result<
        FeatureCollection,
        Error,
    >)
        requires
            self.wf(),
            forall|i: int|
                0 <= i < new_time_intervals@.len() ==> (#[trigger] new_time_intervals@[i]).wf(),
        ensures
            r is Ok <==> new_time_intervals@.len() == self.spec_len(),
            r is Err ==> r == Err::<FeatureCollection, Error>(Error::ReplaceTimeLengthMismatch),
            r matches Ok(c) ==> {
                &&& c.wf()
                &&& c.geoms() == self.geoms()
                &&& c.time_seq() == new_time_intervals@
                &&& c.num_columns() == self.num_columns()
                &&& forall|j: int|
                    #![trigger c.col_cells(j)]
                    0 <= j < self.num_columns() ==> {
                        &&& c.col_name(j) == self.col_name(j)
                        &&& c.col_type(j) == self.col_type(j)
                        &&& c.col_cells(j) == self.col_cells(j)
                    }
                &&& c.hint() == self.hint()
            },
    {
        if new_time_intervals.len() != self.geometries.len() {
            return Err(Error::ReplaceTimeLengthMismatch);
        }
        let geometries = clone_geometries(&self.geometries);
        let time_intervals = clone_times(new_time_intervals);
        let columns = clone_columns(&self.columns);
        let c = FeatureCollection {
            geometries,
            time_intervals,
            columns,
            cache_hint: self.cache_hint,
        };
        proof {
            assert(c.geoms().len() == c.geometries@.len());
            assert(self.geoms().len() == self.geometries@.len());
            assert(c.geoms() == self.geoms());
            assert(c.spec_len() == self.spec_len());
            assert forall|j: int, i: int|
                0 <= j < c.num_columns() && 0 <= i < c.spec_len() implies cell_wf(
                #[trigger] c.col_cells(j)[i],
            ) && cell_kind(c.col_cells(j)[i]) == c.col_type(j) by {
                assert(c.col_cells(j) == self.col_cells(j));
                assert(self.col_cells(j).len() == self.spec_len());
                assert(cell_wf(self.col_cells(j)[i]));
            }
            assert forall|j1: int, j2: int|
                0 <= j1 < j2 < c.num_columns() implies c.col_name(j1) != c.col_name(j2) by {
                assert(self.col_name(j1) != self.col_name(j2));
            }
            assert forall|j: int| 0 <= j < c.num_columns() implies (#[trigger] c.col_cells(
                j,
            )).len() == c.spec_len() by {
                assert(c.col_cells(j) == self.col_cells(j));
            }
            assert(c.wf());
        }
        Ok(c)
    }

    /// The temporal hull of the collection: the smallest interval containing
    /// every feature's interval, or `None` for the empty collection.
    pub fn time_bounds(&self) -> (r: Option<TimeInterval>)
        requires
            self.wf(),
        ensures
            r is Some <==> self.spec_len() > 0,
            r matches Some(t) ==> t == spec_time_hull(self.time_seq()),
            r matches Some(t) ==> {
                &&& t.wf()
                &&& forall|i: int|
                    0 <= i < self.time_seq().len() ==> t.start <= (
                    #[trigger] self.time_seq()[i]).start && t.end >= self.time_seq()[i].end
                &&& exists|i: int|
                    0 <= i < self.time_seq().len() && t.start == (
                    #[trigger] self.time_seq()[i]).start
                &&& exists|i: int|
                    0 <= i < self.time_seq().len() && t.end == (#[trigger] self.time_seq()[i]).end
            },
    {
        if self.time_intervals.is_empty() {
            return None;
        }
        let mut t = self.time_intervals[0];
        let mut i: usize = 1;
        proof {
            assert(self.time_seq().take(1).len() == 1);
            assert(t == spec_time_hull(self.time_seq().take(1)));
        }
        while i < self.time_intervals.len()
            invariant
                1 <= i <= self.time_seq().len(),
                self.wf(),
                t == spec_time_hull(self.time_seq().take(i as int)),
                forall|k: int|
                    0 <= k < i ==> t.start <= (#[trigger] self.time_seq()[k]).start && t.end
                        >= self.time_seq()[k].end,
                exists|k: int|
                    0 <= k < i && t.start == (#[trigger] self.time_seq()[k]).start,
                exists|k: int| 0 <= k < i && t.end == (#[trigger] self.time_seq()[k]).end,
            decreases self.time_seq().len() - i,
        {
            let other = self.time_intervals[i];
            proof {
                let ts = self.time_seq();
                assert(ts.take(i + 1).drop_last() =~= ts.take(i as int));
                assert(ts.take(i + 1).last() == ts[i as int]);
            }
            t = t.extend(&other);
            i += 1;
        }
        proof {
            assert(self.time_seq().take(self.time_seq().len() as int) =~= self.time_seq());
        }
        Some(t)
    }

    /// The spatial hull of the collection's geometries, or `None` for the
    /// empty collection.
    pub fn bbox(&self) -> (r: Option<BoundingBox2D>)
        requires
            self.wf(),
        ensures
            r is Some <==> self.spec_len() > 0,
            r matches Some(b) ==> {
                &&& b.wf()
                &&& b == spec_bbox_hull(self.geoms())
                &&& forall|i: int|
                    0 <= i < self.geoms().len() ==> b.spec_covers(
                        points_bbox(#[trigger] self.geoms()[i]),
                    )
            },
    {
        if self.geometries.is_empty() {
            return None;
        }
        proof {
            assert(points_wf(self.geoms()[0]));
            assert(self.geometries@[0].points_seq() == self.geoms()[0]);
        }
        let mut b = self.geometries[0].bounding_box();
        let mut i: usize = 1;
        proof {
            assert(self.geoms().take(1).len() == 1);
            assert(b == spec_bbox_hull(self.geoms().take(1)));
        }
        while i < self.geometries.len()
            invariant
                1 <= i <= self.geoms().len(),
                self.wf(),
                b.wf(),
                b == spec_bbox_hull(self.geoms().take(i as int)),
                forall|k: int|
                    0 <= k < i ==> b.spec_covers(points_bbox(#[trigger] self.geoms()[k])),
            decreases self.geoms().len() - i,
        {
            proof {
                assert(points_wf(self.geoms()[i as int]));
                assert(self.geometries@[i as int].points_seq() == self.geoms()[i as int]);
                let gs = self.geoms();
                assert(gs.take(i + 1).drop_last() =~= gs.take(i as int));
                assert(gs.take(i + 1).last() == gs[i as int]);
            }
            let gb = self.geometries[i].bounding_box();
            b = b.extend(&gb);
            i += 1;
        }
        proof {
            assert(self.geoms().take(self.geoms().len() as int) =~= self.geoms());
        }
        Some(b)
    }
}

/// Law: filtering by an all-true mask changes nothing: every observation of
/// the filtered collection equals the input's.  Together with `filter`'s
/// contract this says that `filter` with such a mask returns a collection
/// equal to the input in row order, values and time intervals.
pub proof fn lemma_filter_all_true(c: FeatureCollection, m: Seq<bool>)
    requires
        c.wf(),
        m.len() == c.spec_len(),
        forall|i: int| 0 <= i < m.len() ==> m[i],
    ensures
        mask_filter(c.geoms(), m) == c.geoms(),
        mask_filter(c.time_seq(), m) == c.time_seq(),
        forall|j: int|
            0 <= j < c.num_columns() ==> mask_filter(#[trigger] c.col_cells(j), m) == c.col_cells(
                j,
            ),
{
    lemma_mask_filter_all_true(c.geoms(), m);
    lemma_mask_filter_all_true(c.time_seq(), m);
    assert forall|j: int|
        0 <= j < c.num_columns() implies mask_filter(#[trigger] c.col_cells(j), m) == c.col_cells(
        j,
    ) by {
        lemma_mask_filter_all_true(c.col_cells(j), m);
    }
}

impl Clone for FeatureCollection {
    /// Clones observe the same rows and hint.
    fn clone(&self) -> (r: FeatureCollection)
        ensures
            same_rows(r, *self),
            r.hint() == self.hint(),
            self.wf() ==> r.wf(),
    {
        let c = FeatureCollection {
            geometries: clone_geometries(&self.geometries),
            time_intervals: clone_times(&self.time_intervals),
            columns: clone_columns(&self.columns),
            cache_hint: self.cache_hint,
        };
        proof {
            assert(c.geoms() == self.geoms());
            assert(c.time_seq() == self.time_seq());
            assert forall|j: int| 0 <= j < self.num_columns() implies #[trigger] c.col_cells(j)
                == self.col_cells(j) by {
                assert(fd_cells(c.columns@[j].data) == fd_cells(self.columns@[j].data));
            }
            assert forall|j: int| 0 <= j < self.num_columns() implies #[trigger] c.col_name(j)
                == self.col_name(j) by {
                assert(c.columns@[j].name@ == self.columns@[j].name@);
            }
            assert forall|j: int| 0 <= j < self.num_columns() implies #[trigger] c.col_type(j)
                == self.col_type(j) by {
                assert(c.columns@[j].data.spec_data_type()
                    == self.columns@[j].data.spec_data_type());
            }
            if self.wf() {
                assert forall|i: int| 0 <= i < c.spec_len() implies points_wf(
                    #[trigger] c.geoms()[i],
                ) by {
                    assert(c.geoms()[i] == self.geoms()[i]);
                }
                assert forall|i: int| 0 <= i < c.spec_len() implies (
                #[trigger] c.time_seq()[i]).wf() by {
                    assert(c.time_seq()[i] == self.time_seq()[i]);
                }
                assert forall|j: int| 0 <= j < c.num_columns() implies (#[trigger] c.col_cells(
                    j,
                )).len() == c.spec_len() by {
                    assert(c.col_cells(j) == self.col_cells(j));
                }
                assert forall|j: int, i: int|
                    0 <= j < c.num_columns() && 0 <= i < c.spec_len() implies cell_wf(
                    #[trigger] c.col_cells(j)[i],
                ) && cell_kind(c.col_cells(j)[i]) == c.col_type(j) by {
                    assert(c.col_cells(j) == self.col_cells(j));
                    assert(cell_wf(self.col_cells(j)[i]));
                    assert(c.col_type(j) == self.col_type(j));
                }
                assert forall|j1: int, j2: int|
                    0 <= j1 < j2 < c.num_columns() implies c.col_name(j1) != c.col_name(j2) by {
                    assert(c.col_name(j1) == self.col_name(j1));
                    assert(c.col_name(j2) == self.col_name(j2));
                    assert(self.col_name(j1) != self.col_name(j2));
                }
                assert(c.wf());
            }
        }
        c
    }
}

/// Copies a run of geometries, keeping their views.
fn clone_geometries(v: &Vec<MultiPoint>) -> (r: Vec<MultiPoint>)
    ensures
        geom_views(r@) == geom_views(v@),
{
    let mut out: Vec<MultiPoint> = Vec::new();
    let mut i: usize = 0;
    while i < v.len()
        invariant
            i <= v@.len(),
            geom_views(out@) == geom_views(v@).take(i as int),
        decreases v@.len() - i,
    {
        let g = v[i].clone();
        proof {
            let f = |g: MultiPoint| g.points_seq();
            assert(out@.push(g).map_values(f) =~= out@.map_values(f).push(f(g)));
            assert(geom_views(v@)[i as int] == f(v@[i as int]));
            assert(geom_views(v@).take(i + 1) =~= geom_views(v@).take(i as int).push(
                geom_views(v@)[i as int],
            ));
        }
        out.push(g);
        i += 1;
    }
    proof {
        assert(geom_views(v@).take(geom_views(v@).len() as int) =~= geom_views(v@));
    }
    out
}

/// Copies a run of time intervals.
fn clone_times(v: &Vec<TimeInterval>) -> (r: Vec<TimeInterval>)
    ensures
        r@ == v@,
{
    let mut out: Vec<TimeInterval> = Vec::new();
    let mut i: usize = 0;
    while i < v.len()
        invariant
            i <= v@.len(),
            out@ =~= v@.take(i as int),
        decreases v@.len() - i,
    {
        out.push(v[i]);
        i += 1;
    }
    proof {
        assert(out@ =~= v@);
    }
    out
}

/// Copies columns, keeping names, types and cells.
fn clone_columns(v: &Vec<Column>) -> (r: Vec<Column>)
    ensures
        r@.len() == v@.len(),
        forall|j: int|
            0 <= j < v@.len() ==> {
                &&& (#[trigger] r@[j]).name@ == v@[j].name@
                &&& r@[j].data.spec_data_type() == v@[j].data.spec_data_type()
                &&& fd_cells(r@[j].data) == fd_cells(v@[j].data)
                &&& (v@[j].data.wf() ==> r@[j].data.wf())
            },
{
    let mut out: Vec<Column> = Vec::new();
    let mut i: usize = 0;
    while i < v.len()
        invariant
            i <= v@.len(),
            out@.len() == i,
            forall|j: int|
                0 <= j < i ==> {
                    &&& (#[trigger] out@[j]).name@ == v@[j].name@
                    &&& out@[j].data.spec_data_type() == v@[j].data.spec_data_type()
                    &&& fd_cells(out@[j].data) == fd_cells(v@[j].data)
                    &&& (v@[j].data.wf() ==> out@[j].data.wf())
                },
        decreases v@.len() - i,
    {
        let col = &v[i];
        out.push(Column { name: clone_string(&col.name), data: clone_data(&col.data) });
        i += 1;
    }
    out
}

/// Filtering two equally long sequences by one mask keeps their lengths
/// equal.
pub proof fn lemma_mask_filter_same_len<T, U>(s1: Seq<T>, s2: Seq<U>, m: Seq<bool>)
    requires
        s1.len() == m.len(),
        s2.len() == m.len(),
    ensures
        mask_filter(s1, m).len() == mask_filter(s2, m).len(),
    decreases m.len(),
{
    if m.len() > 0 {
        lemma_mask_filter_same_len(s1.drop_last(), s2.drop_last(), m.drop_last());
    }
}

/// Whether `dst`'s columns are exactly `src`'s, each filtered by the mask:
/// same names and types in the same order, cells filtered row-wise.
pub open spec fn columns_filtered(
    dst: FeatureCollection,
    src: FeatureCollection,
    m: Seq<bool>,
) -> bool {
    &&& dst.num_columns() == src.num_columns()
    &&& forall|j: int|
        #![trigger dst.col_cells(j)]
        0 <= j < src.num_columns() ==> {
            &&& dst.col_name(j) == src.col_name(j)
            &&& dst.col_type(j) == src.col_type(j)
            &&& dst.col_cells(j) == mask_filter(src.col_cells(j), m)
        }
}

/// Whether two collections hold the same rows: same geometries, times and
/// columns.  The cache hint may differ.
pub open spec fn same_rows(a: FeatureCollection, b: FeatureCollection) -> bool {
    &&& a.geoms() == b.geoms()
    &&& a.time_seq() == b.time_seq()
    &&& a.num_columns() == b.num_columns()
    &&& forall|j: int|
        0 <= j < b.num_columns() ==> #[trigger] a.col_cells(j) == b.col_cells(j)
    &&& forall|j: int| 0 <= j < b.num_columns() ==> #[trigger] a.col_name(j) == b.col_name(j)
    &&& forall|j: int| 0 <= j < b.num_columns() ==> #[trigger] a.col_type(j) == b.col_type(j)
}

/// Collections of one schema carry the same column names.
pub proof fn lemma_schema_eq_has_name(a: FeatureCollection, b: FeatureCollection, name: Seq<char>)
    requires
        a.spec_schema_eq(b),
    ensures
        a.has_column_name(name) <==> b.has_column_name(name),
{
    if a.has_column_name(name) {
        let j = choose|j: int| 0 <= j < a.num_columns() && a.col_name(j) == name;
        assert(b.col_name(j) == name);
    }
    if b.has_column_name(name) {
        let j = choose|j: int| 0 <= j < b.num_columns() && b.col_name(j) == name;
        assert(a.col_name(j) == name);
    }
}

/// A mask-filtered collection of a well-formed collection is well-formed,
/// provided every column was filtered by the same mask.
pub proof fn lemma_filtered_wf(c: FeatureCollection, d: FeatureCollection, m: Seq<bool>)
    requires
        c.wf(),
        m.len() == c.spec_len(),
        d.geoms() == mask_filter(c.geoms(), m),
        d.time_seq() == mask_filter(c.time_seq(), m),
        d.num_columns() == c.num_columns(),
        forall|j: int|
            #![trigger d.col_cells(j)]
            0 <= j < c.num_columns() ==> {
                &&& d.col_name(j) == c.col_name(j)
                &&& d.col_type(j) == c.col_type(j)
                &&& d.col_cells(j) == mask_filter(c.col_cells(j), m)
            },
    ensures
        d.wf(),
{
    lemma_mask_filter_same_len(c.geoms(), c.time_seq(), m);
    assert forall|i: int| 0 <= i < d.spec_len() implies points_wf(#[trigger] d.geoms()[i]) by {
        lemma_mask_filter_member(c.geoms(), m, i);
    }
    assert forall|i: int| 0 <= i < d.spec_len() implies (#[trigger] d.time_seq()[i]).wf() by {
        lemma_mask_filter_member(c.time_seq(), m, i);
    }
    assert forall|j: int| 0 <= j < d.num_columns() implies (#[trigger] d.col_cells(j)).len()
        == d.spec_len() by {
        lemma_mask_filter_same_len(c.col_cells(j), c.geoms(), m);
    }
    assert forall|j: int, i: int|
        0 <= j < d.num_columns() && 0 <= i < d.spec_len() implies cell_wf(
        #[trigger] d.col_cells(j)[i],
    ) && cell_kind(d.col_cells(j)[i]) == d.col_type(j) by {
        assert(d.col_cells(j) == mask_filter(c.col_cells(j), m));
        lemma_mask_filter_same_len(c.col_cells(j), c.geoms(), m);
        lemma_mask_filter_member(c.col_cells(j), m, i);
        let k = choose|k: int|
            0 <= k < c.col_cells(j).len() && mask_filter(c.col_cells(j), m)[i] == c.col_cells(j)[k];
        assert(cell_wf(c.col_cells(j)[k]) && cell_kind(c.col_cells(j)[k]) == c.col_type(j));
    }
    assert forall|j1: int, j2: int|
        0 <= j1 < j2 < d.num_columns() implies d.col_name(j1) != d.col_name(j2) by {
        assert(d.col_cells(j1) == mask_filter(c.col_cells(j1), m));
        assert(d.col_cells(j2) == mask_filter(c.col_cells(j2), m));
        assert(c.col_name(j1) != c.col_name(j2));
    }
}

/// The spatial hull of a non-empty geometry column.
pub open spec fn spec_bbox_hull(gs: Seq<Seq<Coordinate2D>>) -> BoundingBox2D
    recommends
        gs.len() > 0,
    decreases gs.len(),
{
    if gs.len() <= 1 {
        points_bbox(gs[0])
    } else {
        let h = spec_bbox_hull(gs.drop_last());
        let b = points_bbox(gs.last());
        BoundingBox2D {
            lower_left: Coordinate2D {
                x: if h.lower_left.x <= b.lower_left.x {
                    h.lower_left.x
                } else {
                    b.lower_left.x
                },
                y: if h.lower_left.y <= b.lower_left.y {
                    h.lower_left.y
                } else {
                    b.lower_left.y
                },
            },
            upper_right: Coordinate2D {
                x: if h.upper_right.x >= b.upper_right.x {
                    h.upper_right.x
                } else {
                    b.upper_right.x
                },
                y: if h.upper_right.y >= b.upper_right.y {
                    h.upper_right.y
                } else {
                    b.upper_right.y
                },
            },
        }
    }
}

/// The temporal hull of a non-empty time column.
pub open spec fn spec_time_hull(times: Seq<TimeInterval>) -> TimeInterval
    recommends
        times.len() > 0,
    decreases times.len(),
{
    if times.len() <= 1 {
        times[0]
    } else {
        let h = spec_time_hull(times.drop_last());
        let t = times.last();
        TimeInterval {
            start: if h.start <= t.start {
                h.start
            } else {
                t.start
            },
            end: if h.end >= t.end {
                h.end
            } else {
                t.end
            },
        }
    }
}

/// Saturation at the machine word: the byte-size arithmetic never wraps.
pub open spec fn sat_usize(x: nat) -> nat {
    if x > usize::MAX {
        usize::MAX as nat
    } else {
        x
    }
}

/// The size model of one cell slot, by column type.  Variable-width text
/// content lives in shared buffers; the slot itself is what a chunk counts.
pub open spec fn spec_cell_byte_size(t: FeatureDataType) -> nat {
    match t {
        FeatureDataType::Int => 9,
        FeatureDataType::Ratio => 17,
        FeatureDataType::Text => 16,
        FeatureDataType::Bool => 2,
    }
}

impl FeatureCollection {
    /// The per-row cost of the attribute columns of the first `j` columns.
    pub open spec fn schema_cost_prefix(self, j: int) -> nat
        decreases j,
    {
        if j <= 0 {
            0
        } else {
            self.schema_cost_prefix(j - 1) + spec_cell_byte_size(self.col_type(j - 1))
        }
    }

    /// The per-row cost of all attribute columns.
    pub open spec fn spec_schema_cost(self) -> nat {
        self.schema_cost_prefix(self.num_columns() as int)
    }

    /// The size model of row `i`: its time interval, its points and one
    /// slot per column.
    pub open spec fn spec_row_byte_size(self, i: int) -> nat {
        16 + 16 * self.geoms()[i].len() + self.spec_schema_cost()
    }

    /// The exact total of the first `n` rows' sizes.
    pub open spec fn rows_byte_total(self, n: int) -> nat
        decreases n,
    {
        if n <= 0 {
            0
        } else {
            self.rows_byte_total(n - 1) + self.spec_row_byte_size(n - 1)
        }
    }

    /// The collection's size under the model, saturated at the machine
    /// word.
    pub open spec fn spec_byte_size(self) -> nat {
        sat_usize(self.rows_byte_total(self.spec_len() as int))
    }

    /// The per-row cost of the attribute columns, saturated.
    fn schema_cost(&self) -> (r: usize)
        requires
            self.wf(),
        ensures
            r == sat_usize(self.spec_schema_cost()),
    {
        let mut total: usize = 0;
        let mut j: usize = 0;
        while j < self.columns.len()
            invariant
                j <= self.num_columns(),
                self.wf(),
                total == sat_usize(self.schema_cost_prefix(j as int)),
            decreases self.num_columns() - j,
        {
            let cost: usize = match self.columns[j].data.data_type() {
                FeatureDataType::Int => 9,
                FeatureDataType::Ratio => 17,
                FeatureDataType::Text => 16,
                FeatureDataType::Bool => 2,
            };
            proof {
                assert(cost == spec_cell_byte_size(self.col_type(j as int)));
            }
            total = total.saturating_add(cost);
            j += 1;
        }
        total
    }

    /// The size of row `i` under the model, saturated.
    pub fn row_byte_size(&self, i: usize) -> (r: usize)
        requires
            self.wf(),
            i < self.spec_len(),
        ensures
            r == sat_usize(self.spec_row_byte_size(i as int)),
    {
        let schema = self.schema_cost();
        let points = self.geometries[i].num_points();
        let geom_bytes = match points.checked_mul(16) {
            Some(v) => v,
            None => usize::MAX,
        };
        proof {
            assert(self.geometries@[i as int].points_seq() == self.geoms()[i as int]);
            assert(geom_bytes == sat_usize(16 * self.geoms()[i as int].len()));
        }
        let r = 16usize.saturating_add(geom_bytes).saturating_add(schema);
        r
    }

    /// The collection's size under the model, saturated.
    pub fn byte_size(&self) -> (r: usize)
        requires
            self.wf(),
        ensures
            r == self.spec_byte_size(),
    {
        let mut total: usize = 0;
        let mut i: usize = 0;
        while i < self.geometries.len()
            invariant
                i <= self.spec_len(),
                self.wf(),
                total == sat_usize(self.rows_byte_total(i as int)),
            decreases self.spec_len() - i,
        {
            let row = self.row_byte_size(i);
            total = total.saturating_add(row);
            i += 1;
        }
        total
    }

    /// Whether the two collections share one schema: same column names and
    /// types in the same order.
    pub open spec fn spec_schema_eq(self, other: FeatureCollection) -> bool {
        &&& self.num_columns() == other.num_columns()
        &&& forall|j: int|
            0 <= j < self.num_columns() ==> #[trigger] self.col_name(j) == other.col_name(j)
        &&& forall|j: int|
            0 <= j < self.num_columns() ==> #[trigger] self.col_type(j) == other.col_type(j)
    }

    pub fn schema_eq(&self, other: &FeatureCollection) -> (r: bool)
        ensures
            r == self.spec_schema_eq(*other),
    {
        if self.columns.len() != other.columns.len() {
            proof {
                assert(!self.spec_schema_eq(*other));
            }
            return false;
        }
        let mut j: usize = 0;
        while j < self.columns.len()
            invariant
                j <= self.num_columns(),
                self.num_columns() == other.num_columns(),
                forall|k: int| 0 <= k < j ==> #[trigger] self.col_name(k) == other.col_name(k),
                forall|k: int| 0 <= k < j ==> #[trigger] self.col_type(k) == other.col_type(k),
            decreases self.num_columns() - j,
        {
            let tn = self.columns[j].data.data_type();
            let to = other.columns[j].data.data_type();
            let types_match = match (tn, to) {
                (FeatureDataType::Int, FeatureDataType::Int) => true,
                (FeatureDataType::Ratio, FeatureDataType::Ratio) => true,
                (FeatureDataType::Text, FeatureDataType::Text) => true,
                (FeatureDataType::Bool, FeatureDataType::Bool) => true,
                _ => false,
            };
            if !self.columns[j].name.eq(&other.columns[j].name) || !types_match {
                proof {
                    assert(self.col_name(j as int) != other.col_name(j as int) || self.col_type(
                        j as int,
                    ) != other.col_type(j as int));
                }
                return false;
            }
            proof {
                assert(self.col_name(j as int) == other.col_name(j as int));
                assert(tn == self.col_type(j as int));
                assert(to == other.col_type(j as int));
                assert(self.col_type(j as int) == other.col_type(j as int));
            }
            j += 1;
        }
        true
    }

    /// Appends another collection's rows after this one's; the schemas must
    /// match.  The cache hint becomes the more conservative of the two.
    pub fn concat_rows(&self, other: &FeatureCollection) -> (r: Result<FeatureCollection, Error>)
        requires
            self.wf(),
            other.wf(),
        ensures
            r is Ok <==> self.spec_schema_eq(*other),
            r is Err ==> r == Err::<FeatureCollection, Error>(Error::SchemaMismatch),
            r matches Ok(c) ==> {
                &&& c.wf()
                &&& c.geoms() == self.geoms() + other.geoms()
                &&& c.time_seq() == self.time_seq() + other.time_seq()
                &&& c.spec_schema_eq(*self)
                &&& forall|j: int|
                    0 <= j < self.num_columns() ==> #[trigger] c.col_cells(j) == self.col_cells(j)
                        + other.col_cells(j)
                &&& c.hint() == self.hint().spec_merged(other.hint())
            },
    {
        if !self.schema_eq(other) {
            return Err(Error::SchemaMismatch);
        }
        let mut geometries = clone_geometries(&self.geometries);
        let more_geoms = clone_geometries(&other.geometries);
        let ghost g1 = geometries@;
        let ghost g2 = more_geoms@;
        geometries.append(&mut { more_geoms });
        proof {
            assert(geom_views(g1 + g2) =~= geom_views(g1) + geom_views(g2));
        }
        let mut time_intervals = clone_times(&self.time_intervals);
        let mut more_times = clone_times(&other.time_intervals);
        time_intervals.append(&mut more_times);
        let mut columns: Vec<Column> = Vec::new();
        let mut j: usize = 0;
        while j < self.columns.len()
            invariant
                j <= self.num_columns(),
                self.wf(),
                other.wf(),
                self.spec_schema_eq(*other),
                columns@.len() == j,
                forall|k: int|
                    0 <= k < j ==> {
                        &&& (#[trigger] columns@[k]).name@ == self.col_name(k)
                        &&& columns@[k].data.spec_data_type() == self.col_type(k)
                        &&& fd_cells(columns@[k].data) == self.col_cells(k) + other.col_cells(k)
                        &&& columns@[k].data.wf()
                    },
            decreases self.num_columns() - j,
        {
            proof {
                assert(self.col_type(j as int) == other.col_type(j as int));
                assert forall|i: int|
                    0 <= i < fd_cells(self.columns@[j as int].data).len() implies cell_wf(
                    #[trigger] fd_cells(self.columns@[j as int].data)[i],
                ) by {
                    assert(self.col_cells(j as int).len() == self.spec_len());
                    assert(cell_wf(self.col_cells(j as int)[i]));
                }
                lemma_fd_wf_from_cells(self.columns@[j as int].data);
                assert forall|i: int|
                    0 <= i < fd_cells(other.columns@[j as int].data).len() implies cell_wf(
                    #[trigger] fd_cells(other.columns@[j as int].data)[i],
                ) by {
                    assert(other.col_cells(j as int).len() == other.spec_len());
                    assert(cell_wf(other.col_cells(j as int)[i]));
                }
                lemma_fd_wf_from_cells(other.columns@[j as int].data);
            }
            let data = fd_concat(&self.columns[j].data, &other.columns[j].data);
            columns.push(Column { name: clone_string(&self.columns[j].name), data });
            j += 1;
        }
        let mut hint = self.cache_hint;
        hint.merge_with(&other.cache_hint);
        let c = FeatureCollection { geometries, time_intervals, columns, cache_hint: hint };
        proof {
            assert(c.geoms() == self.geoms() + other.geoms());
            assert(c.time_seq() =~= self.time_seq() + other.time_seq());
            assert(c.spec_len() == self.spec_len() + other.spec_len());
            assert forall|i: int| 0 <= i < c.spec_len() implies points_wf(
                #[trigger] c.geoms()[i],
            ) by {
                if i < self.spec_len() {
                    assert(c.geoms()[i] == self.geoms()[i]);
                } else {
                    assert(c.geoms()[i] == other.geoms()[i - self.spec_len()]);
                }
            }
            assert forall|i: int| 0 <= i < c.spec_len() implies (
            #[trigger] c.time_seq()[i]).wf() by {
                if i < self.spec_len() {
                    assert(c.time_seq()[i] == self.time_seq()[i]);
                } else {
                    assert(c.time_seq()[i] == other.time_seq()[i - self.spec_len()]);
                }
            }
            assert forall|j: int| 0 <= j < c.num_columns() implies (#[trigger] c.col_cells(
                j,
            )).len() == c.spec_len() by {
                assert(c.col_cells(j) == self.col_cells(j) + other.col_cells(j));
            }
            assert forall|j: int, i: int|
                0 <= j < c.num_columns() && 0 <= i < c.spec_len() implies cell_wf(
                #[trigger] c.col_cells(j)[i],
            ) && cell_kind(c.col_cells(j)[i]) == c.col_type(j) by {
                assert(c.col_cells(j) == self.col_cells(j) + other.col_cells(j));
                assert(c.col_type(j) == self.col_type(j));
                if i < self.spec_len() {
                    assert(c.col_cells(j)[i] == self.col_cells(j)[i]);
                    assert(cell_wf(self.col_cells(j)[i]));
                } else {
                    assert(c.col_cells(j)[i] == other.col_cells(j)[i - self.spec_len()]);
                    assert(cell_wf(other.col_cells(j)[i - self.spec_len()]));
                    assert(other.col_type(j) == self.col_type(j));
                }
            }
            assert forall|j1: int, j2: int|
                0 <= j1 < j2 < c.num_columns() implies c.col_name(j1) != c.col_name(j2) by {
                assert(c.col_name(j1) == self.col_name(j1));
                assert(c.col_name(j2) == self.col_name(j2));
                assert(self.col_name(j1) != self.col_name(j2));
            }
            assert forall|j: int| 0 <= j < c.num_columns() implies #[trigger] c.col_name(j)
                == self.col_name(j) && c.col_type(j) == self.col_type(j) by {
                assert(columns@[j].name@ == self.col_name(j));
            }
            assert(c.wf());
        }
        Ok(c)
    }

    /// The single-row collection holding row `i`.
    pub fn row_at(&self, i: usize) -> (r: FeatureCollection)
        requires
            self.wf(),
            i < self.spec_len(),
        ensures
            r.wf(),
            r.spec_len() == 1,
            r.geoms() == seq![self.geoms()[i as int]],
            r.time_seq() == seq![self.time_seq()[i as int]],
            r.spec_schema_eq(*self),
            forall|j: int|
                0 <= j < self.num_columns() ==> #[trigger] r.col_cells(j) == seq![
                    self.col_cells(j)[i as int],
                ],
            r.hint() == self.hint(),
    {
        let geometries = vec![self.geometries[i].clone()];
        let time_intervals = vec![self.time_intervals[i]];
        let mut columns: Vec<Column> = Vec::new();
        let mut j: usize = 0;
        while j < self.columns.len()
            invariant
                j <= self.num_columns(),
                self.wf(),
                i < self.spec_len(),
                columns@.len() == j,
                forall|k: int|
                    0 <= k < j ==> {
                        &&& (#[trigger] columns@[k]).name@ == self.col_name(k)
                        &&& columns@[k].data.spec_data_type() == self.col_type(k)
                        &&& fd_cells(columns@[k].data) =~= seq![self.col_cells(k)[i as int]]
                        &&& columns@[k].data.wf()
                    },
            decreases self.num_columns() - j,
        {
            proof {
                assert(self.col_cells(j as int).len() == self.spec_len());
                assert forall|k: int|
                    0 <= k < fd_cells(self.columns@[j as int].data).len() implies cell_wf(
                    #[trigger] fd_cells(self.columns@[j as int].data)[k],
                ) by {
                    assert(cell_wf(self.col_cells(j as int)[k]));
                }
                lemma_fd_wf_from_cells(self.columns@[j as int].data);
            }
            let data = fd_single(&self.columns[j].data, i);
            columns.push(Column { name: clone_string(&self.columns[j].name), data });
            j += 1;
        }
        let c = FeatureCollection {
            geometries,
            time_intervals,
            columns,
            cache_hint: self.cache_hint,
        };
        proof {
            assert(c.geoms() =~= seq![self.geoms()[i as int]]);
            assert(c.time_seq() =~= seq![self.time_seq()[i as int]]);
            assert(points_wf(self.geoms()[i as int]));
            assert((self.time_seq()[i as int]).wf());
            assert forall|j: int| 0 <= j < c.num_columns() implies #[trigger] c.col_cells(j)
                == seq![self.col_cells(j)[i as int]] by {
                assert(fd_cells(c.columns@[j].data) =~= seq![self.col_cells(j)[i as int]]);
            }
            assert forall|j: int, k: int|
                0 <= j < c.num_columns() && 0 <= k < c.spec_len() implies cell_wf(
                #[trigger] c.col_cells(j)[k],
            ) && cell_kind(c.col_cells(j)[k]) == c.col_type(j) by {
                assert(c.col_cells(j)[0] == self.col_cells(j)[i as int]);
                assert(cell_wf(self.col_cells(j)[i as int]));
                assert(c.col_type(j) == self.col_type(j));
            }
            assert forall|j1: int, j2: int|
                0 <= j1 < j2 < c.num_columns() implies c.col_name(j1) != c.col_name(j2) by {
                assert(c.col_name(j1) == self.col_name(j1));
                assert(c.col_name(j2) == self.col_name(j2));
            }
            assert forall|j: int| 0 <= j < c.num_columns() implies (#[trigger] c.col_cells(
                j,
            )).len() == c.spec_len() by {
                assert(c.col_cells(j) == seq![self.col_cells(j)[i as int]]);
            }
            assert forall|j: int| 0 <= j < c.num_columns() implies #[trigger] c.col_name(j)
                == self.col_name(j) && c.col_type(j) == self.col_type(j) by {
                assert(columns@[j].name@ == self.col_name(j));
            }
            assert(c.wf());
        }
        c
    }
}

/// A column whose cells are all valid is a valid column.
proof fn lemma_fd_wf_from_cells(fd: FeatureData)
    requires
        forall|i: int| 0 <= i < fd_cells(fd).len() ==> cell_wf(#[trigger] fd_cells(fd)[i]),
    ensures
        fd.wf(),
{
    match fd {
        FeatureData::Ratio(v) => {
            assert forall|i: int| 0 <= i < v@.len() implies (#[trigger] v@[i] matches Some(f)
                ==> f.wf()) by {
                assert(fd_cells(fd)[i] == CellValue::Ratio(v@[i]));
                assert(cell_wf(fd_cells(fd)[i]));
            }
        },
        _ => {},
    }
}

/// Concatenates two columns of one type.
fn fd_concat(a: &FeatureData, b: &FeatureData) -> (r: FeatureData)
    requires
        a.spec_data_type() == b.spec_data_type(),
        a.wf(),
        b.wf(),
    ensures
        fd_cells(r) == fd_cells(*a) + fd_cells(*b),
        r.spec_data_type() == a.spec_data_type(),
        r.wf(),
{
    let first = clone_data(a);
    let second = clone_data(b);
    let ghost ga = fd_cells(*a);
    let ghost gb = fd_cells(*b);
    match (first, second) {
        (FeatureData::Int(mut v1), FeatureData::Int(v2)) => {
            v1.append(&mut { v2 });
            let out = FeatureData::Int(v1);
            proof {
                assert(fd_cells(out) =~= ga + gb);
            }
            out
        },
        (FeatureData::Ratio(mut v1), FeatureData::Ratio(v2)) => {
            v1.append(&mut { v2 });
            let out = FeatureData::Ratio(v1);
            proof {
                assert(fd_cells(out) =~= ga + gb);
            }
            out
        },
        (FeatureData::Text(mut v1), FeatureData::Text(v2)) => {
            v1.append(&mut { v2 });
            let out = FeatureData::Text(v1);
            proof {
                assert(fd_cells(out) =~= ga + gb);
            }
            out
        },
        (FeatureData::Bool(mut v1), FeatureData::Bool(v2)) => {
            v1.append(&mut { v2 });
            let out = FeatureData::Bool(v1);
            proof {
                assert(fd_cells(out) =~= ga + gb);
            }
            out
        },
        _ => {
            // The two clones carry their sources' matching types.
            proof {
                assert(false);
            }
            FeatureData::Int(Vec::new())
        },
    }
}

/// The one-cell column holding cell `i` of a column.
fn fd_single(data: &FeatureData, i: usize) -> (r: FeatureData)
    requires
        i < data.spec_len(),
        data.wf(),
    ensures
        fd_cells(r) =~= seq![fd_cells(*data)[i as int]],
        r.spec_data_type() == data.spec_data_type(),
        r.wf(),
{
    match data {
        FeatureData::Int(v) => FeatureData::Int(vec![v[i]]),
        FeatureData::Ratio(v) => FeatureData::Ratio(vec![v[i]]),
        FeatureData::Text(v) => {
            let cell = clone_text_cell(&v[i]);
            let out = vec![cell];
            proof {
                let f = |o: Option<String>| CellValue::Text(text_cell_view(o));
                assert(out@ =~= seq![cell]);
                assert(out@.map_values(f) =~= seq![f(cell)]);
                assert(fd_cells(*data)[i as int] == f(v@[i as int]));
            }
            FeatureData::Text(out)
        },
        FeatureData::Bool(v) => FeatureData::Bool(vec![v[i]]),
    }
}

/// Every element of the filtered sequence comes from the input.
pub proof fn lemma_mask_filter_member<T>(s: Seq<T>, m: Seq<bool>, k: int)
    requires
        s.len() == m.len(),
        0 <= k < mask_filter(s, m).len(),
    ensures
        exists|i: int| 0 <= i < s.len() && mask_filter(s, m)[k] == s[i],
    decreases s.len(),
{
    if s.len() > 0 {
        let prefix = mask_filter(s.drop_last(), m.drop_last());
        if m.last() && k == prefix.len() {
            assert(mask_filter(s, m)[k] == s[s.len() - 1]);
        } else {
            lemma_mask_filter_member(s.drop_last(), m.drop_last(), k);
            let i = choose|i: int|
                0 <= i < s.drop_last().len() && mask_filter(s.drop_last(), m.drop_last())[k]
                    == s.drop_last()[i];
            assert(mask_filter(s, m)[k] == s[i]);
        }
    }
}

} // verus!
