//! Raster tiles: positioned 2D grids of one integral pixel type, tagged
//! with a time interval, a band index, a global geo-transform and a cache
//! hint.  A tile may be fully empty, a lazily represented "no data"
//! sentinel.

use vstd::prelude::*;

use crate::error::Error;
use crate::primitives::{CacheHint, Coordinate2D, TimeInterval};

verus! {

/// Largest tile edge, in pixels.
pub const TILE_EDGE_LIMIT: usize = 0x8000;

/// Largest magnitude of a global tile position.
pub const TILE_POS_LIMIT: i64 = 0x1000_0000;

/// The closed set of pixel types a raster source can deliver.  The engine
/// stores every sample as a plain integer; the tag says how the source
/// encoded it.
#[derive(Clone, Copy, Debug, PartialEq, Eq, Structural)]
pub enum RasterDataType {
    U8,
    U16,
    U32,
    U64,
    I8,
    I16,
    I32,
    I64,
    F32,
    F64,
}

impl RasterDataType {
    /// The attribute type a join column of this pixel type gets: integral
    /// samples aggregate to integers, floating sources to exact ratios.
    pub fn to_feature_data_type(&self) -> (r: crate::collections::FeatureDataType)
        ensures
            r == self.spec_feature_data_type(),
    {
        match self {
            RasterDataType::F32 | RasterDataType::F64 => crate::collections::FeatureDataType::Ratio,
            _ => crate::collections::FeatureDataType::Int,
        }
    }

    pub open spec fn spec_feature_data_type(self) -> crate::collections::FeatureDataType {
        match self {
            RasterDataType::F32 | RasterDataType::F64 => crate::collections::FeatureDataType::Ratio,
            _ => crate::collections::FeatureDataType::Int,
        }
    }
}

/// The shape of a 2D pixel grid.
#[derive(Clone, Copy, Debug, PartialEq, Eq, Structural)]
pub struct GridShape2D {
    pub rows: usize,
    pub cols: usize,
}

impl GridShape2D {
    pub open spec fn wf(self) -> bool {
        0 < self.rows <= TILE_EDGE_LIMIT && 0 < self.cols <= TILE_EDGE_LIMIT
    }

    pub open spec fn spec_num_pixels(self) -> nat {
        (self.rows * self.cols) as nat
    }

    pub fn num_pixels(&self) -> (r: usize)
        requires
            self.wf(),
        ensures
            r == self.spec_num_pixels(),
    {
        proof {
            vstd::arithmetic::mul::lemma_mul_upper_bound(
                self.rows as int,
                TILE_EDGE_LIMIT as int,
                self.cols as int,
                TILE_EDGE_LIMIT as int,
            );
        }
        self.rows * self.cols
    }
}

/// A global pixel position: row and column in the global grid.
#[derive(Clone, Copy, Debug, PartialEq, Eq, Structural)]
pub struct GridIdx2D {
    pub row: i64,
    pub col: i64,
}

/// A materialized 2D grid of optional pixel values, row-major; `None` is a
/// no-data pixel.
#[derive(Debug)]
pub struct Grid2D {
    shape: GridShape2D,
    data: Vec<Option<i64>>,
}

impl Grid2D {
    pub closed spec fn spec_shape(self) -> GridShape2D {
        self.shape
    }

    pub closed spec fn values(self) -> Seq<Option<i64>> {
        self.data@
    }

    pub open spec fn wf(self) -> bool {
        self.spec_shape().wf() && self.values().len() == self.spec_shape().spec_num_pixels()
    }

    /// The pixel at a local position, row-major.
    pub open spec fn spec_value_at(self, row: int, col: int) -> Option<i64> {
        self.values()[row * self.spec_shape().cols + col]
    }

    pub fn new(shape: GridShape2D, data: Vec<Option<i64>>) -> (r: Result<Grid2D, Error>)
        requires
            shape.wf(),
        ensures
            (data@.len() == shape.spec_num_pixels()) <==> (r matches Ok(g) && g.spec_shape()
                == shape && g.values() == data@ && g.wf()),
            r is Err <==> r == Err::<Grid2D, Error>(Error::InvalidGridShape) && data@.len()
                != shape.spec_num_pixels(),
    {
        if data.len() == shape.num_pixels() {
            Ok(Grid2D { shape, data })
        } else {
            Err(Error::InvalidGridShape)
        }
    }

    pub fn shape(&self) -> (r: GridShape2D)
        ensures
            r == self.spec_shape(),
    {
        self.shape
    }

    pub fn values_len(&self) -> (r: usize)
        ensures
            r == self.values().len(),
    {
        self.data.len()
    }

    /// The pixel at a row-major linear position.
    pub fn value_at_linear(&self, i: usize) -> (r: Option<i64>)
        requires
            i < self.values().len(),
        ensures
            r == self.values()[i as int],
    {
        self.data[i]
    }

    pub fn value_at(&self, row: usize, col: usize) -> (r: Option<i64>)
        requires
            self.wf(),
            row < self.spec_shape().rows,
            col < self.spec_shape().cols,
        ensures
            r == self.spec_value_at(row as int, col as int),
    {
        proof {
            let rows = self.spec_shape().rows as int;
            let cols = self.spec_shape().cols as int;
            vstd::arithmetic::mul::lemma_mul_inequality(row as int, rows - 1, cols);
            vstd::arithmetic::mul::lemma_mul_nonnegative(row as int, cols);
            vstd::arithmetic::mul::lemma_mul_upper_bound(
                rows,
                TILE_EDGE_LIMIT as int,
                cols,
                TILE_EDGE_LIMIT as int,
            );
            assert((rows - 1) * cols == rows * cols - cols) by (nonlinear_arith);
        }
        self.data[row * self.shape.cols + col]
    }
}

/// A grid that may be the lazily represented all-no-data sentinel.
#[derive(Debug)]
pub enum GridOrEmpty2D {
    Grid(Grid2D),
    Empty(GridShape2D),
}

impl GridOrEmpty2D {
    pub open spec fn spec_shape(self) -> GridShape2D {
        match self {
            GridOrEmpty2D::Grid(g) => g.spec_shape(),
            GridOrEmpty2D::Empty(s) => s,
        }
    }

    pub open spec fn wf(self) -> bool {
        match self {
            GridOrEmpty2D::Grid(g) => g.wf(),
            GridOrEmpty2D::Empty(s) => s.wf(),
        }
    }

    /// Whether this is the all-no-data sentinel.
    pub open spec fn spec_is_empty(self) -> bool {
        self is Empty
    }

    /// The pixel at a local position; an empty grid is all no-data.
    pub open spec fn spec_value_at(self, row: int, col: int) -> Option<i64> {
        match self {
            GridOrEmpty2D::Grid(g) => g.spec_value_at(row, col),
            GridOrEmpty2D::Empty(_) => None,
        }
    }

    pub fn shape(&self) -> (r: GridShape2D)
        ensures
            r == self.spec_shape(),
    {
        match self {
            GridOrEmpty2D::Grid(g) => g.shape(),
            GridOrEmpty2D::Empty(s) => *s,
        }
    }

    pub fn is_empty(&self) -> (r: bool)
        ensures
            r == self.spec_is_empty(),
    {
        matches!(self, GridOrEmpty2D::Empty(_))
    }

    pub fn value_at(&self, row: usize, col: usize) -> (r: Option<i64>)
        requires
            self.wf(),
            row < self.spec_shape().rows,
            col < self.spec_shape().cols,
        ensures
            r == self.spec_value_at(row as int, col as int),
    {
        match self {
            GridOrEmpty2D::Grid(g) => g.value_at(row, col),
            GridOrEmpty2D::Empty(_) => None,
        }
    }
}

/// Maps global grid positions to coordinates: the coordinate of pixel
/// `(row, col)` is `origin + (col * x_pixel_size, row * y_pixel_size)`.
/// `y_pixel_size` is negative: rows grow downward.
#[derive(Clone, Copy, Debug, PartialEq, Eq, Structural)]
pub struct GeoTransform {
    pub origin_coordinate: Coordinate2D,
    pub x_pixel_size: i64,
    pub y_pixel_size: i64,
}

impl GeoTransform {
    pub open spec fn wf(self) -> bool {
        &&& self.origin_coordinate.wf()
        &&& 0 < self.x_pixel_size <= crate::primitives::COORD_LIMIT
        &&& -crate::primitives::COORD_LIMIT <= self.y_pixel_size < 0
    }

    /// The global pixel holding a coordinate: floor division of the offset
    /// from the origin by the pixel size.
    pub open spec fn spec_pixel_of(self, c: Coordinate2D) -> GridIdx2D {
        GridIdx2D {
            row: ((self.origin_coordinate.y - c.y) as int / (-self.y_pixel_size) as int) as i64,
            col: ((c.x - self.origin_coordinate.x) as int / self.x_pixel_size as int) as i64,
        }
    }

    pub fn new(origin_coordinate: Coordinate2D, x_pixel_size: i64, y_pixel_size: i64) -> (r: Result<
        GeoTransform,
        Error,
    >)
        requires
            origin_coordinate.wf(),
        ensures
            (r matches Ok(t) && t == (GeoTransform { origin_coordinate, x_pixel_size, y_pixel_size })
                && t.wf()) <==> (GeoTransform { origin_coordinate, x_pixel_size, y_pixel_size }).wf(),
            r is Err ==> r == Err::<GeoTransform, Error>(Error::InvalidSpatialResolution),
    {
        if 0 < x_pixel_size && x_pixel_size <= crate::primitives::COORD_LIMIT
            && -crate::primitives::COORD_LIMIT <= y_pixel_size && y_pixel_size < 0 {
            Ok(GeoTransform { origin_coordinate, x_pixel_size, y_pixel_size })
        } else {
            Err(Error::InvalidSpatialResolution)
        }
    }

    /// The global pixel position of a coordinate.
    pub fn pixel_of(&self, c: Coordinate2D) -> (r: GridIdx2D)
        requires
            self.wf(),
            c.wf(),
        ensures
            r == self.spec_pixel_of(c),
    {
        let row = flooring_div(self.origin_coordinate.y - c.y, -self.y_pixel_size);
        let col = flooring_div(c.x - self.origin_coordinate.x, self.x_pixel_size);
        GridIdx2D { row, col }
    }
}

/// The placement of one tile inside the global tiling scheme.
#[derive(Clone, Copy, Debug, PartialEq, Eq, Structural)]
pub struct TileInformation {
    pub global_geo_transform: GeoTransform,
    pub global_tile_position: GridIdx2D,
    pub tile_size_in_pixels: GridShape2D,
}

/// A positioned 2D grid of one band's pixels at one time, with a cache
/// hint.  Tiles are immutable once produced; ownership passes to whichever
/// stream stage currently holds them.
#[derive(Debug)]
pub struct RasterTile2D {
    /// The time slice this tile belongs to.
    pub time: TimeInterval,
    /// The tile's position in the global tiling scheme, in tile units.
    pub tile_position: GridIdx2D,
    /// The band this tile carries.
    pub band: u32,
    /// The transform between the global pixel grid and coordinates.
    pub global_geo_transform: GeoTransform,
    /// The pixels, or the all-no-data sentinel.
    pub grid_array: GridOrEmpty2D,
    /// The conservative cache validity of this tile.
    pub cache_hint: CacheHint,
}

impl RasterTile2D {
    pub open spec fn wf(self) -> bool {
        &&& self.time.wf()
        &&& self.global_geo_transform.wf()
        &&& self.grid_array.wf()
        &&& -TILE_POS_LIMIT <= self.tile_position.row <= TILE_POS_LIMIT
        &&& -TILE_POS_LIMIT <= self.tile_position.col <= TILE_POS_LIMIT
    }

    /// The global row of this tile's first pixel row.
    pub open spec fn spec_offset_row(self) -> int {
        self.tile_position.row * self.grid_array.spec_shape().rows
    }

    /// The global column of this tile's first pixel column.
    pub open spec fn spec_offset_col(self) -> int {
        self.tile_position.col * self.grid_array.spec_shape().cols
    }

    /// Whether a global pixel position falls inside this tile.
    pub open spec fn spec_contains_grid_idx(self, idx: GridIdx2D) -> bool {
        &&& self.spec_offset_row() <= idx.row < self.spec_offset_row()
            + self.grid_array.spec_shape().rows
        &&& self.spec_offset_col() <= idx.col < self.spec_offset_col()
            + self.grid_array.spec_shape().cols
    }

    /// The pixel at a global position inside this tile.
    pub open spec fn spec_value_at_grid_idx(self, idx: GridIdx2D) -> Option<i64> {
        self.grid_array.spec_value_at(
            idx.row - self.spec_offset_row(),
            idx.col - self.spec_offset_col(),
        )
    }

    pub fn new(
        time: TimeInterval,
        tile_position: GridIdx2D,
        band: u32,
        global_geo_transform: GeoTransform,
        grid_array: GridOrEmpty2D,
        cache_hint: CacheHint,
    ) -> (r: RasterTile2D)
        requires
            time.wf(),
            global_geo_transform.wf(),
            grid_array.wf(),
            -TILE_POS_LIMIT <= tile_position.row <= TILE_POS_LIMIT,
            -TILE_POS_LIMIT <= tile_position.col <= TILE_POS_LIMIT,
        ensures
            r == (RasterTile2D {
                time,
                tile_position,
                band,
                global_geo_transform,
                grid_array,
                cache_hint,
            }),
            r.wf(),
    {
        RasterTile2D { time, tile_position, band, global_geo_transform, grid_array, cache_hint }
    }

    /// Builds a tile of band 0 from its placement description.
    pub fn new_with_tile_info(
        time: TimeInterval,
        tile_info: TileInformation,
        grid_array: GridOrEmpty2D,
        cache_hint: CacheHint,
    ) -> (r: RasterTile2D)
        requires
            time.wf(),
            tile_info.global_geo_transform.wf(),
            grid_array.wf(),
            grid_array.spec_shape() == tile_info.tile_size_in_pixels,
            -TILE_POS_LIMIT <= tile_info.global_tile_position.row <= TILE_POS_LIMIT,
            -TILE_POS_LIMIT <= tile_info.global_tile_position.col <= TILE_POS_LIMIT,
        ensures
            r == (RasterTile2D {
                time,
                tile_position: tile_info.global_tile_position,
                band: 0u32,
                global_geo_transform: tile_info.global_geo_transform,
                grid_array,
                cache_hint,
            }),
            r.wf(),
    {
        RasterTile2D {
            time,
            tile_position: tile_info.global_tile_position,
            band: 0,
            global_geo_transform: tile_info.global_geo_transform,
            grid_array,
            cache_hint,
        }
    }

    pub fn is_empty(&self) -> (r: bool)
        ensures
            r == self.grid_array.spec_is_empty(),
    {
        self.grid_array.is_empty()
    }

    /// Looks a pixel up by its global grid position; a position outside
    /// this tile is an error, which callers treat as "not in this tile".
    pub fn get_at_grid_index(&self, grid_index: GridIdx2D) -> (r: Result<Option<i64>, Error>)
        requires
            self.wf(),
        ensures
            r is Ok <==> self.spec_contains_grid_idx(grid_index),
            r matches Ok(v) ==> v == self.spec_value_at_grid_idx(grid_index),
            r is Err ==> r == Err::<Option<i64>, Error>(Error::GridIndexOutOfBounds),
    {
        let shape = self.grid_array.shape();
        let rows_i = shape.rows as i64;
        let cols_i = shape.cols as i64;
        proof {
            assert(-0x1000_0000 * 0x8000 <= self.tile_position.row * rows_i as int
                <= 0x1000_0000 * 0x8000) by (nonlinear_arith)
                requires
                    -TILE_POS_LIMIT <= self.tile_position.row <= TILE_POS_LIMIT,
                    0 < rows_i as int <= TILE_EDGE_LIMIT as int,
            ;
            assert(-0x1000_0000 * 0x8000 <= self.tile_position.col * cols_i as int
                <= 0x1000_0000 * 0x8000) by (nonlinear_arith)
                requires
                    -TILE_POS_LIMIT <= self.tile_position.col <= TILE_POS_LIMIT,
                    0 < cols_i as int <= TILE_EDGE_LIMIT as int,
            ;
        }
        let offset_row = self.tile_position.row * rows_i;
        let offset_col = self.tile_position.col * cols_i;
        if grid_index.row >= offset_row && grid_index.row < offset_row + rows_i
            && grid_index.col >= offset_col && grid_index.col < offset_col + cols_i {
            let local_row = (grid_index.row - offset_row) as usize;
            let local_col = (grid_index.col - offset_col) as usize;
            Ok(self.grid_array.value_at(local_row, local_col))
        } else {
            Err(Error::GridIndexOutOfBounds)
        }
    }
}

/// Floor division for a positive divisor, the Euclidean quotient.
pub fn flooring_div(a: i64, b: i64) -> (r: i64)
    requires
        b > 0,
        -0x7fff_ffff_ffff_0000 < a < 0x7fff_ffff_ffff_0000,
    ensures
        r == a as int / b as int,
{
    if a >= 0 {
        a / b
    } else {
        let na = -a;
        let q = na / b;
        let rem = na % b;
        proof {
            vstd::arithmetic::div_mod::lemma_fundamental_div_mod(na as int, b as int);
            assert(q == na as int / b as int);
            assert(rem == na as int % b as int);
            assert(na as int == b as int * (q as int) + rem as int);
            assert(a as int == (-(q as int)) * b as int + (-(rem as int))) by (nonlinear_arith)
                requires
                    na as int == b as int * (q as int) + rem as int,
                    a == -na,
            ;
            if rem == 0 {
                vstd::arithmetic::div_mod::lemma_fundamental_div_mod_converse(
                    a as int,
                    b as int,
                    -(q as int),
                    0,
                );
            } else {
                assert(a as int == (-(q as int) - 1) * b as int + (b - rem) as int)
                    by (nonlinear_arith)
                    requires
                        a as int == (-(q as int)) * b as int + (-(rem as int)),
                ;
                vstd::arithmetic::div_mod::lemma_fundamental_div_mod_converse(
                    a as int,
                    b as int,
                    -(q as int) - 1,
                    (b - rem) as int,
                );
            }
        }
        if rem == 0 {
            -q
        } else {
            -q - 1
        }
    }
}

} // verus!
