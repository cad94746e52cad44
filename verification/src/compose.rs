//! Composition of a raster tile stream into one image-sized raster: the
//! compute half of rendering a query to an image.  Tiles are blitted into a
//! single target raster in stream order; the encoding of the composed
//! raster into an image format happens outside this library.

use vstd::prelude::*;

use crate::error::Error;
use crate::primitives::{CacheHint, RasterQueryRectangle, TimeInterval};
use crate::raster::{
    Grid2D, GridIdx2D, GridOrEmpty2D, GridShape2D, RasterTile2D, TILE_EDGE_LIMIT, TILE_POS_LIMIT,
};

verus! {

/// The pixel a run of tiles leaves at a global position: the last non-empty
/// tile containing the position decides, an untouched position is no-data.
pub open spec fn composed_pixel(tiles: Seq<RasterTile2D>, idx: GridIdx2D) -> Option<i64>
    decreases tiles.len(),
{
    if tiles.len() == 0 {
        None
    } else {
        let last = tiles.last();
        if !last.grid_array.spec_is_empty() && last.spec_contains_grid_idx(idx) {
            last.spec_value_at_grid_idx(idx)
        } else {
            composed_pixel(tiles.drop_last(), idx)
        }
    }
}

/// The conservative hint of a run of tiles.
pub open spec fn merged_hint(tiles: Seq<RasterTile2D>) -> CacheHint
    decreases tiles.len(),
{
    if tiles.len() == 0 {
        CacheHint { expires: i64::MAX }
    } else {
        merged_hint(tiles.drop_last()).spec_merged(tiles.last().cache_hint)
    }
}

/// Copies every pixel of `source` that falls inside `target` over the
/// target's pixel, leaving the rest; both tiles must live on one global
/// grid.  An all-no-data source tile leaves the target untouched.
pub fn blit(target: &RasterTile2D, source: &RasterTile2D) -> (r: Result<RasterTile2D, Error>)
    requires
        target.wf(),
        source.wf(),
    ensures
        r is Ok <==> target.global_geo_transform == source.global_geo_transform,
        r is Err ==> r == Err::<RasterTile2D, Error>(Error::GeoTransformMismatch),
        r matches Ok(t) ==> {
            &&& t.wf()
            &&& t.time == target.time
            &&& t.tile_position == target.tile_position
            &&& t.band == target.band
            &&& t.global_geo_transform == target.global_geo_transform
            &&& t.cache_hint == target.cache_hint
            &&& t.grid_array.spec_shape() == target.grid_array.spec_shape()
            &&& forall|row: int, col: int|
                0 <= row < target.grid_array.spec_shape().rows && 0 <= col
                    < target.grid_array.spec_shape().cols ==> #[trigger] t.grid_array.spec_value_at(
                    row,
                    col,
                ) == blitted_pixel(*target, *source, row, col)
        },
{
    if !(target.global_geo_transform.origin_coordinate.x
        == source.global_geo_transform.origin_coordinate.x
        && target.global_geo_transform.origin_coordinate.y
        == source.global_geo_transform.origin_coordinate.y
        && target.global_geo_transform.x_pixel_size == source.global_geo_transform.x_pixel_size
        && target.global_geo_transform.y_pixel_size == source.global_geo_transform.y_pixel_size) {
        return Err(Error::GeoTransformMismatch);
    }
    let shape = target.grid_array.shape();
    let rows_i = shape.rows as i64;
    let cols_i = shape.cols as i64;
    proof {
        assert(-TILE_POS_LIMIT * TILE_EDGE_LIMIT <= target.tile_position.row * rows_i as int
            <= TILE_POS_LIMIT * TILE_EDGE_LIMIT) by (nonlinear_arith)
            requires
                -TILE_POS_LIMIT <= target.tile_position.row <= TILE_POS_LIMIT,
                0 < rows_i as int <= TILE_EDGE_LIMIT as int,
        ;
        assert(-TILE_POS_LIMIT * TILE_EDGE_LIMIT <= target.tile_position.col * cols_i as int
            <= TILE_POS_LIMIT * TILE_EDGE_LIMIT) by (nonlinear_arith)
            requires
                -TILE_POS_LIMIT <= target.tile_position.col <= TILE_POS_LIMIT,
                0 < cols_i as int <= TILE_EDGE_LIMIT as int,
        ;
    }
    let offset_row = target.tile_position.row * rows_i;
    let offset_col = target.tile_position.col * cols_i;
    let mut data: Vec<Option<i64>> = Vec::new();
    let mut row: usize = 0;
    while row < shape.rows
        invariant
            row <= shape.rows,
            target.wf(),
            source.wf(),
            shape == target.grid_array.spec_shape(),
            offset_row == target.tile_position.row * shape.rows,
            offset_col == target.tile_position.col * shape.cols,
            -TILE_POS_LIMIT * TILE_EDGE_LIMIT <= offset_row <= TILE_POS_LIMIT * TILE_EDGE_LIMIT,
            -TILE_POS_LIMIT * TILE_EDGE_LIMIT <= offset_col <= TILE_POS_LIMIT * TILE_EDGE_LIMIT,
            data@.len() == row * shape.cols,
            forall|rr: int, cc: int|
                0 <= rr < row && 0 <= cc < shape.cols ==> #[trigger] data@[rr * shape.cols + cc]
                    == blitted_pixel(*target, *source, rr, cc),
        decreases shape.rows - row,
    {
        let mut col: usize = 0;
        proof {
            vstd::arithmetic::mul::lemma_mul_inequality(
                row as int,
                shape.rows as int - 1,
                shape.cols as int,
            );
            vstd::arithmetic::mul::lemma_mul_upper_bound(
                row as int,
                TILE_EDGE_LIMIT as int,
                shape.cols as int,
                TILE_EDGE_LIMIT as int,
            );
            assert((shape.rows as int - 1) * shape.cols as int == shape.rows as int
                * shape.cols as int - shape.cols as int) by (nonlinear_arith);
        }
        while col < shape.cols
            invariant
                col <= shape.cols,
                row < shape.rows,
                target.wf(),
                source.wf(),
                shape == target.grid_array.spec_shape(),
                offset_row == target.tile_position.row * shape.rows,
                offset_col == target.tile_position.col * shape.cols,
                -TILE_POS_LIMIT * TILE_EDGE_LIMIT <= offset_row <= TILE_POS_LIMIT
                    * TILE_EDGE_LIMIT,
                -TILE_POS_LIMIT * TILE_EDGE_LIMIT <= offset_col <= TILE_POS_LIMIT
                    * TILE_EDGE_LIMIT,
                data@.len() == row * shape.cols + col,
                row * shape.cols + shape.cols <= shape.spec_num_pixels(),
                forall|rr: int, cc: int|
                    0 <= rr < row && 0 <= cc < shape.cols ==> #[trigger] data@[rr * shape.cols
                        + cc] == blitted_pixel(*target, *source, rr, cc),
                forall|cc: int|
                    0 <= cc < col ==> #[trigger] data@[row as int * shape.cols + cc]
                        == blitted_pixel(*target, *source, row as int, cc),
            decreases shape.cols - col,
        {
            proof {
                vstd::arithmetic::mul::lemma_mul_upper_bound(
                    row as int,
                    TILE_EDGE_LIMIT as int,
                    shape.cols as int,
                    TILE_EDGE_LIMIT as int,
                );
                vstd::arithmetic::mul::lemma_mul_nonnegative(row as int, shape.cols as int);
            }
            let global = GridIdx2D { row: offset_row + row as i64, col: offset_col + col as i64 };
            let cell: Option<i64> = if source.is_empty() {
                target.grid_array.value_at(row, col)
            } else {
                match source.get_at_grid_index(global) {
                    Ok(v) => v,
                    Err(_) => target.grid_array.value_at(row, col),
                }
            };
            data.push(cell);
            proof {
                assert(cell == blitted_pixel(*target, *source, row as int, col as int));
                assert forall|rr: int, cc: int|
                    0 <= rr < row && 0 <= cc < shape.cols implies #[trigger] data@[rr * shape.cols
                    + cc] == blitted_pixel(*target, *source, rr, cc) by {
                    vstd::arithmetic::mul::lemma_mul_inequality(
                        rr,
                        row as int - 1,
                        shape.cols as int,
                    );
                    assert((row as int - 1) * shape.cols as int == row as int * shape.cols as int
                        - shape.cols as int) by (nonlinear_arith);
                    vstd::arithmetic::mul::lemma_mul_nonnegative(rr, shape.cols as int);
                    assert(data@[rr * shape.cols + cc] == data@.drop_last()[rr * shape.cols + cc]);
                }
            }
            col += 1;
        }
        row += 1;
        proof {
            assert(row * shape.cols == (row - 1) * shape.cols + shape.cols) by (nonlinear_arith);
        }
    }
    proof {
        vstd::arithmetic::mul::lemma_mul_is_commutative(shape.rows as int, shape.cols as int);
    }
    let grid = match Grid2D::new(shape, data) {
        Ok(g) => g,
        Err(_) => {
            // One cell was pushed per pixel.
            proof {
                assert(false);
            }
            return Err(Error::GeoTransformMismatch);
        },
    };
    let out = RasterTile2D {
        time: target.time,
        tile_position: target.tile_position,
        band: target.band,
        global_geo_transform: target.global_geo_transform,
        grid_array: GridOrEmpty2D::Grid(grid),
        cache_hint: target.cache_hint,
    };
    proof {
        assert forall|r0: int, c0: int|
            0 <= r0 < shape.rows && 0 <= c0 < shape.cols implies #[trigger] out.grid_array.spec_value_at(
            r0,
            c0,
        ) == blitted_pixel(*target, *source, r0, c0) by {
            vstd::arithmetic::mul::lemma_mul_inequality(
                r0,
                shape.rows as int - 1,
                shape.cols as int,
            );
            vstd::arithmetic::mul::lemma_mul_nonnegative(r0, shape.cols as int);
            assert((shape.rows as int - 1) * shape.cols as int == shape.rows as int
                * shape.cols as int - shape.cols as int) by (nonlinear_arith);
        }
    }
    Ok(out)
}

/// The pixel of the target after one blit, at a local target position:
/// where a non-empty source covers the position's global pixel, its value;
/// elsewhere the target's own.
pub open spec fn blitted_pixel(
    target: RasterTile2D,
    source: RasterTile2D,
    row: int,
    col: int,
) -> Option<i64> {
    let idx = GridIdx2D {
        row: (target.spec_offset_row() + row) as i64,
        col: (target.spec_offset_col() + col) as i64,
    };
    if !source.grid_array.spec_is_empty() && source.spec_contains_grid_idx(idx) {
        source.spec_value_at_grid_idx(idx)
    } else {
        target.grid_array.spec_value_at(row, col)
    }
}

/// Composes a single-band tile stream into one raster of the given shape:
/// the query must select exactly one band, the tiles are blitted in stream
/// order onto an initially all-no-data raster placed at the query's grid,
/// and every tile's cache hint narrows the result's hint.  The caller turns
/// the composed raster into image bytes outside this library.
pub fn raster_stream_to_composite(
    query: &RasterQueryRectangle,
    shape: GridShape2D,
    time: Option<TimeInterval>,
    tiles: &Vec<RasterTile2D>,
) -> (r: Result<RasterTile2D, Error>)
    requires
        query.wf(),
        shape.wf(),
        forall|i: int| 0 <= i < tiles@.len() ==> (#[trigger] tiles@[i]).wf(),
        time matches Some(t) ==> t.wf(),
    ensures
        query.attributes@.len() != 1 <==> r == Err::<RasterTile2D, Error>(
            Error::OperationDoesNotSupportMultiBandQueriesYet,
        ),
        r is Err ==> (r == Err::<RasterTile2D, Error>(
            Error::OperationDoesNotSupportMultiBandQueriesYet,
        ) || r == Err::<RasterTile2D, Error>(Error::GeoTransformMismatch)),
        r matches Ok(t) ==> {
            &&& t.wf()
            &&& t.grid_array.spec_shape() == shape
            &&& t.cache_hint == merged_hint(tiles@)
            &&& t.time == match time {
                Some(given) => given,
                None => TimeInterval { start: i64::MIN, end: i64::MAX },
            }
            &&& forall|row: int, col: int|
                0 <= row < shape.rows && 0 <= col < shape.cols
                    ==> #[trigger] t.grid_array.spec_value_at(row, col) == composed_pixel(
                    tiles@,
                    GridIdx2D { row: row as i64, col: col as i64 },
                )
        },
{
    if query.attributes.as_slice().len() != 1 {
        return Err(Error::OperationDoesNotSupportMultiBandQueriesYet);
    }
    let time_interval = match time {
        Some(t) => t,
        None => TimeInterval::new_unchecked(i64::MIN, i64::MAX),
    };
    let transform = crate::raster::GeoTransform {
        origin_coordinate: query.spatial_bounds.upper_left,
        x_pixel_size: query.spatial_resolution.x,
        y_pixel_size: if query.spatial_resolution.y > 0 {
            -query.spatial_resolution.y
        } else {
            -1
        },
    };
    let mut output = RasterTile2D {
        time: time_interval,
        tile_position: GridIdx2D { row: 0, col: 0 },
        band: 0,
        global_geo_transform: transform,
        grid_array: GridOrEmpty2D::Empty(shape),
        cache_hint: CacheHint::max_duration(),
    };
    let mut i: usize = 0;
    while i < tiles.len()
        invariant
            i <= tiles@.len(),
            query.attributes@.len() == 1,
            forall|k: int| 0 <= k < tiles@.len() ==> (#[trigger] tiles@[k]).wf(),
            output.wf(),
            output.grid_array.spec_shape() == shape,
            output.tile_position == (GridIdx2D { row: 0, col: 0 }),
            output.time == time_interval,
            output.cache_hint == merged_hint(tiles@.take(i as int)),
            forall|row: int, col: int|
                0 <= row < shape.rows && 0 <= col < shape.cols
                    ==> #[trigger] output.grid_array.spec_value_at(row, col) == composed_pixel(
                    tiles@.take(i as int),
                    GridIdx2D { row: row as i64, col: col as i64 },
                ),
        decreases tiles@.len() - i,
    {
        let tile = &tiles[i];
        proof {
            assert(tiles@.take(i + 1).drop_last() =~= tiles@.take(i as int));
            assert(tiles@.take(i + 1).last() == tiles@[i as int]);
        }
        let ghost before = output;
        if tile.is_empty() {
            output.cache_hint.merge_with(&tile.cache_hint);
        } else {
            let merged = match blit(&output, tile) {
                Ok(t) => t,
                Err(e) => {
                    return Err(e);
                },
            };
            output = merged;
            output.cache_hint.merge_with(&tile.cache_hint);
        }
        proof {
            assert forall|row: int, col: int|
                0 <= row < shape.rows && 0 <= col < shape.cols implies
                #[trigger] output.grid_array.spec_value_at(row, col) == composed_pixel(
                tiles@.take(i + 1),
                GridIdx2D { row: row as i64, col: col as i64 },
            ) by {
                let idx = GridIdx2D { row: row as i64, col: col as i64 };
                assert(before.grid_array.spec_value_at(row, col) == composed_pixel(
                    tiles@.take(i as int),
                    idx,
                ));
                if !tiles@[i as int].grid_array.spec_is_empty() {
                    assert(output.grid_array.spec_value_at(row, col) == blitted_pixel(
                        before,
                        tiles@[i as int],
                        row,
                        col,
                    ));
                    assert(before.spec_offset_row() == 0 && before.spec_offset_col() == 0);
                }
            }
        }
        i += 1;
    }
    proof {
        assert(tiles@.take(tiles@.len() as int) =~= tiles@);
    }
    Ok(output)
}

} // verus!
