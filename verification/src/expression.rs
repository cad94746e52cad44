//! The bandwise expression operator: wraps a single raster source and
//! applies a compiled scalar expression to every pixel of every band.
//!
//! The expression is compiled and linked outside this library; the engine
//! treats the compiled callable as opaque.  The verified part is the
//! per-tile recomposition: the evaluated values are handed in, one per
//! pixel, and the no-data policy decides which pixels they replace.

use vstd::prelude::*;

use crate::engine::RasterResultDescriptor;
use crate::error::Error;
use crate::raster::{Grid2D, GridOrEmpty2D, RasterDataType, RasterTile2D};

verus! {

/// The parameters of the operator: the expression source text, the declared
/// output pixel type and whether no-data pixels are mapped too.
#[derive(Debug)]
pub struct BandwiseExpressionParams {
    pub expression: String,
    pub output_type: RasterDataType,
    pub map_no_data: bool,
}

/// The initialized operator: its output shape is the source's with the
/// declared output type; the expression still has to be compiled and linked
/// before a processor can run.
#[derive(Debug)]
pub struct InitializedBandwiseExpression {
    pub result_descriptor: RasterResultDescriptor,
    pub expression: String,
    pub map_no_data: bool,
}

/// Fixes the operator's output shape from its source's: the same
/// descriptor with the declared output pixel type.
pub fn initialize_bandwise_expression(
    params: BandwiseExpressionParams,
    in_descriptor: &RasterResultDescriptor,
) -> (r: InitializedBandwiseExpression)
    ensures
        r.result_descriptor == (RasterResultDescriptor {
            data_type: params.output_type,
            ..*in_descriptor
        }),
        r.expression@ == params.expression@,
        r.map_no_data == params.map_no_data,
{
    let descriptor = in_descriptor.map_data_type(params.output_type);
    InitializedBandwiseExpression {
        result_descriptor: descriptor,
        expression: params.expression,
        map_no_data: params.map_no_data,
    }
}

/// The cell the output tile holds at linear position `i`, given the
/// evaluated value for that position: a no-data pixel stays no-data unless
/// the policy maps it too; every other pixel takes the evaluated value.
pub open spec fn spec_mapped_cell(
    input: Option<i64>,
    evaluated: Option<i64>,
    map_no_data: bool,
) -> Option<i64> {
    if input is None && !map_no_data {
        None
    } else {
        evaluated
    }
}

/// Whether `out` is `tile` with its pixels replaced by the evaluated
/// values under the no-data policy, everything else kept.
pub open spec fn spec_mapped_tile(
    out: RasterTile2D,
    tile: RasterTile2D,
    evaluated: Seq<Option<i64>>,
    map_no_data: bool,
) -> bool {
    &&& out.wf()
    &&& out.time == tile.time
    &&& out.tile_position == tile.tile_position
    &&& out.band == tile.band
    &&& out.global_geo_transform == tile.global_geo_transform
    &&& out.cache_hint == tile.cache_hint
    &&& out.grid_array.spec_shape() == tile.grid_array.spec_shape()
    &&& forall|row: int, col: int|
        0 <= row < tile.grid_array.spec_shape().rows && 0 <= col
            < tile.grid_array.spec_shape().cols ==> #[trigger] out.grid_array.spec_value_at(
            row,
            col,
        ) == spec_mapped_cell(
            tile.grid_array.spec_value_at(row, col),
            evaluated[row * tile.grid_array.spec_shape().cols + col],
            map_no_data,
        )
}

/// Rebuilds one tile from the evaluated per-pixel values, keeping the
/// tile's placement, time, band and cache hint.  The evaluated values are
/// supplied row-major, one per pixel; whoever evaluated them is outside
/// this library.
pub fn map_tile_values(tile: &RasterTile2D, evaluated: &Vec<Option<i64>>, map_no_data: bool) -> (r:
    Result<RasterTile2D, Error>)
    requires
        tile.wf(),
    ensures
        r is Ok <==> evaluated@.len() == tile.grid_array.spec_shape().spec_num_pixels(),
        r is Err ==> r == Err::<RasterTile2D, Error>(Error::InvalidGridShape),
        r matches Ok(t) ==> spec_mapped_tile(t, *tile, evaluated@, map_no_data),
{
    let shape = tile.grid_array.shape();
    let total = shape.num_pixels();
    if evaluated.len() != total {
        return Err(Error::InvalidGridShape);
    }
    let mut data: Vec<Option<i64>> = Vec::new();
    let mut row: usize = 0;
    while row < shape.rows
        invariant
            row <= shape.rows,
            tile.wf(),
            shape == tile.grid_array.spec_shape(),
            evaluated@.len() == shape.spec_num_pixels(),
            data@.len() == row * shape.cols,
            forall|rr: int, cc: int|
                0 <= rr < row && 0 <= cc < shape.cols ==> #[trigger] data@[rr * shape.cols + cc]
                    == spec_mapped_cell(
                    tile.grid_array.spec_value_at(rr, cc),
                    evaluated@[rr * shape.cols + cc],
                    map_no_data,
                ),
        decreases shape.rows - row,
    {
        let mut col: usize = 0;
        proof {
            vstd::arithmetic::mul::lemma_mul_upper_bound(
                row as int,
                crate::raster::TILE_EDGE_LIMIT as int,
                shape.cols as int,
                crate::raster::TILE_EDGE_LIMIT as int,
            );
            vstd::arithmetic::mul::lemma_mul_inequality(
                row as int,
                shape.rows as int - 1,
                shape.cols as int,
            );
            assert((shape.rows as int - 1) * shape.cols as int == shape.rows as int
                * shape.cols as int - shape.cols as int) by (nonlinear_arith);
        }
        while col < shape.cols
            invariant
                col <= shape.cols,
                row < shape.rows,
                tile.wf(),
                shape == tile.grid_array.spec_shape(),
                evaluated@.len() == shape.spec_num_pixels(),
                row * shape.cols + shape.cols <= shape.spec_num_pixels(),
                data@.len() == row * shape.cols + col,
                forall|rr: int, cc: int|
                    0 <= rr < row && 0 <= cc < shape.cols ==> #[trigger] data@[rr * shape.cols + cc]
                        == spec_mapped_cell(
                        tile.grid_array.spec_value_at(rr, cc),
                        evaluated@[rr * shape.cols + cc],
                        map_no_data,
                    ),
                forall|cc: int|
                    0 <= cc < col ==> #[trigger] data@[row as int * shape.cols + cc]
                        == spec_mapped_cell(
                        tile.grid_array.spec_value_at(row as int, cc),
                        evaluated@[row as int * shape.cols + cc],
                        map_no_data,
                    ),
            decreases shape.cols - col,
        {
            proof {
                vstd::arithmetic::mul::lemma_mul_upper_bound(
                    row as int,
                    crate::raster::TILE_EDGE_LIMIT as int,
                    shape.cols as int,
                    crate::raster::TILE_EDGE_LIMIT as int,
                );
                vstd::arithmetic::mul::lemma_mul_nonnegative(row as int, shape.cols as int);
            }
            let input = tile.grid_array.value_at(row, col);
            let idx = row * shape.cols + col;
            let cell: Option<i64> = if input.is_none() && !map_no_data {
                None
            } else {
                evaluated[idx]
            };
            data.push(cell);
            proof {
                assert forall|rr: int, cc: int|
                    0 <= rr < row && 0 <= cc < shape.cols implies #[trigger] data@[rr * shape.cols
                    + cc] == spec_mapped_cell(
                    tile.grid_array.spec_value_at(rr, cc),
                    evaluated@[rr * shape.cols + cc],
                    map_no_data,
                ) by {
                    vstd::arithmetic::mul::lemma_mul_inequality(
                        rr,
                        row as int - 1,
                        shape.cols as int,
                    );
                    assert((row as int - 1) * shape.cols as int == row as int * shape.cols as int
                        - shape.cols as int) by (nonlinear_arith);
                    vstd::arithmetic::mul::lemma_mul_nonnegative(rr, shape.cols as int);
                    assert(data@[rr * shape.cols + cc] == data@.drop_last()[rr * shape.cols + cc]);
                }
            }
            col += 1;
        }
        row += 1;
        proof {
            assert(row * shape.cols == (row - 1) * shape.cols + shape.cols) by (nonlinear_arith);
        }
    }
    proof {
        vstd::arithmetic::mul::lemma_mul_is_commutative(
            shape.rows as int,
            shape.cols as int,
        );
    }
    let grid = match Grid2D::new(shape, data) {
        Ok(g) => g,
        Err(_) => {
            // One cell was pushed per pixel.
            proof {
                assert(false);
            }
            return Err(Error::InvalidGridShape);
        },
    };
    let out = RasterTile2D {
        time: tile.time,
        tile_position: tile.tile_position,
        band: tile.band,
        global_geo_transform: tile.global_geo_transform,
        grid_array: GridOrEmpty2D::Grid(grid),
        cache_hint: tile.cache_hint,
    };
    proof {
        assert forall|r0: int, c0: int|
            0 <= r0 < shape.rows && 0 <= c0 < shape.cols implies #[trigger] out.grid_array.spec_value_at(
            r0,
            c0,
        ) == spec_mapped_cell(
            tile.grid_array.spec_value_at(r0, c0),
            evaluated@[r0 * shape.cols + c0],
            map_no_data,
        ) by {
            vstd::arithmetic::mul::lemma_mul_inequality(r0, shape.rows as int - 1, shape.cols as int);
            vstd::arithmetic::mul::lemma_mul_nonnegative(r0, shape.cols as int);
            assert((shape.rows as int - 1) * shape.cols as int == shape.rows as int
                * shape.cols as int - shape.cols as int) by (nonlinear_arith);
        }
    }
    Ok(out)
}

/// Rebuilds a whole tile run from per-tile evaluated values: one output
/// tile per source tile, in source order, each under the no-data policy.
pub fn map_tile_run(
    tiles: &Vec<RasterTile2D>,
    evaluated: &Vec<Vec<Option<i64>>>,
    map_no_data: bool,
) -> (r: Result<Vec<RasterTile2D>, Error>)
    requires
        forall|k: int| 0 <= k < tiles@.len() ==> (#[trigger] tiles@[k]).wf(),
    ensures
        r is Ok <==> (evaluated@.len() == tiles@.len() && forall|k: int|
            0 <= k < tiles@.len() ==> (#[trigger] evaluated@[k])@.len()
                == tiles@[k].grid_array.spec_shape().spec_num_pixels()),
        r is Err ==> r == Err::<Vec<RasterTile2D>, Error>(Error::InvalidGridShape),
        r matches Ok(outs) ==> {
            &&& outs@.len() == tiles@.len()
            &&& forall|k: int|
                0 <= k < tiles@.len() ==> spec_mapped_tile(
                    #[trigger] outs@[k],
                    tiles@[k],
                    evaluated@[k]@,
                    map_no_data,
                )
        },
{
    if evaluated.len() != tiles.len() {
        return Err(Error::InvalidGridShape);
    }
    let mut outs: Vec<RasterTile2D> = Vec::new();
    let mut k: usize = 0;
    while k < tiles.len()
        invariant
            k <= tiles@.len(),
            evaluated@.len() == tiles@.len(),
            forall|q: int| 0 <= q < tiles@.len() ==> (#[trigger] tiles@[q]).wf(),
            outs@.len() == k,
            forall|q: int|
                0 <= q < k ==> spec_mapped_tile(
                    #[trigger] outs@[q],
                    tiles@[q],
                    evaluated@[q]@,
                    map_no_data,
                ),
            forall|q: int|
                0 <= q < k ==> (#[trigger] evaluated@[q])@.len()
                    == tiles@[q].grid_array.spec_shape().spec_num_pixels(),
        decreases tiles@.len() - k,
    {
        let mapped = map_tile_values(&tiles[k], &evaluated[k], map_no_data)?;
        outs.push(mapped);
        k += 1;
    }
    Ok(outs)
}

} // verus!
