use geoengine_core::compose::{blit, raster_stream_to_composite};
use geoengine_core::error::Error;
use geoengine_core::primitives::{
    BandSelection, CacheHint, Coordinate2D, QueryRectangle, SpatialPartition2D, SpatialResolution,
    TimeInterval,
};
use geoengine_core::raster::{
    GeoTransform, Grid2D, GridIdx2D, GridOrEmpty2D, GridShape2D, RasterTile2D,
};

fn coord(x: i64, y: i64) -> Coordinate2D {
    Coordinate2D::new(x, y).unwrap()
}

fn transform() -> GeoTransform {
    GeoTransform::new(coord(0, 4), 1, -1).unwrap()
}

fn tile(col: i64, values: [i64; 4], expires: i64) -> RasterTile2D {
    let shape = GridShape2D { rows: 2, cols: 2 };
    let grid = Grid2D::new(shape, values.iter().map(|v| Some(*v)).collect()).unwrap();
    RasterTile2D::new(
        TimeInterval::new(0, 10).unwrap(),
        GridIdx2D { row: 0, col },
        0,
        transform(),
        GridOrEmpty2D::Grid(grid),
        CacheHint::with_expiration(expires),
    )
}

fn query(bands: BandSelection) -> QueryRectangle<SpatialPartition2D, BandSelection> {
    QueryRectangle {
        spatial_bounds: SpatialPartition2D::new(coord(0, 4), coord(4, 0)).unwrap(),
        time_interval: TimeInterval::new(0, 10).unwrap(),
        spatial_resolution: SpatialResolution::new(1, 1).unwrap(),
        attributes: bands,
    }
}

fn values(t: &RasterTile2D, shape: (usize, usize)) -> Vec<Option<i64>> {
    match &t.grid_array {
        GridOrEmpty2D::Grid(g) => {
            let mut out = Vec::new();
            for r in 0..shape.0 {
                for c in 0..shape.1 {
                    out.push(g.value_at(r, c));
                }
            }
            out
        }
        GridOrEmpty2D::Empty(_) => panic!("expected a materialized grid"),
    }
}

#[test]
fn blitting_copies_only_covered_pixels() {
    // A 2x4 target at the origin and a 2x2 source placed one tile to the
    // right: only the right half of the target is overwritten.
    let target_shape = GridShape2D { rows: 2, cols: 4 };
    let target = RasterTile2D::new(
        TimeInterval::new(0, 10).unwrap(),
        GridIdx2D { row: 0, col: 0 },
        0,
        transform(),
        GridOrEmpty2D::Empty(target_shape),
        CacheHint::max_duration(),
    );
    // The source lives on the same global pixel grid, two columns over.
    let source_shape = GridShape2D { rows: 2, cols: 2 };
    let source = RasterTile2D::new(
        TimeInterval::new(0, 10).unwrap(),
        GridIdx2D { row: 0, col: 1 },
        0,
        transform(),
        GridOrEmpty2D::Grid(
            Grid2D::new(source_shape, vec![Some(1), Some(2), Some(3), Some(4)]).unwrap(),
        ),
        CacheHint::max_duration(),
    );
    let out = blit(&target, &source).unwrap();
    assert_eq!(
        values(&out, (2, 4)),
        vec![None, None, Some(1), Some(2), None, None, Some(3), Some(4)]
    );
}

#[test]
fn blitting_rejects_a_different_grid() {
    let shape = GridShape2D { rows: 2, cols: 2 };
    let a = RasterTile2D::new(
        TimeInterval::new(0, 10).unwrap(),
        GridIdx2D { row: 0, col: 0 },
        0,
        transform(),
        GridOrEmpty2D::Empty(shape),
        CacheHint::max_duration(),
    );
    let b = RasterTile2D::new(
        TimeInterval::new(0, 10).unwrap(),
        GridIdx2D { row: 0, col: 0 },
        0,
        GeoTransform::new(coord(1, 4), 1, -1).unwrap(),
        GridOrEmpty2D::Empty(shape),
        CacheHint::max_duration(),
    );
    assert!(matches!(blit(&a, &b), Err(Error::GeoTransformMismatch)));
}

#[test]
fn composition_requires_a_single_band() {
    let q = query(BandSelection::first_n(2));
    let r = raster_stream_to_composite(&q, GridShape2D { rows: 2, cols: 4 }, None, &vec![]);
    assert!(matches!(
        r,
        Err(Error::OperationDoesNotSupportMultiBandQueriesYet)
    ));
}

#[test]
fn composition_blits_all_tiles_and_merges_hints() {
    let q = query(BandSelection::first());
    let tiles = vec![tile(0, [1, 2, 3, 4], 500), tile(1, [5, 6, 7, 8], 300)];
    let out = raster_stream_to_composite(
        &q,
        GridShape2D { rows: 2, cols: 4 },
        Some(TimeInterval::new(0, 10).unwrap()),
        &tiles,
    )
    .unwrap();
    assert_eq!(
        values(&out, (2, 4)),
        vec![
            Some(1),
            Some(2),
            Some(5),
            Some(6),
            Some(3),
            Some(4),
            Some(7),
            Some(8)
        ]
    );
    // The hint is the most conservative of all seen tiles'.
    assert_eq!(out.cache_hint.expires, 300);
    assert_eq!(out.time, TimeInterval::new(0, 10).unwrap());
}
