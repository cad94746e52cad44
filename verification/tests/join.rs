use geoengine_core::aggregator::{create_feature_aggregator, FeatureAggregationMethod};
use geoengine_core::collections::{FeatureCollection, FeatureData, Fraction, MultiPoint};
use geoengine_core::error::Error;
use geoengine_core::join::VectorRasterJoiner;
use geoengine_core::primitives::{
    BoundingBox2D, CacheHint, ColumnSelection, Coordinate2D, QueryRectangle, SpatialResolution,
    TimeInterval,
};
use geoengine_core::processor::{join_collection_and_tiles, plan_collection_chunk, ChunkPlan};
use geoengine_core::raster::{
    GeoTransform, Grid2D, GridOrEmpty2D, GridShape2D, RasterDataType, RasterTile2D, TileInformation,
};

fn coord(x: i64, y: i64) -> Coordinate2D {
    Coordinate2D::new(x, y).unwrap()
}

fn transform() -> GeoTransform {
    GeoTransform::new(coord(0, 0), 1, -1).unwrap()
}

fn tile(time: TimeInterval, tile_col: i64, values: [i64; 6]) -> RasterTile2D {
    let shape = GridShape2D { rows: 3, cols: 2 };
    let data = values.iter().map(|v| Some(*v)).collect::<Vec<_>>();
    let grid = Grid2D::new(shape, data).unwrap();
    RasterTile2D::new_with_tile_info(
        time,
        TileInformation {
            global_geo_transform: transform(),
            global_tile_position: geoengine_core::raster::GridIdx2D { row: 0, col: tile_col },
            tile_size_in_pixels: shape,
        },
        GridOrEmpty2D::Grid(grid),
        CacheHint::max_duration(),
    )
}

fn two_point_features() -> FeatureCollection {
    // Two features of two points each; the points fall on two neighbouring
    // tiles of the 3x2 tiling.
    let f0 = MultiPoint::new(vec![coord(0, 0), coord(2, 0)]).unwrap();
    let f1 = MultiPoint::new(vec![coord(1, 0), coord(3, 0)]).unwrap();
    FeatureCollection::from_data(
        vec![f0, f1],
        vec![TimeInterval::new(0, 20).unwrap(); 2],
        vec![],
        CacheHint::max_duration(),
    )
    .unwrap()
}

fn ratio_cells(c: &FeatureCollection, j: usize) -> Vec<Option<Fraction>> {
    match &c.column_at(j).data {
        FeatureData::Ratio(v) => v.clone(),
        _ => panic!("expected a ratio column"),
    }
}

fn int_cells(c: &FeatureCollection, j: usize) -> Vec<Option<i64>> {
    match &c.column_at(j).data {
        FeatureData::Int(v) => v.clone(),
        _ => panic!("expected an integer column"),
    }
}

/// Two spatial tiles per time step, two time steps, aggregation by mean:
/// each output window carries the exact mean of the two sampled pixels.
#[test]
fn mean_of_two_tiles_per_time_step() {
    let t1 = TimeInterval::new(0, 10).unwrap();
    let t2 = TimeInterval::new(10, 20).unwrap();
    let tiles = vec![
        tile(t1, 0, [6, 5, 4, 3, 2, 1]),
        tile(t1, 1, [60, 50, 40, 30, 20, 10]),
        tile(t2, 0, [1, 2, 3, 4, 5, 6]),
        tile(t2, 1, [10, 20, 30, 40, 50, 60]),
    ];
    let points = two_point_features();

    let outs = join_collection_and_tiles(
        &points,
        &tiles,
        FeatureAggregationMethod::Mean,
        false,
        "foo",
    )
    .unwrap();

    assert_eq!(outs.len(), 2);

    let first = &outs[0];
    assert_eq!(first.len(), 2);
    assert_eq!(first.time_at(0), t1);
    assert_eq!(first.time_at(1), t1);
    assert_eq!(
        ratio_cells(first, 0),
        vec![
            Some(Fraction { num: 6 + 60, den: 2 }),
            Some(Fraction { num: 5 + 50, den: 2 }),
        ]
    );

    let second = &outs[1];
    assert_eq!(second.len(), 2);
    assert_eq!(second.time_at(0), t2);
    assert_eq!(
        ratio_cells(second, 0),
        vec![
            Some(Fraction { num: 1 + 10, den: 2 }),
            Some(Fraction { num: 2 + 20, den: 2 }),
        ]
    );
}

/// First-value aggregation keeps the first sampled pixel per feature.
#[test]
fn first_value_aggregation() {
    let t1 = TimeInterval::new(0, 10).unwrap();
    let tiles = vec![
        tile(t1, 0, [6, 5, 4, 3, 2, 1]),
        tile(t1, 1, [60, 50, 40, 30, 20, 10]),
    ];
    let points = two_point_features();
    let outs = join_collection_and_tiles(
        &points,
        &tiles,
        FeatureAggregationMethod::First,
        false,
        "v",
    )
    .unwrap();
    assert_eq!(outs.len(), 1);
    assert_eq!(int_cells(&outs[0], 0), vec![Some(6), Some(5)]);
}

/// A query whose time misses every feature is answered without any raster
/// query: the plan short-circuits to the all-null column.
#[test]
fn disjoint_time_skips_the_raster() {
    let points = two_point_features();
    let query: QueryRectangle<BoundingBox2D, ColumnSelection> = QueryRectangle {
        spatial_bounds: BoundingBox2D::new(coord(0, 0), coord(10, 10)).unwrap(),
        time_interval: TimeInterval::new(100, 200).unwrap(),
        spatial_resolution: SpatialResolution::new(1, 1).unwrap(),
        attributes: ColumnSelection::all(),
    };
    let plan = plan_collection_chunk(&points, &query, RasterDataType::U8, "ndvi").unwrap();
    match plan {
        ChunkPlan::SkipRaster(c) => {
            assert_eq!(c.len(), 2);
            assert_eq!(c.num_cols(), 1);
            assert_eq!(c.column_at(0).name, "ndvi");
            assert_eq!(int_cells(&c, 0), vec![None, None]);
            // The rows themselves are untouched.
            assert_eq!(c.time_at(0), TimeInterval::new(0, 20).unwrap());
        }
        ChunkPlan::QueryRaster(_) => panic!("a disjoint query must not reach the raster"),
    }
}

/// An overlapping query does plan a raster query over the intersection.
#[test]
fn overlapping_time_queries_the_raster() {
    let points = two_point_features();
    let query: QueryRectangle<BoundingBox2D, ColumnSelection> = QueryRectangle {
        spatial_bounds: BoundingBox2D::new(coord(0, 0), coord(10, 10)).unwrap(),
        time_interval: TimeInterval::new(5, 200).unwrap(),
        spatial_resolution: SpatialResolution::new(1, 1).unwrap(),
        attributes: ColumnSelection::all(),
    };
    let plan = plan_collection_chunk(&points, &query, RasterDataType::U8, "ndvi").unwrap();
    match plan {
        ChunkPlan::SkipRaster(_) => panic!("an overlapping query must reach the raster"),
        ChunkPlan::QueryRaster(rect) => {
            assert_eq!(rect.time_interval, TimeInterval::new(5, 20).unwrap());
        }
    }
}

/// Flushing a joiner that never saw a tile is the dedicated logic error.
#[test]
fn empty_tile_run_is_the_empty_input_error() {
    let points = two_point_features();
    let r = join_collection_and_tiles(
        &points,
        &vec![],
        FeatureAggregationMethod::Mean,
        false,
        "foo",
    );
    assert!(matches!(r, Err(Error::EmptyInput)));

    let joiner = VectorRasterJoiner::new(FeatureAggregationMethod::Mean, false);
    assert!(matches!(
        joiner.into_collection("foo"),
        Err(Error::EmptyInput)
    ));
}

/// The window filter narrows each surviving row's interval.
#[test]
fn window_narrows_feature_times() {
    let rows = FeatureCollection::from_data(
        vec![
            MultiPoint::single(coord(0, 0)),
            MultiPoint::single(coord(1, 0)),
        ],
        vec![
            TimeInterval::new(0, 15).unwrap(),
            TimeInterval::new(50, 60).unwrap(),
        ],
        vec![],
        CacheHint::max_duration(),
    )
    .unwrap();
    let t1 = TimeInterval::new(10, 20).unwrap();
    let tiles = vec![tile(t1, 0, [6, 5, 4, 3, 2, 1])];
    let outs = join_collection_and_tiles(
        &rows,
        &tiles,
        FeatureAggregationMethod::First,
        false,
        "v",
    )
    .unwrap();
    assert_eq!(outs.len(), 1);
    // Only the first row's interval meets the window, narrowed to [10, 15).
    assert_eq!(outs[0].len(), 1);
    assert_eq!(outs[0].time_at(0), TimeInterval::new(10, 15).unwrap());
}

/// An accumulator that would leave the representable range is an error, not
/// a wrapped value.
#[test]
fn aggregation_overflow_is_reported() {
    let mut agg = create_feature_aggregator(1, FeatureAggregationMethod::Sum, false);
    agg.add_value(0, i64::MAX).unwrap();
    assert!(matches!(agg.add_value(0, 1), Err(Error::NumericOverflow)));
}

/// Null handling: a no-data pixel nulls the feature unless the policy skips
/// no-data, and a feature without any sample stays null.
#[test]
fn null_handling_follows_the_policy() {
    let mut strict = create_feature_aggregator(1, FeatureAggregationMethod::Sum, false);
    strict.add_value(0, 5).unwrap();
    strict.add_null(0);
    match strict.into_data() {
        FeatureData::Int(v) => assert_eq!(v, vec![None]),
        _ => panic!("expected an integer column"),
    }

    let mut lenient = create_feature_aggregator(1, FeatureAggregationMethod::Sum, true);
    lenient.add_value(0, 5).unwrap();
    lenient.add_null(0);
    match lenient.into_data() {
        FeatureData::Int(v) => assert_eq!(v, vec![Some(5)]),
        _ => panic!("expected an integer column"),
    }
}

#[test]
fn empty_geometries_are_rejected() {
    assert!(matches!(
        MultiPoint::new(vec![]),
        Err(Error::EmptyGeometry)
    ));
}

#[test]
fn pixel_lookups_outside_the_tile_are_errors() {
    let t1 = TimeInterval::new(0, 10).unwrap();
    let t = tile(t1, 0, [6, 5, 4, 3, 2, 1]);
    // The tile covers rows 0..3 and columns 0..2 of the global grid.
    assert_eq!(
        t.get_at_grid_index(geoengine_core::raster::GridIdx2D { row: 0, col: 0 }).unwrap(),
        Some(6)
    );
    assert_eq!(
        t.get_at_grid_index(geoengine_core::raster::GridIdx2D { row: 2, col: 1 }).unwrap(),
        Some(1)
    );
    assert!(matches!(
        t.get_at_grid_index(geoengine_core::raster::GridIdx2D { row: 0, col: 2 }),
        Err(Error::GridIndexOutOfBounds)
    ));
    assert!(matches!(
        t.get_at_grid_index(geoengine_core::raster::GridIdx2D { row: -1, col: 0 }),
        Err(Error::GridIndexOutOfBounds)
    ));
}

/// Each emitted window carries the most conservative cache hint of the
/// tiles it saw.
#[test]
fn window_outputs_merge_tile_cache_hints() {
    let t1 = TimeInterval::new(0, 10).unwrap();
    let t2 = TimeInterval::new(10, 20).unwrap();
    let hinted = |time: TimeInterval, col: i64, values: [i64; 6], expires: i64| {
        let mut t = tile(time, col, values);
        t.cache_hint = CacheHint::with_expiration(expires);
        t
    };
    let tiles = vec![
        hinted(t1, 0, [6, 5, 4, 3, 2, 1], 500),
        hinted(t1, 1, [60, 50, 40, 30, 20, 10], 100),
        hinted(t2, 0, [1, 2, 3, 4, 5, 6], 300),
        hinted(t2, 1, [10, 20, 30, 40, 50, 60], 900),
    ];
    let points = two_point_features();
    let outs = join_collection_and_tiles(
        &points,
        &tiles,
        FeatureAggregationMethod::Mean,
        false,
        "foo",
    )
    .unwrap();
    assert_eq!(outs.len(), 2);
    assert_eq!(outs[0].cache_hint().expires, 100);
    assert_eq!(outs[1].cache_hint().expires, 300);
}
