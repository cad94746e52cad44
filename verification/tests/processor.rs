use geoengine_core::aggregator::FeatureAggregationMethod;
use geoengine_core::collections::{FeatureCollection, FeatureData, Fraction, MultiPoint};
use geoengine_core::context::{ChunkByteSize, QueryContextImpl};
use geoengine_core::engine::{
    MockFeatureCollectionSource, MockRasterSource, RasterResultDescriptor,
    TypedRasterQueryProcessor, VectorQueryProcessor,
};
use geoengine_core::primitives::{
    BoundingBox2D, CacheHint, ColumnSelection, Coordinate2D, QueryRectangle, SpatialResolution,
    TimeInterval,
};
use geoengine_core::processor::RasterVectorJoinProcessor;
use geoengine_core::raster::{
    GeoTransform, Grid2D, GridOrEmpty2D, GridIdx2D, GridShape2D, RasterDataType, RasterTile2D,
    TileInformation,
};

fn coord(x: i64, y: i64) -> Coordinate2D {
    Coordinate2D::new(x, y).unwrap()
}

fn tile(time: TimeInterval, tile_col: i64, values: [i64; 6]) -> RasterTile2D {
    let shape = GridShape2D { rows: 3, cols: 2 };
    let data = values.iter().map(|v| Some(*v)).collect::<Vec<_>>();
    let grid = Grid2D::new(shape, data).unwrap();
    RasterTile2D::new_with_tile_info(
        time,
        TileInformation {
            global_geo_transform: GeoTransform::new(coord(0, 0), 1, -1).unwrap(),
            global_tile_position: GridIdx2D { row: 0, col: tile_col },
            tile_size_in_pixels: shape,
        },
        GridOrEmpty2D::Grid(grid),
        CacheHint::max_duration(),
    )
}

fn ratio_cells(c: &FeatureCollection, j: usize) -> Vec<Option<Fraction>> {
    match &c.column_at(j).data {
        FeatureData::Ratio(v) => v.clone(),
        _ => panic!("expected a ratio column"),
    }
}

/// The composed processor: vector source, one raster source, mean
/// aggregation, chunk merging; two time slices come back as one merged
/// chunk of four rows.
#[test]
fn join_processor_end_to_end() {
    let t1 = TimeInterval::new(0, 10).unwrap();
    let t2 = TimeInterval::new(10, 20).unwrap();

    let points = FeatureCollection::from_data(
        vec![
            MultiPoint::new(vec![coord(0, 0), coord(2, 0)]).unwrap(),
            MultiPoint::new(vec![coord(1, 0), coord(3, 0)]).unwrap(),
        ],
        vec![TimeInterval::new(0, 20).unwrap(); 2],
        vec![],
        CacheHint::max_duration(),
    )
    .unwrap();

    let vector_source = MockFeatureCollectionSource::single(points);
    let raster_source = MockRasterSource::new(
        vec![
            tile(t1, 0, [6, 5, 4, 3, 2, 1]),
            tile(t1, 1, [60, 50, 40, 30, 20, 10]),
            tile(t2, 0, [1, 2, 3, 4, 5, 6]),
            tile(t2, 1, [10, 20, 30, 40, 50, 60]),
        ],
        RasterResultDescriptor {
            data_type: RasterDataType::U8,
            bands: 1,
            time: None,
            bbox: None,
            resolution: None,
        },
    );

    let processor = RasterVectorJoinProcessor::new(
        vector_source,
        vec![TypedRasterQueryProcessor::U8(raster_source)],
        vec!["foo".to_owned()],
        FeatureAggregationMethod::Mean,
        false,
    );

    let query: QueryRectangle<BoundingBox2D, ColumnSelection> = QueryRectangle {
        spatial_bounds: BoundingBox2D::new(coord(0, 0), coord(4, 4)).unwrap(),
        time_interval: TimeInterval::new(0, 20).unwrap(),
        spatial_resolution: SpatialResolution::new(1, 1).unwrap(),
        attributes: ColumnSelection::all(),
    };
    let ctx = QueryContextImpl::new(ChunkByteSize::max());

    let chunks = processor.vector_query(&query, &ctx).unwrap();

    // With an unbounded budget the two window chunks merge into one.
    assert_eq!(chunks.len(), 1);
    let merged = &chunks[0];
    assert_eq!(merged.len(), 4);
    assert_eq!(merged.num_cols(), 1);
    assert_eq!(merged.column_at(0).name, "foo");
    assert_eq!(merged.time_at(0), t1);
    assert_eq!(merged.time_at(1), t1);
    assert_eq!(merged.time_at(2), t2);
    assert_eq!(merged.time_at(3), t2);
    assert_eq!(
        ratio_cells(merged, 0),
        vec![
            Some(Fraction { num: 66, den: 2 }),
            Some(Fraction { num: 55, den: 2 }),
            Some(Fraction { num: 11, den: 2 }),
            Some(Fraction { num: 22, den: 2 }),
        ]
    );
}
