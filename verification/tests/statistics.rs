use geoengine_core::context::{ChunkByteSize, QueryContextImpl};
use geoengine_core::engine::{
    MockRasterSource, RasterQueryProcessor, RasterResultDescriptor, TypedRasterQueryProcessor,
};
use geoengine_core::primitives::{
    BandSelection, CacheHint, Coordinate2D, QueryRectangle, SpatialPartition2D, SpatialResolution,
    TimeInterval,
};
use geoengine_core::raster::{
    GeoTransform, Grid2D, GridOrEmpty2D, GridIdx2D, GridShape2D, RasterDataType, RasterTile2D,
};
use geoengine_core::engine::InitializedRasterOperator;
use geoengine_core::statistics::{
    InitializedProcessorStatistics, ProcessorStatisticsProcessor, StreamStatisticsAdapter,
};

fn coord(x: i64, y: i64) -> Coordinate2D {
    Coordinate2D::new(x, y).unwrap()
}

fn sample_tile(v: i64) -> RasterTile2D {
    let shape = GridShape2D { rows: 1, cols: 2 };
    let grid = Grid2D::new(shape, vec![Some(v), None]).unwrap();
    RasterTile2D::new(
        TimeInterval::new(0, 10).unwrap(),
        GridIdx2D { row: 0, col: 0 },
        0,
        GeoTransform::new(coord(0, 0), 1, -1).unwrap(),
        GridOrEmpty2D::Grid(grid),
        CacheHint::max_duration(),
    )
}

fn source(values: &[i64]) -> MockRasterSource {
    let tiles = values.iter().map(|v| sample_tile(*v)).collect::<Vec<_>>();
    MockRasterSource::new(
        tiles,
        RasterResultDescriptor {
            data_type: RasterDataType::U8,
            bands: 1,
            time: None,
            bbox: None,
            resolution: None,
        },
    )
}

fn query() -> QueryRectangle<SpatialPartition2D, BandSelection> {
    QueryRectangle {
        spatial_bounds: SpatialPartition2D::new(coord(0, 10), coord(10, 0)).unwrap(),
        time_interval: TimeInterval::new(0, 10).unwrap(),
        spatial_resolution: SpatialResolution::new(1, 1).unwrap(),
        attributes: BandSelection::first(),
    }
}

fn times_of(tiles: &[RasterTile2D]) -> Vec<TimeInterval> {
    tiles.iter().map(|t| t.time).collect()
}

#[test]
fn the_adapter_hands_items_back_unchanged() {
    let items = vec![10u32, 20, 30];
    let (forwarded, stats) = StreamStatisticsAdapter::statistics_with_id(items, "q".to_owned());
    assert_eq!(forwarded, vec![10, 20, 30]);
    assert_eq!(stats.count, 3);
    assert_eq!(stats.id, "q");
}

#[test]
fn the_wrapped_processor_emits_the_same_tiles() {
    let ctx = QueryContextImpl::new(ChunkByteSize::max());
    let plain = source(&[1, 2, 3]);
    let wrapped = ProcessorStatisticsProcessor::statistics_with_id(
        source(&[1, 2, 3]),
        "probe".to_owned(),
    );

    let raw = plain.raster_query(&query(), &ctx).unwrap();
    let observed = wrapped.raster_query(&query(), &ctx).unwrap();

    assert_eq!(raw.len(), observed.len());
    assert_eq!(times_of(&raw), times_of(&observed));
    for (a, b) in raw.iter().zip(observed.iter()) {
        assert_eq!(a.band, b.band);
        assert_eq!(a.tile_position, b.tile_position);
        match (&a.grid_array, &b.grid_array) {
            (GridOrEmpty2D::Grid(ga), GridOrEmpty2D::Grid(gb)) => {
                assert_eq!(ga.value_at(0, 0), gb.value_at(0, 0));
                assert_eq!(ga.value_at(0, 1), gb.value_at(0, 1));
            }
            _ => panic!("expected materialized grids"),
        }
    }
}

#[test]
fn the_initialized_decorator_keeps_the_variant() {
    struct FixedOperator {
        descriptor: RasterResultDescriptor,
    }
    impl InitializedRasterOperator for FixedOperator {
        type Proc = MockRasterSource;
        fn result_descriptor(&self) -> RasterResultDescriptor {
            self.descriptor
        }
        fn query_processor(
            &self,
        ) -> Result<TypedRasterQueryProcessor<MockRasterSource>, geoengine_core::error::Error>
        {
            Ok(TypedRasterQueryProcessor::U16(source(&[5])))
        }
    }

    let descriptor = RasterResultDescriptor {
        data_type: RasterDataType::U16,
        bands: 1,
        time: None,
        bbox: None,
        resolution: None,
    };
    let wrapped = InitializedProcessorStatistics::statistics_with_id(
        FixedOperator { descriptor },
        "op".to_owned(),
    );
    assert_eq!(wrapped.result_descriptor(), descriptor);
    let typed = wrapped.query_processor().unwrap();
    assert_eq!(typed.raster_data_type(), RasterDataType::U16);
}

#[test]
fn the_initialized_decorator_forwards_failure() {
    struct FailingOperator {}
    impl InitializedRasterOperator for FailingOperator {
        type Proc = MockRasterSource;
        fn result_descriptor(&self) -> RasterResultDescriptor {
            RasterResultDescriptor {
                data_type: RasterDataType::U8,
                bands: 1,
                time: None,
                bbox: None,
                resolution: None,
            }
        }
        fn query_processor(
            &self,
        ) -> Result<TypedRasterQueryProcessor<MockRasterSource>, geoengine_core::error::Error>
        {
            Err(geoengine_core::error::Error::Cancelled)
        }
    }

    let wrapped = InitializedProcessorStatistics::statistics_with_id(
        FailingOperator {},
        "op".to_owned(),
    );
    assert!(matches!(
        wrapped.query_processor(),
        Err(geoengine_core::error::Error::Cancelled)
    ));
}
