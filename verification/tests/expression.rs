use geoengine_core::error::Error;
use geoengine_core::expression::{
    initialize_bandwise_expression, map_tile_values, BandwiseExpressionParams,
};
use geoengine_core::engine::RasterResultDescriptor;
use geoengine_core::primitives::{CacheHint, Coordinate2D, TimeInterval};
use geoengine_core::raster::{
    GeoTransform, Grid2D, GridOrEmpty2D, GridIdx2D, GridShape2D, RasterDataType, RasterTile2D,
};

fn tile_with(values: Vec<Option<i64>>) -> RasterTile2D {
    let shape = GridShape2D { rows: 2, cols: 2 };
    let grid = Grid2D::new(shape, values).unwrap();
    RasterTile2D::new(
        TimeInterval::new(0, 10).unwrap(),
        GridIdx2D { row: 0, col: 0 },
        0,
        GeoTransform::new(Coordinate2D::new(0, 0).unwrap(), 1, -1).unwrap(),
        GridOrEmpty2D::Grid(grid),
        CacheHint::max_duration(),
    )
}

fn grid_values(t: &RasterTile2D) -> Vec<Option<i64>> {
    match &t.grid_array {
        GridOrEmpty2D::Grid(g) => vec![
            g.value_at(0, 0),
            g.value_at(0, 1),
            g.value_at(1, 0),
            g.value_at(1, 1),
        ],
        GridOrEmpty2D::Empty(_) => panic!("expected a materialized grid"),
    }
}

#[test]
fn initialization_fixes_the_output_type() {
    let descriptor = RasterResultDescriptor {
        data_type: RasterDataType::U8,
        bands: 2,
        time: None,
        bbox: None,
        resolution: None,
    };
    let initialized = initialize_bandwise_expression(
        BandwiseExpressionParams {
            expression: "2 * x".to_owned(),
            output_type: RasterDataType::I32,
            map_no_data: false,
        },
        &descriptor,
    );
    assert_eq!(initialized.result_descriptor.data_type, RasterDataType::I32);
    assert_eq!(initialized.result_descriptor.bands, 2);
    assert_eq!(initialized.expression, "2 * x");
    assert!(!initialized.map_no_data);
}

#[test]
fn no_data_pixels_stay_unmapped_by_default() {
    let t = tile_with(vec![Some(1), None, Some(3), Some(4)]);
    let evaluated = vec![Some(10), Some(20), Some(30), Some(40)];
    let out = map_tile_values(&t, &evaluated, false).unwrap();
    assert_eq!(grid_values(&out), vec![Some(10), None, Some(30), Some(40)]);
    assert_eq!(out.time, t.time);
    assert_eq!(out.band, t.band);
}

#[test]
fn the_policy_can_map_no_data_pixels_too() {
    let t = tile_with(vec![Some(1), None, Some(3), Some(4)]);
    let evaluated = vec![Some(10), Some(20), Some(30), Some(40)];
    let out = map_tile_values(&t, &evaluated, true).unwrap();
    assert_eq!(
        grid_values(&out),
        vec![Some(10), Some(20), Some(30), Some(40)]
    );
}

#[test]
fn an_evaluation_of_the_wrong_length_is_rejected() {
    let t = tile_with(vec![Some(1), None, Some(3), Some(4)]);
    let r = map_tile_values(&t, &vec![Some(10)], false);
    assert!(matches!(r, Err(Error::InvalidGridShape)));
}

#[test]
fn evaluation_failures_become_no_data() {
    let t = tile_with(vec![Some(1), Some(2), Some(3), Some(4)]);
    let evaluated = vec![Some(10), None, Some(30), None];
    let out = map_tile_values(&t, &evaluated, false).unwrap();
    assert_eq!(grid_values(&out), vec![Some(10), None, Some(30), None]);
}

#[test]
fn a_tile_run_maps_one_output_per_tile_in_order() {
    let tiles = vec![
        tile_with(vec![Some(1), None, Some(3), Some(4)]),
        tile_with(vec![None, Some(6), Some(7), None]),
    ];
    let evaluated = vec![
        vec![Some(10), Some(20), Some(30), Some(40)],
        vec![Some(50), Some(60), Some(70), Some(80)],
    ];
    let outs = geoengine_core::expression::map_tile_run(&tiles, &evaluated, false).unwrap();
    assert_eq!(outs.len(), 2);
    assert_eq!(grid_values(&outs[0]), vec![Some(10), None, Some(30), Some(40)]);
    assert_eq!(grid_values(&outs[1]), vec![None, Some(60), Some(70), None]);

    let short = vec![vec![Some(1)], vec![Some(2)]];
    assert!(matches!(
        geoengine_core::expression::map_tile_run(&tiles, &short, false),
        Err(Error::InvalidGridShape)
    ));
}
