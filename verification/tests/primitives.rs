use geoengine_core::error::Error;
use geoengine_core::primitives::{
    BandSelection, BoundingBox2D, CacheHint, ColumnSelection, Coordinate2D, PlotSeriesSelection,
    QueryRectangle, SpatialPartition2D, SpatialResolution, TimeInterval,
};

fn coord(x: i64, y: i64) -> Coordinate2D {
    Coordinate2D::new(x, y).unwrap()
}

#[test]
fn band_selection_rejects_duplicates() {
    let r = BandSelection::new(vec![1, 2, 1]);
    assert!(matches!(r, Err(Error::DuplicateBandInQueryBandSelection)));
}

#[test]
fn band_selection_rejects_empty() {
    let r = BandSelection::new(vec![]);
    assert!(matches!(r, Err(Error::QueryBandSelectionMustNotBeEmpty)));
}

#[test]
fn band_selection_accepts_distinct_bands() {
    let b = BandSelection::new(vec![3, 1, 2]).unwrap();
    assert_eq!(b.as_vec(), vec![3, 1, 2]);
    assert_eq!(b.count(), 3);
    assert_eq!(b.as_slice(), &[3, 1, 2]);
}

#[test]
fn band_selection_constructors() {
    assert_eq!(BandSelection::first().as_vec(), vec![0]);
    assert_eq!(BandSelection::default().as_vec(), vec![0]);
    let _ = ColumnSelection::default();
    assert_eq!(BandSelection::first_n(3).as_vec(), vec![0, 1, 2]);
    assert_eq!(BandSelection::new_single(7).as_vec(), vec![7]);
    assert_eq!(BandSelection::new_unchecked(vec![5, 5]).as_vec(), vec![5, 5]);
    let b = BandSelection::new_single(2);
    assert_eq!(b.clone().as_vec(), vec![2]);
}

#[test]
fn time_interval_validation() {
    assert!(TimeInterval::new(0, 10).is_ok());
    assert!(matches!(
        TimeInterval::new(10, 0),
        Err(Error::TimeIntervalStartAfterEnd)
    ));
    let instant = TimeInterval::new_instant(5);
    assert!(instant.is_instant());
    assert_eq!(TimeInterval::new_unchecked(0, 10).start, 0);
}

#[test]
fn time_interval_intersection() {
    let a = TimeInterval::new(0, 10).unwrap();
    let b = TimeInterval::new(5, 20).unwrap();
    let i = a.intersect(&b).unwrap();
    assert_eq!(i.start, 5);
    assert_eq!(i.end, 10);
    assert!(a.intersects(&b));

    // Disjoint, and merely touching half-open intervals, miss each other.
    let c = TimeInterval::new(10, 20).unwrap();
    assert!(a.intersect(&c).is_none());
    let d = TimeInterval::new(30, 40).unwrap();
    assert!(a.intersect(&d).is_none());

    // An instant at a window start still matches the window.
    let t = TimeInterval::new_instant(10);
    assert!(t.intersect(&c).is_some());
    assert!(t.intersect(&a).is_none());
}

#[test]
fn time_interval_intersection_is_idempotent_on_values() {
    let a = TimeInterval::new(0, 10).unwrap();
    let b = TimeInterval::new(5, 20).unwrap();
    let once = a.intersect(&b).unwrap();
    let twice = once.intersect(&b).unwrap();
    assert_eq!(once, twice);

    let instant = TimeInterval::new_instant(5);
    let once = instant.intersect(&b).unwrap();
    let twice = once.intersect(&b).unwrap();
    assert_eq!(once, twice);
}

#[test]
fn cache_hint_merges_conservatively() {
    let mut a = CacheHint::with_expiration(100);
    let b = CacheHint::with_expiration(50);
    a.merge_with(&b);
    assert_eq!(a.expires, 50);
    let mut c = CacheHint::max_duration();
    c.merge_with(&CacheHint::with_expiration(7));
    assert_eq!(c.expires, 7);
}

#[test]
fn bounding_box_intersection() {
    let a = BoundingBox2D::new(coord(0, 0), coord(10, 10)).unwrap();
    let b = BoundingBox2D::new(coord(5, 5), coord(20, 20)).unwrap();
    let i = a.intersection(&b).unwrap();
    assert_eq!(i.lower_left, coord(5, 5));
    assert_eq!(i.upper_right, coord(10, 10));
    let far = BoundingBox2D::new(coord(100, 100), coord(200, 200)).unwrap();
    assert!(a.intersection(&far).is_none());
    assert!(matches!(
        BoundingBox2D::new(coord(10, 10), coord(0, 0)),
        Err(Error::InvalidBoundingBox)
    ));
}

#[test]
fn query_rectangle_band_projection() {
    let query: QueryRectangle<BoundingBox2D, ColumnSelection> = QueryRectangle {
        spatial_bounds: BoundingBox2D::new(coord(0, 0), coord(10, 10)).unwrap(),
        time_interval: TimeInterval::new(0, 100).unwrap(),
        spatial_resolution: SpatialResolution::new(1, 1).unwrap(),
        attributes: ColumnSelection::all(),
    };
    let raster = QueryRectangle::from_qrect_and_bands(&query, BandSelection::first());
    assert_eq!(raster.time_interval, query.time_interval);
    assert_eq!(raster.spatial_bounds.upper_left, coord(0, 10));
    assert_eq!(raster.spatial_bounds.lower_right, coord(10, 0));
    assert_eq!(raster.attributes.as_vec(), vec![0]);

    let reselected = raster.select_bands(BandSelection::new_single(3));
    assert_eq!(reselected.attributes.as_vec(), vec![3]);
    assert_eq!(reselected.spatial_bounds, raster.spatial_bounds);

    let _plots = PlotSeriesSelection::all();
    let partition = SpatialPartition2D::new(coord(0, 10), coord(10, 0)).unwrap();
    assert_eq!(partition.upper_left, coord(0, 10));
}

#[test]
fn value_validation_errors() {
    assert!(matches!(
        SpatialResolution::new(0, 1),
        Err(Error::InvalidSpatialResolution)
    ));
    assert!(matches!(
        Coordinate2D::new(i64::MAX, 0),
        Err(Error::CoordinateOutOfRange)
    ));
    assert_eq!(
        Error::Cancelled.message(),
        "query cancelled"
    );
    assert_eq!(
        Error::EmptyInput.message(),
        "join engine flushed without initialized state"
    );
}
