use geoengine_core::collections::{
    Column, FeatureCollection, FeatureData, FeatureDataType, MultiPoint,
};
use geoengine_core::error::Error;
use geoengine_core::primitives::{CacheHint, Coordinate2D, TimeInterval};

fn coord(x: i64, y: i64) -> Coordinate2D {
    Coordinate2D::new(x, y).unwrap()
}

fn point(x: i64, y: i64) -> MultiPoint {
    MultiPoint::single(coord(x, y))
}

fn three_rows() -> FeatureCollection {
    FeatureCollection::from_data(
        vec![point(0, 0), point(1, 1), point(2, 2)],
        vec![
            TimeInterval::new(0, 10).unwrap(),
            TimeInterval::new(10, 20).unwrap(),
            TimeInterval::new(20, 30).unwrap(),
        ],
        vec![
            Column {
                name: "value".to_owned(),
                data: FeatureData::Int(vec![Some(1), None, Some(3)]),
            },
            Column {
                name: "label".to_owned(),
                data: FeatureData::Text(vec![Some("a".to_owned()), Some("b".to_owned()), None]),
            },
        ],
        CacheHint::max_duration(),
    )
    .unwrap()
}

fn int_cells(c: &FeatureCollection, j: usize) -> Vec<Option<i64>> {
    match &c.column_at(j).data {
        FeatureData::Int(v) => v.clone(),
        _ => panic!("expected an integer column"),
    }
}

fn text_cells(c: &FeatureCollection, j: usize) -> Vec<Option<String>> {
    match &c.column_at(j).data {
        FeatureData::Text(v) => v.clone(),
        _ => panic!("expected a text column"),
    }
}

#[test]
fn from_data_validates_lengths_and_names() {
    let bad_times = FeatureCollection::from_data(
        vec![point(0, 0)],
        vec![],
        vec![],
        CacheHint::max_duration(),
    );
    assert!(matches!(bad_times, Err(Error::UnequalColumnLengths)));

    let bad_column = FeatureCollection::from_data(
        vec![point(0, 0)],
        vec![TimeInterval::new(0, 1).unwrap()],
        vec![Column {
            name: "v".to_owned(),
            data: FeatureData::Int(vec![Some(1), Some(2)]),
        }],
        CacheHint::max_duration(),
    );
    assert!(matches!(bad_column, Err(Error::UnequalColumnLengths)));

    let dup_names = FeatureCollection::from_data(
        vec![point(0, 0)],
        vec![TimeInterval::new(0, 1).unwrap()],
        vec![
            Column {
                name: "v".to_owned(),
                data: FeatureData::Int(vec![Some(1)]),
            },
            Column {
                name: "v".to_owned(),
                data: FeatureData::Bool(vec![Some(true)]),
            },
        ],
        CacheHint::max_duration(),
    );
    assert!(matches!(dup_names, Err(Error::ColumnAlreadyExists)));
}

#[test]
fn filter_all_true_preserves_everything() {
    let c = three_rows();
    let filtered = c.filter(vec![true, true, true]).unwrap();
    assert_eq!(filtered.len(), c.len());
    for i in 0..c.len() {
        assert_eq!(filtered.time_at(i), c.time_at(i));
        assert_eq!(
            filtered.geometry_at(i).point_at(0),
            c.geometry_at(i).point_at(0)
        );
    }
    assert_eq!(int_cells(&filtered, 0), int_cells(&c, 0));
    assert_eq!(text_cells(&filtered, 1), text_cells(&c, 1));
    assert_eq!(filtered.column_at(0).name, "value");
    assert_eq!(filtered.cache_hint(), c.cache_hint());
}

#[test]
fn filter_keeps_masked_rows_in_order() {
    let c = three_rows();
    let filtered = c.filter(vec![true, false, true]).unwrap();
    assert_eq!(filtered.len(), 2);
    assert_eq!(filtered.geometry_at(0).point_at(0), coord(0, 0));
    assert_eq!(filtered.geometry_at(1).point_at(0), coord(2, 2));
    assert_eq!(int_cells(&filtered, 0), vec![Some(1), Some(3)]);
    assert_eq!(
        text_cells(&filtered, 1),
        vec![Some("a".to_owned()), None]
    );
}

#[test]
fn filter_rejects_wrong_mask_length() {
    let c = three_rows();
    assert!(matches!(
        c.filter(vec![true]),
        Err(Error::FilterLengthMismatch)
    ));
}

#[test]
fn add_column_validates() {
    let c = three_rows();
    let grown = c
        .add_column("flag", FeatureData::Bool(vec![Some(true), None, Some(false)]))
        .unwrap();
    assert_eq!(grown.num_cols(), 3);
    assert_eq!(grown.column_at(2).name, "flag");

    assert!(matches!(
        c.add_column("value", FeatureData::Int(vec![None, None, None])),
        Err(Error::ColumnAlreadyExists)
    ));
    assert!(matches!(
        c.add_column("other", FeatureData::Int(vec![None])),
        Err(Error::ColumnLengthMismatch)
    ));
}

#[test]
fn replace_time_overwrites_the_whole_column() {
    let c = three_rows();
    let new_times = vec![
        TimeInterval::new(1, 2).unwrap(),
        TimeInterval::new(3, 4).unwrap(),
        TimeInterval::new(5, 6).unwrap(),
    ];
    let replaced = c.replace_time(&new_times).unwrap();
    assert_eq!(replaced.time_at(1), TimeInterval::new(3, 4).unwrap());
    assert!(matches!(
        c.replace_time(&vec![TimeInterval::new(0, 1).unwrap()]),
        Err(Error::ReplaceTimeLengthMismatch)
    ));
}

#[test]
fn hulls_cover_all_rows() {
    let c = three_rows();
    let t = c.time_bounds().unwrap();
    assert_eq!(t.start, 0);
    assert_eq!(t.end, 30);
    let b = c.bbox().unwrap();
    assert_eq!(b.lower_left, coord(0, 0));
    assert_eq!(b.upper_right, coord(2, 2));

    let empty = FeatureCollection::from_data(
        vec![],
        vec![],
        vec![],
        CacheHint::max_duration(),
    )
    .unwrap();
    assert!(empty.time_bounds().is_none());
    assert!(empty.bbox().is_none());
    assert!(empty.is_empty());
}

#[test]
fn concat_and_single_row_access() {
    let c = three_rows();
    let one = c.row_at(1);
    assert_eq!(one.len(), 1);
    assert_eq!(one.geometry_at(0).point_at(0), coord(1, 1));
    assert_eq!(int_cells(&one, 0), vec![None]);

    let both = c.concat_rows(&one).unwrap();
    assert_eq!(both.len(), 4);
    assert_eq!(both.geometry_at(3).point_at(0), coord(1, 1));
    assert_eq!(int_cells(&both, 0), vec![Some(1), None, Some(3), None]);

    let other_schema = FeatureCollection::from_data(
        vec![point(9, 9)],
        vec![TimeInterval::new(0, 1).unwrap()],
        vec![],
        CacheHint::max_duration(),
    )
    .unwrap();
    assert!(matches!(
        c.concat_rows(&other_schema),
        Err(Error::SchemaMismatch)
    ));
}

#[test]
fn byte_size_counts_rows_and_slots() {
    let c = three_rows();
    // Per row: 16 for the time, 16 per point, 9 for the integer slot and 16
    // for the text slot.
    assert_eq!(c.row_byte_size(0), 16 + 16 + 9 + 16);
    assert_eq!(c.byte_size(), 3 * (16 + 16 + 9 + 16));
}
