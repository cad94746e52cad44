use geoengine_core::adapters::merge_chunks;
use geoengine_core::collections::{FeatureCollection, MultiPoint};
use geoengine_core::error::Error;
use geoengine_core::primitives::{CacheHint, Coordinate2D, TimeInterval};

fn coord(x: i64, y: i64) -> Coordinate2D {
    Coordinate2D::new(x, y).unwrap()
}

fn chunk(xs: &[i64]) -> FeatureCollection {
    let geometries = xs
        .iter()
        .map(|x| MultiPoint::single(coord(*x, 0)))
        .collect::<Vec<_>>();
    let times = vec![TimeInterval::new(0, 1).unwrap(); xs.len()];
    FeatureCollection::from_data(geometries, times, vec![], CacheHint::max_duration()).unwrap()
}

fn xs_of(c: &FeatureCollection) -> Vec<i64> {
    (0..c.len())
        .map(|i| c.geometry_at(i).point_at(0).x)
        .collect()
}

// Each row of these chunks costs 32 bytes under the size model: 16 for the
// time interval and 16 for the single point.

#[test]
fn merging_preserves_rows_and_honours_the_budget() {
    let chunks = vec![chunk(&[1, 2]), chunk(&[3]), chunk(&[4, 5, 6])];
    let merged = merge_chunks(&chunks, 64).unwrap();
    let mut all = Vec::new();
    for c in &merged {
        assert!(c.byte_size() <= 64 || c.len() == 1);
        assert!(c.len() >= 1);
        all.extend(xs_of(c));
    }
    assert_eq!(all, vec![1, 2, 3, 4, 5, 6]);
    // 32 bytes per row and a 64-byte budget: two rows per output chunk.
    assert_eq!(merged.len(), 3);
    assert_eq!(xs_of(&merged[0]), vec![1, 2]);
    assert_eq!(xs_of(&merged[1]), vec![3, 4]);
    assert_eq!(xs_of(&merged[2]), vec![5, 6]);
}

#[test]
fn unbounded_budget_merges_everything() {
    let chunks = vec![chunk(&[1]), chunk(&[2]), chunk(&[3])];
    let merged = merge_chunks(&chunks, usize::MAX).unwrap();
    assert_eq!(merged.len(), 1);
    assert_eq!(xs_of(&merged[0]), vec![1, 2, 3]);
}

#[test]
fn an_oversized_row_travels_alone() {
    let chunks = vec![chunk(&[1, 2, 3])];
    // A budget below one row's size: every row is its own chunk, each larger
    // than the budget but holding a single row.
    let merged = merge_chunks(&chunks, 1).unwrap();
    assert_eq!(merged.len(), 3);
    for c in &merged {
        assert_eq!(c.len(), 1);
        assert!(c.byte_size() > 1);
    }
}

#[test]
fn empty_input_chunks_contribute_nothing() {
    let chunks = vec![chunk(&[]), chunk(&[7]), chunk(&[])];
    let merged = merge_chunks(&chunks, usize::MAX).unwrap();
    assert_eq!(merged.len(), 1);
    assert_eq!(xs_of(&merged[0]), vec![7]);

    let none: Vec<FeatureCollection> = vec![];
    assert_eq!(merge_chunks(&none, 10).unwrap().len(), 0);
}

#[test]
fn mismatched_schemas_are_rejected() {
    let plain = chunk(&[1]);
    let with_column = plain
        .add_column(
            "v",
            geoengine_core::collections::FeatureData::Int(vec![Some(1)]),
        )
        .unwrap();
    let r = merge_chunks(&vec![plain, with_column], usize::MAX);
    assert!(matches!(r, Err(Error::SchemaMismatch)));
}
