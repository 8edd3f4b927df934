use nusamai::geometry::{MultiLineString, MultiPoint, MultiPolygon};

#[test]
fn multipolygon_exteriors_and_holes() {
    let mut mpoly = MultiPolygon::<2, i32>::new();
    assert!(mpoly.is_empty());
    mpoly.add_exterior(&[[0, 0], [10, 0], [10, 10], [0, 10]]);
    mpoly.add_interior(&[[1, 1], [2, 1], [2, 2]]);
    mpoly.add_interior(&[[5, 5], [6, 5], [6, 6]]);
    mpoly.add_exterior(&[[20, 20], [30, 20], [30, 30]]);
    assert_eq!(mpoly.len(), 2);
    assert!(!mpoly.is_empty());
    assert_eq!(mpoly.num_rings(0), 3);
    assert_eq!(mpoly.num_rings(1), 1);
    assert_eq!(mpoly.ring_len(0, 0), 4);
    assert_eq!(mpoly.ring_len(0, 1), 3);
    assert_eq!(mpoly.ring_len(1, 0), 3);
    assert_eq!(mpoly.point(0, 0, 2), [10, 10]);
    assert_eq!(mpoly.point(0, 2, 0), [5, 5]);
    assert_eq!(mpoly.point(1, 0, 1), [30, 20]);
    mpoly.add_interior(&[[21, 21], [22, 21], [22, 22]]);
    assert_eq!(mpoly.num_rings(1), 2);
    assert_eq!(mpoly.point(1, 1, 2), [22, 22]);
    mpoly.clear();
    assert!(mpoly.is_empty());
    assert_eq!(mpoly.len(), 0);
}

#[test]
fn multipolygon_empty_rings_are_kept() {
    let mut mpoly = MultiPolygon::<1, u32>::default();
    mpoly.add_exterior(&[]);
    mpoly.add_interior(&[[3]]);
    assert_eq!(mpoly.len(), 1);
    assert_eq!(mpoly.num_rings(0), 2);
    assert_eq!(mpoly.ring_len(0, 0), 0);
    assert_eq!(mpoly.point(0, 1, 0), [3]);
}

#[test]
fn multilinestring_lines() {
    let mut mls = MultiLineString::<3, u8>::new();
    assert!(mls.is_empty());
    mls.add_linestring(&[[1, 2, 3], [4, 5, 6]]);
    mls.add_linestring(&[]);
    mls.add_linestring(&[[7, 8, 9]]);
    assert_eq!(mls.len(), 3);
    assert_eq!(mls.line_len(0), 2);
    assert_eq!(mls.line_len(1), 0);
    assert_eq!(mls.line_len(2), 1);
    assert_eq!(mls.point(0, 1), [4, 5, 6]);
    assert_eq!(mls.point(2, 0), [7, 8, 9]);
    mls.clear();
    assert_eq!(mls.len(), 0);
    let d = MultiLineString::<3, u8>::default();
    assert!(d.is_empty());
}

#[test]
fn multipoint_points() {
    let mut mp = MultiPoint::<1, u32>::default();
    assert!(mp.is_empty());
    mp.push([7]);
    mp.push([9]);
    assert_eq!(mp.len(), 2);
    assert_eq!(mp.point(1), [9]);
    mp.clear();
    assert!(mp.is_empty());
}
