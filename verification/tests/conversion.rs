use nusamai::conversion::{
    multilinestring_to_geojson_geometry, multipoint_to_geojson_geometry,
    multipolygon_to_geojson_geometry, Geometry,
};
use nusamai::geometry::{MultiLineString, MultiPoint, MultiPolygon};
use nusamai::pipeline::{
    pool_thread_count, SOURCE_OUTPUT_CHANNEL_BOUND, TRANSFORMER_OUTPUT_CHANNEL_BOUND,
};

#[test]
fn multipolygon_positions_follow_indices() {
    let vertices = [[0.5f64, 1.5, 2.5], [3.0, 4.0, 5.0], [6.0, 7.0, 8.0]];
    let mut mpoly = MultiPolygon::<1, u32>::new();
    mpoly.add_exterior(&[[2], [1], [0], [2]]);
    mpoly.add_exterior(&[[1], [1], [1]]);
    mpoly.add_interior(&[[0]]);
    match multipolygon_to_geojson_geometry(&vertices, &mpoly) {
        Geometry::MultiPolygon(polys) => {
            assert_eq!(
                polys,
                vec![
                    vec![vec![vertices[2], vertices[1], vertices[0], vertices[2]]],
                    vec![
                        vec![vertices[1], vertices[1], vertices[1]],
                        vec![vertices[0]]
                    ],
                ]
            );
        }
        _ => panic!("expected a multi-polygon"),
    }
}

#[test]
fn multilinestring_positions_follow_indices() {
    let vertices = [10u64, 20, 30];
    let mut mls = MultiLineString::<1, u32>::new();
    mls.add_linestring(&[[0], [2]]);
    mls.add_linestring(&[[1]]);
    match multilinestring_to_geojson_geometry(&vertices, &mls) {
        Geometry::MultiLineString(lines) => assert_eq!(lines, vec![vec![10, 30], vec![20]]),
        _ => panic!("expected a multi-line-string"),
    }
}

#[test]
fn multipoint_positions_follow_indices() {
    let vertices = ['a', 'b', 'c'];
    let mut mp = MultiPoint::<1, u32>::new();
    mp.push([2]);
    mp.push([0]);
    mp.push([2]);
    match multipoint_to_geojson_geometry(&vertices, &mp) {
        Geometry::MultiPoint(points) => assert_eq!(points, vec!['c', 'a', 'c']),
        _ => panic!("expected a multi-point"),
    }
    match multipoint_to_geojson_geometry(&vertices, &MultiPoint::new()) {
        Geometry::MultiPoint(points) => assert!(points.is_empty()),
        _ => panic!("expected a multi-point"),
    }
}

#[test]
fn pool_threads_three_per_core() {
    assert_eq!(pool_thread_count(Some(4)), 12);
    assert_eq!(pool_thread_count(Some(1)), 3);
    assert_eq!(pool_thread_count(None), 1);
    assert_eq!(SOURCE_OUTPUT_CHANNEL_BOUND, 10000);
    assert_eq!(TRANSFORMER_OUTPUT_CHANNEL_BOUND, 10000);
}
