use nusamai::conversion::Geometry;
use nusamai::geometry::{MultiLineString, MultiPoint, MultiPolygon};
use nusamai::sink::{
    toplevel_cityobj_to_geojson_features, CityObject, FeatureCollectionWriter, Geometries,
    GeoJsonSink, GeoJsonSinkProvider,
};

#[test]
fn test_toplevel_cityobj_multipolygon() {
    let vertices: Vec<[f64; 3]> = vec![
        [0., 0., 111.],
        [5., 0., 111.],
        [5., 5., 111.],
        [0., 5., 111.],
    ];
    let mut mpoly = MultiPolygon::<1, u32>::new();
    mpoly.add_exterior(&[[0], [1], [2], [3], [0]]);
    let geometries = Geometries {
        vertices,
        multipolygon: mpoly,
        multilinestring: Default::default(),
        multipoint: Default::default(),
    };

    let obj = CityObject {
        properties: "dummy".to_string(),
        geometries,
    };

    let geojson_features = toplevel_cityobj_to_geojson_features(&obj);
    assert_eq!(geojson_features.len(), 1);

    let mpoly_geojson = geojson_features.first().unwrap();
    assert_eq!(mpoly_geojson.properties, "dummy");
    if let Geometry::MultiPolygon(rings_list) = &mpoly_geojson.geometry {
        for (i, rings) in rings_list.iter().enumerate() {
            match i {
                0 => {
                    assert_eq!(rings.len(), 1);
                    assert_eq!(
                        rings[0],
                        vec![
                            [0., 0., 111.],
                            [5., 0., 111.],
                            [5., 5., 111.],
                            [0., 5., 111.],
                            [0., 0., 111.]
                        ]
                    );
                }
                _ => unreachable!("Unexpected number of polygons"),
            }
        }
    } else {
        unreachable!("The result is not a GeoJSON MultiPolygon");
    };
}

fn sample_geometries() -> Geometries<[f64; 2]> {
    let vertices: Vec<[f64; 2]> = vec![[0., 0.], [4., 0.], [4., 4.], [0., 4.], [1., 1.], [2., 1.]];
    let mut mpoly = MultiPolygon::<1, u32>::new();
    mpoly.add_exterior(&[[0], [1], [2], [3], [0]]);
    mpoly.add_interior(&[[4], [5], [4]]);
    let mut mls = MultiLineString::<1, u32>::new();
    mls.add_linestring(&[[0], [2]]);
    mls.add_linestring(&[[5], [3], [1]]);
    let mut mpoint = MultiPoint::<1, u32>::new();
    mpoint.push([5]);
    mpoint.push([0]);
    Geometries {
        vertices,
        multipolygon: mpoly,
        multilinestring: mls,
        multipoint: mpoint,
    }
}

#[test]
fn features_one_per_geometry_kind_in_order() {
    let obj = CityObject {
        properties: vec![1u8, 2, 3],
        geometries: sample_geometries(),
    };
    let features = toplevel_cityobj_to_geojson_features(&obj);
    assert_eq!(features.len(), 3);
    for f in &features {
        assert_eq!(f.properties, vec![1u8, 2, 3]);
    }
    match &features[0].geometry {
        Geometry::MultiPolygon(polys) => {
            assert_eq!(polys.len(), 1);
            assert_eq!(
                polys[0],
                vec![
                    vec![[0., 0.], [4., 0.], [4., 4.], [0., 4.], [0., 0.]],
                    vec![[1., 1.], [2., 1.], [1., 1.]],
                ]
            );
        }
        _ => panic!("first feature must be the multi-polygon"),
    }
    match &features[1].geometry {
        Geometry::MultiLineString(lines) => {
            assert_eq!(
                *lines,
                vec![vec![[0., 0.], [4., 4.]], vec![[2., 1.], [0., 4.], [4., 0.]]]
            );
        }
        _ => panic!("second feature must be the multi-line-string"),
    }
    match &features[2].geometry {
        Geometry::MultiPoint(points) => {
            assert_eq!(*points, vec![[2., 1.], [0., 0.]]);
        }
        _ => panic!("third feature must be the multi-point"),
    }
}

#[test]
fn features_skip_empty_geometries() {
    let mut g = sample_geometries();
    g.multipolygon.clear();
    g.multipoint.clear();
    let obj = CityObject {
        properties: 42u32,
        geometries: g,
    };
    let features = toplevel_cityobj_to_geojson_features(&obj);
    assert_eq!(features.len(), 1);
    assert!(matches!(features[0].geometry, Geometry::MultiLineString(_)));
    assert_eq!(features[0].properties, 42);
}

#[test]
fn features_none_without_geometry() {
    let obj = CityObject {
        properties: (),
        geometries: Geometries::<[f64; 3]> {
            vertices: vec![[1., 2., 3.]],
            multipolygon: MultiPolygon::new(),
            multilinestring: MultiLineString::new(),
            multipoint: MultiPoint::new(),
        },
    };
    assert!(toplevel_cityobj_to_geojson_features(&obj).is_empty());
}

#[test]
fn feature_collection_without_features() {
    let (w, header) = FeatureCollectionWriter::new();
    let footer = w.finish();
    let mut doc = header;
    doc.extend_from_slice(&footer);
    assert_eq!(doc, b"{\"type\":\"FeatureCollection\",\"features\":[]}\n".to_vec());
}

#[test]
fn feature_collection_separates_features_with_commas() {
    let (mut w, header) = FeatureCollectionWriter::new();
    assert_eq!(header, b"{\"type\":\"FeatureCollection\",\"features\":[".to_vec());
    let mut doc = header;
    let first = w.feature(b"{\"a\":1}");
    assert_eq!(first, b"{\"a\":1}".to_vec());
    doc.extend_from_slice(&first);
    let second = w.feature(b"{\"b\":2}");
    assert_eq!(second, b",{\"b\":2}".to_vec());
    doc.extend_from_slice(&second);
    let third = w.feature(b"{}");
    assert_eq!(third, b",{}".to_vec());
    doc.extend_from_slice(&third);
    let footer = w.finish();
    assert_eq!(footer, b"]}\n".to_vec());
    doc.extend_from_slice(&footer);
    assert_eq!(
        String::from_utf8(doc).unwrap(),
        "{\"type\":\"FeatureCollection\",\"features\":[{\"a\":1},{\"b\":2},{}]}\n"
    );
}

#[test]
fn provider_info_names_the_sink() {
    let provider = GeoJsonSinkProvider {};
    assert_eq!(provider.info().name, "GeoJSON Sink");
}

#[test]
fn new_sink_has_no_features() {
    let sink = GeoJsonSink::default();
    assert_eq!(sink.n_features(), 0);
}

#[test]
fn index_check_finds_dangling_indices() {
    let g = sample_geometries();
    assert!(g.has_valid_indices());

    let mut bad_point = sample_geometries();
    bad_point.multipoint.push([6]);
    assert!(!bad_point.has_valid_indices());

    let mut bad_line = sample_geometries();
    bad_line.multilinestring.add_linestring(&[[0], [100]]);
    assert!(!bad_line.has_valid_indices());

    let mut bad_ring = sample_geometries();
    bad_ring.multipolygon.add_interior(&[[1], [2], [6]]);
    assert!(!bad_ring.has_valid_indices());

    let mut fewer_vertices = sample_geometries();
    fewer_vertices.vertices.truncate(5);
    assert!(!fewer_vertices.has_valid_indices());
}
