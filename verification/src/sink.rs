//! The GeoJSON sink: GeoJSON features of a city object, and the framing of
//! the FeatureCollection file that the sink writes.

use vstd::prelude::*;

use crate::conversion::{
    lines_indices_in, lines_positions, multilinestring_indices_in, multilinestring_to_geojson_geometry,
    multipoint_indices_in, multipolygon_indices_in,
    multipoint_to_geojson_geometry, multipolygon_to_geojson_geometry, indices_in, polygons_indices_in,
    polygons_positions, positions, Geometry, GeometryView, lemma_polygons_positions_shape,
    lemma_lines_positions_lookup, lemma_positions_lookup, lemma_indices_in_bound,
};
use crate::geometry::{MultiLineString, MultiPoint, MultiPolygon};

verus! {

/// The geometries of a city object: a shared vertex list and three index
/// geometries whose one-dimensional points are indices into it.
pub struct Geometries<V> {
    pub vertices: Vec<V>,
    pub multipolygon: MultiPolygon<1, u32>,
    pub multilinestring: MultiLineString<1, u32>,
    pub multipoint: MultiPoint<1, u32>,
}

/// A top-level city object: the attribute object of its root feature, and its geometries.
pub struct CityObject<V, P> {
    pub properties: P,
    pub geometries: Geometries<V>,
}

/// A GeoJSON feature: one geometry and the attribute object it carries.
pub struct Feature<V, P> {
    pub geometry: Geometry<V>,
    pub properties: P,
}

impl<V> Geometries<V> {
    /// Whether every index of every geometry names a vertex of the vertex list.
    pub fn has_valid_indices(&self) -> (ok: bool)
        ensures
            ok == geometries_valid(*self),
    {
        let n = self.vertices.len();
        multipolygon_indices_in(n, &self.multipolygon) && multilinestring_indices_in(
            n,
            &self.multilinestring,
        ) && multipoint_indices_in(n, &self.multipoint)
    }
}

/// Every index of every geometry refers to a vertex of the vertex list.
pub open spec fn geometries_valid<V>(g: Geometries<V>) -> bool {
    let n = g.vertices@.len();
    &&& polygons_indices_in(n, g.multipolygon@)
    &&& lines_indices_in(n, g.multilinestring@)
    &&& indices_in(n, g.multipoint@)
}

/// The geometries of the features made for `g`: one per non-empty kind,
/// multi-polygon first, then multi-line-string, then multi-point.
pub open spec fn feature_geometries<V>(g: Geometries<V>) -> Seq<GeometryView<V>> {
    let vs = g.vertices@;
    let polys = if g.multipolygon@.len() > 0 {
        seq![GeometryView::MultiPolygon(polygons_positions(vs, g.multipolygon@))]
    } else {
        Seq::empty()
    };
    let lines = if g.multilinestring@.len() > 0 {
        seq![GeometryView::MultiLineString(lines_positions(vs, g.multilinestring@))]
    } else {
        Seq::empty()
    };
    let points = if g.multipoint@.len() > 0 {
        seq![GeometryView::MultiPoint(positions(vs, g.multipoint@))]
    } else {
        Seq::empty()
    };
    polys + lines + points
}

/// A city object gets one feature per kind of geometry that it has, and
/// none when it has no geometry at all.
pub proof fn lemma_one_feature_per_geometry_kind<V>(g: Geometries<V>)
    ensures
        feature_geometries(g).len() == (if g.multipolygon@.len() > 0 {
            1int
        } else {
            0
        }) + (if g.multilinestring@.len() > 0 {
            1int
        } else {
            0
        }) + (if g.multipoint@.len() > 0 {
            1int
        } else {
            0
        }),
        feature_geometries(g).len() <= 3,
        g.multipolygon@.len() == 0 && g.multilinestring@.len() == 0 && g.multipoint@.len() == 0
            ==> feature_geometries(g).len() == 0,
        g.multipolygon@.len() > 0 ==> feature_geometries(g)[0] is MultiPolygon,
{
}

/// What each feature of a city object holds: the multi-polygon feature
/// (first, when there is one) has every polygon, every ring and every point
/// of the multi-polygon; the multi-line-string feature comes next with every
/// line; the multi-point feature comes last with every point. Each position
/// is the vertex that its index names, and each kind appears at most once.
pub proof fn lemma_feature_geometries_contents<V>(g: Geometries<V>)
    ensures
        ({
            let fs = feature_geometries(g);
            let vs = g.vertices@;
            let mp = g.multipolygon@;
            let ml = g.multilinestring@;
            let pt = g.multipoint@;
            let a: int = if mp.len() > 0 { 1 } else { 0 };
            let b: int = if ml.len() > 0 { 1 } else { 0 };
            let c: int = if pt.len() > 0 { 1 } else { 0 };
            &&& fs.len() == a + b + c
            &&& mp.len() > 0 ==> (fs[0] matches GeometryView::MultiPolygon(polys) && polys.len()
                == mp.len() && (forall|p: int|
                0 <= p < mp.len() ==> (#[trigger] polys[p]).len() == mp[p].len()) && (forall|
                p: int,
                r: int,
            | 0 <= p < mp.len() && 0 <= r < mp[p].len() ==> (#[trigger] polys[p][r]).len()
                == mp[p][r].len()) && (forall|p: int, r: int, j: int|
                0 <= p < mp.len() && 0 <= r < mp[p].len() && 0 <= j < mp[p][r].len() ==> (
                #[trigger] polys[p][r][j]) == vs[mp[p][r][j][0] as int]))
            &&& ml.len() > 0 ==> (fs[a] matches GeometryView::MultiLineString(lines) && lines.len()
                == ml.len() && (forall|i: int|
                0 <= i < ml.len() ==> (#[trigger] lines[i]).len() == ml[i].len()) && (forall|
                i: int,
                k: int,
            | 0 <= i < ml.len() && 0 <= k < ml[i].len() ==> (#[trigger] lines[i][k]) == vs[ml[i][k][0] as int]))
            &&& pt.len() > 0 ==> (fs[a + b] matches GeometryView::MultiPoint(points) && points.len()
                == pt.len() && (forall|k: int|
                0 <= k < pt.len() ==> (#[trigger] points[k]) == vs[pt[k][0] as int]))
            &&& forall|i: int| 0 <= i < fs.len() ==> ((#[trigger] fs[i]) is MultiPolygon <==> (mp.len() > 0 && i == 0))
            &&& forall|i: int| 0 <= i < fs.len() ==> ((#[trigger] fs[i]) is MultiLineString <==> (ml.len() > 0 && i == a))
            &&& forall|i: int| 0 <= i < fs.len() ==> ((#[trigger] fs[i]) is MultiPoint <==> (pt.len() > 0 && i == a + b))
        }),
{
    let vs = g.vertices@;
    lemma_polygons_positions_shape(vs, g.multipolygon@);
    lemma_lines_positions_lookup(vs, g.multilinestring@);
    lemma_positions_lookup(vs, g.multipoint@);
}

/// A city object's geometries are valid exactly when every index of every
/// polygon ring, line and point is below the full number of vertices.
pub proof fn lemma_geometries_valid_bound<V>(g: Geometries<V>)
    ensures
        geometries_valid(g) <==> {
            let n = g.vertices@.len();
            let mp = g.multipolygon@;
            let ml = g.multilinestring@;
            let pt = g.multipoint@;
            &&& forall|p: int, r: int, j: int|
                0 <= p < mp.len() && 0 <= r < mp[p].len() && 0 <= j < mp[p][r].len() ==> (
                #[trigger] mp[p][r][j])[0] < n
            &&& forall|i: int, k: int|
                0 <= i < ml.len() && 0 <= k < ml[i].len() ==> (#[trigger] ml[i][k])[0] < n
            &&& forall|k: int| 0 <= k < pt.len() ==> (#[trigger] pt[k])[0] < n
        },
{
    lemma_indices_in_bound(
        g.vertices@.len(),
        g.multipoint@,
        g.multilinestring@,
        g.multipolygon@,
    );
}

/// Creates the GeoJSON features of a top-level city object: one feature for
/// each of its multi-polygon, multi-line-string and multi-point that is not
/// empty, in that order, each carrying a clone of the object's properties.
pub fn toplevel_cityobj_to_geojson_features<V: Copy, P: Clone>(obj: &CityObject<V, P>) -> (features:
    Vec<Feature<V, P>>)
    requires
        geometries_valid(obj.geometries),
    ensures
        features@.len() == feature_geometries(obj.geometries).len(),
        forall|i: int|
            0 <= i < features@.len() ==> (#[trigger] features@[i]).geometry@ == feature_geometries(
                obj.geometries,
            )[i],
        forall|i: int|
            0 <= i < features@.len() ==> cloned::<P>(
                obj.properties,
                (#[trigger] features@[i]).properties,
            ),
{
    let g = &obj.geometries;
    let ghost expected = feature_geometries(obj.geometries);
    let mut features: Vec<Feature<V, P>> = Vec::new();
    let ghost mut made: Seq<GeometryView<V>> = Seq::empty();
    if !g.multipolygon.is_empty() {
        let geometry = multipolygon_to_geojson_geometry(g.vertices.as_slice(), &g.multipolygon);
        features.push(Feature { geometry, properties: obj.properties.clone() });
        proof {
            made = made.push(geometry@);
        }
    }
    if !g.multilinestring.is_empty() {
        let geometry = multilinestring_to_geojson_geometry(
            g.vertices.as_slice(),
            &g.multilinestring,
        );
        features.push(Feature { geometry, properties: obj.properties.clone() });
        proof {
            made = made.push(geometry@);
        }
    }
    if !g.multipoint.is_empty() {
        let geometry = multipoint_to_geojson_geometry(g.vertices.as_slice(), &g.multipoint);
        features.push(Feature { geometry, properties: obj.properties.clone() });
        proof {
            made = made.push(geometry@);
        }
    }
    assert(made =~= expected);
    features
}

/// The bytes that open a GeoJSON FeatureCollection:
/// `{"type":"FeatureCollection","features":[`.
pub open spec fn collection_header() -> Seq<u8> {
    seq![
        123u8, 34, 116, 121, 112, 101, 34, 58, 34, 70, 101, 97, 116, 117, 114, 101, 67, 111, 108,
        108, 101, 99, 116, 105, 111, 110, 34, 44, 34, 102, 101, 97, 116, 117, 114, 101, 115, 34, 58,
        91,
    ]
}

/// The bytes that close a GeoJSON FeatureCollection and end the line: `]}` and a newline.
pub open spec fn collection_footer() -> Seq<u8> {
    seq![93u8, 125, 10]
}

/// The separator between two features: `,`.
pub open spec fn feature_separator() -> Seq<u8> {
    seq![44u8]
}

/// The encoded features, separated by commas.
pub open spec fn join_features(features: Seq<Seq<u8>>) -> Seq<u8>
    decreases features.len(),
{
    if features.len() == 0 {
        Seq::empty()
    } else if features.len() == 1 {
        features[0]
    } else {
        join_features(features.drop_last()) + feature_separator() + features.last()
    }
}

/// The whole FeatureCollection document made of the encoded `features`.
pub open spec fn feature_collection(features: Seq<Seq<u8>>) -> Seq<u8> {
    collection_header() + join_features(features) + collection_footer()
}

/// Writes a FeatureCollection one piece at a time: the header, then one
/// chunk per encoded feature, then the footer.
pub struct FeatureCollectionWriter {
    has_features: bool,
    features: Ghost<Seq<Seq<u8>>>,
    emitted: Ghost<Seq<u8>>,
}

impl FeatureCollectionWriter {
    #[verifier::type_invariant]
    closed spec fn inv(self) -> bool {
        &&& self.has_features == (self.features@.len() > 0)
        &&& self.emitted@ == collection_header() + join_features(self.features@)
    }

    /// The encoded features written so far.
    pub closed spec fn written(self) -> Seq<Seq<u8>> {
        self.features@
    }

    /// All bytes handed out so far.
    pub closed spec fn emitted(self) -> Seq<u8> {
        self.emitted@
    }

    /// Starts a FeatureCollection; returns the writer and the header bytes.
    pub fn new() -> (res: (FeatureCollectionWriter, Vec<u8>))
        ensures
            res.0.written() == Seq::<Seq<u8>>::empty(),
            res.1@ == collection_header(),
            res.0.emitted() == res.1@,
    {
        let header: Vec<u8> = vec![
            123u8, 34, 116, 121, 112, 101, 34, 58, 34, 70, 101, 97, 116, 117, 114, 101, 67, 111, 108,
            108, 101, 99, 116, 105, 111, 110, 34, 44, 34, 102, 101, 97, 116, 117, 114, 101, 115, 34,
            58, 91,
        ];
        assert(header@ =~= collection_header());
        assert(join_features(Seq::<Seq<u8>>::empty()) =~= Seq::<u8>::empty());
        assert(collection_header() + Seq::<u8>::empty() =~= collection_header());
        let w = FeatureCollectionWriter {
            has_features: false,
            features: Ghost(Seq::empty()),
            emitted: Ghost(header@),
        };
        (w, header)
    }

    /// The bytes that add one encoded feature: a separating comma unless it
    /// is the first feature, then the feature itself.
    pub fn feature(&mut self, feature: &[u8]) -> (chunk: Vec<u8>)
        ensures
            final(self).written() == old(self).written().push(feature@),
            final(self).emitted() == old(self).emitted() + chunk@,
            chunk@ == if old(self).written().len() == 0 {
                feature@
            } else {
                feature_separator() + feature@
            },
    {
        proof {
            use_type_invariant(&*self);
        }
        let mut chunk: Vec<u8> = Vec::new();
        if self.has_features {
            chunk.push(44u8);
        }
        let mut k: usize = 0;
        let ghost start = chunk@;
        while k < feature.len()
            invariant
                k <= feature@.len(),
                chunk@ == start + feature@.subrange(0, k as int),
            decreases feature@.len() - k,
        {
            chunk.push(feature[k]);
            k = k + 1;
        }
        assert(feature@.subrange(0, feature@.len() as int) =~= feature@);
        let ghost old_features = self.features@;
        let ghost new_features = old_features.push(feature@);
        proof {
            assert(new_features.drop_last() =~= old_features);
            if old_features.len() == 0 {
                assert(join_features(new_features) == feature@);
                assert(chunk@ =~= feature@);
                assert(join_features(old_features) =~= Seq::<u8>::empty());
            } else {
                assert(chunk@ =~= feature_separator() + feature@);
            }
            assert(collection_header() + join_features(new_features) =~= self.emitted@ + chunk@);
        }
        *self = FeatureCollectionWriter {
            has_features: true,
            features: Ghost(new_features),
            emitted: Ghost(self.emitted@ + chunk@),
        };
        chunk
    }

    /// Ends the FeatureCollection; returns the footer bytes. Everything
    /// handed out, footer included, is the FeatureCollection of the written
    /// features.
    pub fn finish(self) -> (footer: Vec<u8>)
        ensures
            footer@ == collection_footer(),
            self.emitted() + footer@ == feature_collection(self.written()),
    {
        proof {
            use_type_invariant(&self);
        }
        let footer: Vec<u8> = vec![93u8, 125, 10];
        assert(footer@ =~= collection_footer());
        assert(self.emitted() + footer@ =~= feature_collection(self.written()));
        footer
    }
}

/// What a sink reports about itself.
pub struct SinkInfo {
    pub name: String,
}

/// Creates GeoJSON sinks.
pub struct GeoJsonSinkProvider {}

impl GeoJsonSinkProvider {
    /// The sink's name, `GeoJSON Sink`.
    pub fn info(&self) -> (info: SinkInfo)
        ensures
            info.name@ == "GeoJSON Sink"@,
    {
        SinkInfo { name: "GeoJSON Sink".to_string() }
    }
}

/// The GeoJSON sink's own state: the feature count it reports when done.
pub struct GeoJsonSink {
    n_features: usize,
}

impl GeoJsonSink {
    /// The feature count the sink reports.
    pub closed spec fn reported_features(self) -> nat {
        self.n_features as nat
    }

    /// The feature count the sink reports.
    pub fn n_features(&self) -> (n: usize)
        ensures
            n == self.reported_features(),
    {
        self.n_features
    }
}

impl Default for GeoJsonSink {
    fn default() -> (s: Self)
        ensures
            s.reported_features() == 0,
    {
        GeoJsonSink { n_features: 0 }
    }
}

} // verus!
