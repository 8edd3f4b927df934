//! Conversion of index geometries into nested GeoJSON coordinate lists.
//!
//! The geometries of a city object refer to their points by index into a
//! shared vertex list. GeoJSON instead spells out every position; these
//! functions look each index up in the vertex list.

use vstd::prelude::*;

use crate::geometry::{MultiLineString, MultiPoint, MultiPolygon};

verus! {

/// The GeoJSON geometry values produced by this crate, with positions of type `V`.
pub enum Geometry<V> {
    MultiPoint(Vec<V>),
    MultiLineString(Vec<Vec<V>>),
    MultiPolygon(Vec<Vec<Vec<V>>>),
}

/// The mathematical content of a [`Geometry`].
pub enum GeometryView<V> {
    MultiPoint(Seq<V>),
    MultiLineString(Seq<Seq<V>>),
    MultiPolygon(Seq<Seq<Seq<V>>>),
}

/// The contents of a vector of vectors.
pub open spec fn nested2<V>(v: Vec<Vec<V>>) -> Seq<Seq<V>> {
    Seq::new(v@.len(), |i: int| v@[i]@)
}

/// The contents of a vector of vectors of vectors.
pub open spec fn nested3<V>(v: Vec<Vec<Vec<V>>>) -> Seq<Seq<Seq<V>>> {
    Seq::new(v@.len(), |i: int| nested2(v@[i]))
}

impl<V> View for Geometry<V> {
    type V = GeometryView<V>;

    open spec fn view(&self) -> GeometryView<V> {
        match self {
            Geometry::MultiPoint(pts) => GeometryView::MultiPoint(pts@),
            Geometry::MultiLineString(lines) => GeometryView::MultiLineString(nested2(*lines)),
            Geometry::MultiPolygon(polys) => GeometryView::MultiPolygon(nested3(*polys)),
        }
    }
}

/// The contents of nested vectors are their elements, level by level:
/// nothing is dropped, added or reordered.
pub proof fn lemma_nested_contents<V>(lines: Vec<Vec<V>>, polys: Vec<Vec<Vec<V>>>)
    ensures
        nested2(lines).len() == lines@.len(),
        forall|i: int| 0 <= i < lines@.len() ==> #[trigger] nested2(lines)[i] == lines@[i]@,
        nested3(polys).len() == polys@.len(),
        forall|p: int| 0 <= p < polys@.len() ==> (#[trigger] nested3(polys)[p]).len() == polys@[p]@.len(),
        forall|p: int, r: int|
            0 <= p < polys@.len() && 0 <= r < polys@[p]@.len() ==> #[trigger] nested3(polys)[p][r]
                == polys@[p]@[r]@,
{
}

/// The vertex that a one-dimensional index point refers to.
pub open spec fn position<V>(vertices: Seq<V>, idx: [u32; 1]) -> V {
    vertices[idx[0] as int]
}

/// Every index of `pts` lies inside a vertex list of length `n`.
pub open spec fn indices_in(n: nat, pts: Seq<[u32; 1]>) -> bool {
    forall|j: int| 0 <= j < pts.len() ==> (#[trigger] pts[j])[0] < n
}

/// The vertices that the index points of `pts` refer to, in order.
pub open spec fn positions<V>(vertices: Seq<V>, pts: Seq<[u32; 1]>) -> Seq<V> {
    pts.map_values(|idx: [u32; 1]| position(vertices, idx))
}

/// Every index of every line lies inside a vertex list of length `n`.
pub open spec fn lines_indices_in(n: nat, lines: Seq<Seq<[u32; 1]>>) -> bool {
    forall|i: int| 0 <= i < lines.len() ==> indices_in(n, #[trigger] lines[i])
}

/// The positions of every line.
pub open spec fn lines_positions<V>(vertices: Seq<V>, lines: Seq<Seq<[u32; 1]>>) -> Seq<Seq<V>> {
    lines.map_values(|line: Seq<[u32; 1]>| positions(vertices, line))
}

/// Every index of every ring of every polygon lies inside a vertex list of length `n`.
pub open spec fn polygons_indices_in(n: nat, polys: Seq<Seq<Seq<[u32; 1]>>>) -> bool {
    forall|i: int| 0 <= i < polys.len() ==> lines_indices_in(n, #[trigger] polys[i])
}

/// The positions of every ring of every polygon.
pub open spec fn polygons_positions<V>(vertices: Seq<V>, polys: Seq<Seq<Seq<[u32; 1]>>>) -> Seq<
    Seq<Seq<V>>,
> {
    polys.map_values(|rings: Seq<Seq<[u32; 1]>>| lines_positions(vertices, rings))
}

/// The conversion keeps the shape of a multi-polygon: as many polygons, each
/// with as many rings, each with as many positions as the ring has index
/// points, and position `j` of a ring is the vertex that index point `j` names.
pub proof fn lemma_polygons_positions_shape<V>(vertices: Seq<V>, polys: Seq<Seq<Seq<[u32; 1]>>>)
    ensures
        polygons_positions(vertices, polys).len() == polys.len(),
        forall|p: int|
            0 <= p < polys.len() ==> (#[trigger] polygons_positions(vertices, polys)[p]).len()
                == polys[p].len(),
        forall|p: int, r: int|
            0 <= p < polys.len() && 0 <= r < polys[p].len() ==> (
            #[trigger] polygons_positions(vertices, polys)[p][r]).len() == polys[p][r].len(),
        forall|p: int, r: int, j: int|
            0 <= p < polys.len() && 0 <= r < polys[p].len() && 0 <= j < polys[p][r].len() ==> (
            #[trigger] polygons_positions(vertices, polys)[p][r][j]) == vertices[polys[p][r][j][0] as int],
{
}

/// Converting a multi-point keeps its length, and position `k` is the
/// vertex that index point `k` names: `vertices[pts[k][0]]`, with the
/// index used in full.
pub proof fn lemma_positions_lookup<V>(vertices: Seq<V>, pts: Seq<[u32; 1]>)
    ensures
        positions(vertices, pts).len() == pts.len(),
        forall|k: int|
            0 <= k < pts.len() ==> #[trigger] positions(vertices, pts)[k] == vertices[pts[k][0] as int],
{
}

/// Converting a multi-line-string keeps the number of lines and the length
/// of each, and position `k` of line `i` is `vertices[lines[i][k][0]]`.
pub proof fn lemma_lines_positions_lookup<V>(vertices: Seq<V>, lines: Seq<Seq<[u32; 1]>>)
    ensures
        lines_positions(vertices, lines).len() == lines.len(),
        forall|i: int|
            0 <= i < lines.len() ==> (#[trigger] lines_positions(vertices, lines)[i]).len()
                == lines[i].len(),
        forall|i: int, k: int|
            0 <= i < lines.len() && 0 <= k < lines[i].len() ==> (
            #[trigger] lines_positions(vertices, lines)[i][k]) == vertices[lines[i][k][0] as int],
{
}

/// A list of `n` vertices covers the index points exactly when every index
/// is below `n`, for a multi-point, a multi-line-string and a multi-polygon.
pub proof fn lemma_indices_in_bound(
    n: nat,
    pts: Seq<[u32; 1]>,
    lines: Seq<Seq<[u32; 1]>>,
    polys: Seq<Seq<Seq<[u32; 1]>>>,
)
    ensures
        indices_in(n, pts) <==> (forall|k: int| 0 <= k < pts.len() ==> (#[trigger] pts[k])[0] < n),
        lines_indices_in(n, lines) <==> (forall|i: int, k: int|
            0 <= i < lines.len() && 0 <= k < lines[i].len() ==> (#[trigger] lines[i][k])[0] < n),
        polygons_indices_in(n, polys) <==> (forall|p: int, r: int, j: int|
            0 <= p < polys.len() && 0 <= r < polys[p].len() && 0 <= j < polys[p][r].len() ==> (
            #[trigger] polys[p][r][j])[0] < n),
{
    if forall|i: int, k: int|
        0 <= i < lines.len() && 0 <= k < lines[i].len() ==> (#[trigger] lines[i][k])[0] < n {
        assert forall|i: int| 0 <= i < lines.len() implies indices_in(n, #[trigger] lines[i]) by {
            assert forall|k: int| 0 <= k < lines[i].len() implies (#[trigger] lines[i][k])[0] < n by {}
        }
    }
    if lines_indices_in(n, lines) {
        assert forall|i: int, k: int| 0 <= i < lines.len() && 0 <= k < lines[i].len() implies (
        #[trigger] lines[i][k])[0] < n by {
            assert(indices_in(n, lines[i]));
        }
    }
    if forall|p: int, r: int, j: int|
        0 <= p < polys.len() && 0 <= r < polys[p].len() && 0 <= j < polys[p][r].len() ==> (
        #[trigger] polys[p][r][j])[0] < n {
        assert forall|p: int| 0 <= p < polys.len() implies lines_indices_in(n, #[trigger] polys[p]) by {
            assert forall|r: int| 0 <= r < polys[p].len() implies indices_in(n, #[trigger] polys[p][r]) by {
                assert forall|j: int| 0 <= j < polys[p][r].len() implies (#[trigger] polys[p][r][j])[0]
                    < n by {}
            }
        }
    }
    if polygons_indices_in(n, polys) {
        assert forall|p: int, r: int, j: int|
            0 <= p < polys.len() && 0 <= r < polys[p].len() && 0 <= j < polys[p][r].len() implies (
            #[trigger] polys[p][r][j])[0] < n by {
            assert(lines_indices_in(n, polys[p]));
            assert(indices_in(n, polys[p][r]));
        }
    }
}

/// Whether every index point of `mpoint` names a vertex of a list of `n` vertices.
pub fn multipoint_indices_in(n: usize, mpoint: &MultiPoint<1, u32>) -> (ok: bool)
    ensures
        ok == indices_in(n as nat, mpoint@),
{
    let len = mpoint.len();
    let mut i: usize = 0;
    while i < len
        invariant
            len == mpoint@.len(),
            i <= len,
            indices_in(n as nat, mpoint@.subrange(0, i as int)),
        decreases len - i,
    {
        let idx = mpoint.point(i);
        if idx[0] as usize >= n {
            assert(!indices_in(n as nat, mpoint@)) by {
                assert(mpoint@[i as int] == idx);
            }
            return false;
        }
        assert(indices_in(n as nat, mpoint@.subrange(0, i + 1))) by {
            assert forall|j: int| 0 <= j < i + 1 implies (#[trigger] mpoint@.subrange(0, i + 1)[j])[0]
                < n by {
                if j < i {
                    assert(mpoint@.subrange(0, i + 1)[j] == mpoint@.subrange(0, i as int)[j]);
                }
            }
        }
        i = i + 1;
    }
    assert(mpoint@.subrange(0, len as int) =~= mpoint@);
    true
}

/// Whether every index point of line string `i` of `mls` names a vertex of a list of `n` vertices.
fn line_indices_in(n: usize, mls: &MultiLineString<1, u32>, i: usize) -> (ok: bool)
    requires
        i < mls@.len(),
    ensures
        ok == indices_in(n as nat, mls@[i as int]),
{
    let len = mls.line_len(i);
    let ghost line = mls@[i as int];
    let mut j: usize = 0;
    while j < len
        invariant
            i < mls@.len(),
            line == mls@[i as int],
            len == line.len(),
            j <= len,
            forall|k: int| 0 <= k < j ==> (#[trigger] line[k])[0] < n,
        decreases len - j,
    {
        let idx = mls.point(i, j);
        if idx[0] as usize >= n {
            assert(line[j as int] == idx);
            return false;
        }
        j = j + 1;
    }
    true
}

/// Whether every index point of `mls` names a vertex of a list of `n` vertices.
pub fn multilinestring_indices_in(n: usize, mls: &MultiLineString<1, u32>) -> (ok: bool)
    ensures
        ok == lines_indices_in(n as nat, mls@),
{
    let len = mls.len();
    let mut i: usize = 0;
    while i < len
        invariant
            len == mls@.len(),
            i <= len,
            forall|k: int| 0 <= k < i ==> indices_in(n as nat, #[trigger] mls@[k]),
        decreases len - i,
    {
        if !line_indices_in(n, mls, i) {
            return false;
        }
        i = i + 1;
    }
    true
}

/// Whether every index point of ring `r` of polygon `p` of `mpoly` names a
/// vertex of a list of `n` vertices.
fn ring_indices_in(n: usize, mpoly: &MultiPolygon<1, u32>, p: usize, r: usize) -> (ok: bool)
    requires
        p < mpoly@.len(),
        r < mpoly@[p as int].len(),
    ensures
        ok == indices_in(n as nat, mpoly@[p as int][r as int]),
{
    let len = mpoly.ring_len(p, r);
    let ghost ring = mpoly@[p as int][r as int];
    let mut j: usize = 0;
    while j < len
        invariant
            p < mpoly@.len(),
            r < mpoly@[p as int].len(),
            ring == mpoly@[p as int][r as int],
            len == ring.len(),
            j <= len,
            forall|k: int| 0 <= k < j ==> (#[trigger] ring[k])[0] < n,
        decreases len - j,
    {
        let idx = mpoly.point(p, r, j);
        if idx[0] as usize >= n {
            assert(ring[j as int] == idx);
            return false;
        }
        j = j + 1;
    }
    true
}

/// Whether every index point of polygon `p` of `mpoly` names a vertex of a list of `n` vertices.
fn polygon_indices_in(n: usize, mpoly: &MultiPolygon<1, u32>, p: usize) -> (ok: bool)
    requires
        p < mpoly@.len(),
    ensures
        ok == lines_indices_in(n as nat, mpoly@[p as int]),
{
    let len = mpoly.num_rings(p);
    let ghost rings = mpoly@[p as int];
    let mut r: usize = 0;
    while r < len
        invariant
            p < mpoly@.len(),
            rings == mpoly@[p as int],
            len == rings.len(),
            r <= len,
            forall|k: int| 0 <= k < r ==> indices_in(n as nat, #[trigger] rings[k]),
        decreases len - r,
    {
        if !ring_indices_in(n, mpoly, p, r) {
            return false;
        }
        r = r + 1;
    }
    true
}

/// Whether every index point of `mpoly` names a vertex of a list of `n` vertices.
pub fn multipolygon_indices_in(n: usize, mpoly: &MultiPolygon<1, u32>) -> (ok: bool)
    ensures
        ok == polygons_indices_in(n as nat, mpoly@),
{
    let len = mpoly.len();
    let mut p: usize = 0;
    while p < len
        invariant
            len == mpoly@.len(),
            p <= len,
            forall|k: int| 0 <= k < p ==> lines_indices_in(n as nat, #[trigger] mpoly@[k]),
        decreases len - p,
    {
        if !polygon_indices_in(n, mpoly, p) {
            return false;
        }
        p = p + 1;
    }
    true
}

/// Looks up the vertex of one index point.
fn lookup<V: Copy>(vertices: &[V], idx: [u32; 1]) -> (v: V)
    requires
        idx[0] < vertices@.len(),
    ensures
        v == position(vertices@, idx),
{
    vertices[idx[0] as usize]
}

/// The positions of the points of a multi-point.
pub fn multipoint_to_geojson_geometry<V: Copy>(vertices: &[V], mpoint: &MultiPoint<1, u32>) -> (g:
    Geometry<V>)
    requires
        indices_in(vertices@.len(), mpoint@),
    ensures
        g@ == GeometryView::MultiPoint(positions(vertices@, mpoint@)),
{
    let n = mpoint.len();
    let mut out: Vec<V> = Vec::new();
    let mut i: usize = 0;
    while i < n
        invariant
            n == mpoint@.len(),
            i <= n,
            indices_in(vertices@.len(), mpoint@),
            out@ =~= positions(vertices@, mpoint@.subrange(0, i as int)),
        decreases n - i,
    {
        let idx = mpoint.point(i);
        assert(mpoint@[i as int][0] < vertices@.len());
        out.push(lookup(vertices, idx));
        i = i + 1;
    }
    assert(mpoint@.subrange(0, n as int) =~= mpoint@);
    Geometry::MultiPoint(out)
}

/// The positions of line string `i` of a multi-line-string.
fn line_positions<V: Copy>(vertices: &[V], mls: &MultiLineString<1, u32>, i: usize) -> (out: Vec<V>)
    requires
        i < mls@.len(),
        indices_in(vertices@.len(), mls@[i as int]),
    ensures
        out@ == positions(vertices@, mls@[i as int]),
{
    let n = mls.line_len(i);
    let ghost line = mls@[i as int];
    let mut out: Vec<V> = Vec::new();
    let mut j: usize = 0;
    while j < n
        invariant
            i < mls@.len(),
            line == mls@[i as int],
            n == line.len(),
            j <= n,
            indices_in(vertices@.len(), line),
            out@ =~= positions(vertices@, line.subrange(0, j as int)),
        decreases n - j,
    {
        let idx = mls.point(i, j);
        assert(line[j as int][0] < vertices@.len());
        out.push(lookup(vertices, idx));
        j = j + 1;
    }
    assert(line.subrange(0, n as int) =~= line);
    out
}

/// The positions of the line strings of a multi-line-string.
pub fn multilinestring_to_geojson_geometry<V: Copy>(
    vertices: &[V],
    mls: &MultiLineString<1, u32>,
) -> (g: Geometry<V>)
    requires
        lines_indices_in(vertices@.len(), mls@),
    ensures
        g@ == GeometryView::MultiLineString(lines_positions(vertices@, mls@)),
{
    let n = mls.len();
    let mut out: Vec<Vec<V>> = Vec::new();
    let mut i: usize = 0;
    while i < n
        invariant
            n == mls@.len(),
            i <= n,
            lines_indices_in(vertices@.len(), mls@),
            nested2(out) =~= lines_positions(vertices@, mls@.subrange(0, i as int)),
        decreases n - i,
    {
        assert(indices_in(vertices@.len(), mls@[i as int]));
        let line = line_positions(vertices, mls, i);
        let ghost prev = nested2(out);
        out.push(line);
        assert(nested2(out) =~= prev.push(line@));
        assert(mls@.subrange(0, i + 1) =~= mls@.subrange(0, i as int).push(mls@[i as int]));
        i = i + 1;
    }
    assert(mls@.subrange(0, n as int) =~= mls@);
    Geometry::MultiLineString(out)
}

/// The positions of ring `r` of polygon `p` of a multi-polygon.
fn ring_positions<V: Copy>(vertices: &[V], mpoly: &MultiPolygon<1, u32>, p: usize, r: usize) -> (out:
    Vec<V>)
    requires
        p < mpoly@.len(),
        r < mpoly@[p as int].len(),
        indices_in(vertices@.len(), mpoly@[p as int][r as int]),
    ensures
        out@ == positions(vertices@, mpoly@[p as int][r as int]),
{
    let n = mpoly.ring_len(p, r);
    let ghost ring = mpoly@[p as int][r as int];
    let mut out: Vec<V> = Vec::new();
    let mut j: usize = 0;
    while j < n
        invariant
            p < mpoly@.len(),
            r < mpoly@[p as int].len(),
            ring == mpoly@[p as int][r as int],
            n == ring.len(),
            j <= n,
            indices_in(vertices@.len(), ring),
            out@ =~= positions(vertices@, ring.subrange(0, j as int)),
        decreases n - j,
    {
        let idx = mpoly.point(p, r, j);
        assert(ring[j as int][0] < vertices@.len());
        out.push(lookup(vertices, idx));
        j = j + 1;
    }
    assert(ring.subrange(0, n as int) =~= ring);
    out
}

/// The positions of the rings of polygon `p` of a multi-polygon.
fn polygon_positions<V: Copy>(vertices: &[V], mpoly: &MultiPolygon<1, u32>, p: usize) -> (out: Vec<
    Vec<V>,
>)
    requires
        p < mpoly@.len(),
        lines_indices_in(vertices@.len(), mpoly@[p as int]),
    ensures
        nested2(out) == lines_positions(vertices@, mpoly@[p as int]),
{
    let n = mpoly.num_rings(p);
    let ghost rings = mpoly@[p as int];
    let mut out: Vec<Vec<V>> = Vec::new();
    let mut r: usize = 0;
    while r < n
        invariant
            p < mpoly@.len(),
            rings == mpoly@[p as int],
            n == rings.len(),
            r <= n,
            lines_indices_in(vertices@.len(), rings),
            nested2(out) =~= lines_positions(vertices@, rings.subrange(0, r as int)),
        decreases n - r,
    {
        assert(indices_in(vertices@.len(), rings[r as int]));
        let ring = ring_positions(vertices, mpoly, p, r);
        let ghost prev = nested2(out);
        out.push(ring);
        assert(nested2(out) =~= prev.push(ring@));
        assert(rings.subrange(0, r + 1) =~= rings.subrange(0, r as int).push(rings[r as int]));
        r = r + 1;
    }
    assert(rings.subrange(0, n as int) =~= rings);
    out
}

/// The positions of the rings of the polygons of a multi-polygon.
pub fn multipolygon_to_geojson_geometry<V: Copy>(
    vertices: &[V],
    mpoly: &MultiPolygon<1, u32>,
) -> (g: Geometry<V>)
    requires
        polygons_indices_in(vertices@.len(), mpoly@),
    ensures
        g@ == GeometryView::MultiPolygon(polygons_positions(vertices@, mpoly@)),
{
    let n = mpoly.len();
    let mut out: Vec<Vec<Vec<V>>> = Vec::new();
    let mut p: usize = 0;
    while p < n
        invariant
            n == mpoly@.len(),
            p <= n,
            polygons_indices_in(vertices@.len(), mpoly@),
            nested3(out) =~= polygons_positions(vertices@, mpoly@.subrange(0, p as int)),
        decreases n - p,
    {
        assert(lines_indices_in(vertices@.len(), mpoly@[p as int]));
        let poly = polygon_positions(vertices, mpoly, p);
        let ghost prev = nested3(out);
        out.push(poly);
        assert(nested3(out) =~= prev.push(nested2(poly)));
        assert(mpoly@.subrange(0, p + 1) =~= mpoly@.subrange(0, p as int).push(mpoly@[p as int]));
        p = p + 1;
    }
    assert(mpoly@.subrange(0, n as int) =~= mpoly@);
    Geometry::MultiPolygon(out)
}

} // verus!
