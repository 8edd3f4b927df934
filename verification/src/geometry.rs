//! Compact geometry containers.
//!
//! The points of all members of a multi-geometry are stored in one flat
//! vector, and the boundaries between members are stored as end offsets, so
//! that no vector of vectors (jagged array) is ever allocated.

use vstd::prelude::*;

verus! {

/// The start offset of member `i`, given the exclusive end offsets of all members.
pub open spec fn span_start(ends: Seq<usize>, i: int) -> int {
    if i == 0 {
        0
    } else {
        ends[i - 1] as int
    }
}

/// End offsets that cut a flat sequence of length `total` into consecutive members.
pub open spec fn spans_ok(ends: Seq<usize>, total: int) -> bool {
    &&& forall|i: int, j: int| 0 <= i <= j < ends.len() ==> ends[i] <= ends[j]
    &&& ends.len() == 0 ==> total == 0
    &&& ends.len() > 0 ==> ends.last() == total
}

/// The members cut out of `flat` by `ends`.
pub open spec fn split_spans<A>(flat: Seq<A>, ends: Seq<usize>) -> Seq<Seq<A>> {
    Seq::new(ends.len(), |i: int| flat.subrange(span_start(ends, i), ends[i] as int))
}

/// Appending one member to the flat storage appends it to the split view.
proof fn lemma_split_push<A>(flat: Seq<A>, ends: Seq<usize>, member: Seq<A>)
    requires
        spans_ok(ends, flat.len() as int),
        flat.len() + member.len() <= usize::MAX,
    ensures
        spans_ok(ends.push((flat.len() + member.len()) as usize), (flat.len() + member.len()) as int),
        split_spans(flat + member, ends.push((flat.len() + member.len()) as usize)) =~= split_spans(
            flat,
            ends,
        ).push(member),
{
    let new_flat = flat + member;
    let new_ends = ends.push((flat.len() + member.len()) as usize);
    assert forall|i: int| 0 <= i < ends.len() implies #[trigger] split_spans(new_flat, new_ends)[i]
        =~= split_spans(flat, ends)[i] by {
        assert(ends[i] <= ends.last());
        if i > 0 {
            assert(ends[i - 1] <= ends[i]);
        }
    }
    assert(split_spans(new_flat, new_ends)[ends.len() as int] =~= member);
}

/// Appending one point to the last member of the flat storage.
proof fn lemma_split_extend_last<A>(flat: Seq<A>, ends: Seq<usize>, p: A)
    requires
        spans_ok(ends, flat.len() as int),
        ends.len() > 0,
        flat.len() + 1 <= usize::MAX,
    ensures
        spans_ok(ends.update(ends.len() - 1, (flat.len() + 1) as usize), (flat.len() + 1) as int),
        split_spans(flat.push(p), ends.update(ends.len() - 1, (flat.len() + 1) as usize))
            =~= split_spans(flat, ends).update(
            ends.len() - 1,
            split_spans(flat, ends).last().push(p),
        ),
{
    let n = ends.len() - 1;
    let new_flat = flat.push(p);
    let new_ends = ends.update(n, (flat.len() + 1) as usize);
    assert forall|i: int| 0 <= i < n implies #[trigger] split_spans(new_flat, new_ends)[i]
        =~= split_spans(flat, ends)[i] by {
        assert(ends[i] <= ends[n]);
        if i > 0 {
            assert(ends[i - 1] <= ends[i]);
        }
    }
    if n > 0 {
        assert(ends[n - 1] <= ends[n]);
    }
    assert(split_spans(new_flat, new_ends)[n] =~= split_spans(flat, ends).last().push(p));
}

/// A collection of points.
pub struct MultiPoint<const D: usize, T> {
    coords: Vec<[T; D]>,
}

impl<const D: usize, T> View for MultiPoint<D, T> {
    type V = Seq<[T; D]>;

    closed spec fn view(&self) -> Seq<[T; D]> {
        self.coords@
    }
}

impl<const D: usize, T: Copy> MultiPoint<D, T> {
    /// An empty collection.
    pub fn new() -> (mp: Self)
        ensures
            mp@ == Seq::<[T; D]>::empty(),
    {
        MultiPoint { coords: Vec::new() }
    }

    /// The number of points.
    pub fn len(&self) -> (n: usize)
        ensures
            n == self@.len(),
    {
        self.coords.len()
    }

    /// Whether there are no points.
    pub fn is_empty(&self) -> (b: bool)
        ensures
            b == (self@.len() == 0),
    {
        self.coords.len() == 0
    }

    /// Appends one point.
    pub fn push(&mut self, p: [T; D])
        ensures
            final(self)@ == old(self)@.push(p),
    {
        self.coords.push(p);
    }

    /// The point at position `i`.
    pub fn point(&self, i: usize) -> (p: [T; D])
        requires
            i < self@.len(),
        ensures
            p == self@[i as int],
    {
        self.coords[i]
    }

    /// Removes all points.
    pub fn clear(&mut self)
        ensures
            final(self)@ == Seq::<[T; D]>::empty(),
    {
        self.coords.clear();
    }
}

impl<const D: usize, T: Copy> Default for MultiPoint<D, T> {
    fn default() -> (mp: Self)
        ensures
            mp@ == Seq::<[T; D]>::empty(),
    {
        MultiPoint::new()
    }
}

/// A collection of line strings.
pub struct MultiLineString<const D: usize, T> {
    coords: Vec<[T; D]>,
    ends: Vec<usize>,
}

impl<const D: usize, T> View for MultiLineString<D, T> {
    type V = Seq<Seq<[T; D]>>;

    closed spec fn view(&self) -> Seq<Seq<[T; D]>> {
        split_spans(self.coords@, self.ends@)
    }
}

impl<const D: usize, T> MultiLineString<D, T> {
    #[verifier::type_invariant]
    closed spec fn inv(self) -> bool {
        spans_ok(self.ends@, self.coords@.len() as int)
    }
}

impl<const D: usize, T: Copy> MultiLineString<D, T> {
    /// An empty collection.
    pub fn new() -> (mls: Self)
        ensures
            mls@ == Seq::<Seq<[T; D]>>::empty(),
    {
        let mls = MultiLineString { coords: Vec::new(), ends: Vec::new() };
        assert(mls@ =~= Seq::<Seq<[T; D]>>::empty());
        mls
    }

    /// The number of line strings.
    pub fn len(&self) -> (n: usize)
        ensures
            n == self@.len(),
    {
        self.ends.len()
    }

    /// Whether there are no line strings.
    pub fn is_empty(&self) -> (b: bool)
        ensures
            b == (self@.len() == 0),
    {
        self.ends.len() == 0
    }

    /// Appends a line string made of `points`.
    pub fn add_linestring(&mut self, points: &[[T; D]])
        ensures
            final(self)@ == old(self)@.push(points@),
    {
        proof {
            use_type_invariant(&*self);
        }
        let ghost old_view = self@;
        let ghost old_coords = self.coords@;
        let ghost old_ends = self.ends@;
        let mut this = MultiLineString::new();
        std::mem::swap(&mut this, self);
        let MultiLineString { mut coords, mut ends } = this;
        extend_points(&mut coords, points);
        let total = coords.len();
        proof {
            lemma_split_push(old_coords, old_ends, points@);
        }
        ends.push(total);
        *self = MultiLineString { coords, ends };
    }

    /// The number of points of line string `i`.
    pub fn line_len(&self, i: usize) -> (n: usize)
        requires
            i < self@.len(),
        ensures
            n == self@[i as int].len(),
    {
        proof {
            use_type_invariant(self);
        }
        let start = if i == 0 {
            0
        } else {
            self.ends[i - 1]
        };
        proof {
            if i > 0 {
                assert(self.ends@[i - 1] <= self.ends@[i as int]);
            }
        }
        self.ends[i] - start
    }

    /// Point `j` of line string `i`.
    pub fn point(&self, i: usize, j: usize) -> (p: [T; D])
        requires
            i < self@.len(),
            j < self@[i as int].len(),
        ensures
            p == self@[i as int][j as int],
    {
        proof {
            use_type_invariant(self);
            let n = self.ends@.len() - 1;
            assert(self.ends@[i as int] <= self.ends@[n]);
            if i > 0 {
                assert(self.ends@[i - 1] <= self.ends@[i as int]);
            }
        }
        let start = if i == 0 {
            0
        } else {
            self.ends[i - 1]
        };
        self.coords[start + j]
    }

    /// Removes all line strings.
    pub fn clear(&mut self)
        ensures
            final(self)@ == Seq::<Seq<[T; D]>>::empty(),
    {
        *self = MultiLineString::new();
    }
}

impl<const D: usize, T: Copy> Default for MultiLineString<D, T> {
    fn default() -> (mls: Self)
        ensures
            mls@ == Seq::<Seq<[T; D]>>::empty(),
    {
        MultiLineString::new()
    }
}

/// Appends `points` to `coords`.
fn extend_points<const D: usize, T: Copy>(coords: &mut Vec<[T; D]>, points: &[[T; D]])
    ensures
        final(coords)@ == old(coords)@ + points@,
{
    let ghost start = coords@;
    let mut k: usize = 0;
    while k < points.len()
        invariant
            k <= points@.len(),
            coords@ == start + points@.subrange(0, k as int),
        decreases points@.len() - k,
    {
        coords.push(points[k]);
        k = k + 1;
    }
    assert(points@.subrange(0, points@.len() as int) =~= points@);
}

/// A collection of polygons. Ring 0 of each polygon is its exterior; the
/// rings after it are its interiors (holes).
pub struct MultiPolygon<const D: usize, T> {
    coords: Vec<[T; D]>,
    ring_ends: Vec<usize>,
    poly_ends: Vec<usize>,
}

impl<const D: usize, T> MultiPolygon<D, T> {
    /// The rings of all polygons, in order.
    closed spec fn rings(self) -> Seq<Seq<[T; D]>> {
        split_spans(self.coords@, self.ring_ends@)
    }

    #[verifier::type_invariant]
    closed spec fn inv(self) -> bool {
        &&& spans_ok(self.ring_ends@, self.coords@.len() as int)
        &&& spans_ok(self.poly_ends@, self.ring_ends@.len() as int)
        &&& forall|i: int|
            0 <= i < self.poly_ends@.len() ==> span_start(self.poly_ends@, i)
                < #[trigger] self.poly_ends@[i]
    }
}

impl<const D: usize, T> View for MultiPolygon<D, T> {
    type V = Seq<Seq<Seq<[T; D]>>>;

    closed spec fn view(&self) -> Seq<Seq<Seq<[T; D]>>> {
        split_spans(self.rings(), self.poly_ends@)
    }
}

impl<const D: usize, T: Copy> MultiPolygon<D, T> {
    /// An empty collection.
    pub fn new() -> (mp: Self)
        ensures
            mp@ == Seq::<Seq<Seq<[T; D]>>>::empty(),
    {
        let mp = MultiPolygon { coords: Vec::new(), ring_ends: Vec::new(), poly_ends: Vec::new() };
        assert(mp@ =~= Seq::<Seq<Seq<[T; D]>>>::empty());
        mp
    }

    /// The number of polygons.
    pub fn len(&self) -> (n: usize)
        ensures
            n == self@.len(),
    {
        self.poly_ends.len()
    }

    /// Whether there are no polygons.
    pub fn is_empty(&self) -> (b: bool)
        ensures
            b == (self@.len() == 0),
    {
        self.poly_ends.len() == 0
    }

    /// Starts a new polygon whose exterior ring is made of `points`.
    pub fn add_exterior(&mut self, points: &[[T; D]])
        ensures
            final(self)@ == old(self)@.push(seq![points@]),
    {
        proof {
            use_type_invariant(&*self);
        }
        let ghost old_coords = self.coords@;
        let ghost old_ring_ends = self.ring_ends@;
        let ghost old_rings = self.rings();
        let ghost old_poly_ends = self.poly_ends@;
        let mut this = MultiPolygon::new();
        std::mem::swap(&mut this, self);
        let MultiPolygon { mut coords, mut ring_ends, mut poly_ends } = this;
        extend_points(&mut coords, points);
        let total = coords.len();
        proof {
            lemma_split_push(old_coords, old_ring_ends, points@);
        }
        ring_ends.push(total);
        let n_rings = ring_ends.len();
        proof {
            assert(old_rings + seq![points@] =~= old_rings.push(points@));
            lemma_split_push(old_rings, old_poly_ends, seq![points@]);
        }
        poly_ends.push(n_rings);
        proof {
            assert forall|i: int| 0 <= i < poly_ends@.len() implies span_start(poly_ends@, i)
                < #[trigger] poly_ends@[i] by {
                if i < old_poly_ends.len() {
                    assert(poly_ends@[i] == old_poly_ends[i]);
                    if i > 0 {
                        assert(poly_ends@[i - 1] == old_poly_ends[i - 1]);
                    }
                }
            }
        }
        *self = MultiPolygon { coords, ring_ends, poly_ends };
    }

    /// Adds an interior ring (hole) made of `points` to the last polygon.
    pub fn add_interior(&mut self, points: &[[T; D]])
        requires
            old(self)@.len() > 0,
        ensures
            final(self)@ == old(self)@.update(
                old(self)@.len() - 1,
                old(self)@.last().push(points@),
            ),
    {
        proof {
            use_type_invariant(&*self);
        }
        let ghost old_coords = self.coords@;
        let ghost old_ring_ends = self.ring_ends@;
        let ghost old_rings = self.rings();
        let ghost old_poly_ends = self.poly_ends@;
        let mut this = MultiPolygon::new();
        std::mem::swap(&mut this, self);
        let MultiPolygon { mut coords, mut ring_ends, mut poly_ends } = this;
        extend_points(&mut coords, points);
        let total = coords.len();
        proof {
            lemma_split_push(old_coords, old_ring_ends, points@);
        }
        ring_ends.push(total);
        let n_rings = ring_ends.len();
        let last = poly_ends.len() - 1;
        proof {
            lemma_split_extend_last(old_rings, old_poly_ends, points@);
        }
        poly_ends.set(last, n_rings);
        proof {
            assert forall|i: int| 0 <= i < poly_ends@.len() implies span_start(poly_ends@, i)
                < #[trigger] poly_ends@[i] by {
                if i > 0 {
                    assert(poly_ends@[i - 1] == old_poly_ends[i - 1]);
                }
                if i < last {
                    assert(poly_ends@[i] == old_poly_ends[i]);
                } else {
                    assert(old_poly_ends[i] == old_ring_ends.len());
                }
            }
        }
        *self = MultiPolygon { coords, ring_ends, poly_ends };
    }

    /// The index, among the rings of all polygons, of ring `r` of polygon `p`.
    fn ring_index(&self, p: usize, r: usize) -> (k: usize)
        requires
            p < self@.len(),
            r < self@[p as int].len(),
        ensures
            k < self.rings().len(),
            self.rings()[k as int] == self@[p as int][r as int],
    {
        proof {
            use_type_invariant(self);
            let n = self.poly_ends@.len() - 1;
            assert(self.poly_ends@[p as int] <= self.poly_ends@[n]);
            if p > 0 {
                assert(self.poly_ends@[p - 1] <= self.poly_ends@[p as int]);
            }
        }
        let start = if p == 0 {
            0
        } else {
            self.poly_ends[p - 1]
        };
        start + r
    }

    /// The number of rings of polygon `p`, exterior included; every polygon
    /// has its exterior ring.
    pub fn num_rings(&self, p: usize) -> (n: usize)
        requires
            p < self@.len(),
        ensures
            n == self@[p as int].len(),
            n >= 1,
    {
        proof {
            use_type_invariant(self);
            assert(span_start(self.poly_ends@, p as int) < self.poly_ends@[p as int]);
            if p > 0 {
                assert(self.poly_ends@[p - 1] <= self.poly_ends@[p as int]);
            }
        }
        let start = if p == 0 {
            0
        } else {
            self.poly_ends[p - 1]
        };
        self.poly_ends[p] - start
    }

    /// The number of points of ring `r` of polygon `p`.
    pub fn ring_len(&self, p: usize, r: usize) -> (n: usize)
        requires
            p < self@.len(),
            r < self@[p as int].len(),
        ensures
            n == self@[p as int][r as int].len(),
    {
        proof {
            use_type_invariant(self);
        }
        let k = self.ring_index(p, r);
        proof {
            if k > 0 {
                assert(self.ring_ends@[k - 1] <= self.ring_ends@[k as int]);
            }
        }
        let start = if k == 0 {
            0
        } else {
            self.ring_ends[k - 1]
        };
        self.ring_ends[k] - start
    }

    /// Point `j` of ring `k`, counting the rings of all polygons in order.
    fn ring_point(&self, k: usize, j: usize) -> (pt: [T; D])
        requires
            k < self.rings().len(),
            j < self.rings()[k as int].len(),
        ensures
            pt == self.rings()[k as int][j as int],
    {
        proof {
            use_type_invariant(self);
            let n = self.ring_ends@.len() - 1;
            assert(self.ring_ends@[k as int] <= self.ring_ends@[n]);
            if k > 0 {
                assert(self.ring_ends@[k - 1] <= self.ring_ends@[k as int]);
            }
        }
        let start = if k == 0 {
            0
        } else {
            self.ring_ends[k - 1]
        };
        self.coords[start + j]
    }

    /// Point `j` of ring `r` of polygon `p`.
    pub fn point(&self, p: usize, r: usize, j: usize) -> (pt: [T; D])
        requires
            p < self@.len(),
            r < self@[p as int].len(),
            j < self@[p as int][r as int].len(),
        ensures
            pt == self@[p as int][r as int][j as int],
    {
        let k = self.ring_index(p, r);
        self.ring_point(k, j)
    }

    /// Removes all polygons.
    pub fn clear(&mut self)
        ensures
            final(self)@ == Seq::<Seq<Seq<[T; D]>>>::empty(),
    {
        *self = MultiPolygon::new();
    }
}

impl<const D: usize, T: Copy> Default for MultiPolygon<D, T> {
    fn default() -> (mp: Self)
        ensures
            mp@ == Seq::<Seq<Seq<[T; D]>>>::empty(),
    {
        MultiPolygon::new()
    }
}

} // verus!
