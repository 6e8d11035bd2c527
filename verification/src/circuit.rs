use vstd::prelude::*;

use crate::fixed_point_decimal::Dec;
use crate::fixed_point_decimal::lemma_add_exact;
use crate::fixed_point_decimal::lemma_mul_exact;
use crate::point_2d::Point2DDec;
use crate::CIRCUIT_MAX_VERTICES;

verus! {

/// Four-way signed-magnitude comparison `l < r`: negative beats positive;
/// two nonnegative values compare by magnitude; two negative values compare
/// by magnitude in reverse.
pub open spec fn spec_lt(l: Dec, r: Dec) -> bool {
    if l.neg && !r.neg {
        true
    } else if !l.neg && r.neg {
        false
    } else if !l.neg && !r.neg {
        l.val < r.val
    } else {
        l.val > r.val
    }
}

/// Compare `l < r`.
pub fn comp_dec_less_than(l: &Dec, r: &Dec) -> (b: bool)
    ensures
        b == spec_lt(*l, *r),
{
    if l.neg && !r.neg {
        true
    } else if !l.neg && r.neg {
        false
    } else if !l.neg && !r.neg {
        l.val < r.val
    } else {
        l.val > r.val
    }
}

/// On canonical decimals the four-way comparison is exactly the order of the
/// represented values.
pub proof fn lemma_lt_value(l: Dec, r: Dec)
    requires
        l.wf(),
        r.wf(),
    ensures
        spec_lt(l, r) == (l.value() < r.value()),
{
}

/// The signed cross product of edge `a -> b` against `point`, in the decimal
/// algebra:  `(b.x - a.x)*(point.y - a.y) - (b.y - a.y)*(point.x - a.x)`.
pub open spec fn edge_cross(point: Point2DDec, a: Point2DDec, b: Point2DDec) -> Dec {
    Dec::spec_sub(
        Dec::spec_mul(Dec::spec_sub(b.x, a.x), Dec::spec_sub(point.y, a.y)),
        Dec::spec_mul(Dec::spec_sub(b.y, a.y), Dec::spec_sub(point.x, a.x)),
    )
}

/// `point` lies strictly on the negative side of edge `a -> b`.
pub open spec fn edge_outside(point: Point2DDec, a: Point2DDec, b: Point2DDec) -> bool {
    spec_lt(edge_cross(point, a, b), Dec::spec_zero())
}

/// The point-in-polygon predicate over the first `n` slots of `poly`:
/// at least three vertices, and no edge sees the point strictly on its
/// negative side.  Valid for convex polygons in counter-clockwise order;
/// points on an edge count as inside.
pub open spec fn pip_spec(point: Point2DDec, poly: Seq<Point2DDec>, n: int) -> bool {
    &&& 3 <= n <= poly.len()
    &&& forall|i: int|
        0 <= i < n ==> !(#[trigger] edge_outside(point, poly[i], poly[(i + 1) % n]))
}

/// Decide whether `point` lies inside the polygon held in the first
/// `num_vertices` slots of `polygon`.
pub fn is_point_in_polygon(
    point: &Point2DDec,
    polygon: &Vec<Point2DDec>,
    num_vertices: usize,
) -> (r: bool)
    requires
        num_vertices <= polygon.len(),
    ensures
        r == pip_spec(*point, polygon@, num_vertices as int),
{
    if num_vertices < 3 {
        return false;
    }

    let mut outside_count: usize = 0;
    let zero_dec = Dec::zero();

    let n = num_vertices;
    for i in 0..n
        invariant
            3 <= n <= polygon.len(),
            outside_count <= i,
            zero_dec == Dec::spec_zero(),
            (outside_count == 0) == (forall|j: int|
                0 <= j < i ==> !(#[trigger] edge_outside(*point, polygon@[j], polygon@[(j + 1) % (
                n as int)]))),
    {
        let current = polygon[i];
        let next_idx = if i + 1 == n {
            0
        } else {
            i + 1
        };
        assert(next_idx as int == (i + 1) % (n as int)) by {
            if i + 1 == n {
                vstd::arithmetic::div_mod::lemma_mod_self_0(n as int);
            } else {
                vstd::arithmetic::div_mod::lemma_small_mod((i + 1) as nat, n as nat);
            }
        };
        let next = polygon[next_idx];

        let x2_x1 = next.x.sub(current.x);
        let py_y1 = point.y.sub(current.y);
        let y2_y1 = next.y.sub(current.y);
        let px_x1 = point.x.sub(current.x);

        let a = x2_x1.mul_unscaled(py_y1);
        let b = y2_y1.mul_unscaled(px_x1);
        let d_j = a.sub(b);

        assert(d_j == edge_cross(*point, polygon@[i as int], polygon@[(i + 1) % (n as int)]));

        if comp_dec_less_than(&d_j, &zero_dec) {
            outside_count += 1;
            assert(edge_outside(*point, polygon@[i as int], polygon@[(i + 1) % (n as int)]));
        } else {
            assert(!edge_outside(*point, polygon@[i as int], polygon@[(i + 1) % (n as int)]));
        }
    }

    outside_count == 0
}

/// The exact integer cross product of edge `a -> b` against `point`, over the
/// represented (scaled) values.
pub open spec fn exact_cross(point: Point2DDec, a: Point2DDec, b: Point2DDec) -> int {
    (b.x.value() - a.x.value()) * (point.y.value() - a.y.value()) - (b.y.value() - a.y.value()) * (
    point.x.value() - a.x.value())
}

/// Both coordinate magnitudes are at most `m`.
pub open spec fn coord_bounded(p: Point2DDec, m: u128) -> bool {
    p.x.val <= m && p.y.val <= m
}

/// Web-Mercator coordinates at the library's precision stay far below this
/// bound, under which the decimal cross product never saturates.
pub open spec fn cross_safe_bound() -> u128 {
    0x4000000000000000
}

proof fn lemma_add_mag_bound(a: Dec, b: Dec)
    requires
        a.val + b.val <= u128::MAX,
    ensures
        Dec::spec_add(a, b).val <= a.val + b.val,
        Dec::spec_sub(a, b).val <= a.val + b.val,
{
}

proof fn lemma_neg_value(a: Dec)
    ensures
        Dec::spec_neg(a).value() == -a.value(),
        Dec::spec_neg(a).val == a.val,
{
}

proof fn lemma_sub_exact_bounded(a: Dec, b: Dec, m: u128)
    requires
        a.val <= m,
        b.val <= m,
        2 * m <= u128::MAX,
    ensures
        Dec::spec_sub(a, b).value() == a.value() - b.value(),
        Dec::spec_sub(a, b).val <= 2 * m,
{
    lemma_neg_value(b);
    lemma_add_exact(a, Dec::spec_neg(b));
    lemma_add_mag_bound(a, Dec::spec_neg(b));
}

/// Under the coordinate bound, the decimal cross product neither saturates
/// nor wraps: its represented value is the exact integer cross product, and
/// it is canonical.
pub proof fn lemma_cross_exact(point: Point2DDec, a: Point2DDec, b: Point2DDec, m: u128)
    requires
        m <= cross_safe_bound(),
        coord_bounded(point, m),
        coord_bounded(a, m),
        coord_bounded(b, m),
    ensures
        edge_cross(point, a, b).value() == exact_cross(point, a, b),
        edge_cross(point, a, b).wf(),
{
    let dx = Dec::spec_sub(b.x, a.x);
    let py = Dec::spec_sub(point.y, a.y);
    let dy = Dec::spec_sub(b.y, a.y);
    let px = Dec::spec_sub(point.x, a.x);
    lemma_sub_exact_bounded(b.x, a.x, m);
    lemma_sub_exact_bounded(point.y, a.y, m);
    lemma_sub_exact_bounded(b.y, a.y, m);
    lemma_sub_exact_bounded(point.x, a.x, m);

    let lhs = Dec::spec_mul(dx, py);
    let rhs = Dec::spec_mul(dy, px);
    vstd::arithmetic::mul::lemma_mul_upper_bound(dx.val as int, 2 * m, py.val as int, 2 * m);
    vstd::arithmetic::mul::lemma_mul_upper_bound(dy.val as int, 2 * m, px.val as int, 2 * m);
    assert((2 * m) * (2 * m) <= 0x4000_0000_0000_0000_0000_0000_0000_0000) by (nonlinear_arith)
        requires
            m <= 0x4000000000000000,
    ;
    lemma_mul_exact(dx, py);
    lemma_mul_exact(dy, px);
    assert(lhs.value() == dx.value() * py.value());
    assert(rhs.value() == dy.value() * px.value());
    assert(lhs.val == dx.val * py.val && rhs.val == dy.val * px.val);

    lemma_neg_value(rhs);
    lemma_add_exact(lhs, Dec::spec_neg(rhs));
}

/// A point weakly inside every edge half-plane — every exact cross product
/// nonnegative — is reported inside, provided the coordinates stay under the
/// saturation-safe bound.  For a convex polygon in counter-clockwise order
/// the intersection of those half-planes is the convex hull, so this is hull
/// membership in its algebraic form; the geometric reading itself is not
/// formalised here.
pub proof fn lemma_pip_inside_convex(point: Point2DDec, poly: Seq<Point2DDec>, n: int, m: u128)
    requires
        3 <= n <= poly.len(),
        m <= cross_safe_bound(),
        coord_bounded(point, m),
        forall|i: int| 0 <= i < n ==> coord_bounded(#[trigger] poly[i], m),
        forall|i: int| 0 <= i < n ==> #[trigger] exact_cross(point, poly[i], poly[(i + 1) % n]) >= 0,
    ensures
        pip_spec(point, poly, n),
{
    assert forall|i: int| 0 <= i < n implies !(#[trigger] edge_outside(
        point,
        poly[i],
        poly[(i + 1) % n],
    )) by {
        let j = (i + 1) % n;
        vstd::arithmetic::div_mod::lemma_mod_bound(i + 1, n);
        lemma_cross_exact(point, poly[i], poly[j], m);
        lemma_lt_value(edge_cross(point, poly[i], poly[j]), Dec::spec_zero());
    }
}

/// A point strictly on the negative side of some edge half-plane is reported
/// outside, under the same coordinate bound.  For a convex counter-clockwise
/// polygon every point strictly outside the convex hull lies on the negative
/// side of some edge, so this is the algebraic form of being outside the
/// hull; the geometric reading itself is not formalised here.
pub proof fn lemma_pip_outside_convex(point: Point2DDec, poly: Seq<Point2DDec>, n: int, m: u128)
    requires
        3 <= n <= poly.len(),
        m <= cross_safe_bound(),
        coord_bounded(point, m),
        forall|i: int| 0 <= i < n ==> coord_bounded(#[trigger] poly[i], m),
        exists|i: int| 0 <= i < n && #[trigger] exact_cross(point, poly[i], poly[(i + 1) % n]) < 0,
    ensures
        !pip_spec(point, poly, n),
{
    let i = choose|i: int|
        0 <= i < n && #[trigger] exact_cross(point, poly[i], poly[(i + 1) % n]) < 0;
    let j = (i + 1) % n;
    vstd::arithmetic::div_mod::lemma_mod_bound(i + 1, n);
    lemma_cross_exact(point, poly[i], poly[j], m);
    lemma_lt_value(edge_cross(point, poly[i], poly[j]), Dec::spec_zero());
    assert(edge_outside(point, poly[i], poly[j]));
}

/// Fewer than three effective vertices never count as inside.
pub proof fn lemma_pip_needs_three(point: Point2DDec, poly: Seq<Point2DDec>, n: int)
    requires
        n < 3,
    ensures
        !pip_spec(point, poly, n),
{
}

/// The four field elements a vertex contributes to the sponge: magnitude and
/// sign bit of each coordinate.
pub open spec fn slot_absorb(p: Point2DDec) -> Seq<u128> {
    seq![
        p.x.val,
        if p.x.neg {
            1u128
        } else {
            0u128
        },
        p.y.val,
        if p.y.neg {
            1u128
        } else {
            0u128
        },
    ]
}

/// The zero contribution of an inactive slot.
pub open spec fn zero_slot_absorb() -> Seq<u128> {
    seq![0u128, 0u128, 0u128, 0u128]
}

/// The contributions of slots `i..CIRCUIT_MAX_VERTICES`: vertex data for
/// active slots (`i < n`), zeros for the rest.
pub open spec fn absorb_slots(poly: Seq<Point2DDec>, n: int, i: int) -> Seq<u128>
    decreases CIRCUIT_MAX_VERTICES - i,
{
    if i < 0 || i >= CIRCUIT_MAX_VERTICES {
        Seq::empty()
    } else {
        (if i < n {
            slot_absorb(poly[i])
        } else {
            zero_slot_absorb()
        }) + absorb_slots(poly, n, i + 1)
    }
}

/// The full absorption sequence of a polygon commitment: the effective
/// length, then all CIRCUIT_MAX_VERTICES slots.  It depends only on the
/// first `n` slots of `poly`.
pub open spec fn absorb_seq(poly: Seq<Point2DDec>, n: int) -> Seq<u128> {
    seq![n as u128] + absorb_slots(poly, n, 0)
}

/// The polygon commitment: the fixed-parameter Poseidon digest of the
/// absorption sequence.
pub open spec fn commitment_spec(poly: Seq<Point2DDec>, n: int) -> Seq<u8> {
    crate::poseidon::poseidon_of(absorb_seq(poly, n))
}

/// Commit to the polygon held in the first `num_vertices` slots of
/// `polygon`, absorbing the effective length and a constant
/// `4 * CIRCUIT_MAX_VERTICES` coordinate values (zeros for inactive slots)
/// into the fixed-parameter Poseidon sponge.
pub fn hash_polygon(polygon: &Vec<Point2DDec>, num_vertices: usize) -> (r: Vec<u8>)
    requires
        num_vertices <= polygon.len(),
        num_vertices <= CIRCUIT_MAX_VERTICES,
    ensures
        r@ == commitment_spec(polygon@, num_vertices as int),
        r@.len() == 32,
        crate::codec::fr_parses(r@),
{
    let n = num_vertices;
    let mut elems: Vec<u128> = Vec::new();
    elems.push(n as u128);
    assert(elems@ =~= seq![n as u128]);
    for i in 0..CIRCUIT_MAX_VERTICES
        invariant
            n <= polygon.len(),
            n <= CIRCUIT_MAX_VERTICES,
            absorb_seq(polygon@, n as int) =~= elems@ + absorb_slots(polygon@, n as int, i as int),
    {
        let ghost pre = elems@;
        if i < n {
            let v = polygon[i];
            elems.push(v.x.val);
            elems.push(if v.x.neg {
                1u128
            } else {
                0u128
            });
            elems.push(v.y.val);
            elems.push(if v.y.neg {
                1u128
            } else {
                0u128
            });
            assert(elems@ =~= pre + slot_absorb(polygon@[i as int]));
        } else {
            elems.push(0u128);
            elems.push(0u128);
            elems.push(0u128);
            elems.push(0u128);
            assert(elems@ =~= pre + zero_slot_absorb());
        }
        proof {
            assert(absorb_slots(polygon@, n as int, i as int) == (if i < n {
                slot_absorb(polygon@[i as int])
            } else {
                zero_slot_absorb()
            }) + absorb_slots(polygon@, n as int, i + 1));
            assert(absorb_seq(polygon@, n as int) =~= elems@ + absorb_slots(
                polygon@,
                n as int,
                i + 1,
            ));
        }
    }
    assert(absorb_slots(polygon@, n as int, CIRCUIT_MAX_VERTICES as int) == Seq::<
        u128,
    >::empty());
    assert(absorb_seq(polygon@, n as int) =~= elems@);
    crate::poseidon::poseidon_hash_fixed(&elems)
}

proof fn lemma_absorb_slots_ignore_padding(
    p: Seq<Point2DDec>,
    q: Seq<Point2DDec>,
    n: int,
    i: int,
)
    requires
        forall|k: int| 0 <= k < n ==> p[k] == q[k],
    ensures
        absorb_slots(p, n, i) == absorb_slots(q, n, i),
    decreases CIRCUIT_MAX_VERTICES - i,
{
    if 0 <= i < CIRCUIT_MAX_VERTICES {
        lemma_absorb_slots_ignore_padding(p, q, n, i + 1);
    }
}

/// Two polygons that agree on their first `n` slots — however the slots
/// beyond `n` are padded — absorb identically and so share one commitment.
pub proof fn lemma_commitment_ignores_padding(p: Seq<Point2DDec>, q: Seq<Point2DDec>, n: int)
    requires
        forall|k: int| 0 <= k < n ==> p[k] == q[k],
    ensures
        absorb_seq(p, n) == absorb_seq(q, n),
        commitment_spec(p, n) == commitment_spec(q, n),
{
    lemma_absorb_slots_ignore_padding(p, q, n, 0);
}

} // verus!
