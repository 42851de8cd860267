//! Fixed-point scalar and 3-vector arithmetic for the camera controller.
//!
//! Every scalar is an `i64` holding a real quantity multiplied by
//! [`SCALE`]; a value of `SCALE` stands for `1.0`.  Division always
//! truncates toward zero, mirrored in specifications by [`tdiv`].

use vstd::prelude::*;
use vstd::arithmetic::div_mod::{
    lemma_div_is_ordered, lemma_div_multiples_vanish, lemma_div_nonincreasing,
    lemma_div_pos_is_pos,
};

verus! {

/// Number of fixed-point units in `1.0`.
pub const SCALE: i64 = 1000;

/// Truncating (toward zero) division, the rounding used by all
/// executable division in this crate.  Meaningful for `b > 0`.
pub open spec fn tdiv(a: int, b: int) -> int {
    if a >= 0 {
        a / b
    } else {
        -((-a) / b)
    }
}

/// Truncating division never grows magnitude: a bound on the dividend
/// gives the matching bound on the quotient.
pub proof fn lemma_tdiv_bound(a: int, ab: int, b: int)
    requires
        -ab <= a <= ab,
        b >= 1,
    ensures
        -tdiv(ab, b) <= tdiv(a, b) <= tdiv(ab, b),
        tdiv(ab, b) == ab / b,
{
    if a >= 0 {
        lemma_div_pos_is_pos(a, b);
        lemma_div_is_ordered(a, ab, b);
    } else {
        lemma_div_pos_is_pos(-a, b);
        lemma_div_is_ordered(-a, ab, b);
    }
}

/// Dividing an exact multiple of `b` undoes the multiplication.
pub proof fn lemma_tdiv_exact(x: int, b: int)
    requires
        b >= 1,
    ensures
        tdiv(x * b, b) == x,
{
    if x >= 0 {
        lemma_div_multiples_vanish(x, b);
        assert(x * b == b * x) by (nonlinear_arith);
    } else {
        lemma_div_multiples_vanish(-x, b);
        assert(-(x * b) == b * (-x)) by (nonlinear_arith);
    }
}

/// Bound on a product from bounds on its factors.
pub proof fn lemma_mul_bound(x: int, y: int, xb: int, yb: int)
    by (nonlinear_arith)
    requires
        -xb <= x <= xb,
        -yb <= y <= yb,
        0 <= xb,
        0 <= yb,
    ensures
        -(xb * yb) <= x * y <= xb * yb,
{
}

/// Executable truncating division on `i64`.
pub fn div_trunc(a: i64, b: i64) -> (r: i64)
    requires
        b >= 1,
    ensures
        r as int == tdiv(a as int, b as int),
{
    proof {
        lemma_tdiv_bound(a as int, if a >= 0 { a as int } else { -(a as int) }, b as int);
        lemma_div_nonincreasing(if a >= 0 { a as int } else { -(a as int) }, b as int);
    }
    match a.checked_div(b) {
        Some(q) => q,
        None => 0,
    }
}

/// Executable truncating division on `i128`, for wide intermediates.
pub fn div_trunc_wide(a: i128, b: i128) -> (r: i128)
    requires
        b >= 1,
    ensures
        r as int == tdiv(a as int, b as int),
{
    proof {
        lemma_tdiv_bound(a as int, if a >= 0 { a as int } else { -(a as int) }, b as int);
        lemma_div_nonincreasing(if a >= 0 { a as int } else { -(a as int) }, b as int);
    }
    match a.checked_div(b) {
        Some(q) => q,
        None => 0,
    }
}

/// Sign of a scalar: `1`, `-1` or `0`.
pub fn signum(v: i64) -> (r: i64)
    ensures
        r == sign(v as int),
{
    if v > 0 {
        1
    } else if v < 0 {
        -1
    } else {
        0
    }
}

/// Mathematical sign.
pub open spec fn sign(v: int) -> int {
    if v > 0 {
        1
    } else if v < 0 {
        -1
    } else {
        0
    }
}

/// A camera-local or world-space vector of fixed-point scalars.
#[derive(Clone, Copy, Debug, PartialEq, Eq, Structural)]
pub struct Vec3 {
    pub x: i64,
    pub y: i64,
    pub z: i64,
}

/// Mathematical view of a [`Vec3`]: the same components as unbounded
/// integers.
pub struct V3 {
    pub x: int,
    pub y: int,
    pub z: int,
}

impl View for Vec3 {
    type V = V3;

    open spec fn view(&self) -> V3 {
        V3 { x: self.x as int, y: self.y as int, z: self.z as int }
    }
}

impl Vec3 {
    /// The zero vector.
    pub fn zero() -> (r: Vec3)
        ensures
            r@ == v3_zero(),
    {
        Vec3 { x: 0, y: 0, z: 0 }
    }
}

pub open spec fn v3_zero() -> V3 {
    V3 { x: 0, y: 0, z: 0 }
}

/// All three components bounded by `m` in magnitude.
pub open spec fn bounded3(v: V3, m: int) -> bool {
    &&& -m <= v.x <= m
    &&& -m <= v.y <= m
    &&& -m <= v.z <= m
}

/// Exact (unscaled) integer dot product.
pub open spec fn dot_i(a: V3, b: V3) -> int {
    a.x * b.x + a.y * b.y + a.z * b.z
}

/// Exact (unscaled) integer cross product.
pub open spec fn cross_i(a: V3, b: V3) -> V3 {
    V3 {
        x: a.y * b.z - a.z * b.y,
        y: a.z * b.x - a.x * b.z,
        z: a.x * b.y - a.y * b.x,
    }
}

/// Componentwise sum.
pub open spec fn add_i(a: V3, b: V3) -> V3 {
    V3 { x: a.x + b.x, y: a.y + b.y, z: a.z + b.z }
}

/// Scaling by an exact integer factor.
pub open spec fn scale_i(a: V3, k: int) -> V3 {
    V3 { x: a.x * k, y: a.y * k, z: a.z * k }
}

/// Fixed-point dot product: the exact dot product scaled back down.
pub open spec fn dot_fp(a: V3, b: V3) -> int {
    tdiv(dot_i(a, b), SCALE as int)
}

/// Fixed-point cross product: each exact component scaled back down.
pub open spec fn cross_fp(a: V3, b: V3) -> V3 {
    V3 {
        x: tdiv(a.y * b.z - a.z * b.y, SCALE as int),
        y: tdiv(a.z * b.x - a.x * b.z, SCALE as int),
        z: tdiv(a.x * b.y - a.y * b.x, SCALE as int),
    }
}

/// Componentwise bound on a fixed-point cross product from bounds on
/// its arguments.
pub proof fn lemma_cross_fp_bound(a: V3, b: V3, ab: int, bb: int)
    requires
        bounded3(a, ab),
        bounded3(b, bb),
        0 <= ab,
        0 <= bb,
    ensures
        bounded3(cross_fp(a, b), tdiv(2 * ab * bb, SCALE as int)),
{
    lemma_mul_bound(a.y, b.z, ab, bb);
    lemma_mul_bound(a.z, b.y, ab, bb);
    lemma_mul_bound(a.z, b.x, ab, bb);
    lemma_mul_bound(a.x, b.z, ab, bb);
    lemma_mul_bound(a.x, b.y, ab, bb);
    lemma_mul_bound(a.y, b.x, ab, bb);
    assert(2 * ab * bb == ab * bb + ab * bb) by (nonlinear_arith);
    lemma_tdiv_bound(a.y * b.z - a.z * b.y, 2 * ab * bb, SCALE as int);
    lemma_tdiv_bound(a.z * b.x - a.x * b.z, 2 * ab * bb, SCALE as int);
    lemma_tdiv_bound(a.x * b.y - a.y * b.x, 2 * ab * bb, SCALE as int);
}

/// Bound on a fixed-point dot product from bounds on its arguments.
pub proof fn lemma_dot_fp_bound(a: V3, b: V3, ab: int, bb: int)
    requires
        bounded3(a, ab),
        bounded3(b, bb),
        0 <= ab,
        0 <= bb,
    ensures
        -tdiv(3 * ab * bb, SCALE as int) <= dot_fp(a, b) <= tdiv(3 * ab * bb, SCALE as int),
{
    lemma_mul_bound(a.x, b.x, ab, bb);
    lemma_mul_bound(a.y, b.y, ab, bb);
    lemma_mul_bound(a.z, b.z, ab, bb);
    assert(3 * ab * bb == ab * bb + ab * bb + ab * bb) by (nonlinear_arith);
    lemma_tdiv_bound(dot_i(a, b), 3 * ab * bb, SCALE as int);
}

/// Bound on `x * y / SCALE` when `y` is a unit-range factor
/// (`|y| <= SCALE`, as a sine, cosine or resolved input is).
pub proof fn lemma_fp_mul_unit_bound(x: int, y: int, xb: int)
    requires
        -xb <= x <= xb,
        0 <= xb,
        -(SCALE as int) <= y <= SCALE as int,
    ensures
        -xb <= tdiv(x * y, SCALE as int) <= xb,
{
    lemma_mul_bound(x, y, xb, SCALE as int);
    lemma_tdiv_bound(x * y, xb * (SCALE as int), SCALE as int);
    lemma_tdiv_exact(xb, SCALE as int);
}

/// `r` is the floor of the square root of `n`.
pub open spec fn is_sqrt_floor(n: int, r: int) -> bool {
    &&& 0 <= r
    &&& r * r <= n
    &&& n < (r + 1) * (r + 1)
}

/// Floor of the square root of a non-negative integer.
pub closed spec fn sqrt_floor(n: int) -> int {
    choose|r: int| is_sqrt_floor(n, r)
}

/// Every non-negative integer has a floored square root, and
/// `sqrt_floor` is it.
pub proof fn lemma_sqrt_floor_is(n: int)
    requires
        0 <= n,
    ensures
        is_sqrt_floor(n, sqrt_floor(n)),
    decreases n,
{
    if n == 0 {
        assert(is_sqrt_floor(0, 0));
    } else {
        lemma_sqrt_floor_is(n - 1);
        let r = sqrt_floor(n - 1);
        if (r + 1) * (r + 1) <= n {
            assert(n == (r + 1) * (r + 1));
            assert((r + 1 + 1) * (r + 1 + 1) > (r + 1) * (r + 1)) by (nonlinear_arith)
                requires 0 <= r;
            assert(is_sqrt_floor(n, r + 1));
        } else {
            assert(is_sqrt_floor(n, r));
        }
    }
}

/// The floored square root is unique.
pub proof fn lemma_sqrt_floor_unique(n: int, r: int)
    requires
        0 <= n,
        is_sqrt_floor(n, r),
    ensures
        sqrt_floor(n) == r,
{
    lemma_sqrt_floor_is(n);
    let s = sqrt_floor(n);
    assert(r == s) by (nonlinear_arith)
        requires
            0 <= r,
            r * r <= n,
            n < (r + 1) * (r + 1),
            0 <= s,
            s * s <= n,
            n < (s + 1) * (s + 1);
}

/// Executable floored square root, by binary search.
pub fn isqrt(n: u128) -> (r: u64)
    requires
        n < (1u128 << 126),
    ensures
        r as int == sqrt_floor(n as int),
        is_sqrt_floor(n as int, r as int),
{
    let mut lo: u128 = 0;
    let mut hi: u128 = 1u128 << 63;
    proof {
        assert((1u128 << 63) * (1u128 << 63) == (1u128 << 126)) by (bit_vector);
    }
    while hi - lo > 1
        invariant
            lo < hi,
            hi <= 1u128 << 63,
            lo * lo <= n,
            n < hi * hi,
        decreases hi - lo,
    {
        let mid = lo + (hi - lo) / 2;
        proof {
            assert(mid < hi);
            let m63 = (1u128 << 63) as int;
            assert(mid as int * mid as int <= m63 * m63) by (nonlinear_arith)
                requires
                    0 <= mid as int,
                    mid as int <= m63;
            assert((1u128 << 63) * (1u128 << 63) == (1u128 << 126)) by (bit_vector);
            assert((1u128 << 126) < u128::MAX) by (bit_vector);
            assert(mid * mid < hi * hi) by (nonlinear_arith)
                requires 0 <= mid < hi;
        }
        if mid * mid <= n {
            lo = mid;
        } else {
            hi = mid;
        }
    }
    proof {
        assert(lo + 1 == hi);
        assert(is_sqrt_floor(n as int, lo as int));
        lemma_sqrt_floor_unique(n as int, lo as int);
        assert(lo < 1u128 << 63);
        assert((1u128 << 63) < u64::MAX as u128) by (bit_vector);
    }
    lo as u64
}

/// Largest basis-vector component the frame integrator accepts.  A
/// healthy basis vector has components near `SCALE`; this generous
/// limit keeps every intermediate of the correction inside `i128`.
pub const BASIS_MAX: i64 = 500_000;

/// Unscaled squared length of a vector.
pub open spec fn norm2_i(v: V3) -> int {
    dot_i(v, v)
}

/// First corrected right vector: `fwd x up`.
pub open spec fn ro_right0(f: V3, u: V3) -> V3 {
    cross_fp(f, u)
}

/// Corrected (still unnormalized) up vector: `right x fwd`.
pub open spec fn ro_up1(f: V3, u: V3) -> V3 {
    cross_fp(ro_right0(f, u), f)
}

/// Corrected (still unnormalized) forward vector: `up x right`.
pub open spec fn ro_fwd1(f: V3, u: V3) -> V3 {
    cross_fp(ro_up1(f, u), ro_right0(f, u))
}

/// The corrected pair is usable: neither corrected vector collapsed to
/// zero.  Guaranteed by any honestly non-parallel, non-tiny input pair;
/// a parallel or zero pair fails it.
pub open spec fn basis_ok(f: V3, u: V3) -> bool {
    &&& norm2_i(ro_up1(f, u)) > 0
    &&& norm2_i(ro_fwd1(f, u)) > 0
}

/// Scaling of a nonzero vector to unit fixed-point length.
pub open spec fn normalize_spec(v: V3) -> V3 {
    let n = sqrt_floor(norm2_i(v));
    V3 {
        x: tdiv(v.x * SCALE, n),
        y: tdiv(v.y * SCALE, n),
        z: tdiv(v.z * SCALE, n),
    }
}

/// The re-orthonormalized forward vector.
pub open spec fn reortho_fwd(f: V3, u: V3) -> V3 {
    normalize_spec(ro_fwd1(f, u))
}

/// The re-orthonormalized up vector.
pub open spec fn reortho_up(f: V3, u: V3) -> V3 {
    normalize_spec(ro_up1(f, u))
}

/// The right vector recomputed from the corrected pair.
pub open spec fn reortho_right(f: V3, u: V3) -> V3 {
    cross_fp(reortho_fwd(f, u), reortho_up(f, u))
}

/// Wide-component vector used for intermediates of the correction.
struct Wide3 {
    x: i128,
    y: i128,
    z: i128,
}

impl View for Wide3 {
    type V = V3;

    closed spec fn view(&self) -> V3 {
        V3 { x: self.x as int, y: self.y as int, z: self.z as int }
    }
}

/// Fixed-point cross product over wide components.
fn cross_w(a: &Wide3, b: &Wide3, Ghost(ab): Ghost<int>, Ghost(bb): Ghost<int>) -> (r: Wide3)
    requires
        bounded3(a@, ab),
        bounded3(b@, bb),
        0 <= ab <= 1_000_000_000_000_000_000,
        0 <= bb <= 1_000_000_000_000_000_000,
    ensures
        r@ == cross_fp(a@, b@),
        bounded3(r@, tdiv(2 * ab * bb, SCALE as int)),
{
    proof {
        lemma_mul_bound(a@.y, b@.z, ab, bb);
        lemma_mul_bound(a@.z, b@.y, ab, bb);
        lemma_mul_bound(a@.z, b@.x, ab, bb);
        lemma_mul_bound(a@.x, b@.z, ab, bb);
        lemma_mul_bound(a@.x, b@.y, ab, bb);
        lemma_mul_bound(a@.y, b@.x, ab, bb);
        lemma_cross_fp_bound(a@, b@, ab, bb);
        assert(ab * bb <= 1_000_000_000_000_000_000_000_000_000_000_000_000) by (nonlinear_arith)
            requires
                0 <= ab <= 1_000_000_000_000_000_000int,
                0 <= bb <= 1_000_000_000_000_000_000int;
    }
    let s: i128 = SCALE as i128;
    Wide3 {
        x: div_trunc_wide(a.y * b.z - a.z * b.y, s),
        y: div_trunc_wide(a.z * b.x - a.x * b.z, s),
        z: div_trunc_wide(a.x * b.y - a.y * b.x, s),
    }
}

/// Unscaled squared length over wide components.
fn norm2_w(v: &Wide3, Ghost(vb): Ghost<int>) -> (r: i128)
    requires
        bounded3(v@, vb),
        0 <= vb <= 1_000_000_000_000_000_000,
    ensures
        r as int == norm2_i(v@),
        0 <= r,
        r as int <= 3_000_000_000_000_000_000_000_000_000_000_000_000,
{
    proof {
        lemma_mul_bound(v@.x, v@.x, vb, vb);
        lemma_mul_bound(v@.y, v@.y, vb, vb);
        lemma_mul_bound(v@.z, v@.z, vb, vb);
        assert(v@.x * v@.x >= 0) by (nonlinear_arith);
        assert(v@.y * v@.y >= 0) by (nonlinear_arith);
        assert(v@.z * v@.z >= 0) by (nonlinear_arith);
        assert(vb * vb <= 1_000_000_000_000_000_000_000_000_000_000_000_000) by (nonlinear_arith)
            requires 0 <= vb <= 1_000_000_000_000_000_000int;
    }
    v.x * v.x + v.y * v.y + v.z * v.z
}

/// Scale a nonzero wide vector back to unit fixed-point length.
fn normalize_w(v: &Wide3, Ghost(vb): Ghost<int>) -> (r: Vec3)
    requires
        bounded3(v@, vb),
        0 <= vb <= 1_000_000_000_000_000_000,
        norm2_i(v@) > 0,
    ensures
        r@ == normalize_spec(v@),
        bounded3(r@, SCALE as int),
{
    let n2 = norm2_w(v, Ghost(vb));
    proof {
        assert((1u128 << 126) == 85070591730234615865843651857942052864u128) by (bit_vector);
    }
    let n = isqrt(n2 as u128);
    proof {
        let ni = n as int;
        assert(ni >= 1);
        assert(v@.y * v@.y >= 0) by (nonlinear_arith);
        assert(v@.z * v@.z >= 0) by (nonlinear_arith);
        assert(v@.x * v@.x >= 0) by (nonlinear_arith);
        assert(v@.x * v@.x <= norm2_i(v@));
        assert(v@.y * v@.y <= norm2_i(v@));
        assert(v@.z * v@.z <= norm2_i(v@));
        assert(-ni <= v@.x <= ni) by (nonlinear_arith)
            requires v@.x * v@.x < (ni + 1) * (ni + 1), 0 <= ni;
        assert(-ni <= v@.y <= ni) by (nonlinear_arith)
            requires v@.y * v@.y < (ni + 1) * (ni + 1), 0 <= ni;
        assert(-ni <= v@.z <= ni) by (nonlinear_arith)
            requires v@.z * v@.z < (ni + 1) * (ni + 1), 0 <= ni;
        assert(-(ni * (SCALE as int)) <= v@.x * SCALE <= ni * (SCALE as int)) by (nonlinear_arith)
            requires -ni <= v@.x <= ni, 0 <= ni;
        assert(-(ni * (SCALE as int)) <= v@.y * SCALE <= ni * (SCALE as int)) by (nonlinear_arith)
            requires -ni <= v@.y <= ni, 0 <= ni;
        assert(-(ni * (SCALE as int)) <= v@.z * SCALE <= ni * (SCALE as int)) by (nonlinear_arith)
            requires -ni <= v@.z <= ni, 0 <= ni;
        lemma_tdiv_bound(v@.x * SCALE, ni * (SCALE as int), ni);
        lemma_tdiv_bound(v@.y * SCALE, ni * (SCALE as int), ni);
        lemma_tdiv_bound(v@.z * SCALE, ni * (SCALE as int), ni);
        lemma_tdiv_exact(SCALE as int, ni);
        assert(SCALE as int * ni == ni * (SCALE as int)) by (nonlinear_arith);
    }
    let s: i128 = SCALE as i128;
    let nn = n as i128;
    let rx = div_trunc_wide(v.x * s, nn);
    let ry = div_trunc_wide(v.y * s, nn);
    let rz = div_trunc_wide(v.z * s, nn);
    Vec3 { x: rx as i64, y: ry as i64, z: rz as i64 }
}

/// Componentwise difference.
pub open spec fn sub_i(a: V3, b: V3) -> V3 {
    V3 { x: a.x - b.x, y: a.y - b.y, z: a.z - b.z }
}

/// A cross product is perpendicular to both of its factors.
pub proof fn lemma_cross_perp(a: V3, b: V3)
    ensures
        dot_i(cross_i(a, b), a) == 0,
        dot_i(cross_i(a, b), b) == 0,
{
    assert((a.y * b.z - a.z * b.y) * a.x + (a.z * b.x - a.x * b.z) * a.y + (a.x * b.y - a.y
        * b.x) * a.z == 0) by (nonlinear_arith);
    assert((a.y * b.z - a.z * b.y) * b.x + (a.z * b.x - a.x * b.z) * b.y + (a.x * b.y - a.y
        * b.x) * b.z == 0) by (nonlinear_arith);
}

/// One component of the triple-product expansion, over bare scalars so
/// that the other two components follow by cyclic permutation.
proof fn lemma_triple_comp(
    ax: int, ay: int, az: int,
    bx: int, by: int, bz: int,
    cx: int, cy: int, cz: int,
)
    ensures
        (az * bx - ax * bz) * cz - (ax * by - ay * bx) * cy == bx * (ax * cx + ay * cy + az
            * cz) - ax * (bx * cx + by * cy + bz * cz),
{
    assert((az * bx - ax * bz) * cz == az * bx * cz - ax * bz * cz) by (nonlinear_arith);
    assert((ax * by - ay * bx) * cy == ax * by * cy - ay * bx * cy) by (nonlinear_arith);
    assert(bx * (ax * cx + ay * cy + az * cz) == bx * (ax * cx) + bx * (ay * cy) + bx * (az
        * cz)) by (nonlinear_arith);
    assert(ax * (bx * cx + by * cy + bz * cz) == ax * (bx * cx) + ax * (by * cy) + ax * (bz
        * cz)) by (nonlinear_arith);
    assert(bx * (ax * cx) == ax * (bx * cx)) by (nonlinear_arith);
    assert(bx * (ay * cy) == ay * bx * cy) by (nonlinear_arith);
    assert(bx * (az * cz) == az * bx * cz) by (nonlinear_arith);
    assert(ax * (by * cy) == ax * by * cy) by (nonlinear_arith);
    assert(ax * (bz * cz) == ax * bz * cz) by (nonlinear_arith);
}

/// The vector triple-product expansion
/// `(a x b) x c == b (a . c) - a (b . c)`.
pub proof fn lemma_triple_cross(a: V3, b: V3, c: V3)
    ensures
        cross_i(cross_i(a, b), c) == sub_i(scale_i(b, dot_i(a, c)), scale_i(a, dot_i(b, c))),
{
    lemma_triple_comp(a.x, a.y, a.z, b.x, b.y, b.z, c.x, c.y, c.z);
    lemma_triple_comp(a.y, a.z, a.x, b.y, b.z, b.x, c.y, c.z, c.x);
    lemma_triple_comp(a.z, a.x, a.y, b.z, b.x, b.y, c.z, c.x, c.y);
    assert(dot_i(a, c) == a.y * c.y + a.z * c.z + a.x * c.x);
    assert(dot_i(b, c) == b.y * c.y + b.z * c.z + b.x * c.x);
}

/// The basis correction, taken in exact (undivided, unrounded) integer
/// arithmetic, only rescales an already-orthogonal pair: the corrected
/// up vector is `u` times `|f|^2` and the corrected forward vector is
/// `f` times `|f x u|^2`, both non-negative factors.  Correction is
/// therefore a fixed point on orthonormal pairs up to the rounding of
/// the fixed-point representation, which this law does not track.
pub proof fn lemma_reortho_ideal_fixed_point(f: V3, u: V3)
    requires
        dot_i(f, u) == 0,
    ensures
        cross_i(cross_i(f, u), f) == scale_i(u, dot_i(f, f)),
        cross_i(cross_i(cross_i(f, u), f), cross_i(f, u)) == scale_i(
            f,
            dot_i(cross_i(f, u), cross_i(f, u)),
        ),
        dot_i(f, f) >= 0,
        dot_i(cross_i(f, u), cross_i(f, u)) >= 0,
{
    let r = cross_i(f, u);
    lemma_triple_cross(f, u, f);
    assert(dot_i(u, f) == dot_i(f, u)) by (nonlinear_arith);
    assert(scale_i(f, 0) == v3_zero());
    assert(sub_i(scale_i(u, dot_i(f, f)), v3_zero()) == scale_i(u, dot_i(f, f)));
    let u1 = cross_i(r, f);
    lemma_triple_cross(r, f, r);
    lemma_cross_perp(f, u);
    assert(dot_i(f, r) == dot_i(r, f)) by (nonlinear_arith);
    assert(scale_i(r, 0) == v3_zero());
    assert(sub_i(scale_i(f, dot_i(r, r)), v3_zero()) == scale_i(f, dot_i(r, r)));
    assert(dot_i(f, f) >= 0) by (nonlinear_arith);
    assert(dot_i(r, r) >= 0) by (nonlinear_arith);
}

/// In the exact integer algebra the corrected vectors are mutually
/// perpendicular by construction, whatever pair the correction
/// started from: `up1 = r x f` is perpendicular to `r`, and
/// `fwd1 = up1 x r` is perpendicular to both `up1` and `r`.
pub proof fn lemma_reortho_ideal_perp(f: V3, u: V3)
    ensures
        dot_i(cross_i(cross_i(f, u), f), cross_i(f, u)) == 0,
        dot_i(cross_i(cross_i(cross_i(f, u), f), cross_i(f, u)), cross_i(cross_i(f, u), f))
            == 0,
        dot_i(cross_i(cross_i(cross_i(f, u), f), cross_i(f, u)), cross_i(f, u)) == 0,
{
    let r = cross_i(f, u);
    let u1 = cross_i(r, f);
    lemma_cross_perp(r, f);
    lemma_cross_perp(u1, r);
}

/// Model sine: the cubic truncation `x - x^3 / 6` in fixed point,
/// exact at zero.  Meaningful on the per-frame angle range
/// `|x| <= SCALE` (one radian).
pub open spec fn sin_spec(x: int) -> int {
    x - tdiv(x * x * x, 6 * (SCALE as int) * (SCALE as int))
}

/// Model cosine: the quadratic truncation `1 - x^2 / 2` in fixed
/// point, exact at zero.
pub open spec fn cos_spec(x: int) -> int {
    (SCALE as int) - tdiv(x * x, 2 * (SCALE as int))
}

/// Fixed-point sine of a per-frame rotation angle.
pub fn sin_fp(x: i64) -> (r: i64)
    requires
        -SCALE <= x <= SCALE,
    ensures
        r == sin_spec(x as int),
        -SCALE <= r <= SCALE,
{
    let s6: i64 = 6 * SCALE * SCALE;
    proof {
        let xi = x as int;
        let si = SCALE as int;
        assert(0 <= xi * xi <= si * si) by (nonlinear_arith)
            requires -si <= xi <= si;
        assert(-(si * si * si) <= xi * xi * xi <= si * si * si) by (nonlinear_arith)
            requires -si <= xi <= si, 0 < si;
        lemma_tdiv_bound(xi * xi * xi, si * si * si, 6 * si * si);
        assert(si * si * si / (6 * si * si) <= si) by (nonlinear_arith)
            requires si == 1000int;
        if xi >= 0 {
            assert(xi * xi * xi <= (6 * si * si) * xi) by (nonlinear_arith)
                requires 0 <= xi <= si, si == 1000int;
            assert(0 <= xi * xi * xi) by (nonlinear_arith)
                requires 0 <= xi;
            lemma_tdiv_bound(xi * xi * xi, (6 * si * si) * xi, 6 * si * si);
            lemma_tdiv_exact(xi, 6 * si * si);
        } else {
            assert((6 * si * si) * xi <= xi * xi * xi) by (nonlinear_arith)
                requires -si <= xi < 0, si == 1000int;
            assert(xi * xi * xi <= 0) by (nonlinear_arith)
                requires xi < 0;
            lemma_tdiv_bound(xi * xi * xi, -((6 * si * si) * xi), 6 * si * si);
            lemma_tdiv_exact(-xi, 6 * si * si);
            assert(-((6 * si * si) * xi) == (6 * si * si) * (-xi)) by (nonlinear_arith);
        }
    }
    x - div_trunc(x * x * x, s6)
}

/// Fixed-point cosine of a per-frame rotation angle.
pub fn cos_fp(x: i64) -> (r: i64)
    requires
        -SCALE <= x <= SCALE,
    ensures
        r == cos_spec(x as int),
        0 <= r <= SCALE,
{
    let s2: i64 = 2 * SCALE;
    proof {
        let xi = x as int;
        let si = SCALE as int;
        assert(0 <= xi * xi <= si * si) by (nonlinear_arith)
            requires -si <= xi <= si;
        lemma_tdiv_bound(xi * xi, si * si, 2 * si);
        assert(si * si / (2 * si) == 500) by (nonlinear_arith)
            requires si == 1000int;
    }
    SCALE - div_trunc(x * x, s2)
}

/// Rotation of `v` by the angle whose sine and cosine (fixed point)
/// are `s` and `c`, about the axis `k`, by the axis-angle formula
/// `v' = v c + (k x v) s + k (k . v)(1 - c)`, each product scaled
/// back down and truncated.  Exact for a unit axis in the ideal
/// algebra; `k` is the current, drift-corrected basis vector here.
pub open spec fn rot3(v: V3, k: V3, s: int, c: int) -> V3 {
    let si = SCALE as int;
    let cr = cross_fp(k, v);
    let d = dot_fp(k, v);
    V3 {
        x: tdiv(v.x * c, si) + tdiv(cr.x * s, si) + tdiv(tdiv(k.x * d, si) * (si - c), si),
        y: tdiv(v.y * c, si) + tdiv(cr.y * s, si) + tdiv(tdiv(k.y * d, si) * (si - c), si),
        z: tdiv(v.z * c, si) + tdiv(cr.z * s, si) + tdiv(tdiv(k.z * d, si) * (si - c), si),
    }
}

/// Componentwise magnitude bound of [`rot3`] from bounds `vb` on `v`
/// and `kb` on `k`.
pub open spec fn rot_bound(vb: int, kb: int) -> int {
    let si = SCALE as int;
    let cb = tdiv(2 * kb * vb, si);
    let db = tdiv(3 * kb * vb, si);
    let eb = tdiv(kb * db, si);
    vb + cb + 2 * eb
}

/// Rotating by a zero angle is exactly the identity, for every
/// vector and axis: the model sine of zero is zero and the model
/// cosine of zero is one.
pub proof fn lemma_rot3_zero(v: V3, k: V3)
    ensures
        rot3(v, k, sin_spec(0), cos_spec(0)) == v,
{
    let si = SCALE as int;
    assert(sin_spec(0) == 0);
    assert(cos_spec(0) == si);
    lemma_tdiv_exact(v.x, si);
    lemma_tdiv_exact(v.y, si);
    lemma_tdiv_exact(v.z, si);
    assert(cross_fp(k, v).x * 0 == 0);
    assert(cross_fp(k, v).y * 0 == 0);
    assert(cross_fp(k, v).z * 0 == 0);
    assert(tdiv(k.x * dot_fp(k, v), si) * (si - si) == 0);
    assert(tdiv(k.y * dot_fp(k, v), si) * (si - si) == 0);
    assert(tdiv(k.z * dot_fp(k, v), si) * (si - si) == 0);
}

/// Apply [`rot3`] to one vector.
pub fn rotate_about(v: &Vec3, k: &Vec3, s: i64, c: i64, Ghost(vb): Ghost<int>, Ghost(kb): Ghost<int>) -> (r: Vec3)
    requires
        bounded3(v@, vb),
        bounded3(k@, kb),
        0 <= vb <= 20_000_000,
        0 <= kb <= 20_000_000,
        -SCALE <= s <= SCALE,
        -SCALE <= c <= SCALE,
    ensures
        r@ == rot3(v@, k@, s as int, c as int),
        bounded3(r@, rot_bound(vb, kb)),
{
    let ghost si = SCALE as int;
    let ghost cb = tdiv(2 * kb * vb, si);
    let ghost db = tdiv(3 * kb * vb, si);
    let ghost eb = tdiv(kb * db, si);
    proof {
        lemma_cross_fp_bound(k@, v@, kb, vb);
        lemma_dot_fp_bound(k@, v@, kb, vb);
        assert(0 <= kb * vb <= 400_000_000_000_000) by (nonlinear_arith)
            requires 0 <= kb <= 20_000_000int, 0 <= vb <= 20_000_000int;
        assert(2 * kb * vb == 2 * (kb * vb)) by (nonlinear_arith);
        assert(3 * kb * vb == 3 * (kb * vb)) by (nonlinear_arith);
        lemma_tdiv_bound(2 * kb * vb, 800_000_000_000_000, si);
        lemma_tdiv_bound(3 * kb * vb, 1_200_000_000_000_000, si);
        assert(0 <= cb);
        assert(cb <= 800_000_000_000);
        assert(0 <= db <= 1_200_000_000_000) by {
            lemma_div_pos_is_pos(3 * kb * vb, si);
            lemma_div_is_ordered(3 * kb * vb, 1_200_000_000_000_000, si);
        }
        lemma_mul_bound(kb, db, 20_000_000, 1_200_000_000_000);
        lemma_tdiv_bound(kb * db, 24_000_000_000_000_000_000, si);
        assert(0 <= eb) by {
            lemma_div_pos_is_pos(kb * db, si);
        }
        assert(eb <= 24_000_000_000_000_000);
    }
    let s128: i128 = SCALE as i128;
    let vx = v.x as i128;
    let vy = v.y as i128;
    let vz = v.z as i128;
    let kx = k.x as i128;
    let ky = k.y as i128;
    let kz = k.z as i128;
    let sw = s as i128;
    let cw = c as i128;
    proof {
        lemma_mul_bound(k@.y, v@.z, kb, vb);
        lemma_mul_bound(k@.z, v@.y, kb, vb);
        lemma_mul_bound(k@.z, v@.x, kb, vb);
        lemma_mul_bound(k@.x, v@.z, kb, vb);
        lemma_mul_bound(k@.x, v@.y, kb, vb);
        lemma_mul_bound(k@.y, v@.x, kb, vb);
        lemma_mul_bound(k@.x, v@.x, kb, vb);
        lemma_mul_bound(k@.y, v@.y, kb, vb);
        lemma_mul_bound(k@.z, v@.z, kb, vb);
    }
    let crx = div_trunc_wide(ky * vz - kz * vy, s128);
    let cry = div_trunc_wide(kz * vx - kx * vz, s128);
    let crz = div_trunc_wide(kx * vy - ky * vx, s128);
    let d = div_trunc_wide(kx * vx + ky * vy + kz * vz, s128);
    proof {
        assert(crx as int == cross_fp(k@, v@).x);
        assert(d as int == dot_fp(k@, v@));
        lemma_fp_mul_unit_bound(v@.x, c as int, vb);
        lemma_fp_mul_unit_bound(v@.y, c as int, vb);
        lemma_fp_mul_unit_bound(v@.z, c as int, vb);
        lemma_fp_mul_unit_bound(crx as int, s as int, cb);
        lemma_fp_mul_unit_bound(cry as int, s as int, cb);
        lemma_fp_mul_unit_bound(crz as int, s as int, cb);
        lemma_mul_bound(v@.x, c as int, vb, si);
        lemma_mul_bound(v@.y, c as int, vb, si);
        lemma_mul_bound(v@.z, c as int, vb, si);
        lemma_mul_bound(crx as int, s as int, cb, si);
        lemma_mul_bound(cry as int, s as int, cb, si);
        lemma_mul_bound(crz as int, s as int, cb, si);
        lemma_mul_bound(k@.x, d as int, kb, db);
        lemma_mul_bound(k@.y, d as int, kb, db);
        lemma_mul_bound(k@.z, d as int, kb, db);
        lemma_tdiv_bound(k@.x * (d as int), kb * db, si);
        lemma_tdiv_bound(k@.y * (d as int), kb * db, si);
        lemma_tdiv_bound(k@.z * (d as int), kb * db, si);
    }
    let t1x = div_trunc_wide(vx * cw, s128);
    let t1y = div_trunc_wide(vy * cw, s128);
    let t1z = div_trunc_wide(vz * cw, s128);
    let t2x = div_trunc_wide(crx * sw, s128);
    let t2y = div_trunc_wide(cry * sw, s128);
    let t2z = div_trunc_wide(crz * sw, s128);
    let ex = div_trunc_wide(kx * d, s128);
    let ey = div_trunc_wide(ky * d, s128);
    let ez = div_trunc_wide(kz * d, s128);
    proof {
        lemma_mul_bound(ex as int, si - c, eb, 2 * si);
        lemma_mul_bound(ey as int, si - c, eb, 2 * si);
        lemma_mul_bound(ez as int, si - c, eb, 2 * si);
        lemma_tdiv_bound(ex as int * (si - c), eb * (2 * si), si);
        lemma_tdiv_bound(ey as int * (si - c), eb * (2 * si), si);
        lemma_tdiv_bound(ez as int * (si - c), eb * (2 * si), si);
        assert(eb * (2 * si) == (2 * eb) * si) by (nonlinear_arith);
        lemma_tdiv_exact(2 * eb, si);
    }
    let t3x = div_trunc_wide(ex * (s128 - cw), s128);
    let t3y = div_trunc_wide(ey * (s128 - cw), s128);
    let t3z = div_trunc_wide(ez * (s128 - cw), s128);
    let rx = t1x + t2x + t3x;
    let ry = t1y + t2y + t3y;
    let rz = t1z + t2z + t3z;
    Vec3 { x: rx as i64, y: ry as i64, z: rz as i64 }
}

/// Decide [`basis_ok`] for a bounded pair: whether the correction
/// step would collapse either corrected vector to zero.
pub fn basis_ok_check(fwd: &Vec3, up: &Vec3) -> (r: bool)
    requires
        bounded3(fwd@, BASIS_MAX as int),
        bounded3(up@, BASIS_MAX as int),
    ensures
        r == basis_ok(fwd@, up@),
{
    let wf = Wide3 { x: fwd.x as i128, y: fwd.y as i128, z: fwd.z as i128 };
    let wu = Wide3 { x: up.x as i128, y: up.y as i128, z: up.z as i128 };
    let r0 = cross_w(&wf, &wu, Ghost(BASIS_MAX as int), Ghost(BASIS_MAX as int));
    let u1 = cross_w(&r0, &wf, Ghost(500_000_000), Ghost(BASIS_MAX as int));
    let f1 = cross_w(&u1, &r0, Ghost(500_000_000_000), Ghost(500_000_000));
    let nu = norm2_w(&u1, Ghost(500_000_000_000));
    let nf = norm2_w(&f1, Ghost(500_000_000_000_000_000));
    nu > 0 && nf > 0
}

/// Re-orthonormalize a drifting forward/up pair, as the first step of
/// each frame's integration: recompute `right = fwd x up`, square the
/// pair up from it, normalize both vectors, and derive the final right
/// vector from the corrected pair.
pub fn reorthonormalize(fwd: &Vec3, up: &Vec3) -> (r: (Vec3, Vec3, Vec3))
    requires
        bounded3(fwd@, BASIS_MAX as int),
        bounded3(up@, BASIS_MAX as int),
        basis_ok(fwd@, up@),
    ensures
        r.0@ == reortho_fwd(fwd@, up@),
        r.1@ == reortho_up(fwd@, up@),
        r.2@ == reortho_right(fwd@, up@),
        bounded3(r.0@, SCALE as int),
        bounded3(r.1@, SCALE as int),
        bounded3(r.2@, 2 * SCALE as int),
{
    let wf = Wide3 { x: fwd.x as i128, y: fwd.y as i128, z: fwd.z as i128 };
    let wu = Wide3 { x: up.x as i128, y: up.y as i128, z: up.z as i128 };
    let r0 = cross_w(&wf, &wu, Ghost(BASIS_MAX as int), Ghost(BASIS_MAX as int));
    let u1 = cross_w(&r0, &wf, Ghost(500_000_000), Ghost(BASIS_MAX as int));
    let f1 = cross_w(&u1, &r0, Ghost(500_000_000_000), Ghost(500_000_000));
    let nf = normalize_w(&f1, Ghost(500_000_000_000_000_000));
    let nu = normalize_w(&u1, Ghost(500_000_000_000));
    let wnf = Wide3 { x: nf.x as i128, y: nf.y as i128, z: nf.z as i128 };
    let wnu = Wide3 { x: nu.x as i128, y: nu.y as i128, z: nu.z as i128 };
    let rt = cross_w(&wnf, &wnu, Ghost(SCALE as int), Ghost(SCALE as int));
    let right = Vec3 { x: rt.x as i64, y: rt.y as i64, z: rt.z as i64 };
    (nf, nu, right)
}

} // verus!
