//! How many workgroups a compute dispatch takes.

use vstd::arithmetic::div_mod::*;
use vstd::arithmetic::power2::*;
use vstd::prelude::*;

verus! {

/// Three unsigned extents, one per axis.
#[derive(Clone, Copy, Debug, PartialEq, Eq, Structural)]
pub struct Extent3 {
    pub x: u32,
    pub y: u32,
    pub z: u32,
}

/// The least integer that is not below `p / q`.
pub open spec fn ceil_div(p: nat, q: nat) -> nat {
    ((p + q - 1) / (q as int)) as nat
}

/// The integer nearest to `p / q`; of two equally near ones the even one.
pub open spec fn nearest_even(p: nat, q: nat) -> nat {
    let below = p / q;
    let rest = p % q;
    if 2 * rest < q || (2 * rest == q && below % 2 == 0) {
        below
    } else {
        below + 1
    }
}

/// `2^-e` where `e` is negative, else 1.
pub open spec fn scale_up(e: int) -> nat {
    if e < 0 {
        pow2((-e) as nat)
    } else {
        1
    }
}

/// `2^e` where `e` is positive, else 1.
pub open spec fn scale_down(e: int) -> nat {
    if e > 0 {
        pow2(e as nat)
    } else {
        1
    }
}

/// Whether `p / q`, counted in units of `2^e`, has an integer part of exactly 24 binary digits,
/// so that `2^e` is the spacing of the single-precision numbers around `p / q`.
pub open spec fn is_spacing(p: nat, q: nat, e: int) -> bool {
    &&& q * scale_down(e) * 0x80_0000 <= p * scale_up(e)
    &&& p * scale_up(e) < q * scale_down(e) * 0x100_0000
}

/// The least integer that is not below the single-precision number nearest to `p / q`,
/// for positive `p` and `q`.
pub open spec fn single_ceil(p: nat, q: nat) -> nat {
    let e = choose|e: int| #[trigger] is_spacing(p, q, e);
    ceil_div(nearest_even(p * scale_up(e), q * scale_down(e)) * scale_down(e), scale_up(e))
}

/// The workgroups along one axis: `dimension / threads`, each of the two and their quotient
/// rounded to single precision, then rounded up to an integer and brought into the range of `u32`.
/// `0 / 0` counts as 0, and any other division by 0 as the largest count.
pub open spec fn workgroups(dimension: u32, threads: u32) -> u32 {
    if dimension == 0 {
        0
    } else if threads == 0 {
        u32::MAX
    } else {
        let count = single_ceil(single_ceil(dimension as nat, 1), single_ceil(threads as nat, 1));
        if count > u32::MAX {
            u32::MAX
        } else {
            count as u32
        }
    }
}

/// Divides `dimensions` by `threads` axis by axis and rounds up.
///
/// Calls `glam`: `UVec3::as_vec3` on both vectors, the division of `Vec3`, `Vec3::ceil` and
/// `Vec3::as_uvec3`. What is claimed of the four together, for each axis: the integers are
/// converted to IEEE 754 binary32 numbers and these divided, both with rounding to nearest and
/// ties to even; the quotient is rounded up to an integer, which the last conversion brings into
/// the range of `u32`, taking NaN to 0.
#[verifier::external_body]
pub(crate) fn divide_rounding_up(dimensions: Extent3, threads: Extent3) -> (workspace: Extent3)
    ensures
        workspace.x == workgroups(dimensions.x, threads.x),
        workspace.y == workgroups(dimensions.y, threads.y),
        workspace.z == workgroups(dimensions.z, threads.z),
{
    let dimensions = glam::UVec3::new(dimensions.x, dimensions.y, dimensions.z);
    let threads = glam::UVec3::new(threads.x, threads.y, threads.z);
    let workspace = (dimensions.as_vec3() / threads.as_vec3()).ceil().as_uvec3();
    Extent3 { x: workspace.x, y: workspace.y, z: workspace.z }
}

/// A quotient of at least 1 lies between two neighbouring powers of two.
proof fn lemma_binade(p: nat, q: nat, k: nat) -> (r: nat)
    requires
        q > 0,
        q * pow2(k) <= p,
    ensures
        q * pow2(r) <= p < q * pow2(r + 1),
    decreases p - k,
{
    lemma_pow2_unfold(k + 1);
    lemma_pow2_exceeds(k);
    assert(k < p) by (nonlinear_arith)
        requires
            q > 0,
            q * pow2(k) <= p,
            k < pow2(k),
    ;
    if p < q * pow2(k + 1) {
        k
    } else {
        lemma_binade(p, q, k + 1)
    }
}

proof fn lemma_pow2_exceeds(n: nat)
    ensures
        n < pow2(n),
    decreases n,
{
    lemma2_to64();
    if n > 0 {
        lemma_pow2_exceeds((n - 1) as nat);
        lemma_pow2_unfold(n);
    }
}

/// Every positive quotient has a spacing.
proof fn lemma_spacing_exists(p: nat, q: nat)
    requires
        p > 0,
        q > 0,
    ensures
        exists|e: int| #[trigger] is_spacing(p, q, e),
{
    lemma2_to64();
    let s = q;
    let ps = pow2(s);
    lemma_pow2_exceeds(q);
    assert(q * 1 <= p * ps) by (nonlinear_arith)
        requires
            p > 0,
            q < ps,
    ;
    let k = lemma_binade(p * ps, q, 0);
    let pk = pow2(k);
    lemma_pow2_unfold(k + 1);
    lemma_pow2_pos(k);
    lemma_pow2_pos(s);
    let e = k - s - 23;
    if e < 0 {
        let u = (s + 23 - k) as nat;
        let pu = pow2(u);
        lemma_pow2_adds(u, k);
        lemma_pow2_adds(s, 23);
        assert(scale_up(e) == pu && scale_down(e) == 1);
        assert(pu * pk == ps * 0x80_0000);
        assert(q * 0x80_0000 <= p * pu && p * pu < q * 0x100_0000) by (nonlinear_arith)
            requires
                pu * pk == ps * 0x80_0000,
                q * pk <= p * ps,
                p * ps < q * (2 * pk),
                pk > 0,
                ps > 0,
        {
            assert((p * pu) * pk == (p * ps) * 0x80_0000);
            assert((q * 0x80_0000) * pk <= (p * pu) * pk);
            assert((p * pu) * pk < (q * 0x100_0000) * pk);
        }
        assert(is_spacing(p, q, e));
    } else {
        let pe = pow2(e as nat);
        lemma_pow2_adds(e as nat, (s + 23) as nat);
        lemma_pow2_adds(s, 23);
        assert(scale_up(e) == 1 && scale_down(e) == pe);
        assert(pe * (ps * 0x80_0000) == pk);
        assert(q * pe * 0x80_0000 <= p && p < q * pe * 0x100_0000) by (nonlinear_arith)
            requires
                pe * (ps * 0x80_0000) == pk,
                q * pk <= p * ps,
                p * ps < q * (2 * pk),
                ps > 0,
        {
            assert((q * pe * 0x80_0000) * ps == q * pk);
            assert((q * pe * 0x100_0000) * ps == q * (2 * pk));
        }
        assert(is_spacing(p, q, e));
    }
}

proof fn lemma_ceil_div(p: nat, q: nat)
    requires
        q > 0,
    ensures
        p <= ceil_div(p, q) * q,
        p > 0 ==> ceil_div(p, q) > 0 && (ceil_div(p, q) - 1) * q < p,
{
    lemma_fundamental_div_mod(p + q - 1, q as int);
    let c = ceil_div(p, q) as int;
    let r = (p + q - 1) % (q as int);
    assert(p <= c * q && (p > 0 ==> c > 0 && (c - 1) * q < p)) by (nonlinear_arith)
        requires
            p + q - 1 == q * c + r,
            0 <= r < q,
            q > 0,
            p >= 0,
            c >= 0,
    ;
}

proof fn lemma_ceil_div_unique(p: nat, q: nat, c: nat)
    requires
        q > 0,
        c > 0,
        (c - 1) * q < p <= c * q,
    ensures
        ceil_div(p, q) == c,
{
    lemma_ceil_div(p, q);
    let d = ceil_div(p, q);
    assert(c == d) by (nonlinear_arith)
        requires
            q > 0,
            (c - 1) * q < p <= c * q,
            (d - 1) * q < p <= d * q,
    ;
}

proof fn lemma_nearest_even_bounds(p: nat, q: nat, k: nat)
    requires
        q > 0,
    ensures
        p <= k * q ==> nearest_even(p, q) <= k,
        2 * p > 2 * (k * q) + q ==> nearest_even(p, q) > k,
        p == k * q ==> nearest_even(p, q) == k,
{
    lemma_fundamental_div_mod(p as int, q as int);
    let f = p / q;
    let r = p % q;
    assert(p == q * f + r && r < q);
    assert(p <= k * q ==> f < k || (f == k && r == 0)) by (nonlinear_arith)
        requires
            p == q * f + r,
            0 <= r < q,
            q > 0,
    ;
    assert(2 * p > 2 * (k * q) + q ==> f > k || (f == k && 2 * r > q)) by (nonlinear_arith)
        requires
            p == q * f + r,
            0 <= r < q,
            q > 0,
    ;
    assert(p == k * q ==> f == k && r == 0) by (nonlinear_arith)
        requires
            p == q * f + r,
            0 <= r < q,
            q > 0,
    ;
}

/// Rounding to single precision does not move the ceiling of the quotient of two integers
/// of up to `2^24`.
proof fn lemma_single_ceil_exact(p: nat, q: nat)
    requires
        0 < p <= 0x100_0000,
        0 < q <= 0x100_0000,
    ensures
        single_ceil(p, q) == ceil_div(p, q),
{
    lemma2_to64();
    lemma_spacing_exists(p, q);
    let e = choose|e: int| #[trigger] is_spacing(p, q, e);
    let c = ceil_div(p, q);
    lemma_ceil_div(p, q);
    if e > 0 {
        let w = pow2(e as nat);
        lemma_pow2_unfold(e as nat);
        lemma_pow2_pos((e - 1) as nat);
        assert(q == 1 && w == 2 && p == 0x100_0000) by (nonlinear_arith)
            requires
                q * w * 0x80_0000 <= p * 1,
                p <= 0x100_0000,
                q > 0,
                w >= 2,
        {
            assert(q * w <= 2);
            assert(q * w >= w);
            assert(q * w >= q * 2);
        }
        lemma_nearest_even_bounds(0x100_0000, 2, 0x80_0000);
    } else {
        let m = scale_up(e);
        if e < 0 {
            lemma_pow2_pos((-e) as nat);
        }
        let u = nearest_even(p * m, q);
        assert(q * 1 == q && u * 1 == u);
        assert(p * m <= (c * m) * q) by (nonlinear_arith)
            requires
                p <= c * q,
                m > 0,
        ;
        lemma_nearest_even_bounds(p * m, q, c * m);
        assert(2 * m >= q && (p < 0x100_0000 ==> 2 * m > q)) by (nonlinear_arith)
            requires
                q * 0x80_0000 <= p * m,
                0 < p <= 0x100_0000,
                q > 0,
                m > 0,
        {
            assert(p * m <= 0x100_0000 * m);
            assert(p < 0x100_0000 ==> p * m < 0x100_0000 * m);
        }
        if 2 * m > q {
            let k = ((c - 1) * m) as nat;
            assert(0 <= (c - 1) * m) by (nonlinear_arith)
                requires
                    c > 0,
                    m > 0,
            ;
            assert(2 * (p * m) > 2 * (k * q) + q) by (nonlinear_arith)
                requires
                    k == (c - 1) * m,
                    (c - 1) * q + 1 <= p,
                    2 * m > q,
                    m > 0,
            {
                assert(((c - 1) * q + 1) * m <= p * m);
                assert(k * q == (c - 1) * q * m);
            }
            lemma_nearest_even_bounds(p * m, q, k);
        } else {
            // `p` is `2^24` and `q` a power of two below it, so that `q` divides `p`.
            let n = (1 - e) as nat;
            lemma_pow2_unfold(n);
            assert(q == pow2(n));
            if n > 24 {
                lemma_pow2_adds(24, (n - 24) as nat);
                lemma_pow2_unfold((n - 24) as nat);
                lemma_pow2_pos((n - 25) as nat);
                assert(q > 0x100_0000) by (nonlinear_arith)
                    requires
                        q == 0x100_0000 * pow2((n - 24) as nat),
                        pow2((n - 24) as nat) >= 2,
                ;
            }
            let t = pow2((24 - n) as nat);
            lemma_pow2_adds(n, (24 - n) as nat);
            assert(p == t * q) by (nonlinear_arith)
                requires
                    p == q * t,
            ;
            assert(c == t) by (nonlinear_arith)
                requires
                    p == t * q,
                    p <= c * q,
                    (c - 1) * q < p,
                    q > 0,
            ;
            assert(p * m == (c * m) * q) by (nonlinear_arith)
                requires
                    p == c * q,
            ;
            assert((c - 1) * m < c * m) by (nonlinear_arith)
                requires
                    m > 0,
            ;
        }
        lemma_ceil_div_unique(u, m, c);
    }
}

/// For extents of up to `2^24` the dispatch takes exactly as many workgroups as are needed
/// to cover the dimension.
pub proof fn law_workgroups_exact(dimension: u32, threads: u32)
    requires
        dimension <= 0x100_0000,
        0 < threads <= 0x100_0000,
    ensures
        workgroups(dimension, threads) == ceil_div(dimension as nat, threads as nat),
        workgroups(dimension, threads) * threads >= dimension,
        dimension > 0 ==> (workgroups(dimension, threads) - 1) * threads < dimension,
{
    let d = dimension as nat;
    let t = threads as nat;
    lemma_ceil_div(d, t);
    if d > 0 {
        lemma_single_ceil_exact(d, 1);
        lemma_single_ceil_exact(t, 1);
        lemma_single_ceil_exact(d, t);
        assert(ceil_div(d, t) <= d) by (nonlinear_arith)
            requires
                (ceil_div(d, t) - 1) * t < d,
                t > 0,
                ceil_div(d, t) > 0,
        ;
    } else {
        assert((t - 1) / (t as int) == 0) by (nonlinear_arith)
            requires
                t > 0,
        ;
    }
}

/// The scales of two spacings differ by the power of two between them.
proof fn lemma_scales(d: int, e: int)
    requires
        d <= e,
    ensures
        scale_up(d) > 0,
        scale_down(d) > 0,
        scale_down(e) * scale_up(d) == pow2((e - d) as nat) * (scale_down(d) * scale_up(e)),
{
    lemma2_to64();
    if d < 0 {
        lemma_pow2_pos((-d) as nat);
    }
    if d > 0 {
        lemma_pow2_pos(d as nat);
    }
    if d >= 0 {
        lemma_pow2_adds((e - d) as nat, d as nat);
        assert(scale_down(e) == pow2(e as nat) && scale_down(d) == pow2(d as nat));
        assert(scale_up(d) == 1 && scale_up(e) == 1);
        assert(scale_down(d) * 1 == scale_down(d) && scale_down(e) * 1 == scale_down(e));
    } else if e <= 0 {
        lemma_pow2_adds((e - d) as nat, (-e) as nat);
        assert(scale_up(e) == pow2((-e) as nat) && scale_up(d) == pow2((-d) as nat));
        assert(1 * scale_up(e) == scale_up(e) && 1 * scale_up(d) == scale_up(d));
    } else {
        lemma_pow2_adds(e as nat, (-d) as nat);
        assert(pow2((e - d) as nat) * (1 * 1) == pow2((e - d) as nat));
    }
}

proof fn lemma_nearest_even_monotone(p1: nat, q1: nat, p2: nat, q2: nat)
    requires
        q1 > 0,
        q2 > 0,
        p1 * q2 <= p2 * q1,
    ensures
        nearest_even(p1, q1) <= nearest_even(p2, q2),
{
    lemma_fundamental_div_mod(p1 as int, q1 as int);
    lemma_fundamental_div_mod(p2 as int, q2 as int);
    let (f1, r1, f2, r2) = (p1 / q1, p1 % q1, p2 / q2, p2 % q2);
    assert(f1 <= f2 && (f1 == f2 ==> r1 * q2 <= r2 * q1)) by (nonlinear_arith)
        requires
            p1 == q1 * f1 + r1,
            p2 == q2 * f2 + r2,
            0 <= r1 < q1,
            0 <= r2 < q2,
            p1 * q2 <= p2 * q1,
    {
        assert(p1 * q2 == q1 * q2 * f1 + r1 * q2);
        assert(p2 * q1 == q1 * q2 * f2 + r2 * q1);
        assert(r2 * q1 < q1 * q2);
        assert(r1 * q2 >= 0);
        assert(q1 * q2 * f1 < q1 * q2 * (f2 + 1));
    }
    if f1 == f2 {
        assert((2 * r1 > q1 ==> 2 * r2 > q2) && (2 * r1 == q1 ==> 2 * r2 >= q2)) by (nonlinear_arith)
            requires
                r1 * q2 <= r2 * q1,
                q1 > 0,
                q2 > 0,
        ;
    }
}

proof fn lemma_ceil_div_monotone(p1: nat, q1: nat, p2: nat, q2: nat)
    requires
        q1 > 0,
        q2 > 0,
        p1 > 0,
        p1 * q2 <= p2 * q1,
    ensures
        0 < ceil_div(p1, q1) <= ceil_div(p2, q2),
{
    lemma_ceil_div(p1, q1);
    lemma_ceil_div(p2, q2);
    let (c1, c2) = (ceil_div(p1, q1) as int, ceil_div(p2, q2) as int);
    assert(c1 <= c2) by (nonlinear_arith)
        requires
            (c1 - 1) * q1 < p1,
            p2 <= c2 * q2,
            p1 * q2 <= p2 * q1,
            q1 > 0,
            q2 > 0,
    {
        assert((c1 - 1) * q1 * q2 < p1 * q2);
        assert(p2 * q1 <= c2 * q2 * q1);
        assert((c1 - 1) * (q1 * q2) < c2 * (q1 * q2));
    }
}

/// A greater quotient has no smaller ceiling in single precision.
proof fn lemma_single_ceil_monotone(p1: nat, q1: nat, p2: nat, q2: nat)
    requires
        p1 > 0,
        q1 > 0,
        p2 > 0,
        q2 > 0,
        p1 * q2 <= p2 * q1,
    ensures
        0 < single_ceil(p1, q1) <= single_ceil(p2, q2),
{
    lemma2_to64();
    lemma_spacing_exists(p1, q1);
    lemma_spacing_exists(p2, q2);
    let e1 = choose|e: int| #[trigger] is_spacing(p1, q1, e);
    let e2 = choose|e: int| #[trigger] is_spacing(p2, q2, e);
    let (up1, down1, up2, down2) = (
        scale_up(e1),
        scale_down(e1),
        scale_up(e2),
        scale_down(e2),
    );
    lemma_scales(e1, e1);
    lemma_scales(e2, e2);
    let (u1, u2) = (nearest_even(p1 * up1, q1 * down1), nearest_even(p2 * up2, q2 * down2));
    assert(q1 * down1 > 0 && q2 * down2 > 0) by (nonlinear_arith)
        requires
            q1 > 0,
            q2 > 0,
            down1 > 0,
            down2 > 0,
    ;
    lemma_spacing_bounds(p1, q1, e1);
    lemma_spacing_bounds(p2, q2, e2);
    if e1 > e2 {
        lemma_scales(e2, e1);
        lemma_pow2_unfold((e1 - e2) as nat);
        lemma_pow2_pos((e1 - e2 - 1) as nat);
        let w = pow2((e1 - e2) as nat);
        assert(false) by (nonlinear_arith)
            requires
                q1 * down1 * 0x80_0000 <= p1 * up1,
                p2 * up2 < q2 * down2 * 0x100_0000,
                p1 * q2 <= p2 * q1,
                down1 * up2 == w * (down2 * up1),
                w >= 2,
                q1 > 0,
                q2 > 0,
                up1 > 0,
                up2 > 0,
                down2 > 0,
        {
            let a = q1 * q2;
            let s = down2 * up1;
            assert(a > 0 && s > 0);
            assert((q1 * down1 * 0x80_0000) * (q2 * up2) == a * (down1 * up2) * 0x80_0000);
            assert((q1 * down1 * 0x80_0000) * (q2 * up2) <= (p1 * up1) * (q2 * up2));
            assert((p1 * up1) * (q2 * up2) == (p1 * q2) * (up1 * up2));
            assert((p1 * q2) * (up1 * up2) <= (p2 * q1) * (up1 * up2));
            assert((p2 * q1) * (up1 * up2) == (p2 * up2) * (q1 * up1));
            assert((p2 * up2) * (q1 * up1) < (q2 * down2 * 0x100_0000) * (q1 * up1));
            assert((q2 * down2 * 0x100_0000) * (q1 * up1) == a * s * 0x100_0000);
            assert(a * (w * s) >= a * (2 * s));
        }
    } else if e1 == e2 {
        assert((p1 * up1) * (q2 * down2) <= (p2 * up2) * (q1 * down1)) by (nonlinear_arith)
            requires
                p1 * q2 <= p2 * q1,
                up1 == up2,
                down1 == down2,
        {
            assert((p1 * up1) * (q2 * down2) == (p1 * q2) * (up1 * down1));
            assert((p2 * up2) * (q1 * down1) == (p2 * q1) * (up1 * down1));
        }
        lemma_nearest_even_monotone(p1 * up1, q1 * down1, p2 * up2, q2 * down2);
        assert(u1 * down1 > 0 && (u1 * down1) * up2 <= (u2 * down2) * up1) by (nonlinear_arith)
            requires
                0 < u1 <= u2,
                down1 == down2,
                up1 == up2,
                down1 > 0,
        ;
        lemma_ceil_div_monotone(u1 * down1, up1, u2 * down2, up2);
    } else {
        lemma_scales(e1, e2);
        lemma_pow2_unfold((e2 - e1) as nat);
        lemma_pow2_pos((e2 - e1 - 1) as nat);
        let w = pow2((e2 - e1) as nat);
        assert(u1 * down1 > 0 && (u1 * down1) * up2 <= (u2 * down2) * up1) by (nonlinear_arith)
            requires
                0 < u1 <= 0x100_0000,
                u2 >= 0x80_0000,
                down2 * up1 == w * (down1 * up2),
                w >= 2,
                down1 > 0,
                up2 > 0,
        {
            let s = down1 * up2;
            assert(s > 0);
            assert((u1 * down1) * up2 == u1 * s);
            assert((u2 * down2) * up1 == u2 * (w * s));
            assert(u1 * s <= 0x100_0000 * s);
            assert(w * s >= 2 * s);
            assert(u2 * (w * s) >= 0x80_0000 * (w * s));
        }
        lemma_ceil_div_monotone(u1 * down1, up1, u2 * down2, up2);
    }
}

/// In units of its spacing a rounded quotient lies between `2^23` and `2^24`.
proof fn lemma_spacing_bounds(p: nat, q: nat, e: int)
    requires
        q > 0,
        is_spacing(p, q, e),
    ensures
        0x80_0000 <= nearest_even(p * scale_up(e), q * scale_down(e)) <= 0x100_0000,
{
    lemma_scales(e, e);
    let (a, b) = (p * scale_up(e), q * scale_down(e));
    assert(b > 0) by (nonlinear_arith)
        requires
            b == q * scale_down(e),
            q > 0,
            scale_down(e) > 0,
    ;
    lemma_nearest_even_bounds(a, b, 0x100_0000);
    assert(b * 0x80_0000 == 0x80_0000 * b);
    lemma_nearest_even_bounds(0x80_0000 * b, b, 0x80_0000);
    assert((0x80_0000 * b) * b <= a * b) by (nonlinear_arith)
        requires
            0x80_0000 * b <= a,
    ;
    lemma_nearest_even_monotone(0x80_0000 * b, b, a, b);
}

/// A larger dimension takes no fewer workgroups, and larger workgroups are no more. This holds of
/// all extents, zero among them.
pub proof fn law_workgroups_monotone(dimension: u32, threads: u32, larger: u32, fewer: u32)
    requires
        dimension <= larger,
        fewer <= threads,
    ensures
        workgroups(dimension, threads) <= workgroups(larger, fewer),
{
    if dimension > 0 && fewer > 0 {
        let (d, t) = (dimension as nat, threads as nat);
        let (l, f) = (larger as nat, fewer as nat);
        lemma_single_ceil_monotone(d, 1, l, 1);
        lemma_single_ceil_monotone(f, 1, t, 1);
        let (d, t) = (single_ceil(d, 1), single_ceil(t, 1));
        let (l, f) = (single_ceil(l, 1), single_ceil(f, 1));
        assert(d * f <= l * t) by (nonlinear_arith)
            requires
                d <= l,
                f <= t,
        ;
        lemma_single_ceil_monotone(d, t, l, f);
    }
}

/// Rounding to single precision moves a quotient by at most `2^-24` of it.
proof fn lemma_single_ceil_near(p: nat, q: nat)
    requires
        p > 0,
        q > 0,
    ensures
        single_ceil(p, q) > 0,
        single_ceil(p, q) * q * 0x100_0000 >= p * 0xff_ffff,
        (single_ceil(p, q) - 1) * q * 0x100_0000 <= p * 0x100_0001,
        q == 1 && p > 0x100_0000 ==> single_ceil(p, q) * 0x100_0000 <= p * 0x100_0001,
{
    lemma_spacing_exists(p, q);
    let e = choose|e: int| #[trigger] is_spacing(p, q, e);
    let (up, down) = (scale_up(e), scale_down(e));
    let (a, b) = (p * up, q * down);
    lemma_scales(e, e);
    assert(a > 0 && b > 0) by (nonlinear_arith)
        requires
            a == p * up,
            b == q * down,
            p > 0,
            q > 0,
            up > 0,
            down > 0,
    ;
    let u = nearest_even(a, b);
    lemma_fundamental_div_mod(a as int, b as int);
    lemma_spacing_bounds(p, q, e);
    let (f, r) = (a / b, a % b);
    assert(2 * (u * b) <= 2 * a + b && 2 * a <= 2 * (u * b) + b) by (nonlinear_arith)
        requires
            a == b * f + r,
            0 <= r < b,
            (u == f && 2 * r <= b) || (u == f + 1 && 2 * r >= b),
    ;
    assert(b * 0x80_0000 <= a);
    let v = u * down;
    assert(v > 0) by (nonlinear_arith)
        requires
            v == u * down,
            u > 0,
            down > 0,
    ;
    lemma_ceil_div(v, up);
    let c = ceil_div(v, up);
    assert(v * q == u * b) by (nonlinear_arith)
        requires
            v == u * down,
            b == q * down,
    ;
    assert(c * q * 0x100_0000 >= p * 0xff_ffff) by (nonlinear_arith)
        requires
            v <= c * up,
            v * q == u * b,
            2 * a <= 2 * (u * b) + b,
            b * 0x80_0000 <= a,
            a == p * up,
            up > 0,
    {
        assert(a * 0xff_ffff <= (u * b) * 0x100_0000);
        assert((c * q * 0x100_0000) * up == (c * up) * q * 0x100_0000);
        assert((c * up) * q >= v * q);
        assert((p * 0xff_ffff) * up == a * 0xff_ffff);
    }
    assert((c - 1) * q * 0x100_0000 <= p * 0x100_0001) by (nonlinear_arith)
        requires
            (c - 1) * up < v,
            v * q == u * b,
            2 * (u * b) <= 2 * a + b,
            b * 0x80_0000 <= a,
            a == p * up,
            up > 0,
            q > 0,
    {
        assert((u * b) * 0x100_0000 <= a * 0x100_0001);
        assert(((c - 1) * q * 0x100_0000) * up == ((c - 1) * up) * q * 0x100_0000);
        assert(((c - 1) * up) * q <= v * q);
        assert((p * 0x100_0001) * up == a * 0x100_0001);
    }
    if q == 1 && p > 0x100_0000 {
        if e <= 0 {
            assert(down == 1 && b == 1);
            assert(false) by (nonlinear_arith)
                requires
                    p * up < 1 * 0x100_0000,
                    p > 0x100_0000,
                    up > 0,
            ;
        }
        assert(up == 1 && a == p);
        assert(c == v);
        assert(v * 0x100_0000 <= p * 0x100_0001) by (nonlinear_arith)
            requires
                v * 1 == u * b,
                2 * (u * b) <= 2 * p + b,
                b * 0x80_0000 <= p,
        ;
    }
}

/// Conversion to single precision moves an integer by at most `2^-24` of it.
proof fn lemma_single_near(n: u32)
    requires
        n > 0,
    ensures
        single_ceil(n as nat, 1) > 0,
        single_ceil(n as nat, 1) * 0x100_0000 >= n * 0xff_ffff,
        single_ceil(n as nat, 1) * 0x100_0000 <= n * 0x100_0001,
{
    lemma_single_ceil_near(n as nat, 1);
    if n <= 0x100_0000 {
        lemma_single_ceil_exact(n as nat, 1);
        lemma_ceil_div_unique(n as nat, 1, n as nat);
    }
}

/// For extents of any size the workgroups cover the dimension, and none is superfluous, but for an
/// error of rounding of at most `2^-22` of the dimension. No dimension takes no workgroups, and
/// workgroups of no threads are as many as there can be.
pub proof fn law_workgroups_near(dimension: u32, threads: u32)
    ensures
        dimension == 0 ==> workgroups(dimension, threads) == 0,
        dimension > 0 ==> workgroups(dimension, threads) > 0,
        dimension > 0 && threads == 0 ==> workgroups(dimension, threads) == u32::MAX,
        dimension > 0 && threads > 0 ==> {
            &&& workgroups(dimension, threads) * threads * 0x40_0000 >= dimension * 0x3f_ffff
            &&& (workgroups(dimension, threads) - 1) * threads * 0x40_0000 <= dimension * 0x40_0001
        },
{
    if dimension > 0 && threads > 0 {
        lemma_single_near(dimension);
        lemma_single_near(threads);
        let (d, t) = (single_ceil(dimension as nat, 1), single_ceil(threads as nat, 1));
        lemma_single_ceil_near(d, t);
        let c = single_ceil(d, t) as int;
        let (x, y) = (dimension as int, threads as int);
        assert(c * y * 0x40_0000 >= x * 0x3f_ffff) by (nonlinear_arith)
            requires
                c * t * 0x100_0000 >= d * 0xff_ffff,
                d * 0x100_0000 >= x * 0xff_ffff,
                t * 0x100_0000 <= y * 0x100_0001,
                c > 0,
                x > 0,
                y > 0,
        {
            let k: int = 0x100_0000;
            assert(c * (t * k) <= c * (y * (k + 1)));
            assert(c * t * k * k >= d * (k - 1) * k);
            assert((d * k) * (k - 1) >= (x * (k - 1)) * (k - 1));
            assert(c * y * (k + 1) * k >= x * (k - 1) * (k - 1));
            assert(4 * ((k - 1) * (k - 1)) >= (k - 4) * ((k + 1) * 4));
            assert(x * ((k - 1) * (k - 1)) >= x * ((k - 4) * (k + 1)));
            assert((c * y * k) * (k + 1) >= (x * (k - 4)) * (k + 1));
            assert(c * y * k >= x * (k - 4));
        }
        assert((c - 1) * y * 0x40_0000 <= x * 0x40_0001) by (nonlinear_arith)
            requires
                (c - 1) * t * 0x100_0000 <= d * 0x100_0001,
                d * 0x100_0000 <= x * 0x100_0001,
                t * 0x100_0000 >= y * 0xff_ffff,
                c > 0,
                x > 0,
                y > 0,
        {
            let k: int = 0x100_0000;
            assert((c - 1) * (t * k) >= (c - 1) * (y * (k - 1)));
            assert((c - 1) * t * k * k <= d * (k + 1) * k);
            assert((d * k) * (k + 1) <= (x * (k + 1)) * (k + 1));
            assert((c - 1) * y * (k - 1) * k <= x * (k + 1) * (k + 1));
            assert((k + 1) * (k + 1) <= (k + 4) * (k - 1));
            assert(x * ((k + 1) * (k + 1)) <= x * ((k + 4) * (k - 1)));
            assert(((c - 1) * y * k) * (k - 1) <= (x * (k + 4)) * (k - 1));
            assert((c - 1) * y * k <= x * (k + 4));
        }
        if c > u32::MAX {
            assert(u32::MAX * y * 0x40_0000 >= x * 0x3f_ffff) by (nonlinear_arith)
                requires
                    0 < x <= u32::MAX,
                    y > 0,
            ;
            assert((u32::MAX - 1) * y <= (c - 1) * y) by (nonlinear_arith)
                requires
                    c > u32::MAX,
                    y > 0,
            ;
        }
    }
}

} // verus!
