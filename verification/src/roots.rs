//! Integer square roots and the rounding rule of the ribbon offsets.

use vstd::prelude::*;

verus! {

/// `r` is the integer square root of `n`: the largest `r` with `r * r <= n`.
pub open spec fn is_floor_sqrt(r: int, n: int) -> bool {
    &&& 0 <= r
    &&& r * r <= n
    &&& n < (r + 1) * (r + 1)
}

/// The integer square root of `n`.
pub open spec fn floor_sqrt(n: int) -> int {
    choose|r: int| is_floor_sqrt(r, n)
}

/// Squaring keeps the order of non-negative integers.
pub proof fn lemma_square_monotone(a: int, b: int)
    by (nonlinear_arith)
    requires
        0 <= a <= b,
    ensures
        a * a <= b * b,
{
}

/// At most one integer is the square root of `n`.
pub proof fn lemma_floor_sqrt_unique(r1: int, r2: int, n: int)
    requires
        is_floor_sqrt(r1, n),
        is_floor_sqrt(r2, n),
    ensures
        r1 == r2,
{
    if r1 < r2 {
        lemma_square_monotone(r1 + 1, r2);
    } else if r2 < r1 {
        lemma_square_monotone(r2 + 1, r1);
    }
}

/// Whatever satisfies `is_floor_sqrt` is the value of `floor_sqrt`.
pub proof fn lemma_floor_sqrt_is(r: int, n: int)
    requires
        is_floor_sqrt(r, n),
    ensures
        floor_sqrt(n) == r,
{
    lemma_floor_sqrt_unique(r, floor_sqrt(n), n);
}

/// Computes the integer square root by bisection.
pub fn isqrt(n: u64) -> (r: u32)
    ensures
        is_floor_sqrt(r as int, n as int),
        r as int == floor_sqrt(n as int),
{
    let mut lo: u64 = 0;
    let mut hi: u64 = 0x1_0000_0000;
    assert(0x1_0000_0000int * 0x1_0000_0000int > u64::MAX) by (nonlinear_arith);
    while hi - lo > 1
        invariant
            lo < hi <= 0x1_0000_0000,
            lo * lo <= n,
            n < hi * hi,
        decreases hi - lo,
    {
        let mid: u64 = lo + (hi - lo) / 2;
        let fits: bool = mid <= n / mid;
        proof {
            lemma_div_bound(n as int, mid as int);
        }
        if fits {
            lo = mid;
        } else {
            hi = mid;
        }
    }
    proof {
        lemma_floor_sqrt_is(lo as int, n as int);
    }
    lo as u32
}

/// For a positive `m`, `m <= n / m` says exactly that `m * m <= n`.
pub proof fn lemma_div_bound(n: int, m: int)
    by (nonlinear_arith)
    requires
        0 <= n,
        0 < m,
    ensures
        (m <= n / m) <==> (m * m <= n),
{
}

/// `k` is `w * a / sqrt(len_sq)` rounded down: the largest `k` whose square,
/// times `len_sq`, does not exceed the square of `w * a`.
pub open spec fn is_offset_component(k: int, w: int, a: int, len_sq: int) -> bool {
    &&& 0 <= k
    &&& k * k * len_sq <= (w * a) * (w * a)
    &&& (w * a) * (w * a) < (k + 1) * (k + 1) * len_sq
}

/// The length `w`, taken along a direction of squared length `len_sq`, has a
/// component of this size on an axis on which the direction measures `a`:
/// `w * a / sqrt(len_sq)`, rounded down.
pub open spec fn offset_component(w: int, a: int, len_sq: int) -> int {
    choose|k: int| is_offset_component(k, w, a, len_sq)
}

/// At most one integer is the rounded component.
pub proof fn lemma_offset_component_unique(k1: int, k2: int, w: int, a: int, len_sq: int)
    requires
        is_offset_component(k1, w, a, len_sq),
        is_offset_component(k2, w, a, len_sq),
    ensures
        k1 == k2,
{
    let n = (w * a) * (w * a);
    assert(0 < len_sq) by (nonlinear_arith)
        requires
            n == (w * a) * (w * a),
            n < (k1 + 1) * (k1 + 1) * len_sq,
    ;
    if k1 < k2 {
        lemma_square_monotone(k1 + 1, k2);
        lemma_scale_monotone((k1 + 1) * (k1 + 1), k2 * k2, len_sq);
    } else if k2 < k1 {
        lemma_square_monotone(k2 + 1, k1);
        lemma_scale_monotone((k2 + 1) * (k2 + 1), k1 * k1, len_sq);
    }
}

/// Whatever satisfies `is_offset_component` is the value of `offset_component`.
pub proof fn lemma_offset_component_is(k: int, w: int, a: int, len_sq: int)
    requires
        is_offset_component(k, w, a, len_sq),
    ensures
        offset_component(w, a, len_sq) == k,
{
    lemma_offset_component_unique(k, offset_component(w, a, len_sq), w, a, len_sq);
}

/// Along a direction that is not zero the rounded component exists, so
/// `offset_component` is it.
pub proof fn lemma_offset_component_exists(w: int, a: int, len_sq: int)
    requires
        0 <= w,
        0 <= a,
        0 < len_sq,
    ensures
        is_offset_component(offset_component(w, a, len_sq), w, a, len_sq),
{
    let n = (w * a) * (w * a);
    assert(0 <= n) by (nonlinear_arith)
        requires
            n == (w * a) * (w * a),
    ;
    let q = n / len_sq;
    assert(0 <= q && q * len_sq <= n < (q + 1) * len_sq) by (nonlinear_arith)
        requires
            q == n / len_sq,
            0 < len_sq,
            0 <= n,
    ;
    lemma_floor_sqrt_exists(q);
    let k = floor_sqrt(q);
    lemma_scale_monotone(k * k, q, len_sq);
    lemma_scale_monotone(q + 1, (k + 1) * (k + 1), len_sq);
    assert(is_offset_component(k, w, a, len_sq));
}

/// Every number from zero on has an integer square root.
pub proof fn lemma_floor_sqrt_exists(n: int)
    requires
        0 <= n,
    ensures
        is_floor_sqrt(floor_sqrt(n), n),
    decreases n,
{
    if n == 0 {
        assert(is_floor_sqrt(0, 0));
    } else {
        lemma_floor_sqrt_exists(n - 1);
        let r = floor_sqrt(n - 1);
        if (r + 1) * (r + 1) <= n {
            assert(n < (r + 2) * (r + 2)) by (nonlinear_arith)
                requires
                    n - 1 < (r + 1) * (r + 1),
                    0 <= r,
            ;
            assert(is_floor_sqrt(r + 1, n));
        } else {
            assert(r * r <= n);
            assert(is_floor_sqrt(r, n));
        }
    }
}

/// Multiplying by a non-negative factor keeps the order.
pub proof fn lemma_scale_monotone(x: int, y: int, c: int)
    by (nonlinear_arith)
    requires
        x <= y,
        0 <= c,
    ensures
        x * c <= y * c,
{
}

/// The component never exceeds the length it is taken from, as long as the
/// direction is at least as long as its part on the axis.
pub proof fn lemma_offset_component_bounded(w: int, a: int, len_sq: int)
    requires
        0 <= w,
        0 <= a,
        0 < len_sq,
        a * a <= len_sq,
        is_offset_component(offset_component(w, a, len_sq), w, a, len_sq),
    ensures
        0 <= offset_component(w, a, len_sq) <= w,
{
    let k = offset_component(w, a, len_sq);
    if k > w {
        assert((w * a) * (w * a) == (w * w) * (a * a)) by (nonlinear_arith);
        lemma_square_monotone(w + 1, k);
        lemma_scale_monotone((w + 1) * (w + 1), k * k, len_sq);
        assert((w * w) * (a * a) <= (w * w) * len_sq) by (nonlinear_arith)
            requires
                a * a <= len_sq,
                0 <= w,
        ;
        assert((w * w) * len_sq < (w + 1) * (w + 1) * len_sq) by (nonlinear_arith)
            requires
                0 <= w,
                0 < len_sq,
        ;
    }
}

/// A direction that lies on the axis takes the whole length.
pub proof fn lemma_offset_component_on_axis(w: int, a: int)
    requires
        0 <= w,
        0 < a,
    ensures
        offset_component(w, a, a * a) == w,
        offset_component(w, 0, a * a) == 0,
{
    assert(is_offset_component(w, w, a, a * a)) by (nonlinear_arith)
        requires
            0 <= w,
            0 < a,
    ;
    lemma_offset_component_is(w, w, a, a * a);
    assert(is_offset_component(0, w, 0, a * a)) by (nonlinear_arith)
        requires
            0 < a,
    ;
    lemma_offset_component_is(0, w, 0, a * a);
}

/// Computes `w * a / sqrt(len_sq)`, rounded down, without leaving the integers.
pub fn scale_component(w: u32, a: u32, len_sq: u128) -> (k: u32)
    requires
        0 < len_sq,
        a * a <= len_sq,
    ensures
        is_offset_component(k as int, w as int, a as int, len_sq as int),
        k as int == offset_component(w as int, a as int, len_sq as int),
        k <= w,
{
    assert(w * a <= 0xffff_ffff * 0xffff_ffff) by (nonlinear_arith)
        requires
            0 <= w <= 0xffff_ffff,
            0 <= a <= 0xffff_ffff,
    ;
    let wa: u64 = (w as u64) * (a as u64);
    assert(wa * wa <= 0xffff_fffe_0000_0001 * 0xffff_fffe_0000_0001) by (nonlinear_arith)
        requires
            0 <= wa <= 0xffff_fffe_0000_0001,
    ;
    let num: u128 = (wa as u128) * (wa as u128);
    let q: u128 = num / len_sq;
    proof {
        let wi = w as int;
        let ai = a as int;
        let li = len_sq as int;
        assert(num == (wi * wi) * (ai * ai)) by (nonlinear_arith)
            requires
                num == (wi * ai) * (wi * ai),
        ;
        assert((wi * wi) * (ai * ai) <= (wi * wi) * li) by (nonlinear_arith)
            requires
                ai * ai <= li,
        ;
        assert(q <= wi * wi) by (nonlinear_arith)
            requires
                q == num as int / li,
                0 < li,
                0 <= num as int <= (wi * wi) * li,
        ;
        assert(wi * wi <= 0xffff_ffff * 0xffff_ffff) by (nonlinear_arith)
            requires
                0 <= wi <= 0xffff_ffff,
        ;
    }
    let k: u32 = isqrt(q as u64);
    proof {
        let ki = k as int;
        let qi = q as int;
        let li = len_sq as int;
        let ni = num as int;
        assert(qi * li <= ni < (qi + 1) * li) by (nonlinear_arith)
            requires
                qi == ni / li,
                0 < li,
                0 <= ni,
        ;
        lemma_scale_monotone(ki * ki, qi, li);
        lemma_scale_monotone(qi + 1, (ki + 1) * (ki + 1), li);
        assert(is_offset_component(ki, w as int, a as int, li));
        lemma_offset_component_is(ki, w as int, a as int, li);
        lemma_offset_component_bounded(w as int, a as int, li);
    }
    k
}

} // verus!
