//! Points, vertices and the perpendicular offset of a segment.

use vstd::prelude::*;
use crate::roots::{
    lemma_offset_component_exists, lemma_offset_component_on_axis, offset_component,
    scale_component,
};

verus! {

/// A pointer position in device units.
#[derive(Clone, Copy, Debug, PartialEq, Eq, Structural)]
pub struct Point {
    pub x: i32,
    pub y: i32,
}

/// A corner of a mesh, in device units.
#[derive(Clone, Copy, Debug, PartialEq, Eq, Structural)]
pub struct Vertex {
    pub x: i64,
    pub y: i64,
}

/// A displacement from the centre line of a ribbon to one of its borders.
#[derive(Clone, Copy, Debug, PartialEq, Eq, Structural)]
pub struct Offset {
    pub x: i64,
    pub y: i64,
}

/// How far `to` lies to the right of `from`.
pub open spec fn delta_x(from: Point, to: Point) -> int {
    to.x - from.x
}

/// How far `to` lies below `from`.
pub open spec fn delta_y(from: Point, to: Point) -> int {
    to.y - from.y
}

/// The squared distance between two points.
pub open spec fn distance_squared(from: Point, to: Point) -> int {
    delta_x(from, to) * delta_x(from, to) + delta_y(from, to) * delta_y(from, to)
}

/// The absolute value of `v`.
pub open spec fn magnitude(v: int) -> int {
    if v < 0 {
        -v
    } else {
        v
    }
}

/// `k` with the sign of `v`; zero where `v` is zero.
pub open spec fn with_sign_of(v: int, k: int) -> int {
    if v > 0 {
        k
    } else if v < 0 {
        -k
    } else {
        0
    }
}

/// The first coordinate of the offset of width `w` across the segment
/// `from -> to`: the unit normal `(-dy, dx) / |d|` times `w`, each coordinate
/// rounded towards zero. A segment of length zero has no normal, and its
/// offset is zero.
pub open spec fn normal_offset_x(from: Point, to: Point, w: int) -> int {
    let len_sq = distance_squared(from, to);
    if len_sq == 0 {
        0
    } else {
        with_sign_of(-delta_y(from, to), offset_component(w, magnitude(delta_y(from, to)), len_sq))
    }
}

/// The second coordinate of the same offset.
pub open spec fn normal_offset_y(from: Point, to: Point, w: int) -> int {
    let len_sq = distance_squared(from, to);
    if len_sq == 0 {
        0
    } else {
        with_sign_of(delta_x(from, to), offset_component(w, magnitude(delta_x(from, to)), len_sq))
    }
}

/// `a` squared is no more than `a` squared plus `b` squared, and both fit.
proof fn lemma_squares(a: int, b: int)
    by (nonlinear_arith)
    requires
        0 <= a <= 0xffff_ffff,
        0 <= b <= 0xffff_ffff,
    ensures
        0 <= a * a <= a * a + b * b,
        0 <= b * b <= a * a + b * b,
        a * a + b * b <= 2 * 0xffff_fffe_0000_0001,
        a * a + b * b == 0 <==> a == 0 && b == 0,
{
}

proof fn lemma_square_of_magnitude(v: int)
    by (nonlinear_arith)
    ensures
        magnitude(v) * magnitude(v) == v * v,
{
}

/// The distance of `v` from zero.
fn abs_of(v: i64) -> (a: u32)
    requires
        -0xffff_ffff <= v <= 0xffff_ffff,
    ensures
        a as int == magnitude(v as int),
{
    if v < 0 {
        (-v) as u32
    } else {
        v as u32
    }
}

/// The squared length of the segment `from -> to`.
pub fn segment_length_squared(from: Point, to: Point) -> (len_sq: u128)
    ensures
        len_sq as int == distance_squared(from, to),
{
    let dx: i64 = to.x as i64 - from.x as i64;
    let dy: i64 = to.y as i64 - from.y as i64;
    let ax: u32 = abs_of(dx);
    let ay: u32 = abs_of(dy);
    proof {
        lemma_squares(ax as int, ay as int);
        lemma_square_of_magnitude(dx as int);
        lemma_square_of_magnitude(dy as int);
    }
    (ax as u128) * (ax as u128) + (ay as u128) * (ay as u128)
}

/// Whether `to` is at least `min` away from `from`.
pub fn far_enough(from: Point, to: Point, min: u32) -> (far: bool)
    ensures
        far == (distance_squared(from, to) >= min * min),
{
    let len_sq: u128 = segment_length_squared(from, to);
    assert(min * min <= 0xffff_ffff * 0xffff_ffff) by (nonlinear_arith)
        requires
            0 <= min <= 0xffff_ffff,
    ;
    len_sq >= (min as u128) * (min as u128)
}

/// The offset of width `w` across the segment `from -> to`.
pub fn normal_offset(from: Point, to: Point, w: u32) -> (off: Offset)
    ensures
        off.x as int == normal_offset_x(from, to, w as int),
        off.y as int == normal_offset_y(from, to, w as int),
        -(w as int) <= off.x <= w as int,
        -(w as int) <= off.y <= w as int,
{
    let dx: i64 = to.x as i64 - from.x as i64;
    let dy: i64 = to.y as i64 - from.y as i64;
    let ax: u32 = abs_of(dx);
    let ay: u32 = abs_of(dy);
    proof {
        lemma_squares(ax as int, ay as int);
        lemma_square_of_magnitude(dx as int);
        lemma_square_of_magnitude(dy as int);
    }
    let len_sq: u128 = (ax as u128) * (ax as u128) + (ay as u128) * (ay as u128);
    if len_sq == 0 {
        return Offset { x: 0, y: 0 };
    }
    let kx: i64 = scale_component(w, ay, len_sq) as i64;
    let ky: i64 = scale_component(w, ax, len_sq) as i64;
    let x: i64 = if dy > 0 {
        -kx
    } else if dy < 0 {
        kx
    } else {
        0
    };
    let y: i64 = if dx > 0 {
        ky
    } else if dx < 0 {
        -ky
    } else {
        0
    };
    Offset { x, y }
}

/// Across a horizontal or vertical segment the offset is exact: it has the
/// full width and stands at a right angle to the segment.
pub proof fn law_offset_across_axis_segment(from: Point, to: Point, w: int)
    requires
        0 <= w,
        from != to,
        from.x == to.x || from.y == to.y,
    ensures
        from.y == to.y ==> normal_offset_x(from, to, w) == 0 && normal_offset_y(from, to, w)
            == with_sign_of(delta_x(from, to), w),
        from.x == to.x ==> normal_offset_y(from, to, w) == 0 && normal_offset_x(from, to, w)
            == with_sign_of(-delta_y(from, to), w),
{
    let dx = delta_x(from, to);
    let dy = delta_y(from, to);
    lemma_square_of_magnitude(dx);
    lemma_square_of_magnitude(dy);
    if from.y == to.y {
        let m = magnitude(dx);
        assert(dy * dy == 0) by (nonlinear_arith)
            requires
                dy == 0,
        ;
        assert(m * m > 0) by (nonlinear_arith)
            requires
                m > 0,
        ;
        assert(distance_squared(from, to) == m * m);
        lemma_offset_component_on_axis(w, m);
    } else {
        let m = magnitude(dy);
        assert(dx * dx == 0) by (nonlinear_arith)
            requires
                dx == 0,
        ;
        assert(m * m > 0) by (nonlinear_arith)
            requires
                m > 0,
        ;
        assert(distance_squared(from, to) == m * m);
        lemma_offset_component_on_axis(w, m);
    }
}

/// The offset is never longer than the width it was asked for: rounding
/// only ever shortens it.
pub proof fn law_offset_within_width(from: Point, to: Point, w: int)
    requires
        0 <= w,
    ensures
        normal_offset_x(from, to, w) * normal_offset_x(from, to, w) + normal_offset_y(from, to, w)
            * normal_offset_y(from, to, w) <= w * w,
{
    let dx = delta_x(from, to);
    let dy = delta_y(from, to);
    let len_sq = distance_squared(from, to);
    let ox = normal_offset_x(from, to, w);
    let oy = normal_offset_y(from, to, w);
    if len_sq == 0 {
        assert(ox * ox + oy * oy == 0) by (nonlinear_arith)
            requires
                ox == 0,
                oy == 0,
        ;
        assert(0 <= w * w) by (nonlinear_arith);
    } else {
        let ax = magnitude(dx);
        let ay = magnitude(dy);
        lemma_square_of_magnitude(dx);
        lemma_square_of_magnitude(dy);
        assert(0 <= ax * ax && 0 <= ay * ay) by (nonlinear_arith);
        lemma_offset_component_exists(w, ay, len_sq);
        lemma_offset_component_exists(w, ax, len_sq);
        let kx = offset_component(w, ay, len_sq);
        let ky = offset_component(w, ax, len_sq);
        assert(ox * ox <= kx * kx) by (nonlinear_arith)
            requires
                ox == kx || ox == -kx || ox == 0,
        ;
        assert(oy * oy <= ky * ky) by (nonlinear_arith)
            requires
                oy == ky || oy == -ky || oy == 0,
        ;
        let s = kx * kx + ky * ky;
        let ww = w * w;
        assert((w * ay) * (w * ay) == ww * (ay * ay)) by (nonlinear_arith)
            requires
                ww == w * w,
        ;
        assert((w * ax) * (w * ax) == ww * (ax * ax)) by (nonlinear_arith)
            requires
                ww == w * w,
        ;
        assert(s * len_sq == kx * kx * len_sq + ky * ky * len_sq) by (nonlinear_arith)
            requires
                s == kx * kx + ky * ky,
        ;
        assert(ww * len_sq == ww * (ax * ax) + ww * (ay * ay)) by (nonlinear_arith)
            requires
                len_sq == ax * ax + ay * ay,
        ;
        assert(s <= ww) by (nonlinear_arith)
            requires
                s * len_sq <= ww * len_sq,
                0 < len_sq,
        ;
    }
}

/// Rounding shortens the offset by less than one unit in each coordinate:
/// lengthened by one in both, it is longer than the width.
pub proof fn law_offset_nearly_full_width(from: Point, to: Point, w: int)
    requires
        0 <= w,
        from != to,
    ensures
        ({
            let x = magnitude(normal_offset_x(from, to, w));
            let y = magnitude(normal_offset_y(from, to, w));
            (x + 1) * (x + 1) + (y + 1) * (y + 1) > w * w
        }),
{
    let dx = delta_x(from, to);
    let dy = delta_y(from, to);
    let len_sq = distance_squared(from, to);
    let ax = magnitude(dx);
    let ay = magnitude(dy);
    lemma_square_of_magnitude(dx);
    lemma_square_of_magnitude(dy);
    assert(len_sq > 0) by (nonlinear_arith)
        requires
            len_sq == dx * dx + dy * dy,
            dx != 0 || dy != 0,
    ;
    lemma_offset_component_exists(w, ay, len_sq);
    lemma_offset_component_exists(w, ax, len_sq);
    let kx = offset_component(w, ay, len_sq);
    let ky = offset_component(w, ax, len_sq);
    let x = magnitude(normal_offset_x(from, to, w));
    let y = magnitude(normal_offset_y(from, to, w));
    // Where the segment runs along an axis, one coordinate has the full
    // width; elsewhere both are the rounded components.
    if dy == 0 {
        lemma_offset_component_on_axis(w, ax);
        assert(len_sq == ax * ax) by (nonlinear_arith)
            requires
                len_sq == ax * ax + ay * ay,
                ay == 0,
        ;
        assert(y == w);
        assert((x + 1) * (x + 1) + (y + 1) * (y + 1) > w * w) by (nonlinear_arith)
            requires
                y == w,
                0 <= x,
                0 <= w,
        ;
    } else if dx == 0 {
        lemma_offset_component_on_axis(w, ay);
        assert(len_sq == ay * ay) by (nonlinear_arith)
            requires
                len_sq == ax * ax + ay * ay,
                ax == 0,
        ;
        assert(x == w);
        assert((x + 1) * (x + 1) + (y + 1) * (y + 1) > w * w) by (nonlinear_arith)
            requires
                x == w,
                0 <= y,
                0 <= w,
        ;
    } else {
        assert(x == kx && y == ky);
        let s = (kx + 1) * (kx + 1) + (ky + 1) * (ky + 1);
        let ww = w * w;
        assert((w * ay) * (w * ay) == ww * (ay * ay)) by (nonlinear_arith)
            requires
                ww == w * w,
        ;
        assert((w * ax) * (w * ax) == ww * (ax * ax)) by (nonlinear_arith)
            requires
                ww == w * w,
        ;
        assert(s * len_sq == (kx + 1) * (kx + 1) * len_sq + (ky + 1) * (ky + 1) * len_sq)
            by (nonlinear_arith)
            requires
                s == (kx + 1) * (kx + 1) + (ky + 1) * (ky + 1),
        ;
        assert(ww * len_sq == ww * (ax * ax) + ww * (ay * ay)) by (nonlinear_arith)
            requires
                len_sq == ax * ax + ay * ay,
        ;
        assert(s > ww) by (nonlinear_arith)
            requires
                s * len_sq > ww * len_sq,
                0 < len_sq,
        ;
    }
}

/// With `k2` the rounded share of `w` on the axis of `a1` and `k1` the
/// rounded share on the axis of `a2`, `k2 * a2` stays below `(k1 + 1) * a1`:
/// unrounded, both products are `w * a1 * a2 / sqrt(len_sq)`.
proof fn lemma_cross_bound(k1: int, k2: int, a1: int, a2: int, w: int, len_sq: int)
    requires
        0 <= k1,
        0 <= k2,
        0 < a1,
        0 <= a2,
        0 < len_sq,
        k2 * k2 * len_sq <= (w * a1) * (w * a1),
        (w * a2) * (w * a2) < (k1 + 1) * (k1 + 1) * len_sq,
    ensures
        k2 * a2 < (k1 + 1) * a1,
{
    let a = k2 * k2;
    let b = a2 * a2;
    let c = a1 * a1;
    let d = (k1 + 1) * (k1 + 1);
    let ww = w * w;
    assert((w * a1) * (w * a1) == ww * c) by (nonlinear_arith)
        requires
            ww == w * w,
            c == a1 * a1,
    ;
    assert((w * a2) * (w * a2) == ww * b) by (nonlinear_arith)
        requires
            ww == w * w,
            b == a2 * a2,
    ;
    assert(0 <= b && 0 < c) by (nonlinear_arith)
        requires
            b == a2 * a2,
            c == a1 * a1,
            0 < a1,
    ;
    assert((a * len_sq) * b <= (ww * c) * b) by (nonlinear_arith)
        requires
            a * len_sq <= ww * c,
            0 <= b,
    ;
    assert((ww * b) * c < (d * len_sq) * c) by (nonlinear_arith)
        requires
            ww * b < d * len_sq,
            0 < c,
    ;
    assert((a * b) * len_sq < (d * c) * len_sq) by (nonlinear_arith)
        requires
            (a * len_sq) * b <= (ww * c) * b,
            (ww * b) * c < (d * len_sq) * c,
    ;
    assert(a * b < d * c) by (nonlinear_arith)
        requires
            (a * b) * len_sq < (d * c) * len_sq,
            0 < len_sq,
    ;
    let p = k2 * a2;
    let q = (k1 + 1) * a1;
    assert(p * p == a * b) by (nonlinear_arith)
        requires
            p == k2 * a2,
            a == k2 * k2,
            b == a2 * a2,
    ;
    assert(q * q == d * c) by (nonlinear_arith)
        requires
            q == (k1 + 1) * a1,
            d == (k1 + 1) * (k1 + 1),
            c == a1 * a1,
    ;
    assert(p < q) by (nonlinear_arith)
        requires
            p * p < q * q,
            0 <= q,
    ;
}

/// The offset stands at a right angle to its segment, as nearly as whole
/// numbers allow: its inner product with the segment, which would be zero
/// without rounding, is smaller than the longer side of the segment.
pub proof fn law_offset_at_right_angle(from: Point, to: Point, w: int)
    requires
        0 <= w,
        from != to,
    ensures
        ({
            let dot = normal_offset_x(from, to, w) * delta_x(from, to) + normal_offset_y(
                from,
                to,
                w,
            ) * delta_y(from, to);
            let longer = if magnitude(delta_x(from, to)) >= magnitude(delta_y(from, to)) {
                magnitude(delta_x(from, to))
            } else {
                magnitude(delta_y(from, to))
            };
            magnitude(dot) < longer
        }),
{
    let dx = delta_x(from, to);
    let dy = delta_y(from, to);
    let len_sq = distance_squared(from, to);
    let ax = magnitude(dx);
    let ay = magnitude(dy);
    let ox = normal_offset_x(from, to, w);
    let oy = normal_offset_y(from, to, w);
    lemma_square_of_magnitude(dx);
    lemma_square_of_magnitude(dy);
    if dx == 0 || dy == 0 {
        law_offset_across_axis_segment(from, to, w);
        assert(ox * dx + oy * dy == 0) by (nonlinear_arith)
            requires
                (dx == 0 && oy == 0) || (dy == 0 && ox == 0),
        ;
    } else {
        assert(len_sq > 0 && len_sq == ax * ax + ay * ay) by (nonlinear_arith)
            requires
                len_sq == dx * dx + dy * dy,
                ax * ax == dx * dx,
                ay * ay == dy * dy,
                dx != 0,
        ;
        lemma_offset_component_exists(w, ay, len_sq);
        lemma_offset_component_exists(w, ax, len_sq);
        let kx = offset_component(w, ay, len_sq);
        let ky = offset_component(w, ax, len_sq);
        assert(0 <= w * w) by (nonlinear_arith);
        // ky * ay < (kx + 1) * ax, and kx * ax < (ky + 1) * ay.
        lemma_cross_bound(kx, ky, ax, ay, w, len_sq);
        lemma_cross_bound(ky, kx, ay, ax, w, len_sq);
        let p = ky * ay;
        let q = kx * ax;
        assert((kx + 1) * ax == q + ax && (ky + 1) * ay == p + ay) by (nonlinear_arith)
            requires
                p == ky * ay,
                q == kx * ax,
        ;
        assert(ox * dx + oy * dy == p - q || ox * dx + oy * dy == q - p) by (nonlinear_arith)
            requires
                p == ky * ay,
                q == kx * ax,
                (dx == ax && oy == ky) || (dx == -ax && oy == -ky),
                (dy == ay && ox == -kx) || (dy == -ay && ox == kx),
        ;
    }
}

} // verus!
