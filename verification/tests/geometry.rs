use see_augmented::geometry::{far_enough, normal_offset, segment_length_squared, Offset, Point};
use see_augmented::roots::{isqrt, scale_component};

fn at(x: i32, y: i32) -> Point {
    Point { x, y }
}

#[test]
fn isqrt_rounds_down() {
    assert_eq!(isqrt(0), 0);
    assert_eq!(isqrt(1), 1);
    assert_eq!(isqrt(2), 1);
    assert_eq!(isqrt(3), 1);
    assert_eq!(isqrt(4), 2);
    assert_eq!(isqrt(99), 9);
    assert_eq!(isqrt(100), 10);
    assert_eq!(isqrt(101), 10);
    assert_eq!(isqrt(u64::MAX), u32::MAX);
    assert_eq!(isqrt((u32::MAX as u64) * (u32::MAX as u64)), u32::MAX);
    assert_eq!(isqrt((u32::MAX as u64) * (u32::MAX as u64) - 1), u32::MAX - 1);
}

#[test]
fn isqrt_brackets_every_small_number() {
    for n in 0u64..5000 {
        let r = isqrt(n) as u64;
        assert!(r * r <= n);
        assert!(n < (r + 1) * (r + 1));
    }
}

#[test]
fn scale_component_of_a_three_four_five_triangle() {
    // A direction of (3, 4) has length 5.
    assert_eq!(scale_component(10, 3, 25), 6);
    assert_eq!(scale_component(10, 4, 25), 8);
    assert_eq!(scale_component(1, 3, 25), 0);
    assert_eq!(scale_component(0, 3, 25), 0);
    assert_eq!(scale_component(10, 0, 25), 0);
}

#[test]
fn scale_component_rounds_down() {
    // 10 / sqrt(2) = 7.07...
    assert_eq!(scale_component(10, 1, 2), 7);
    // 100 * 2 / sqrt(5) = 89.44...
    assert_eq!(scale_component(100, 2, 5), 89);
    // 100 * 1 / sqrt(5) = 44.72...
    assert_eq!(scale_component(100, 1, 5), 44);
}

#[test]
fn scale_component_at_the_largest_values() {
    let a = u32::MAX;
    let len_sq = (a as u128) * (a as u128);
    assert_eq!(scale_component(u32::MAX, a, len_sq), u32::MAX);
    assert_eq!(scale_component(u32::MAX, a, 2 * len_sq), 3037000499);
}

#[test]
fn offset_stands_at_a_right_angle() {
    // Along the x axis the normal is (0, 1).
    assert_eq!(normal_offset(at(0, 0), at(10, 0), 6), Offset { x: 0, y: 6 });
    assert_eq!(normal_offset(at(10, 0), at(0, 0), 6), Offset { x: 0, y: -6 });
    // Along the y axis the normal is (-1, 0).
    assert_eq!(normal_offset(at(0, 0), at(0, 10), 6), Offset { x: -6, y: 0 });
    assert_eq!(normal_offset(at(0, 10), at(0, 0), 6), Offset { x: 6, y: 0 });
    // Along (3, 4) the normal is (-4, 3) / 5.
    assert_eq!(normal_offset(at(1, 1), at(4, 5), 10), Offset { x: -8, y: 6 });
    assert_eq!(normal_offset(at(4, 5), at(1, 1), 10), Offset { x: 8, y: -6 });
    // Along the diagonal each coordinate is 10 / sqrt(2), rounded towards zero.
    assert_eq!(normal_offset(at(0, 0), at(5, 5), 10), Offset { x: -7, y: 7 });
    assert_eq!(normal_offset(at(0, 0), at(-5, 5), 10), Offset { x: -7, y: -7 });
}

#[test]
fn offset_of_a_segment_without_length_is_zero() {
    assert_eq!(normal_offset(at(7, 7), at(7, 7), 6), Offset { x: 0, y: 0 });
    assert_eq!(normal_offset(at(0, 0), at(10, 0), 0), Offset { x: 0, y: 0 });
}

#[test]
fn offset_across_the_whole_plane() {
    let low = at(i32::MIN, i32::MIN);
    let high = at(i32::MAX, i32::MAX);
    assert_eq!(
        normal_offset(low, high, u32::MAX),
        Offset { x: -3037000499, y: 3037000499 }
    );
    assert_eq!(
        normal_offset(at(i32::MIN, 0), at(i32::MAX, 0), u32::MAX),
        Offset { x: 0, y: u32::MAX as i64 }
    );
    assert_eq!(
        segment_length_squared(low, high),
        2 * (u32::MAX as u128) * (u32::MAX as u128)
    );
}

#[test]
fn far_enough_compares_with_the_shortest_length() {
    assert!(!far_enough(at(0, 0), at(3, 0), 4));
    assert!(far_enough(at(0, 0), at(4, 0), 4));
    assert!(far_enough(at(0, 0), at(5, 0), 4));
    // (3, 3) is sqrt(18) = 4.24 away, (2, 3) is sqrt(13) = 3.6 away.
    assert!(far_enough(at(0, 0), at(3, 3), 4));
    assert!(!far_enough(at(0, 0), at(2, 3), 4));
    assert!(far_enough(at(0, 0), at(0, 0), 0));
    assert!(!far_enough(at(0, 0), at(0, 0), 1));
    // The widest the plane gets: u32::MAX from one side to the other.
    assert!(far_enough(at(i32::MIN, 0), at(i32::MAX, 0), u32::MAX));
    assert!(!far_enough(at(i32::MIN + 1, 0), at(i32::MAX, 0), u32::MAX));
    assert!(far_enough(at(i32::MIN + 1, 0), at(i32::MAX, i32::MAX), u32::MAX));
    assert_eq!(segment_length_squared(at(1, 2), at(4, 6)), 25);
}
