use hotplot::geometry::Point;
use hotplot::math::map_inverval_value;
use hotplot::math::mul_div;
use hotplot::math::point_distance;
use hotplot::math::point_to_interval_distance;
use hotplot::math::SquaredDistance;

#[test]
fn mul_div_gives_quotient_and_remainder() {
    assert_eq!(mul_div(6, 7, 4), Some((10, 2)));
    assert_eq!(mul_div(0, 7, 4), Some((0, 0)));
    assert_eq!(mul_div(7, 0, 4), Some((0, 0)));
    assert_eq!(mul_div(1, 1, 1), Some((1, 0)));
    assert_eq!(mul_div(1000, 1000, 7), Some((142857, 1)));
}

#[test]
fn mul_div_does_not_overflow_in_between() {
    assert_eq!(mul_div(u128::MAX, u128::MAX, u128::MAX), Some((u128::MAX, 0)));
    assert_eq!(mul_div(u128::MAX, 3, 3), Some((u128::MAX, 0)));
    assert_eq!(mul_div(u128::MAX - 1, u128::MAX - 1, u128::MAX), Some((u128::MAX - 2, 1)));
    assert_eq!(
        mul_div(1 << 127, 6, 4),
        Some((3 << 126, 0))
    );
}

#[test]
fn mul_div_says_when_quotient_does_not_fit() {
    assert_eq!(mul_div(u128::MAX, 4, 2), None);
    assert_eq!(mul_div(u128::MAX, 2, 1), None);
    assert_eq!(mul_div(1 << 100, 1 << 100, 1 << 10), None);
}

#[test]
fn mapping_keeps_relative_place() {
    assert_eq!(map_inverval_value(5, (0, 10), (0, 100)), 50);
    assert_eq!(map_inverval_value(3, (0, 10), (20, 100)), 44);
    assert_eq!(map_inverval_value(15, (10, 20), (100, 200)), 150);
}

#[test]
fn mapping_sends_ends_to_ends() {
    assert_eq!(map_inverval_value(0, (0, 10), (20, 100)), 20);
    assert_eq!(map_inverval_value(10, (0, 10), (20, 100)), 100);
    assert_eq!(map_inverval_value(7, (7, 3), (50, 9)), 50);
    assert_eq!(map_inverval_value(3, (7, 3), (50, 9)), 9);
    assert_eq!(map_inverval_value(u128::MAX, (0, u128::MAX), (0, 3)), 3);
}

#[test]
fn mapping_rounds_down() {
    assert_eq!(map_inverval_value(1, (0, 3), (0, 10)), 3);
    assert_eq!(map_inverval_value(2, (0, 3), (0, 10)), 6);
    // Towards a falling target the exact image 10 - 10/3 is rounded down too.
    assert_eq!(map_inverval_value(1, (0, 3), (10, 0)), 6);
    assert_eq!(map_inverval_value(2, (0, 3), (10, 0)), 3);
}

#[test]
fn mapping_from_an_interval_of_no_width_gives_the_middle() {
    assert_eq!(map_inverval_value(0, (4, 4), (10, 20)), 15);
    assert_eq!(map_inverval_value(999, (4, 4), (10, 20)), 15);
    assert_eq!(map_inverval_value(4, (4, 4), (10, 21)), 15);
    assert_eq!(map_inverval_value(4, (4, 4), (u128::MAX, u128::MAX)), u128::MAX);
}

#[test]
fn mapping_runs_both_ways() {
    assert_eq!(map_inverval_value(2, (10, 0), (0, 100)), 80);
    assert_eq!(map_inverval_value(2, (0, 10), (100, 0)), 80);
    assert_eq!(map_inverval_value(2, (10, 0), (100, 0)), 20);
}

#[test]
fn mapping_stops_at_the_ends_of_the_range() {
    // Beyond the source interval on the far side of zero.
    assert_eq!(map_inverval_value(0, (5, 10), (0, 10)), 0);
    assert_eq!(map_inverval_value(20, (0, 10), (10, 0)), 0);
    assert_eq!(map_inverval_value(u128::MAX, (0, 1), (0, 2)), u128::MAX);
}

#[test]
fn distance_to_a_point_on_the_segment_is_zero() {
    let a = Point::new(0, 0);
    let b = Point::new(10, 10);
    assert!(point_to_interval_distance(Point::new(5, 5), a, b).is_zero());
    assert!(point_to_interval_distance(a, a, b).is_zero());
    assert!(point_to_interval_distance(b, a, b).is_zero());
    assert!(!point_to_interval_distance(Point::new(5, 6), a, b).is_zero());
    assert!(!point_to_interval_distance(Point::new(11, 11), a, b).is_zero());
}

#[test]
fn distance_beside_the_segment_is_to_the_line() {
    let a = Point::new(0, 0);
    let b = Point::new(10, 0);
    let d = point_to_interval_distance(Point::new(4, 3), a, b);
    // cross = 4 * 0 - 3 * 10 = -30, length squared = 100: 900 / 100 = 9.
    assert_eq!(d, SquaredDistance { whole: 9, rest: 0, denominator: 100 });
    assert!(d.is_within(3));
    assert!(!d.is_within(2));
}

#[test]
fn distance_past_the_ends_is_to_the_nearer_end() {
    let a = Point::new(0, 0);
    let b = Point::new(10, 0);
    assert_eq!(
        point_to_interval_distance(Point::new(-3, 4), a, b),
        SquaredDistance { whole: 25, rest: 0, denominator: 1 }
    );
    assert_eq!(
        point_to_interval_distance(Point::new(13, 4), a, b),
        SquaredDistance { whole: 25, rest: 0, denominator: 1 }
    );
}

#[test]
fn distance_to_a_segment_of_no_length_is_to_its_point() {
    let a = Point::new(2, 2);
    assert_eq!(
        point_to_interval_distance(Point::new(5, 6), a, a),
        SquaredDistance { whole: 25, rest: 0, denominator: 1 }
    );
    assert!(point_to_interval_distance(a, a, a).is_zero());
}

#[test]
fn distance_beside_the_segment_may_be_a_fraction() {
    let d = point_to_interval_distance(Point::new(1, 2), Point::new(0, 0), Point::new(3, 1));
    // cross = 1 * 1 - 2 * 3 = -5, length squared = 10: 25 / 10.
    assert_eq!(d, SquaredDistance { whole: 2, rest: 5, denominator: 10 });
    assert!(d.is_within(2));
    assert!(!d.is_within(1));
    assert!(!d.is_zero());
}

#[test]
fn distances_at_the_ends_of_the_grid_do_not_overflow() {
    let a = Point::new(i32::MIN, i32::MIN);
    let b = Point::new(i32::MAX, i32::MAX);
    let far = point_to_interval_distance(Point::new(i32::MIN, i32::MAX), a, b);
    // The corner lies half a diagonal from the diagonal: with m the width of
    // the grid, m * m / 2 square pixels.
    let m: u128 = u32::MAX as u128;
    assert_eq!(
        far,
        SquaredDistance { whole: (m * m - 1) / 2, rest: m * m, denominator: 2 * m * m }
    );
    assert_eq!(point_distance(a, b), SquaredDistance { whole: 2 * m * m, rest: 0, denominator: 1 });
    assert!(far.is_shorter_than(&point_distance(a, b)));
    assert!(!far.is_within(u16::MAX));
}

#[test]
fn squared_distances_compare_as_fractions() {
    let third = SquaredDistance { whole: 0, rest: 1, denominator: 3 };
    let half = SquaredDistance { whole: 0, rest: 1, denominator: 2 };
    let two_quarters = SquaredDistance { whole: 0, rest: 2, denominator: 4 };
    assert!(third.is_shorter_than(&half));
    assert!(!half.is_shorter_than(&third));
    assert!(!half.is_shorter_than(&two_quarters));
    assert!(!two_quarters.is_shorter_than(&half));
    let huge = SquaredDistance { whole: u128::MAX, rest: 0, denominator: 1 };
    let more = SquaredDistance { whole: 1, rest: 0, denominator: 7 };
    assert!(half.is_shorter_than(&more));
    assert!(!more.is_shorter_than(&half));
    let nearly = SquaredDistance { whole: 0, rest: u128::MAX - 1, denominator: u128::MAX };
    assert!(nearly.is_shorter_than(&more));
    assert!(half.is_shorter_than(&nearly));
    assert!(half.is_shorter_than(&huge));
    assert!(!huge.is_shorter_than(&half));
    assert!(!huge.is_shorter_than(&huge));
}

#[test]
fn reach_is_inclusive() {
    let d = point_distance(Point::new(0, 0), Point::new(0, 14));
    assert!(d.is_within(14));
    assert!(!d.is_within(13));
    let e = point_distance(Point::new(0, 0), Point::new(10, 10));
    assert!(!e.is_within(14));
    assert!(e.is_within(15));
}

#[test]
fn mapping_keeps_order() {
    let mut last = 0;
    for value in 0..=40 {
        let image = map_inverval_value(value, (3, 29), (7, 1000));
        assert!(last <= image);
        last = image;
    }
    let mut last = u128::MAX;
    for value in 0..=40 {
        let image = map_inverval_value(value, (29, 3), (7, 1000));
        assert!(last >= image);
        last = image;
    }
}

#[test]
fn mapping_moves_by_whole_widths() {
    for value in 10..20 {
        let image = map_inverval_value(value, (10, 17), (100, 130));
        assert_eq!(map_inverval_value(value + 7, (10, 17), (100, 130)), image + 30);
        assert_eq!(map_inverval_value(value + 14, (10, 17), (100, 130)), image + 60);
    }
}
