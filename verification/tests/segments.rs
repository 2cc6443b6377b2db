use topdown::geometry::{LineSegment, Point, Rect};

#[test]
fn crossing_diagonals_meet_in_the_middle() {
    let a = LineSegment { x1: 0, y1: 0, x2: 10_000, y2: 10_000 };
    let b = LineSegment { x1: 0, y1: 10_000, x2: 10_000, y2: 0 };
    assert_eq!(a.line_segments_intersect(&b), Some(Point { x: 5_000, y: 5_000 }));
    assert_eq!(b.line_segments_intersect(&a), Some(Point { x: 5_000, y: 5_000 }));
}

#[test]
fn crossing_diagonals_of_ten_units_meet_at_five() {
    let a = LineSegment { x1: 0, y1: 0, x2: 10, y2: 10 };
    let b = LineSegment { x1: 0, y1: 10, x2: 10, y2: 0 };
    assert_eq!(a.line_segments_intersect(&b), Some(Point { x: 5, y: 5 }));
}

#[test]
fn parallel_segments_never_meet() {
    let a = LineSegment { x1: 0, y1: 0, x2: 10_000, y2: 0 };
    let b = LineSegment { x1: 0, y1: 5_000, x2: 10_000, y2: 5_000 };
    assert_eq!(a.line_segments_intersect(&b), None);
    assert_eq!(b.line_segments_intersect(&a), None);
}

#[test]
fn collinear_segments_never_meet() {
    let a = LineSegment { x1: 0, y1: 0, x2: 10_000, y2: 0 };
    let b = LineSegment { x1: 5_000, y1: 0, x2: 15_000, y2: 0 };
    assert_eq!(a.line_segments_intersect(&b), None);
    assert_eq!(a.line_segments_intersect(&a), None);
}

#[test]
fn segment_of_no_length_meets_nothing() {
    let dot = LineSegment { x1: 5_000, y1: 5_000, x2: 5_000, y2: 5_000 };
    let b = LineSegment { x1: 0, y1: 5_000, x2: 10_000, y2: 5_000 };
    assert_eq!(dot.line_segments_intersect(&b), None);
    assert_eq!(b.line_segments_intersect(&dot), None);
    assert_eq!(dot.line_segments_intersect(&dot), None);
}

#[test]
fn segments_that_pass_beyond_an_end_miss() {
    let a = LineSegment { x1: 0, y1: 0, x2: 4_000, y2: 4_000 };
    let b = LineSegment { x1: 0, y1: 10_000, x2: 10_000, y2: 0 };
    assert_eq!(a.line_segments_intersect(&b), None);
}

#[test]
fn touching_at_an_end_counts() {
    let a = LineSegment { x1: 0, y1: 0, x2: 5_000, y2: 5_000 };
    let b = LineSegment { x1: 0, y1: 10_000, x2: 10_000, y2: 0 };
    assert_eq!(a.line_segments_intersect(&b), Some(Point { x: 5_000, y: 5_000 }));
    let c = LineSegment { x1: 5_000, y1: 5_000, x2: 9_000, y2: 5_000 };
    assert_eq!(c.line_segments_intersect(&b), Some(Point { x: 5_000, y: 5_000 }));
}

#[test]
fn crossing_point_lies_on_the_first_segment() {
    // The point is where the first segment is cut, not the second.
    let a = LineSegment { x1: 0, y1: 0, x2: 8_000, y2: 0 };
    let b = LineSegment { x1: 2_000, y1: -1_000, x2: 2_000, y2: 3_000 };
    assert_eq!(a.line_segments_intersect(&b), Some(Point { x: 2_000, y: 0 }));
    assert_eq!(b.line_segments_intersect(&a), Some(Point { x: 2_000, y: 0 }));
}

#[test]
fn crossing_point_is_rounded_down() {
    let a = LineSegment { x1: 0, y1: 0, x2: 3, y2: 1 };
    let b = LineSegment { x1: 1, y1: -1, x2: 1, y2: 1 };
    // The lines meet at (1, 1/3).
    assert_eq!(a.line_segments_intersect(&b), Some(Point { x: 1, y: 0 }));
    let c = LineSegment { x1: 0, y1: 0, x2: 3, y2: -1 };
    // The lines meet at (1, -1/3).
    assert_eq!(c.line_segments_intersect(&b), Some(Point { x: 1, y: -1 }));
}

#[test]
fn far_corners_of_the_world_do_not_overflow() {
    let a = LineSegment { x1: i32::MIN, y1: i32::MIN, x2: i32::MAX, y2: i32::MAX };
    let b = LineSegment { x1: i32::MIN, y1: i32::MAX, x2: i32::MAX, y2: i32::MIN };
    assert_eq!(a.line_segments_intersect(&b), Some(Point { x: -1, y: -1 }));
}

#[test]
fn sides_of_a_rectangle_come_left_right_top_bottom() {
    let rect = Rect { left: 1, top: 2, right: 5, bottom: 9 };
    let (left, right, top, bottom) = LineSegment::from_rect(&rect);
    assert_eq!(left, LineSegment { x1: 1, y1: 2, x2: 1, y2: 9 });
    assert_eq!(right, LineSegment { x1: 5, y1: 2, x2: 5, y2: 9 });
    assert_eq!(top, LineSegment { x1: 1, y1: 2, x2: 5, y2: 2 });
    assert_eq!(bottom, LineSegment { x1: 1, y1: 9, x2: 5, y2: 9 });
}

#[test]
fn segment_between_two_points() {
    let s = LineSegment::between(Point { x: 1, y: 2 }, Point { x: 3, y: 4 });
    assert_eq!(s, LineSegment { x1: 1, y1: 2, x2: 3, y2: 4 });
}

#[test]
fn line_through_a_rectangle_reports_the_left_side_first() {
    let rect = Rect { left: 0, top: 0, right: 8_000, bottom: 8_000 };
    // Enters by the right side and leaves by the left: the left is reported.
    let west = LineSegment { x1: 10_000, y1: 4_000, x2: -2_000, y2: 4_000 };
    assert_eq!(west.line_intersects_rect(rect), Some(Point { x: 0, y: 4_000 }));
    // Top to bottom: the top is looked at before the bottom.
    let down = LineSegment { x1: 4_000, y1: -1_000, x2: 4_000, y2: 9_000 };
    assert_eq!(down.line_intersects_rect(rect), Some(Point { x: 4_000, y: 0 }));
    // Only the right side.
    let poke = LineSegment { x1: 10_000, y1: 4_000, x2: 7_000, y2: 4_000 };
    assert_eq!(poke.line_intersects_rect(rect), Some(Point { x: 8_000, y: 4_000 }));
    // Only the bottom side.
    let up = LineSegment { x1: 4_000, y1: 9_000, x2: 4_000, y2: 7_000 };
    assert_eq!(up.line_intersects_rect(rect), Some(Point { x: 4_000, y: 8_000 }));
}

#[test]
fn line_that_misses_or_stays_inside_a_rectangle_gives_nothing() {
    let rect = Rect { left: 0, top: 0, right: 8_000, bottom: 8_000 };
    let outside = LineSegment { x1: 9_000, y1: 0, x2: 9_000, y2: 8_000 };
    assert_eq!(outside.line_intersects_rect(rect), None);
    let inside = LineSegment { x1: 1_000, y1: 1_000, x2: 7_000, y2: 7_000 };
    assert_eq!(inside.line_intersects_rect(rect), None);
    let dot = LineSegment { x1: 0, y1: 0, x2: 0, y2: 0 };
    assert_eq!(dot.line_intersects_rect(rect), None);
}

#[test]
fn rectangles_share_what_both_hold() {
    let a = Rect { left: 0, top: 0, right: 10, bottom: 10 };
    let b = Rect { left: 5, top: -5, right: 20, bottom: 5 };
    assert_eq!(a.intersect(b), Some(Rect { left: 5, top: 0, right: 10, bottom: 5 }));
    assert_eq!(b.intersect(a), Some(Rect { left: 5, top: 0, right: 10, bottom: 5 }));
    let touching = Rect { left: 10, top: 10, right: 12, bottom: 12 };
    assert_eq!(a.intersect(touching), Some(Rect { left: 10, top: 10, right: 10, bottom: 10 }));
    let apart = Rect { left: 11, top: 0, right: 12, bottom: 10 };
    assert_eq!(a.intersect(apart), None);
}

#[test]
fn rectangle_holds_its_border() {
    let a = Rect { left: 0, top: 0, right: 10, bottom: 10 };
    assert!(a.contains(Point { x: 0, y: 0 }));
    assert!(a.contains(Point { x: 10, y: 10 }));
    assert!(a.contains(Point { x: 5, y: 10 }));
    assert!(!a.contains(Point { x: 11, y: 5 }));
    assert!(!a.contains(Point { x: 5, y: -1 }));
}

#[test]
fn moving_stops_at_the_end_of_the_world() {
    let p = Point { x: i32::MAX - 5, y: i32::MIN + 5 };
    assert_eq!(p.offset(10, -10), Point { x: i32::MAX, y: i32::MIN });
    assert_eq!(p.offset(-10, 10), Point { x: i32::MAX - 15, y: i32::MIN + 15 });
    let r = Rect::centered(Point { x: i32::MAX, y: 0 }, 100);
    assert_eq!(r, Rect { left: i32::MAX - 100, top: -100, right: i32::MAX, bottom: 100 });
}

#[test]
fn meeting_fraction_counts_the_way_in_parts_of_the_determinant() {
    let rising = LineSegment { x1: 0, y1: 0, x2: 10_000, y2: 10_000 };
    let falling = LineSegment { x1: 0, y1: 10_000, x2: 10_000, y2: 0 };
    assert_eq!(rising.meeting_fraction(&falling), Some((100_000_000, 200_000_000)));
    assert_eq!(falling.meeting_fraction(&rising), Some((100_000_000, 200_000_000)));
    // A quarter of the way along the first, at the very start of the other.
    let long = LineSegment { x1: 0, y1: 0, x2: 8, y2: 0 };
    let post = LineSegment { x1: 2, y1: 0, x2: 2, y2: 5 };
    assert_eq!(long.meeting_fraction(&post), Some((10, 40)));
    assert_eq!(post.meeting_fraction(&long), Some((0, 40)));
}

#[test]
fn meeting_fraction_is_nothing_where_segments_miss() {
    let level = LineSegment { x1: 0, y1: 0, x2: 10_000, y2: 0 };
    let above = LineSegment { x1: 0, y1: 5_000, x2: 10_000, y2: 5_000 };
    assert_eq!(level.meeting_fraction(&above), None);
    let beyond = LineSegment { x1: 11_000, y1: -5, x2: 11_000, y2: 5 };
    assert_eq!(level.meeting_fraction(&beyond), None);
    let dot = LineSegment { x1: 5, y1: 0, x2: 5, y2: 0 };
    assert_eq!(level.meeting_fraction(&dot), None);
    assert_eq!(dot.meeting_fraction(&level), None);
}
