use not_pong::fixed::UNIT;
use not_pong::utils::{span_contains, square_collides, vec2, Rectangle, Vector2};

#[test]
fn vec2_builds_the_vector() {
    assert_eq!(vec2(3, -4), Vector2 { x: 3, y: -4 });
}

#[test]
fn vector_arithmetic_is_component_wise() {
    let a = vec2(2 * UNIT, -3 * UNIT);
    let b = vec2(UNIT / 2, UNIT);
    assert_eq!(a.plus(b), vec2(25_000, -2 * UNIT));
    assert_eq!(a.minus(b), vec2(15_000, -4 * UNIT));
    assert_eq!(a.times(UNIT / 2), vec2(UNIT, -15_000));
    assert_eq!(a.neg(), vec2(-2 * UNIT, 3 * UNIT));
    assert_eq!(Vector2::zero(), vec2(0, 0));
}

#[test]
fn span_is_half_open() {
    assert!(span_contains(10, 5, 10));
    assert!(span_contains(10, 5, 14));
    assert!(!span_contains(10, 5, 15));
    assert!(!span_contains(10, 5, 9));
    assert!(!span_contains(10, 0, 10));
}

#[test]
fn overlap_needs_an_edge_of_the_second_box_on_both_axes() {
    let pos = vec2(10 * UNIT, 10 * UNIT);
    let size = vec2(10 * UNIT, 10 * UNIT);
    // near corner inside
    assert!(square_collides(pos, size, vec2(15 * UNIT, 15 * UNIT), vec2(20 * UNIT, 20 * UNIT)));
    // far corner inside
    assert!(square_collides(pos, size, vec2(5 * UNIT, 5 * UNIT), vec2(10 * UNIT, 10 * UNIT)));
    // far edge on the near edge of the first box counts, the end of the span does not
    assert!(square_collides(pos, size, vec2(0, 0), vec2(10 * UNIT, 10 * UNIT)));
    assert!(!square_collides(pos, size, vec2(20 * UNIT, 20 * UNIT), vec2(UNIT, UNIT)));
    // x matches, y does not
    assert!(!square_collides(pos, size, vec2(15 * UNIT, 30 * UNIT), vec2(UNIT, UNIT)));
}

#[test]
fn overlap_is_one_sided_for_a_box_inside_another() {
    let outer_pos = vec2(0, 0);
    let outer_size = vec2(100 * UNIT, 100 * UNIT);
    let inner_pos = vec2(40 * UNIT, 40 * UNIT);
    let inner_size = vec2(10 * UNIT, 10 * UNIT);
    // the outer box sees the corners of the inner one
    assert!(square_collides(outer_pos, outer_size, inner_pos, inner_size));
    // the inner box sees no edge of the outer one, and misses it
    assert!(!square_collides(inner_pos, inner_size, outer_pos, outer_size));
}

#[test]
fn centre_of_a_box_is_half_its_extent_from_its_corner() {
    let r = Rectangle { x: 200 * UNIT, y: 10 * UNIT, width: 5 * UNIT, height: 4 * UNIT };
    assert_eq!(r.middle(), vec2(2_025_000, 12 * UNIT));
    let r = Rectangle { x: -3, y: 0, width: 3, height: -3 };
    assert_eq!(r.middle(), vec2(-2, -1));
}
