use asteroid::shape::{Shape, SUBPIXELS};

fn px(v: i64) -> i64 {
    v * SUBPIXELS
}

#[test]
fn circle_over_square_center_collides() {
    let enemy = Shape::new(px(100), px(100), px(32), 0);
    let bullet = Shape::new(px(100), px(100), px(5), 0);
    assert!(enemy.collides_with(&bullet));
    assert!(bullet.collides_with(&enemy));
}

#[test]
fn circle_touching_square_edge_collides() {
    // radius 10 px, square of side 20 px whose left edge is 10 px away
    let a = Shape::new(px(0), px(0), px(10), 0);
    let b = Shape::new(px(20), px(0), px(20), 0);
    assert!(a.collides_with(&b));
    let c = Shape::new(px(20) + 1, px(0), px(20), 0);
    assert!(!a.collides_with(&c));
}

#[test]
fn circle_near_square_corner() {
    // square of side 20 px centered at (20, 20): its corner is at (10, 10)
    let b = Shape::new(px(20), px(20), px(20), 0);
    // distance from the origin to the corner is about 14.14 px
    assert!(Shape::new(0, 0, px(15), 0).collides_with(&b));
    assert!(!Shape::new(0, 0, px(14), 0).collides_with(&b));
}

#[test]
fn separated_shapes_do_not_collide() {
    let a = Shape::new(px(0), px(0), px(10), 0);
    let b = Shape::new(px(500), px(0), px(10), 0);
    assert!(!a.collides_with(&b));
    assert!(!b.collides_with(&a));
    let c = Shape::new(px(0), px(-300), px(10), 0);
    assert!(!a.collides_with(&c));
}

#[test]
fn collision_is_not_symmetric() {
    // a big circle reaches a small square, a small circle does not reach a big one's square
    let big = Shape::new(px(0), px(0), px(30), 0);
    let small = Shape::new(px(31), px(0), px(2), 0);
    assert!(big.collides_with(&small));
    assert!(!small.collides_with(&big));
}

#[test]
fn fall_and_rise_move_by_speed_times_dt() {
    let mut s = Shape::new(px(10), px(10), px(16), 100);
    s.fall(16_667);
    assert_eq!(s.y, px(10) + 1_666_700);
    s.rise(16_667);
    assert_eq!(s.y, px(10));
}

#[test]
fn fall_is_linear_in_time() {
    let mut a = Shape::new(0, 0, px(16), 120);
    let mut b = a;
    a.fall(10_000);
    a.fall(6_000);
    b.fall(16_000);
    assert_eq!(a, b);
    let mut c = Shape::new(0, 0, px(16), 1000);
    let mut d = c;
    c.rise(3_333);
    c.rise(4_444);
    d.rise(7_777);
    assert_eq!(c, d);
}

#[test]
fn fall_saturates_at_bounds() {
    let mut s = Shape::new(0, i64::MAX - 5, px(1), 1000);
    s.fall(1_000);
    assert_eq!(s.y, i64::MAX);
}

#[test]
fn rounded_size_rounds_half_up() {
    assert_eq!(Shape::new(0, 0, px(32), 0).rounded_size(), 32);
    assert_eq!(Shape::new(0, 0, 31_500_000, 0).rounded_size(), 32);
    assert_eq!(Shape::new(0, 0, 31_499_999, 0).rounded_size(), 31);
}
