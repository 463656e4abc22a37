use raster3d::fixed::Fixed;
use raster3d::point::Point;
use raster3d::point::PointStore;
use raster3d::transform::Transform;

fn f(n: i32) -> Fixed {
    Fixed::from_int(n)
}

fn p(x: i32, y: i32, z: i32) -> Point {
    Point::new(f(x), f(y), f(z))
}

#[test]
fn the_identity_moves_nothing() {
    let t = Transform::identity();
    let q = Point::new(Fixed::from_raw(12345), Fixed::from_raw(-777), Fixed::from_raw(i32::MAX));
    assert_eq!(t.apply(q), q);
    assert_eq!(t, Transform::make_scale(f(1), f(1), f(1)));
    assert_eq!(t, Transform::make_translate(f(0), f(0), f(0)));
}

#[test]
fn scaling_multiplies_each_coordinate() {
    let t = Transform::make_scale(f(2), f(3), f(-4));
    assert_eq!(t.apply(p(1, 1, 1)), p(2, 3, -4));
    let half = Transform::make_scale(Fixed::from_raw(32768), f(1), f(1));
    assert_eq!(half.apply(p(5, 7, 9)).x.raw(), 5 * 32768);
}

#[test]
fn translating_adds_to_each_coordinate() {
    let t = Transform::make_translate(f(10), f(-20), f(30));
    assert_eq!(t.apply(p(1, 2, 3)), p(11, -18, 33));
}

#[test]
fn quarter_turns_are_exact_rotations() {
    assert_eq!(Transform::make_rot_z(f(90)).apply(p(1, 0, 0)), p(0, 1, 0));
    assert_eq!(Transform::make_rot_z(f(90)).apply(p(0, 1, 0)), p(-1, 0, 0));
    assert_eq!(Transform::make_rot_x(f(90)).apply(p(0, 1, 0)), p(0, 0, 1));
    assert_eq!(Transform::make_rot_x(f(90)).apply(p(0, 0, 1)), p(0, -1, 0));
    assert_eq!(Transform::make_rot_y(f(90)).apply(p(0, 0, 1)), p(1, 0, 0));
    assert_eq!(Transform::make_rot_y(f(90)).apply(p(1, 0, 0)), p(0, 0, -1));
    assert_eq!(Transform::make_rot_z(f(180)).apply(p(3, 4, 5)), p(-3, -4, 5));
    assert_eq!(Transform::make_rot_z(f(360)), Transform::identity());
    assert_eq!(Transform::make_rot_z(f(-270)), Transform::make_rot_z(f(90)));
}

#[test]
fn a_rotation_by_thirty_degrees_is_close_to_the_true_one() {
    let q = Transform::make_rot_z(f(30)).apply(p(100, 0, 0));
    let x = q.x.raw() as f64 / 65536.0;
    let y = q.y.raw() as f64 / 65536.0;
    assert!((x - 86.60254).abs() < 0.01);
    assert!((y - 50.0).abs() < 0.01);
    assert_eq!(q.z, f(0));
}

#[test]
fn the_transform_given_first_acts_first() {
    // Scale, then translate: (1, 1, 1) -> (2, 2, 2) -> (12, 2, 2).
    let mut t = Transform::identity();
    t.compose(&Transform::make_scale(f(2), f(2), f(2)));
    t.compose(&Transform::make_translate(f(10), f(0), f(0)));
    assert_eq!(t.apply(p(1, 1, 1)), p(12, 2, 2));
    // Translate, then scale: (1, 1, 1) -> (11, 1, 1) -> (22, 2, 2).
    let mut u = Transform::identity();
    u.compose(&Transform::make_translate(f(10), f(0), f(0)));
    u.compose(&Transform::make_scale(f(2), f(2), f(2)));
    assert_eq!(u.apply(p(1, 1, 1)), p(22, 2, 2));
}

#[test]
fn a_composite_equals_its_parts_applied_in_turn() {
    let parts = [
        Transform::make_scale(f(2), f(3), f(4)),
        Transform::make_rot_z(f(90)),
        Transform::make_translate(f(5), f(-6), f(7)),
        Transform::make_rot_x(f(180)),
        Transform::make_scale(f(-1), f(2), f(1)),
        Transform::make_rot_y(f(270)),
    ];
    let mut all = Transform::identity();
    for e in parts.iter() {
        all.compose(e);
    }
    for start in [p(1, 2, 3), p(-7, 0, 11), p(0, 0, 0), p(100, -100, 50)] {
        let mut q = start;
        for e in parts.iter() {
            q = e.apply(q);
        }
        assert_eq!(all.apply(start), q);
    }
}

#[test]
fn a_composite_with_rounding_stays_close_to_its_parts_applied_in_turn() {
    let parts = [
        Transform::make_rot_z(f(30)),
        Transform::make_scale(Fixed::from_raw(40000), Fixed::from_raw(90000), f(1)),
        Transform::make_rot_x(f(45)),
        Transform::make_translate(f(3), f(4), f(5)),
    ];
    let mut all = Transform::identity();
    for e in parts.iter() {
        all.compose(e);
    }
    let start = p(120, -75, 33);
    let mut q = start;
    for e in parts.iter() {
        q = e.apply(q);
    }
    let r = all.apply(start);
    assert!((r.x.raw() - q.x.raw()).abs() < 1000);
    assert!((r.y.raw() - q.y.raw()).abs() < 1000);
    assert!((r.z.raw() - q.z.raw()).abs() < 1000);
}

#[test]
fn composing_replaces_the_accumulated_transform_by_the_product() {
    let mut t = Transform::make_translate(f(1), f(2), f(3));
    t.compose(&Transform::make_scale(f(2), f(2), f(2)));
    assert_eq!(t.x.a, f(2));
    assert_eq!(t.x.t, f(2));
    assert_eq!(t.y.b, f(2));
    assert_eq!(t.y.t, f(4));
    assert_eq!(t.z.c, f(2));
    assert_eq!(t.z.t, f(6));
    assert_eq!(t.x.b, f(0));
}

#[test]
fn a_store_is_moved_point_by_point() {
    let mut s = PointStore::new(0, 0);
    s.add_edge(f(0), f(0), f(0), f(1), f(0), f(0));
    s.add_point(p(3, 4, 5));
    let t = Transform::make_scale(f(2), f(2), f(2));
    s.apply_transform(&t);
    assert_eq!(s.len(), 3);
    assert_eq!(s.get(0), p(0, 0, 0));
    assert_eq!(s.get(1), p(2, 0, 0));
    assert_eq!(s.get(2), p(6, 8, 10));
    let mut empty = PointStore::new(4, 4);
    empty.apply_transform(&t);
    assert!(empty.is_empty());
}

#[test]
fn a_store_grows_by_appending_and_empties_by_clearing() {
    let mut s = PointStore::new(4, 100);
    assert!(s.is_empty());
    s.add_edge(f(1), f(2), f(3), f(4), f(5), f(6));
    assert_eq!(s.len(), 2);
    assert_eq!(s.get(0), p(1, 2, 3));
    assert_eq!(s.get(1), p(4, 5, 6));
    s.add_triangle(p(0, 0, 0), p(1, 0, 0), p(0, 1, 0));
    assert_eq!(s.len(), 5);
    assert_eq!(s.get(4), p(0, 1, 0));
    s.clear();
    assert_eq!(s.len(), 0);
    assert!(s.is_empty());
}

#[test]
fn rounding_can_part_a_composite_from_its_parts() {
    // Halving the smallest positive number rounds to that number again,
    // twice over; quartering it rounds to zero.
    let half = Transform::make_scale(Fixed::from_raw(32768), f(1), f(1));
    let mut quarter = half;
    quarter.compose(&half);
    assert_eq!(quarter.x.a, Fixed::from_raw(16384));
    let tiny = Point::new(Fixed::from_raw(1), f(0), f(0));
    assert_eq!(half.apply(half.apply(tiny)).x, Fixed::from_raw(1));
    assert_eq!(quarter.apply(tiny).x, Fixed::from_raw(0));
}

#[test]
fn the_hints_of_a_new_store_do_not_fill_it() {
    for (rows, cols) in [(0, 0), (4, 4), (4, 1000), (usize::MAX, usize::MAX)] {
        let mut s = PointStore::new(rows, cols);
        assert!(s.is_empty());
        assert_eq!(s.len(), 0);
        s.add_point(p(1, 2, 3));
        assert_eq!(s.len(), 1);
        assert_eq!(s.get(0), p(1, 2, 3));
    }
}
