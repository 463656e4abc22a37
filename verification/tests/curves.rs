use raster3d::curve::CurveType;
use raster3d::fixed::Fixed;
use raster3d::point::Point;
use raster3d::point::PointStore;

fn f(n: i32) -> Fixed {
    Fixed::from_int(n)
}

fn p(x: i32, y: i32, z: i32) -> Point {
    Point::new(f(x), f(y), f(z))
}

#[test]
fn a_circle_of_n_steps_has_n_edges_and_closes() {
    for steps in [1u16, 2, 3, 7, 100, 360] {
        let mut s = PointStore::new(0, 0);
        s.add_circle(f(10), f(-20), f(5), f(50), steps);
        let n = steps as usize;
        assert_eq!(s.len(), 2 * n);
        assert_eq!(s.get(2 * n - 1), s.get(0));
        for i in 0..n - 1 {
            assert_eq!(s.get(2 * i + 1), s.get(2 * i + 2));
        }
    }
}

#[test]
fn a_circle_starts_on_the_x_axis_and_stays_on_the_circle() {
    let mut s = PointStore::new(0, 0);
    s.add_circle(f(0), f(0), f(7), f(50), 100);
    assert_eq!(s.get(0), p(50, 0, 7));
    assert_eq!(s.get(50), p(0, 50, 7));
    assert_eq!(s.get(100), p(-50, 0, 7));
    assert_eq!(s.get(150), p(0, -50, 7));
    for i in 0..s.len() {
        let q = s.get(i);
        let x = q.x.raw() as f64 / 65536.0;
        let y = q.y.raw() as f64 / 65536.0;
        assert!(((x * x + y * y).sqrt() - 50.0).abs() < 0.01);
        assert_eq!(q.z, f(7));
    }
}

#[test]
fn the_corners_of_a_circle_lie_at_equal_angles() {
    let mut s = PointStore::new(0, 0);
    s.add_circle(f(100), f(200), f(0), f(80), 12);
    for i in 0..12usize {
        let q = s.get(2 * i);
        let angle = 2.0 * std::f64::consts::PI * (i as f64) / 12.0;
        let x = 100.0 + 80.0 * angle.cos();
        let y = 200.0 + 80.0 * angle.sin();
        assert!((q.x.raw() as f64 / 65536.0 - x).abs() < 0.01);
        assert!((q.y.raw() as f64 / 65536.0 - y).abs() < 0.01);
    }
}

#[test]
fn a_circle_of_no_steps_adds_nothing() {
    let mut s = PointStore::new(0, 0);
    s.add_point(p(1, 2, 3));
    s.add_circle(f(0), f(0), f(0), f(50), 0);
    assert_eq!(s.len(), 1);
    s.add_curve(f(0), f(0), f(1), f(1), f(2), f(2), f(3), f(3), 0, &CurveType::Bezier);
    s.add_curve(f(0), f(0), f(1), f(1), f(2), f(2), f(3), f(3), 0, &CurveType::Hermite);
    assert_eq!(s.len(), 1);
    assert_eq!(s.get(0), p(1, 2, 3));
}

#[test]
fn a_hermite_curve_starts_and_ends_at_its_ends() {
    for steps in [1u16, 10, 100] {
        let mut s = PointStore::new(0, 0);
        s.add_curve(
            Fixed::from_raw(1234567),
            f(-150),
            f(450),
            Fixed::from_raw(-7654321),
            f(1000),
            f(-30),
            f(-700),
            f(90),
            steps,
            &CurveType::Hermite,
        );
        let n = steps as usize;
        assert_eq!(s.len(), 2 * n);
        assert_eq!(s.get(0), Point::new(Fixed::from_raw(1234567), f(-150), f(0)));
        assert_eq!(s.get(2 * n - 1), Point::new(f(450), Fixed::from_raw(-7654321), f(0)));
        for i in 0..n - 1 {
            assert_eq!(s.get(2 * i + 1), s.get(2 * i + 2));
        }
    }
}

#[test]
fn a_bezier_curve_starts_and_ends_at_its_outer_control_points() {
    for steps in [1u16, 10, 100] {
        let mut s = PointStore::new(0, 0);
        s.add_curve(
            f(10),
            f(20),
            f(300),
            Fixed::from_raw(99999),
            f(-200),
            f(400),
            Fixed::from_raw(-31337),
            f(77),
            steps,
            &CurveType::Bezier,
        );
        let n = steps as usize;
        assert_eq!(s.len(), 2 * n);
        assert_eq!(s.get(0), p(10, 20, 0));
        assert_eq!(s.get(2 * n - 1), Point::new(Fixed::from_raw(-31337), f(77), f(0)));
        for i in 0..n - 1 {
            assert_eq!(s.get(2 * i + 1), s.get(2 * i + 2));
        }
    }
}

#[test]
fn a_bezier_curve_follows_the_bernstein_polynomials() {
    // Control points (0, 0), (0, 8), (8, 8), (8, 0): at t = 1/2 the curve is
    // at (4, 6).
    let mut s = PointStore::new(0, 0);
    s.add_curve(f(0), f(0), f(0), f(8), f(8), f(8), f(8), f(0), 2, &CurveType::Bezier);
    assert_eq!(s.len(), 4);
    assert_eq!(s.get(1), p(4, 6, 0));
    assert_eq!(s.get(2), p(4, 6, 0));
    // At t = 1/4: x = 8 (3 t² - 2 t³) = 1.25, y = 24 t (1 - t) = 4.5.
    let mut q = PointStore::new(0, 0);
    q.add_curve(f(0), f(0), f(0), f(8), f(8), f(8), f(8), f(0), 4, &CurveType::Bezier);
    assert_eq!(q.get(1), Point::new(Fixed::from_raw(81920), Fixed::from_raw(294912), f(0)));
}

#[test]
fn a_hermite_curve_follows_the_hermite_polynomials() {
    // Ends (0, 0) and (8, 0), tangents (0, 8) and (0, -8): at t = 1/2 the
    // curve is at x = 4, y = (1/8) 8 - (-1/8) (-8) ... = 2.
    let mut s = PointStore::new(0, 0);
    s.add_curve(f(0), f(0), f(8), f(0), f(0), f(8), f(0), f(-8), 2, &CurveType::Hermite);
    assert_eq!(s.get(1), p(4, 2, 0));
    // A straight line: ends (0, 0) and (6, 3) with the chord as both
    // tangents.
    let mut l = PointStore::new(0, 0);
    l.add_curve(f(0), f(0), f(6), f(3), f(6), f(3), f(6), f(3), 3, &CurveType::Hermite);
    assert_eq!(l.get(1), p(2, 1, 0));
    assert_eq!(l.get(3), p(4, 2, 0));
    assert_eq!(l.get(5), p(6, 3, 0));
}

#[test]
fn a_curve_at_the_edge_of_the_range_stays_inside_it() {
    let top = Fixed::from_raw(i32::MAX);
    let bottom = Fixed::from_raw(i32::MIN);
    let mut s = PointStore::new(0, 0);
    s.add_curve(top, bottom, bottom, top, top, top, bottom, bottom, 65535, &CurveType::Hermite);
    assert_eq!(s.len(), 131070);
    assert_eq!(s.get(0), Point::new(top, bottom, f(0)));
    assert_eq!(s.get(131069), Point::new(bottom, top, f(0)));
}
