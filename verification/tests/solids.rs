use raster3d::canvas::Canvas;
use raster3d::canvas::Color;
use raster3d::fill::is_front_facing;
use raster3d::fixed::Fixed;
use raster3d::point::Point;
use raster3d::point::PointStore;

fn f(n: i32) -> Fixed {
    Fixed::from_int(n)
}

fn p(x: i32, y: i32, z: i32) -> Point {
    Point::new(f(x), f(y), f(z))
}

fn green() -> Color {
    Color::new_color(0, 255, 0)
}

fn count_colored(c: &Canvas, color: Color) -> usize {
    let mut n = 0;
    for y in 0..c.height() as i32 {
        for x in 0..c.width() as i32 {
            if c.get(x, y) == Some(color) {
                n += 1;
            }
        }
    }
    n
}

fn normal(s: &PointStore, t: usize) -> (f64, f64, f64) {
    let a = s.get(3 * t);
    let b = s.get(3 * t + 1);
    let c = s.get(3 * t + 2);
    let v = |q: Point| (q.x.raw() as f64, q.y.raw() as f64, q.z.raw() as f64);
    let (ax, ay, az) = v(a);
    let (bx, by, bz) = v(b);
    let (cx, cy, cz) = v(c);
    let (ux, uy, uz) = (bx - ax, by - ay, bz - az);
    let (vx, vy, vz) = (cx - ax, cy - ay, cz - az);
    (uy * vz - uz * vy, uz * vx - ux * vz, ux * vy - uy * vx)
}

fn centre(s: &PointStore, t: usize) -> (f64, f64, f64) {
    let mut sum = (0.0, 0.0, 0.0);
    for k in 0..3 {
        let q = s.get(3 * t + k);
        sum.0 += q.x.raw() as f64 / 3.0;
        sum.1 += q.y.raw() as f64 / 3.0;
        sum.2 += q.z.raw() as f64 / 3.0;
    }
    sum
}

#[test]
fn a_box_is_twelve_triangles_whatever_its_place_and_size() {
    let cases = [
        (0, 0, 0, 1, 1, 1),
        (-100, 250, 30, 200, 100, 50),
        (32000, -32000, 32000, 30000, 30000, 30000),
        (5, 5, 5, 0, 0, 0),
    ];
    for (x, y, z, w, h, d) in cases {
        let mut s = PointStore::new(0, 0);
        s.add_box(f(x), f(y), f(z), f(w), f(h), f(d));
        assert_eq!(s.len(), 36);
        s.add_box(f(x), f(y), f(z), f(w), f(h), f(d));
        assert_eq!(s.len(), 72);
    }
}

#[test]
fn a_box_spans_from_its_corner_right_down_and_back() {
    let mut s = PointStore::new(0, 0);
    s.add_box(f(10), f(20), f(30), f(4), f(5), f(6));
    assert_eq!(s.get(0), p(10, 20, 30));
    assert_eq!(s.get(1), p(10, 15, 30));
    assert_eq!(s.get(2), p(14, 15, 30));
    for i in 0..36 {
        let q = s.get(i);
        assert!(q.x == f(10) || q.x == f(14));
        assert!(q.y == f(20) || q.y == f(15));
        assert!(q.z == f(30) || q.z == f(24));
    }
}

#[test]
fn the_triangles_of_a_box_face_outwards() {
    let mut s = PointStore::new(0, 0);
    s.add_box(f(10), f(20), f(30), f(4), f(5), f(6));
    let mid = (12.0 * 65536.0, 17.5 * 65536.0, 27.0 * 65536.0);
    for t in 0..12 {
        let n = normal(&s, t);
        let c = centre(&s, t);
        let out = n.0 * (c.0 - mid.0) + n.1 * (c.1 - mid.1) + n.2 * (c.2 - mid.2);
        assert!(out > 0.0, "triangle {}", t);
    }
    // Only the two triangles of the front face are seen from the front.
    let seen: Vec<bool> = (0..12)
        .map(|t| is_front_facing(s.get(3 * t), s.get(3 * t + 1), s.get(3 * t + 2)))
        .collect();
    assert_eq!(
        seen,
        vec![true, true, false, false, false, false, false, false, false, false, false, false]
    );
}

#[test]
fn a_sphere_has_six_n_times_n_minus_one_points() {
    for steps in [0u16, 1, 2, 3, 5, 20] {
        let mut s = PointStore::new(0, 0);
        s.add_sphere(f(0), f(0), f(0), f(100), steps);
        let n = steps as usize;
        let expected = if n == 0 { 0 } else { 6 * n * (n - 1) };
        assert_eq!(s.len(), expected);
    }
    let mut s = PointStore::new(0, 0);
    s.add_sphere(f(250), f(250), f(0), f(100), 20);
    assert_eq!(s.len(), 2280);
    assert_eq!(s.len() % 3, 0);
}

#[test]
fn a_torus_has_six_n_squared_points() {
    for steps in [0u16, 1, 2, 3, 5, 20] {
        let mut s = PointStore::new(0, 0);
        s.add_torus(f(0), f(0), f(0), f(25), f(100), steps);
        let n = steps as usize;
        assert_eq!(s.len(), 6 * n * n);
    }
    let mut s = PointStore::new(0, 0);
    s.add_torus(f(250), f(250), f(0), f(25), f(100), 20);
    assert_eq!(s.len(), 2400);
}

#[test]
fn the_points_of_a_sphere_lie_on_the_sphere() {
    let mut s = PointStore::new(0, 0);
    s.add_sphere(f(10), f(20), f(30), f(100), 20);
    for i in 0..s.len() {
        let q = s.get(i);
        let x = q.x.raw() as f64 / 65536.0 - 10.0;
        let y = q.y.raw() as f64 / 65536.0 - 20.0;
        let z = q.z.raw() as f64 / 65536.0 - 30.0;
        assert!(((x * x + y * y + z * z).sqrt() - 100.0).abs() < 0.01);
    }
}

#[test]
fn the_points_of_a_torus_lie_on_the_torus() {
    let mut s = PointStore::new(0, 0);
    s.add_torus(f(10), f(20), f(30), f(25), f(100), 20);
    for i in 0..s.len() {
        let q = s.get(i);
        let x = q.x.raw() as f64 / 65536.0 - 10.0;
        let y = q.y.raw() as f64 / 65536.0 - 20.0;
        let z = q.z.raw() as f64 / 65536.0 - 30.0;
        let ring = (x * x + z * z).sqrt() - 100.0;
        assert!(((ring * ring + y * y).sqrt() - 25.0).abs() < 0.01);
    }
}

#[test]
fn the_triangles_of_a_sphere_face_outwards() {
    let mut s = PointStore::new(0, 0);
    s.add_sphere(f(0), f(0), f(0), f(100), 20);
    for t in 0..s.len() / 3 {
        let n = normal(&s, t);
        let c = centre(&s, t);
        assert!(n.0 * c.0 + n.1 * c.1 + n.2 * c.2 > 0.0, "triangle {}", t);
    }
}

#[test]
fn the_triangles_of_a_torus_face_outwards() {
    let mut s = PointStore::new(0, 0);
    s.add_torus(f(0), f(0), f(0), f(25), f(100), 20);
    for t in 0..s.len() / 3 {
        let n = normal(&s, t);
        let c = centre(&s, t);
        // The nearest point of the centre line of the tube.
        let reach = (c.0 * c.0 + c.2 * c.2).sqrt();
        let core = (c.0 / reach * 100.0 * 65536.0, 0.0, c.2 / reach * 100.0 * 65536.0);
        let out = n.0 * (c.0 - core.0) + n.1 * (c.1 - core.1) + n.2 * (c.2 - core.2);
        assert!(out > 0.0, "triangle {}", t);
    }
}

#[test]
fn a_drawn_sphere_is_a_filled_disc() {
    let mut s = PointStore::new(0, 0);
    s.add_sphere(f(250), f(250), f(0), f(100), 20);
    let mut c = Canvas::new(500, 500);
    c.draw_polygons(&s, green());
    assert_eq!(c.get(250, 250), Some(green()));
    assert_eq!(c.get(250, 300), Some(green()));
    assert_eq!(c.get(190, 250), Some(green()));
    assert_eq!(c.get(10, 10), Some(Color::new_color(0, 0, 0)));
    assert_eq!(c.get(250, 360), Some(Color::new_color(0, 0, 0)));
    let n = count_colored(&c, green()) as f64;
    let disc = std::f64::consts::PI * 100.0 * 100.0;
    assert!(n > 0.95 * disc && n < 1.05 * disc, "{} pixels", n);
}

#[test]
fn a_drawn_torus_has_a_hole() {
    let mut s = PointStore::new(0, 0);
    s.add_torus(f(250), f(250), f(0), f(25), f(100), 20);
    let t = raster3d::transform::Transform::make_rot_x(f(90));
    let mut back = raster3d::transform::Transform::make_translate(f(-250), f(-250), f(0));
    back.compose(&t);
    back.compose(&raster3d::transform::Transform::make_translate(f(250), f(250), f(0)));
    s.apply_transform(&back);
    let mut c = Canvas::new(500, 500);
    c.draw_polygons(&s, green());
    assert_eq!(c.get(250, 250), Some(Color::new_color(0, 0, 0)));
    assert_eq!(c.get(350, 250), Some(green()));
    assert_eq!(c.get(250, 150), Some(green()));
    assert_eq!(c.get(250 + 140, 250), Some(Color::new_color(0, 0, 0)));
}
