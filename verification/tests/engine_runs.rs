use raster3d::canvas::Color;
use raster3d::engine::Effect;
use raster3d::engine::Scene;
use raster3d::engine::CURVE_STEPS;
use raster3d::engine::SOLID_STEPS;
use raster3d::fixed::Fixed;
use raster3d::point::Point;
use raster3d::script::parse_script;
use raster3d::script::Axis;
use raster3d::script::Command;
use raster3d::transform::Transform;

fn f(n: i32) -> Fixed {
    Fixed::from_int(n)
}

fn p(x: i32, y: i32, z: i32) -> Point {
    Point::new(f(x), f(y), f(z))
}

fn green() -> Color {
    Color::new_color(0, 255, 0)
}

fn black() -> Color {
    Color::new_color(0, 0, 0)
}

fn run(script: &str) -> (Scene, Vec<Effect>) {
    let lines: Vec<Vec<u8>> = script.lines().map(|l| l.as_bytes().to_vec()).collect();
    let commands = parse_script(&lines).unwrap();
    let mut scene = Scene::new(500, 500, green());
    let mut effects = Vec::new();
    for c in commands {
        assert!(scene.is_well_formed());
        effects.push(scene.execute(c));
    }
    (scene, effects)
}

fn count(scene: &Scene, color: Color) -> usize {
    let mut n = 0;
    for y in 0..500 {
        for x in 0..500 {
            if scene.canvas.get(x, y) == Some(color) {
                n += 1;
            }
        }
    }
    n
}

#[test]
fn a_new_scene_is_empty() {
    let scene = Scene::new(500, 500, green());
    assert!(scene.is_well_formed());
    assert!(scene.edges.is_empty());
    assert!(scene.polygons.is_empty());
    assert_eq!(scene.transform, Transform::identity());
    assert_eq!(scene.color, green());
    assert_eq!(scene.canvas.width(), 500);
    assert_eq!(scene.canvas.height(), 500);
    assert_eq!(count(&scene, black()), 250000);
    assert_eq!(CURVE_STEPS, 100);
    assert_eq!(SOLID_STEPS, 20);
}

#[test]
fn a_script_with_one_line_draws_a_hundred_and_one_pixels() {
    let (scene, effects) = run("line\n0 0 0 100 0 0\ndisplay\n");
    assert_eq!(effects, vec![Effect::Nothing, Effect::Present]);
    assert_eq!(count(&scene, green()), 101);
    assert_eq!(count(&scene, black()), 250000 - 101);
    for x in 0..=100 {
        assert_eq!(scene.canvas.get(x, 0), Some(green()));
    }
    assert_eq!(scene.canvas.get(101, 0), Some(black()));
    assert_eq!(scene.canvas.get(0, 1), Some(black()));
}

#[test]
fn scaling_by_two_doubles_an_edge() {
    let (scene, effects) = run("ident\nscale\n2 2 2\nline\n0 0 0 1 0 0\napply\n");
    assert_eq!(effects, vec![Effect::Nothing; 4]);
    assert_eq!(scene.edges.len(), 2);
    assert_eq!(scene.edges.get(0), p(0, 0, 0));
    assert_eq!(scene.edges.get(1), p(2, 0, 0));
}

#[test]
fn a_script_circle_has_a_hundred_edges_and_closes() {
    let (scene, _) = run("circle\n0 0 0 50\n");
    assert_eq!(scene.edges.len(), 200);
    assert_eq!(scene.edges.get(0), p(50, 0, 0));
    assert_eq!(scene.edges.get(199), scene.edges.get(0));
    for i in 0..99 {
        assert_eq!(scene.edges.get(2 * i + 1), scene.edges.get(2 * i + 2));
    }
}

#[test]
fn script_curves_have_a_hundred_edges() {
    let (scene, _) = run("hermite\n150 150 300 300 100 0 0 100\nbezier\n10 10 100 400 300 400 400 10\n");
    assert_eq!(scene.edges.len(), 400);
    assert_eq!(scene.edges.get(0), p(150, 150, 0));
    assert_eq!(scene.edges.get(199), p(300, 300, 0));
    assert_eq!(scene.edges.get(200), p(10, 10, 0));
    assert_eq!(scene.edges.get(399), p(400, 10, 0));
}

#[test]
fn script_solids_go_to_the_polygons() {
    let (scene, _) = run("box\n0 100 0 100 100 100\nsphere\n250 250 0 100\ntorus\n250 250 0 25 100\n");
    assert!(scene.edges.is_empty());
    assert_eq!(scene.polygons.len(), 36 + 2280 + 2400);
    assert!(scene.is_well_formed());
}

#[test]
fn transforms_accumulate_until_ident() {
    let (scene, _) = run("ident\nmove\n10 0 0\nrotate\nz 90\nline\n1 0 0 0 1 0\napply\n");
    // (1, 0, 0) -> (11, 0, 0) -> (0, 11, 0); (0, 1, 0) -> (10, 1, 0) -> (-1, 10, 0).
    assert_eq!(scene.edges.get(0), p(0, 11, 0));
    assert_eq!(scene.edges.get(1), p(-1, 10, 0));
    let (again, _) = run("ident\nmove\n10 0 0\nident\nscale\n3 3 3\nline\n1 0 0 0 1 0\napply\n");
    assert_eq!(again.edges.get(0), p(3, 0, 0));
    assert_eq!(again.edges.get(1), p(0, 3, 0));
    assert_eq!(again.transform, Transform::make_scale(f(3), f(3), f(3)));
}

#[test]
fn apply_moves_edges_and_polygons_and_keeps_the_transform() {
    let (scene, _) = run("ident\ntranslate\n5 6 7\nline\n0 0 0 1 1 1\nbox\n0 0 0 1 1 1\napply\napply\n");
    assert_eq!(scene.edges.get(0), p(10, 12, 14));
    assert_eq!(scene.edges.get(1), p(11, 13, 15));
    assert_eq!(scene.polygons.get(0), p(10, 12, 14));
    assert_eq!(scene.transform, Transform::make_translate(f(5), f(6), f(7)));
    let (empty, effects) = run("ident\napply\n");
    assert!(empty.edges.is_empty());
    assert_eq!(effects, vec![Effect::Nothing, Effect::Nothing]);
}

#[test]
fn clear_empties_both_lists() {
    let (scene, _) = run("line\n0 0 0 1 1 1\nbox\n0 0 0 1 1 1\nscale\n2 2 2\nclear\n");
    assert!(scene.edges.is_empty());
    assert!(scene.polygons.is_empty());
    assert_eq!(scene.transform, Transform::make_scale(f(2), f(2), f(2)));
}

#[test]
fn save_draws_and_names_the_line_with_the_file_name() {
    let (scene, effects) = run("line\n10 10 0 10 20 0\nsave\nout.png\n");
    assert_eq!(effects, vec![Effect::Nothing, Effect::Save { line: 3 }]);
    assert_eq!(count(&scene, green()), 11);
    assert_eq!(scene.canvas.get(10, 15), Some(green()));
}

#[test]
fn every_display_starts_from_a_cleared_canvas() {
    let (scene, effects) = run("line\n0 0 0 100 0 0\ndisplay\nclear\nline\n0 5 0 9 5 0\ndisplay\n");
    assert_eq!(effects[1], Effect::Present);
    assert_eq!(effects[4], Effect::Present);
    assert_eq!(count(&scene, green()), 10);
    assert_eq!(scene.canvas.get(50, 0), Some(black()));
    assert_eq!(scene.canvas.get(9, 5), Some(green()));
}

#[test]
fn rendering_draws_edges_and_facing_polygons() {
    let mut scene = Scene::new(500, 500, green());
    scene.execute(Command::Prism { x: f(100), y: f(200), z: f(0), width: f(50), height: f(50), depth: f(50) });
    scene.execute(Command::Line { x0: f(0), y0: f(0), z0: f(0), x1: f(0), y1: f(9), z1: f(0) });
    scene.render();
    // The front face: 51 by 51 pixels; the edge: 10 pixels.
    assert_eq!(count(&scene, green()), 51 * 51 + 10);
    assert_eq!(scene.canvas.get(100, 200), Some(green()));
    assert_eq!(scene.canvas.get(150, 150), Some(green()));
    assert_eq!(scene.canvas.get(151, 150), Some(black()));
    // Seen from behind, the back face shows.
    scene.execute(Command::Rotate { axis: Axis::Y, theta: f(180) });
    scene.execute(Command::Apply);
    scene.execute(Command::Ident);
    scene.execute(Command::Translate { tx: f(300), ty: f(0), tz: f(0) });
    scene.execute(Command::Apply);
    assert_eq!(scene.execute(Command::Display), Effect::Present);
    assert_eq!(scene.canvas.get(175, 175), Some(green()));
    assert_eq!(scene.canvas.get(100, 200), Some(black()));
}
