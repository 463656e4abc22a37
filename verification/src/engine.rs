//! The state that a script works on, and what each command does to it.
//!
//! A [`Scene`] holds the edge list, the polygon list, the accumulated
//! transform and the canvas. [`Scene::execute`] carries out one command and
//! says what is left to do outside: nothing, showing the picture, or saving
//! it. Whoever drives the scene does that part.

use crate::canvas::blank;
use crate::canvas::painted;
use crate::canvas::Canvas;
use crate::canvas::Color;
use crate::curve::circle_edges;
use crate::curve::curve_edges;
use crate::curve::CurveType;
use crate::fill::polygons_pixels;
use crate::line::edges_pixels;
use crate::point::moved_all;
use crate::point::Point;
use crate::point::PointStore;
use crate::script::Axis;
use crate::script::Command;
use crate::solid::box_triangles;
use crate::solid::sphere_mesh;
use crate::solid::torus_mesh;
use crate::transform::composed;
use crate::transform::Transform;
use crate::transform::FULL_TURN;
use crate::trig::cosine_raw;
use crate::trig::sine_raw;
use vstd::prelude::*;

verus! {

/// The number of segments that a script's circles and curves are cut into.
pub const CURVE_STEPS: u16 = 100;

/// The number of steps that a script's spheres and tori are cut by.
pub const SOLID_STEPS: u16 = 20;

/// Everything a script works on.
pub struct Scene {
    /// The edge list.
    pub edges: PointStore,
    /// The polygon list.
    pub polygons: PointStore,
    /// The accumulated transform.
    pub transform: Transform,
    /// The picture.
    pub canvas: Canvas,
    /// The color that everything is drawn in.
    pub color: Color,
}

/// The content of a scene.
pub struct SceneModel {
    pub edges: Seq<Point>,
    pub polygons: Seq<Point>,
    pub transform: Transform,
    pub picture: Map<(int, int), Color>,
}

/// What is left to do outside after a command.
#[derive(Clone, Copy, Debug, PartialEq, Eq, Structural)]
pub enum Effect {
    /// Nothing.
    Nothing,
    /// Show the picture.
    Present,
    /// Save the picture under the name on line `line` of the script, lines
    /// counted from zero.
    Save { line: usize },
}

impl View for Scene {
    type V = SceneModel;

    open spec fn view(&self) -> SceneModel {
        SceneModel {
            edges: self.edges@,
            polygons: self.polygons@,
            transform: self.transform,
            picture: self.canvas@,
        }
    }
}

/// The picture of the given edges and polygons on a cleared canvas: the
/// edges are drawn first, the polygons over them.
pub open spec fn rendered(
    edges: Seq<Point>,
    polygons: Seq<Point>,
    width: int,
    height: int,
    background: Color,
    color: Color,
) -> Map<(int, int), Color> {
    painted(
        painted(blank(width, height, background), edges_pixels(edges, edges.len() as int / 2), color),
        polygons_pixels(polygons, polygons.len() as int / 3),
        color,
    )
}

/// The elementary transform that a command specifies, if it specifies one.
pub open spec fn elementary(c: Command) -> Option<Transform> {
    match c {
        Command::Scale { sx, sy, sz } => Some(Transform::make_scale_spec(sx@, sy@, sz@)),
        Command::Translate { tx, ty, tz } => Some(Transform::make_translate_spec(tx@, ty@, tz@)),
        Command::Rotate { axis, theta } => {
            let s = sine_raw(theta@, FULL_TURN as int);
            let c = cosine_raw(theta@, FULL_TURN as int);
            Some(
                match axis {
                    Axis::X => Transform::make_rot_x_spec(s, c),
                    Axis::Y => Transform::make_rot_y_spec(s, c),
                    Axis::Z => Transform::make_rot_z_spec(s, c),
                },
            )
        },
        _ => None,
    }
}

/// The edge list after a command.
pub open spec fn edges_after(m: SceneModel, c: Command) -> Seq<Point> {
    match c {
        Command::Line { x0, y0, z0, x1, y1, z1 } => m.edges.push(Point { x: x0, y: y0, z: z0 }).push(
            Point { x: x1, y: y1, z: z1 },
        ),
        Command::Apply => moved_all(m.transform, m.edges),
        Command::Circle { cx, cy, cz, r } => m.edges + circle_edges(cx, cy, cz, r, CURVE_STEPS as int),
        Command::Hermite { x0, y0, x1, y1, rx0, ry0, rx1, ry1 } => m.edges + curve_edges(
            CurveType::Hermite,
            x0,
            y0,
            x1,
            y1,
            rx0,
            ry0,
            rx1,
            ry1,
            CURVE_STEPS as int,
        ),
        Command::Bezier { x0, y0, x1, y1, x2, y2, x3, y3 } => m.edges + curve_edges(
            CurveType::Bezier,
            x0,
            y0,
            x1,
            y1,
            x2,
            y2,
            x3,
            y3,
            CURVE_STEPS as int,
        ),
        Command::Clear => Seq::empty(),
        _ => m.edges,
    }
}

/// The polygon list after a command.
pub open spec fn polygons_after(m: SceneModel, c: Command) -> Seq<Point> {
    match c {
        Command::Apply => moved_all(m.transform, m.polygons),
        Command::Clear => Seq::empty(),
        Command::Prism { x, y, z, width, height, depth } => m.polygons + box_triangles(
            x,
            y,
            z,
            width,
            height,
            depth,
        ),
        Command::Sphere { x, y, z, r } => m.polygons + sphere_mesh(
            x,
            y,
            z,
            r,
            SOLID_STEPS as int,
            SOLID_STEPS as nat,
        ),
        Command::Torus { x, y, z, r1, r2 } => m.polygons + torus_mesh(
            x,
            y,
            z,
            r1,
            r2,
            SOLID_STEPS as int,
            SOLID_STEPS as nat,
        ),
        _ => m.polygons,
    }
}

/// The accumulated transform after a command.
pub open spec fn transform_after(m: SceneModel, c: Command) -> Transform {
    match c {
        Command::Ident => Transform::identity_spec(),
        _ => match elementary(c) {
            Some(e) => composed(m.transform, e),
            None => m.transform,
        },
    }
}

/// The content of a scene after a command, on a canvas of the given size
/// and background and with the given drawing color.
pub open spec fn scene_after(
    m: SceneModel,
    c: Command,
    width: int,
    height: int,
    background: Color,
    color: Color,
) -> SceneModel {
    SceneModel {
        edges: edges_after(m, c),
        polygons: polygons_after(m, c),
        transform: transform_after(m, c),
        picture: match c {
            Command::Display => rendered(m.edges, m.polygons, width, height, background, color),
            Command::Save { line } => rendered(
                m.edges,
                m.polygons,
                width,
                height,
                background,
                color,
            ),
            _ => m.picture,
        },
    }
}

/// What a command leaves to do outside.
pub open spec fn effect_of(c: Command) -> Effect {
    match c {
        Command::Display => Effect::Present,
        Command::Save { line } => Effect::Save { line },
        _ => Effect::Nothing,
    }
}

impl Scene {
    /// Whether the edge list holds whole edges and the polygon list whole
    /// triangles.
    pub open spec fn well_formed(&self) -> bool {
        self.edges@.len() % 2 == 0 && self.polygons@.len() % 3 == 0
    }

    /// A scene with nothing in it: no edges, no polygons, the identity as
    /// the accumulated transform, and a black canvas of the given size.
    pub fn new(width: usize, height: usize, color: Color) -> (s: Scene)
        requires
            width * height <= usize::MAX,
        ensures
            s.well_formed(),
            s.color == color,
            s.canvas.spec_width() == width,
            s.canvas.spec_height() == height,
            s.canvas.spec_background() == (Color { red: 0, green: 0, blue: 0 }),
            s@ == (SceneModel {
                edges: Seq::empty(),
                polygons: Seq::empty(),
                transform: Transform::identity_spec(),
                picture: blank(width as int, height as int, Color { red: 0, green: 0, blue: 0 }),
            }),
    {
        Scene {
            edges: PointStore::new(0, 0),
            polygons: PointStore::new(0, 0),
            transform: Transform::identity(),
            canvas: Canvas::new(width, height),
            color,
        }
    }

    /// Whether the edge list holds whole edges and the polygon list whole
    /// triangles.
    pub fn is_well_formed(&self) -> (b: bool)
        ensures
            b == self.well_formed(),
    {
        self.edges.len() % 2 == 0 && self.polygons.len() % 3 == 0
    }

    /// Clears the canvas and draws the edges and then the polygons on it.
    pub fn render(&mut self)
        requires
            old(self).well_formed(),
        ensures
            final(self).edges == old(self).edges,
            final(self).polygons == old(self).polygons,
            final(self).transform == old(self).transform,
            final(self).color == old(self).color,
            final(self).canvas.spec_width() == old(self).canvas.spec_width(),
            final(self).canvas.spec_height() == old(self).canvas.spec_height(),
            final(self).canvas.spec_background() == old(self).canvas.spec_background(),
            final(self).canvas@ == rendered(
                old(self).edges@,
                old(self).polygons@,
                old(self).canvas.spec_width(),
                old(self).canvas.spec_height(),
                old(self).canvas.spec_background(),
                old(self).color,
            ),
    {
        self.canvas.clear();
        self.canvas.draw_lines(&self.edges, self.color);
        self.canvas.draw_polygons(&self.polygons, self.color);
    }

    /// Carries out one command and returns what is left to do outside.
    pub fn execute(&mut self, c: Command) -> (effect: Effect)
        requires
            old(self).well_formed(),
        ensures
            final(self).well_formed(),
            final(self).color == old(self).color,
            final(self).canvas.spec_width() == old(self).canvas.spec_width(),
            final(self).canvas.spec_height() == old(self).canvas.spec_height(),
            final(self).canvas.spec_background() == old(self).canvas.spec_background(),
            final(self)@ == scene_after(
                old(self)@,
                c,
                old(self).canvas.spec_width(),
                old(self).canvas.spec_height(),
                old(self).canvas.spec_background(),
                old(self).color,
            ),
            effect == effect_of(c),
    {
        match c {
            Command::Line { x0, y0, z0, x1, y1, z1 } => {
                self.edges.add_edge(x0, y0, z0, x1, y1, z1);
                Effect::Nothing
            },
            Command::Ident => {
                self.transform = Transform::identity();
                Effect::Nothing
            },
            Command::Scale { sx, sy, sz } => {
                self.transform.compose(&Transform::make_scale(sx, sy, sz));
                Effect::Nothing
            },
            Command::Translate { tx, ty, tz } => {
                self.transform.compose(&Transform::make_translate(tx, ty, tz));
                Effect::Nothing
            },
            Command::Rotate { axis, theta } => {
                let e = match axis {
                    Axis::X => Transform::make_rot_x(theta),
                    Axis::Y => Transform::make_rot_y(theta),
                    Axis::Z => Transform::make_rot_z(theta),
                };
                self.transform.compose(&e);
                Effect::Nothing
            },
            Command::Apply => {
                if !self.edges.is_empty() {
                    self.edges.apply_transform(&self.transform);
                } else {
                    assert(self.edges@ =~= moved_all(self.transform, self.edges@));
                }
                if !self.polygons.is_empty() {
                    self.polygons.apply_transform(&self.transform);
                } else {
                    assert(self.polygons@ =~= moved_all(self.transform, self.polygons@));
                }
                Effect::Nothing
            },
            Command::Display => {
                self.render();
                Effect::Present
            },
            Command::Save { line } => {
                self.render();
                Effect::Save { line }
            },
            Command::Circle { cx, cy, cz, r } => {
                self.edges.add_circle(cx, cy, cz, r, CURVE_STEPS);
                Effect::Nothing
            },
            Command::Hermite { x0, y0, x1, y1, rx0, ry0, rx1, ry1 } => {
                self.edges.add_curve(
                    x0,
                    y0,
                    x1,
                    y1,
                    rx0,
                    ry0,
                    rx1,
                    ry1,
                    CURVE_STEPS,
                    &CurveType::Hermite,
                );
                Effect::Nothing
            },
            Command::Bezier { x0, y0, x1, y1, x2, y2, x3, y3 } => {
                self.edges.add_curve(x0, y0, x1, y1, x2, y2, x3, y3, CURVE_STEPS, &CurveType::Bezier);
                Effect::Nothing
            },
            Command::Clear => {
                self.edges.clear();
                self.polygons.clear();
                Effect::Nothing
            },
            Command::Prism { x, y, z, width, height, depth } => {
                self.polygons.add_box(x, y, z, width, height, depth);
                Effect::Nothing
            },
            Command::Sphere { x, y, z, r } => {
                self.polygons.add_sphere(x, y, z, r, SOLID_STEPS);
                Effect::Nothing
            },
            Command::Torus { x, y, z, r1, r2 } => {
                self.polygons.add_torus(x, y, z, r1, r2, SOLID_STEPS);
                Effect::Nothing
            },
        }
    }
}

} // verus!
