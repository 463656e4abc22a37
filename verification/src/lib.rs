//! A small 3D modelling and rasterization engine on fixed-point numbers.
//!
//! Geometry is held in point stores (pairs of points are line segments,
//! triples are triangles), moved by affine transforms, produced by
//! tessellators for curves and solids, and turned into pixels on a canvas.
//! A line-oriented script drives all of it.
//!
//! Every number is a [`fixed::Fixed`]: a signed binary fixed-point value with
//! sixteen fractional bits whose arithmetic rounds to nearest and saturates.
//! Nothing in the engine fails on a number: results that would leave the
//! range stop at its ends, and what would be drawn outside the canvas is
//! left out.
//!
//! The modules, from the ground up:
//!
//! - [`arith`]: division with rounding;
//! - [`fixed`]: the numbers;
//! - [`trig`]: sine and cosine;
//! - [`point`]: points and point stores;
//! - [`transform`]: affine transforms and the law of their composition;
//! - [`curve`]: circles and cubic curves as edges;
//! - [`solid`]: boxes, spheres and tori as triangles;
//! - [`canvas`]: the pixel grid and its portable pixmap;
//! - [`line`]: line segments on the grid;
//! - [`fill`]: filled triangles on the grid;
//! - [`number`]: decimal numbers in script text;
//! - [`script`]: the script language;
//! - [`engine`]: the scene and what each command does to it.

pub mod arith;
pub mod fixed;
pub mod trig;
pub mod point;
pub mod transform;
pub mod curve;
pub mod solid;
pub mod canvas;
pub mod line;
pub mod fill;
pub mod number;
pub mod script;
pub mod engine;
