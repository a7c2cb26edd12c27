//! A minimal 2D raster surface: a fixed-size pixel buffer addressed by
//! `(x, y)` coordinates, a packed 32-bit colour, and shape primitives that can
//! be rasterised onto the buffer or moved around.

pub mod arith;
pub mod color;
pub mod draw;
pub mod line;
pub mod pixel;
pub mod shape;
pub mod surface;

pub use crate::color::Color;
pub use crate::pixel::Pixel;
pub use crate::shape::{Circle, Shape, Square};
pub use crate::surface::{Canvas, CanvasError, CanvasView};
