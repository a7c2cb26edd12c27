//! Rasterising shapes and lines onto a canvas.
//!
//! Every drawing visits the positions of the buffer one by one and overwrites
//! those that the shape covers. What lies outside the canvas is never visited,
//! so a shape that reaches beyond the canvas is clipped to it.

use vstd::prelude::*;
use crate::color::Color;
use crate::line::{on_line, spec_on_line};
use crate::pixel::{Pixel, lemma_coordinate_of_linear_index, lemma_linear_index_in_grid};
use crate::shape::Circle;
use crate::surface::{Canvas, CanvasView};

verus! {

/// The colour of a line that is drawn without naming one: opaque white.
pub open spec fn line_color() -> Color {
    Color { a: 255, r: 255, g: 255, b: 255 }
}

impl CanvasView {
    /// This canvas after the disc `circle` was painted onto it.
    pub open spec fn with_circle(self, circle: Circle) -> CanvasView {
        self.painted(|pixel: Pixel| circle.spec_covers(pixel), circle.color.packed())
    }

    /// This canvas after the line between `start` and `end` was painted onto
    /// it in `color`.
    pub open spec fn with_line(self, start: Pixel, end: Pixel, color: Color) -> CanvasView {
        self.painted(|pixel: Pixel| spec_on_line(start, end, pixel), color.packed())
    }
}

impl Canvas {
    /// Paints the disc `circle` in its colour. Every pixel of the canvas that
    /// the disc covers is overwritten; every other pixel is left as it was.
    /// The part of the disc that lies outside the canvas is not drawn.
    pub fn draw_circle(&mut self, circle: Circle)
        ensures
            final(self)@ == old(self)@.with_circle(circle),
            final(self)@.wf(),
            final(self)@.width == old(self)@.width,
            final(self)@.height == old(self)@.height,
            final(self)@.pixels.len() == old(self)@.pixels.len(),
    {
        let size = self.size();
        let ghost before = self@;
        let mut index: usize = 0;
        while index < size
            invariant
                index <= size,
                before == old(self)@,
                before.wf(),
                size == before.pixels.len(),
                self@.width == before.width,
                self@.height == before.height,
                self@.pixels.len() == before.pixels.len(),
                forall|i: int|
                    0 <= i < index ==> self@.pixels[i] == before.with_circle(circle).pixels[i],
                forall|i: int| index <= i < size ==> self@.pixels[i] == before.pixels[i],
            decreases size - index,
        {
            if let Ok(pixel) = self.get_coordinate(index) {
                if circle.covers(pixel) {
                    self.set_pixel(pixel, circle.color);
                }
            }
            index += 1;
        }
        assert(self@.pixels =~= before.with_circle(circle).pixels);
    }

    /// Paints the line between `(x1, y1)` and `(x2, y2)` in opaque white.
    /// Which pixels make up the line is the rule of `on_line`; those of them
    /// that lie on the canvas are overwritten, every other pixel is left as
    /// it was.
    pub fn draw_line(&mut self, x1: usize, y1: usize, x2: usize, y2: usize)
        ensures
            final(self)@ == old(self)@.with_line(
                Pixel { x: x1, y: y1 },
                Pixel { x: x2, y: y2 },
                line_color(),
            ),
            final(self)@.wf(),
    {
        self.draw_line_with(Pixel::new(x1, y1), Pixel::new(x2, y2), Color::new(255, 255, 255))
    }

    /// Paints the line between `start` and `end` in `color`. Which pixels
    /// make up the line is the rule of `on_line`; those of them that lie on
    /// the canvas are overwritten, every other pixel is left as it was.
    pub fn draw_line_with(&mut self, start: Pixel, end: Pixel, color: Color)
        ensures
            final(self)@ == old(self)@.with_line(start, end, color),
            final(self)@.wf(),
            final(self)@.width == old(self)@.width,
            final(self)@.height == old(self)@.height,
            final(self)@.pixels.len() == old(self)@.pixels.len(),
    {
        let size = self.size();
        let ghost before = self@;
        let mut index: usize = 0;
        while index < size
            invariant
                index <= size,
                before == old(self)@,
                before.wf(),
                size == before.pixels.len(),
                self@.width == before.width,
                self@.height == before.height,
                self@.pixels.len() == before.pixels.len(),
                forall|i: int|
                    0 <= i < index ==> self@.pixels[i] == before.with_line(
                        start,
                        end,
                        color,
                    ).pixels[i],
                forall|i: int| index <= i < size ==> self@.pixels[i] == before.pixels[i],
            decreases size - index,
        {
            if let Ok(pixel) = self.get_coordinate(index) {
                if on_line(start, end, pixel) {
                    self.set_pixel(pixel, color);
                }
            }
            index += 1;
        }
        assert(self@.pixels =~= before.with_line(start, end, color).pixels);
    }
}

/// Painting keeps the dimensions of a canvas and the length of its buffer.
pub proof fn lemma_painted_keeps_dimensions(
    canvas: CanvasView,
    covers: spec_fn(Pixel) -> bool,
    value: u32,
)
    requires
        canvas.wf(),
    ensures
        canvas.painted(covers, value).wf(),
        canvas.painted(covers, value).width == canvas.width,
        canvas.painted(covers, value).height == canvas.height,
        canvas.painted(covers, value).pixels.len() == canvas.pixels.len(),
{
}

/// After painting, a position of the grid holds the painted value if the
/// shape covers it, and what it held before if not.
pub proof fn lemma_painted_pixel(
    canvas: CanvasView,
    covers: spec_fn(Pixel) -> bool,
    value: u32,
    pixel: Pixel,
)
    requires
        canvas.wf(),
        canvas.contains(pixel),
    ensures
        canvas.addresses(pixel),
        canvas.painted(covers, value).addresses(pixel),
        canvas.painted(covers, value).pixel_at(pixel) == if covers(pixel) {
            value
        } else {
            canvas.pixel_at(pixel)
        },
{
    lemma_linear_index_in_grid(canvas.width as int, canvas.height as int, pixel);
    lemma_coordinate_of_linear_index(canvas.width as int, pixel);
}

/// After a disc is drawn, a position of the grid holds the disc's colour if
/// and only if its squared distance from the centre is at most the square of
/// the radius; every other position holds what it held before.
pub proof fn lemma_circle_pixel(canvas: CanvasView, circle: Circle, pixel: Pixel)
    requires
        canvas.wf(),
        canvas.contains(pixel),
    ensures
        canvas.with_circle(circle).addresses(pixel),
        canvas.with_circle(circle).pixel_at(pixel) == if circle.spec_covers(pixel) {
            circle.color.packed()
        } else {
            canvas.pixel_at(pixel)
        },
{
    lemma_painted_pixel(
        canvas,
        |pixel: Pixel| circle.spec_covers(pixel),
        circle.color.packed(),
        pixel,
    );
}

/// After a line is drawn, a position of the grid holds the line's colour if
/// the line has a pixel there, and what it held before if not.
pub proof fn lemma_line_pixel(
    canvas: CanvasView,
    start: Pixel,
    end: Pixel,
    color: Color,
    pixel: Pixel,
)
    requires
        canvas.wf(),
        canvas.contains(pixel),
    ensures
        canvas.with_line(start, end, color).addresses(pixel),
        canvas.with_line(start, end, color).pixel_at(pixel) == if spec_on_line(start, end, pixel) {
            color.packed()
        } else {
            canvas.pixel_at(pixel)
        },
{
    lemma_painted_pixel(
        canvas,
        |pixel: Pixel| spec_on_line(start, end, pixel),
        color.packed(),
        pixel,
    );
}

} // verus!
