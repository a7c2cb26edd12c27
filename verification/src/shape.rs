//! Shapes: what can be moved and resized, and the two shapes there are.

use vstd::prelude::*;
use crate::arith::{axis_distance, wide_product};
use crate::color::Color;
use crate::pixel::Pixel;

verus! {

/// The square of the distance between `a` and `b`.
pub open spec fn squared_distance(a: Pixel, b: Pixel) -> int {
    (a.x - b.x) * (a.x - b.x) + (a.y - b.y) * (a.y - b.y)
}

/// What every shape can do: be moved, and be given another size. A shape has
/// an anchor coordinate and one linear size.
pub trait Shape: Sized {
    /// The coordinate that places the shape.
    spec fn spec_anchor(&self) -> Pixel;

    /// The linear size of the shape.
    spec fn spec_extent(&self) -> usize;

    /// This shape moved by `dx` columns and `dy` rows.
    spec fn translated(&self, dx: usize, dy: usize) -> Self;

    /// This shape with the linear size `extent`.
    spec fn resized_to(&self, extent: usize) -> Self;

    /// Moving a shape moves its anchor and keeps its size.
    proof fn lemma_translated(&self, dx: usize, dy: usize)
        requires
            self.spec_anchor().x + dx <= usize::MAX,
            self.spec_anchor().y + dy <= usize::MAX,
        ensures
            self.translated(dx, dy).spec_anchor() == self.spec_anchor().shifted(dx as int, dy as int),
            self.translated(dx, dy).spec_extent() == self.spec_extent(),
    ;

    /// Moving a shape by nothing leaves it as it is.
    proof fn lemma_translated_by_zero(&self)
        ensures
            self.translated(0, 0) == *self,
    ;

    /// Resizing a shape sets its size and keeps its anchor.
    proof fn lemma_resized_to(&self, extent: usize)
        ensures
            self.resized_to(extent).spec_extent() == extent,
            self.resized_to(extent).spec_anchor() == self.spec_anchor(),
    ;

    /// Resizing a shape to the size it has leaves it as it is.
    proof fn lemma_resized_to_own_extent(&self)
        ensures
            self.resized_to(self.spec_extent()) == *self,
    ;

    /// The coordinate that places the shape.
    fn anchor(&self) -> (anchor: Pixel)
        ensures
            anchor == self.spec_anchor(),
    ;

    /// The linear size of the shape.
    fn extent(&self) -> (extent: usize)
        ensures
            extent == self.spec_extent(),
    ;

    /// Moves the shape by `dx` columns and `dy` rows. The shape may leave any
    /// canvas; only the coordinates themselves must stay representable.
    fn translate(&mut self, dx: usize, dy: usize)
        requires
            old(self).spec_anchor().x + dx <= usize::MAX,
            old(self).spec_anchor().y + dy <= usize::MAX,
        ensures
            *final(self) == old(self).translated(dx, dy),
    ;

    /// Gives the shape the linear size `extent` and leaves it where it is.
    fn resize_to(&mut self, extent: usize)
        ensures
            *final(self) == old(self).resized_to(extent),
    ;
}

/// A disc: every pixel within `radius` of `center`, in one colour.
#[derive(Debug, Clone, Copy, PartialEq, Eq, Structural)]
pub struct Circle {
    pub center: Pixel,
    pub radius: usize,
    pub color: Color,
}

impl Circle {
    pub fn new(center: Pixel, radius: usize, color: Color) -> (circle: Circle)
        ensures
            circle == (Circle { center, radius, color }),
    {
        Circle { center, radius, color }
    }

    /// Whether `pixel` belongs to the disc: its squared distance from the
    /// centre is at most the square of the radius.
    pub open spec fn spec_covers(&self, pixel: Pixel) -> bool {
        squared_distance(pixel, self.center) <= self.radius * self.radius
    }

    /// Whether `pixel` belongs to the disc.
    #[verifier::when_used_as_spec(spec_covers)]
    pub fn covers(&self, pixel: Pixel) -> (inside: bool)
        ensures
            inside == self.spec_covers(pixel),
    {
        let dx = axis_distance(pixel.x, self.center.x);
        let dy = axis_distance(pixel.y, self.center.y);
        let dx2 = wide_product(dx, dx);
        let dy2 = wide_product(dy, dy);
        let r2 = wide_product(self.radius, self.radius);
        assert(dx2 == (pixel.x - self.center.x) * (pixel.x - self.center.x)) by (nonlinear_arith)
            requires
                dx2 == (self.center.x - pixel.x) * (self.center.x - pixel.x) || dx2 == (pixel.x
                    - self.center.x) * (pixel.x - self.center.x),
        ;
        assert(dy2 == (pixel.y - self.center.y) * (pixel.y - self.center.y)) by (nonlinear_arith)
            requires
                dy2 == (self.center.y - pixel.y) * (self.center.y - pixel.y) || dy2 == (pixel.y
                    - self.center.y) * (pixel.y - self.center.y),
        ;
        match dx2.checked_add(dy2) {
            Some(sum) => sum <= r2,
            None => false,
        }
    }
}

impl Shape for Circle {
    open spec fn spec_anchor(&self) -> Pixel {
        self.center
    }

    open spec fn spec_extent(&self) -> usize {
        self.radius
    }

    open spec fn translated(&self, dx: usize, dy: usize) -> Circle {
        Circle { center: self.center.shifted(dx as int, dy as int), ..*self }
    }

    open spec fn resized_to(&self, extent: usize) -> Circle {
        Circle { radius: extent, ..*self }
    }

    proof fn lemma_translated(&self, dx: usize, dy: usize) {
    }

    proof fn lemma_translated_by_zero(&self) {
    }

    proof fn lemma_resized_to(&self, extent: usize) {
    }

    proof fn lemma_resized_to_own_extent(&self) {
    }

    fn anchor(&self) -> (anchor: Pixel) {
        self.center
    }

    fn extent(&self) -> (extent: usize) {
        self.radius
    }

    fn translate(&mut self, dx: usize, dy: usize) {
        self.center.x += dx;
        self.center.y += dy;
    }

    fn resize_to(&mut self, extent: usize) {
        self.radius = extent;
    }
}

/// A square, placed by one corner, with sides of length `size`.
#[derive(Debug, Clone, Copy, PartialEq, Eq, Structural)]
pub struct Square {
    location: Pixel,
    size: usize,
}

impl Square {
    pub fn new(location: Pixel, size: usize) -> (square: Square)
        ensures
            square.spec_anchor() == location,
            square.spec_extent() == size,
    {
        Square { location, size }
    }
}

impl Shape for Square {
    closed spec fn spec_anchor(&self) -> Pixel {
        self.location
    }

    closed spec fn spec_extent(&self) -> usize {
        self.size
    }

    closed spec fn translated(&self, dx: usize, dy: usize) -> Square {
        Square { location: self.location.shifted(dx as int, dy as int), ..*self }
    }

    closed spec fn resized_to(&self, extent: usize) -> Square {
        Square { size: extent, ..*self }
    }

    proof fn lemma_translated(&self, dx: usize, dy: usize) {
    }

    proof fn lemma_translated_by_zero(&self) {
    }

    proof fn lemma_resized_to(&self, extent: usize) {
    }

    proof fn lemma_resized_to_own_extent(&self) {
    }

    fn anchor(&self) -> (anchor: Pixel) {
        self.location
    }

    fn extent(&self) -> (extent: usize) {
        self.size
    }

    fn translate(&mut self, dx: usize, dy: usize) {
        self.location.x += dx;
        self.location.y += dy;
    }

    fn resize_to(&mut self, extent: usize) {
        self.size = extent;
    }
}

} // verus!
