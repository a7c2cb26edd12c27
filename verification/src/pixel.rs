//! Pixel coordinates and the row-major layout that maps them to buffer indices.

use vstd::prelude::*;

verus! {

/// An `(x, y)` coordinate. Two pixels are equal when both coordinates match.
#[derive(Debug, Clone, Copy, PartialEq, Eq, Structural)]
pub struct Pixel {
    pub x: usize,
    pub y: usize,
}

impl Pixel {
    pub fn new(x: usize, y: usize) -> (pixel: Pixel)
        ensures
            pixel == (Pixel { x, y }),
    {
        Pixel { x, y }
    }

    /// This coordinate moved by `dx` columns and `dy` rows.
    pub open spec fn shifted(self, dx: int, dy: int) -> Pixel
        recommends
            0 <= self.x + dx <= usize::MAX,
            0 <= self.y + dy <= usize::MAX,
    {
        Pixel { x: (self.x + dx) as usize, y: (self.y + dy) as usize }
    }
}

/// The row-major offset of `pixel` in a buffer whose rows are `width` long:
/// `y * width + x`.
pub open spec fn linear_index(width: int, pixel: Pixel) -> int {
    pixel.y * width + pixel.x
}

/// The coordinate that the row-major offset `index` stands for in a buffer
/// whose rows are `width` long: column `index % width` of row `index / width`.
pub open spec fn coordinate_at(width: int, index: int) -> Pixel {
    Pixel { x: (index % width) as usize, y: (index / width) as usize }
}

/// A coordinate inside a `width` by `height` grid has an offset below
/// `width * height`.
pub proof fn lemma_linear_index_in_grid(width: int, height: int, pixel: Pixel)
    requires
        pixel.x < width,
        pixel.y < height,
    ensures
        0 <= linear_index(width, pixel) < width * height,
{
    let (x, y) = (pixel.x as int, pixel.y as int);
    let (w, h) = (width, height);
    assert(y * w + x < w * h) by (nonlinear_arith)
        requires
            0 <= x < w,
            0 <= y < h,
    ;
}

/// Taking the offset of a coordinate and then the coordinate of that offset
/// gives the coordinate back, for every column inside the row.
pub proof fn lemma_coordinate_of_linear_index(width: int, pixel: Pixel)
    requires
        pixel.x < width,
    ensures
        coordinate_at(width, linear_index(width, pixel)) == pixel,
{
    let (x, y) = (pixel.x as int, pixel.y as int);
    let w = width;
    assert((y * w + x) % w == x && (y * w + x) / w == y) by (nonlinear_arith)
        requires
            0 <= x < w,
            0 <= y,
    ;
}

/// Taking the coordinate of an offset and then the offset of that coordinate
/// gives the offset back, and the coordinate lies inside the grid that the
/// offset addresses.
pub proof fn lemma_linear_index_of_coordinate(width: int, height: int, index: int)
    requires
        0 <= width,
        0 <= index < width * height,
        index <= usize::MAX,
    ensures
        coordinate_at(width, index).x < width,
        coordinate_at(width, index).y < height,
        linear_index(width, coordinate_at(width, index)) == index,
{
    let (i, w, h) = (index, width, height);
    assert(w > 0) by (nonlinear_arith)
        requires
            0 <= i < w * h,
            0 <= w,
    ;
    assert(0 <= i % w < w && 0 <= i / w < h && (i / w) * w + i % w == i && i / w <= i)
        by (nonlinear_arith)
        requires
            0 <= i < w * h,
            0 < w,
    ;
}

} // verus!
