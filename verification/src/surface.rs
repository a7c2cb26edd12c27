//! The canvas: a pixel buffer in row-major order with checked access.

use vstd::prelude::*;
use crate::color::Color;
use crate::pixel::{
    Pixel, coordinate_at, lemma_coordinate_of_linear_index, lemma_linear_index_in_grid,
    lemma_linear_index_of_coordinate, linear_index,
};

verus! {

/// The one way in which a lookup on a canvas fails.
#[derive(Debug, Clone, Copy, PartialEq, Eq, Structural)]
pub enum CanvasError {
    /// A pixel or a linear index does not address an entry of the buffer.
    IndexOutOfBoundsError,
}

/// What a canvas is, mathematically: its dimensions and its entries in
/// row-major order.
pub struct CanvasView {
    pub width: nat,
    pub height: nat,
    pub pixels: Seq<u32>,
}

impl CanvasView {
    /// The buffer holds exactly one entry for each position of the grid, and
    /// its length is one that the machine can hold.
    pub open spec fn wf(self) -> bool {
        self.pixels.len() == self.width * self.height && self.pixels.len() <= usize::MAX
    }

    /// The canvas of the given dimensions whose entries are all zero.
    pub open spec fn blank(width: nat, height: nat) -> CanvasView {
        CanvasView { width, height, pixels: Seq::new(width * height, |i: int| 0u32) }
    }

    /// Whether `pixel` is a position of the grid.
    pub open spec fn contains(self, pixel: Pixel) -> bool {
        pixel.x < self.width && pixel.y < self.height
    }

    /// The linear index of `pixel` in this canvas.
    pub open spec fn index_of(self, pixel: Pixel) -> int {
        linear_index(self.width as int, pixel)
    }

    /// Whether the linear index of `pixel` addresses an entry of the buffer.
    pub open spec fn addresses(self, pixel: Pixel) -> bool {
        self.index_of(pixel) < self.pixels.len()
    }

    /// The entry that `pixel` addresses.
    pub open spec fn pixel_at(self, pixel: Pixel) -> u32
        recommends
            self.addresses(pixel),
    {
        self.pixels[self.index_of(pixel)]
    }

    /// The coordinate that the linear index `index` stands for.
    pub open spec fn coordinate_of(self, index: int) -> Pixel {
        coordinate_at(self.width as int, index)
    }

    /// This canvas with every entry replaced by `value`.
    pub open spec fn filled(self, value: u32) -> CanvasView {
        CanvasView { pixels: Seq::new(self.pixels.len(), |i: int| value), ..self }
    }

    /// This canvas with the entry that `pixel` addresses replaced by `value`;
    /// the canvas itself where `pixel` addresses no entry.
    pub open spec fn with_pixel(self, pixel: Pixel, value: u32) -> CanvasView {
        if self.addresses(pixel) {
            CanvasView { pixels: self.pixels.update(self.index_of(pixel), value), ..self }
        } else {
            self
        }
    }

    /// This canvas with `value` written to every entry whose coordinate
    /// `covers` holds of, and every other entry as it was.
    pub open spec fn painted(self, covers: spec_fn(Pixel) -> bool, value: u32) -> CanvasView {
        CanvasView {
            pixels: Seq::new(
                self.pixels.len(),
                |i: int| if covers(self.coordinate_of(i)) { value } else { self.pixels[i] },
            ),
            ..self
        }
    }
}

/// A fixed-size pixel buffer. The buffer holds `width * height` packed colours
/// in row-major order and is never resized.
#[derive(Debug)]
pub struct Canvas {
    width: usize,
    height: usize,
    pixels: Vec<u32>,
}

impl View for Canvas {
    type V = CanvasView;

    closed spec fn view(&self) -> CanvasView {
        CanvasView { width: self.width as nat, height: self.height as nat, pixels: self.pixels@ }
    }
}

impl Clone for Canvas {
    /// A canvas of its own with the same dimensions and the same entries.
    fn clone(&self) -> (copy: Canvas)
        ensures
            copy@ == self@,
    {
        proof {
            use_type_invariant(self);
        }
        let pixels = self.pixels.clone();
        assert(pixels@ =~= self.pixels@);
        Canvas { width: self.width, height: self.height, pixels }
    }
}

impl Canvas {
    /// At all times the buffer has one entry for each position of the grid.
    #[verifier::type_invariant]
    spec fn buffer_matches_dimensions(&self) -> bool {
        self.pixels@.len() == self.width * self.height
    }

    /// A canvas of the given dimensions with every entry zero. A dimension of
    /// zero gives an empty canvas.
    pub fn new(width: usize, height: usize) -> (canvas: Canvas)
        requires
            width * height <= usize::MAX,
        ensures
            canvas@ == CanvasView::blank(width as nat, height as nat),
            canvas@.wf(),
    {
        let pixels: Vec<u32> = vec![0u32; width * height];
        assert(pixels@ =~= CanvasView::blank(width as nat, height as nat).pixels);
        Canvas { width, height, pixels }
    }

    /// The number of columns.
    pub fn width(&self) -> (width: usize)
        ensures
            width == self@.width,
    {
        self.width
    }

    /// The number of rows.
    pub fn height(&self) -> (height: usize)
        ensures
            height == self@.height,
    {
        self.height
    }

    /// The number of entries in the buffer, `width * height`.
    pub fn size(&self) -> (size: usize)
        ensures
            size == self@.width * self@.height,
            size == self@.pixels.len(),
            self@.wf(),
    {
        proof {
            use_type_invariant(self);
        }
        self.pixels.len()
    }

    /// The linear index `y * width + x` of `pixel`, if it addresses an entry of
    /// the buffer, that is, if it is below the buffer's length.
    pub fn get_index(&self, pixel: Pixel) -> (result: Result<usize, CanvasError>)
        ensures
            self@.wf(),
            match result {
                Ok(index) => self@.addresses(pixel) && index == self@.index_of(pixel),
                Err(error) => !self@.addresses(pixel) && error
                    == CanvasError::IndexOutOfBoundsError,
            },
    {
        proof {
            use_type_invariant(self);
        }
        let len = self.pixels.len();
        let row = match pixel.y.checked_mul(self.width) {
            Some(row) => row,
            None => {
                return Err(CanvasError::IndexOutOfBoundsError);
            },
        };
        let index = match row.checked_add(pixel.x) {
            Some(index) => index,
            None => {
                return Err(CanvasError::IndexOutOfBoundsError);
            },
        };
        if index < len {
            Ok(index)
        } else {
            Err(CanvasError::IndexOutOfBoundsError)
        }
    }

    /// The entry that `pixel` addresses.
    pub fn get_pixel(&self, pixel: Pixel) -> (result: Result<&u32, CanvasError>)
        ensures
            self@.wf(),
            match result {
                Ok(entry) => self@.addresses(pixel) && *entry == self@.pixel_at(pixel),
                Err(error) => !self@.addresses(pixel) && error
                    == CanvasError::IndexOutOfBoundsError,
            },
    {
        match self.get_index(pixel) {
            Ok(index) => Ok(&self.pixels[index]),
            Err(error) => Err(error),
        }
    }

    /// The entry that `pixel` addresses, for writing. Whatever is written
    /// through the reference becomes that entry; nothing else changes.
    pub fn get_pixel_mut(&mut self, pixel: Pixel) -> (result: Result<&mut u32, CanvasError>)
        ensures
            old(self)@.wf(),
            match result {
                Ok(entry) => {
                    &&& old(self)@.addresses(pixel)
                    &&& *entry == old(self)@.pixel_at(pixel)
                    &&& final(self)@ == old(self)@.with_pixel(pixel, *final(entry))
                },
                Err(error) => {
                    &&& !old(self)@.addresses(pixel)
                    &&& error == CanvasError::IndexOutOfBoundsError
                    &&& final(self)@ == old(self)@
                },
            },
    {
        proof {
            use_type_invariant(&*self);
        }
        match self.get_index(pixel) {
            Ok(index) => Ok(&mut self.pixels[index]),
            Err(error) => Err(error),
        }
    }

    /// The coordinate that the linear index `index` stands for, if `index`
    /// addresses an entry of the buffer.
    pub fn get_coordinate(&self, index: usize) -> (result: Result<Pixel, CanvasError>)
        ensures
            self@.wf(),
            match result {
                Ok(pixel) => {
                    &&& index < self@.pixels.len()
                    &&& pixel == self@.coordinate_of(index as int)
                    &&& self@.contains(pixel)
                    &&& self@.index_of(pixel) == index
                },
                Err(error) => index >= self@.pixels.len() && error
                    == CanvasError::IndexOutOfBoundsError,
            },
    {
        proof {
            use_type_invariant(self);
        }
        if index < self.pixels.len() {
            proof {
                lemma_linear_index_of_coordinate(
                    self.width as int,
                    self.height as int,
                    index as int,
                );
            }
            let x = index % self.width;
            let y = index / self.width;
            Ok(Pixel::new(x, y))
        } else {
            Err(CanvasError::IndexOutOfBoundsError)
        }
    }

    /// Writes the packed form of `color` to the entry that `pixel` addresses.
    /// Where `pixel` addresses no entry, nothing is written and nothing is
    /// reported.
    pub fn set_pixel(&mut self, pixel: Pixel, color: Color)
        ensures
            final(self)@ == old(self)@.with_pixel(pixel, color.packed()),
            final(self)@.wf(),
    {
        proof {
            use_type_invariant(&*self);
        }
        if let Ok(entry) = self.get_pixel_mut(pixel) {
            *entry = color.as_u32();
        }
    }

    /// Writes the packed form of `color` to the entry that `pixel` addresses,
    /// and reports it where `pixel` addresses no entry.
    pub fn try_set_pixel(&mut self, pixel: Pixel, color: Color) -> (result: Result<(), CanvasError>)
        ensures
            final(self)@ == old(self)@.with_pixel(pixel, color.packed()),
            final(self)@.wf(),
            match result {
                Ok(_) => old(self)@.addresses(pixel),
                Err(error) => !old(self)@.addresses(pixel) && error
                    == CanvasError::IndexOutOfBoundsError,
            },
    {
        proof {
            use_type_invariant(&*self);
        }
        match self.get_pixel_mut(pixel) {
            Ok(entry) => {
                *entry = color.as_u32();
                Ok(())
            },
            Err(error) => Err(error),
        }
    }

    /// The buffer as a borrowed read-only view: `width * height` packed
    /// colours in row-major order, for a host that copies or displays them.
    /// The view is valid for as long as the canvas is borrowed. No operation
    /// reallocates the buffer, so the base address of the view is the same
    /// every time.
    pub fn get_pixels_ptr(&self) -> (buffer: &[u32])
        ensures
            buffer@ == self@.pixels,
            self@.wf(),
    {
        proof {
            use_type_invariant(self);
            assert(self.pixels@.len() == self.pixels.len());
        }
        self.pixels.as_slice()
    }

    /// Overwrites every entry with the packed form of `color`.
    pub fn fill(&mut self, color: Color)
        ensures
            final(self)@ == old(self)@.filled(color.packed()),
            final(self)@.wf(),
    {
        proof {
            use_type_invariant(&*self);
        }
        let value = color.as_u32();
        let len = self.pixels.len();
        let mut index: usize = 0;
        while index < len
            invariant
                index <= len,
                len == self.pixels@.len(),
                self.width == old(self).width,
                self.height == old(self).height,
                self.pixels@.len() == self.width * self.height,
                forall|i: int| 0 <= i < index ==> self.pixels@[i] == value,
            decreases len - index,
        {
            self.pixels[index] = value;
            index += 1;
        }
        assert(self.pixels@ =~= old(self)@.filled(value).pixels);
    }
}

/// A position of the grid addresses an entry of the buffer, and the
/// coordinate of its linear index is the position itself.
pub proof fn lemma_coordinate_of_index_of(canvas: CanvasView, pixel: Pixel)
    requires
        canvas.wf(),
        canvas.contains(pixel),
    ensures
        canvas.addresses(pixel),
        canvas.coordinate_of(canvas.index_of(pixel)) == pixel,
{
    lemma_linear_index_in_grid(canvas.width as int, canvas.height as int, pixel);
    lemma_coordinate_of_linear_index(canvas.width as int, pixel);
}

/// A linear index that addresses an entry of the buffer stands for a position
/// of the grid, and the linear index of that position is the index itself.
pub proof fn lemma_index_of_coordinate_of(canvas: CanvasView, index: int)
    requires
        canvas.wf(),
        0 <= index < canvas.pixels.len(),
    ensures
        canvas.contains(canvas.coordinate_of(index)),
        canvas.index_of(canvas.coordinate_of(index)) == index,
{
    lemma_linear_index_of_coordinate(canvas.width as int, canvas.height as int, index);
}

/// After a fill, every pixel that addresses an entry reads back as the value
/// that was filled in.
pub proof fn lemma_filled_pixel(canvas: CanvasView, value: u32, pixel: Pixel)
    requires
        canvas.addresses(pixel),
    ensures
        canvas.filled(value).addresses(pixel),
        canvas.filled(value).pixel_at(pixel) == value,
{
}

/// After one pixel of the grid is written, that pixel reads back as the value
/// written, and every other pixel of the grid as what it held before.
pub proof fn lemma_with_pixel_reads_back(
    canvas: CanvasView,
    written: Pixel,
    value: u32,
    pixel: Pixel,
)
    requires
        canvas.wf(),
        canvas.contains(written),
        canvas.contains(pixel),
    ensures
        canvas.with_pixel(written, value).addresses(pixel),
        canvas.with_pixel(written, value).pixel_at(pixel) == if pixel == written {
            value
        } else {
            canvas.pixel_at(pixel)
        },
{
    lemma_coordinate_of_index_of(canvas, written);
    lemma_coordinate_of_index_of(canvas, pixel);
}

} // verus!
