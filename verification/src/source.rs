//! Rectangular pixel grids.
//!
//! [`Composable2D`] is the read capability over a grid: anything that can
//! report a width and a height and answer pixel lookups by `(row, col)`.
//! [`Source2D`] layers the write capability on top of it. [`Image2D`] is
//! the concrete grid: a contiguous row-major buffer whose geometry is
//! validated once, at construction, and never changes afterwards.

use crate::pixel::Pixel;
use vstd::arithmetic::div_mod::{
    lemma_div_pos_is_pos, lemma_fundamental_div_mod, lemma_fundamental_div_mod_converse,
    lemma_mod_bound, lemma_multiply_divide_lt,
};
use vstd::arithmetic::mul::lemma_mul_is_commutative;
use vstd::prelude::*;

verus! {

/// Why a grid could not be built from a buffer and a pair of dimensions.
#[derive(Clone, Copy, Debug, PartialEq, Eq, Structural)]
pub enum GeometryError {
    /// The width or the height was zero.
    ZeroDimension,
    /// The buffer's length was not width times height.
    LengthMismatch,
}

/// The row-major flat index of the coordinate `(row, col)` in a grid
/// `width` pixels wide.
pub open spec fn spec_flatten(width: nat, row: int, col: int) -> int {
    row * width + col
}

/// The `(row, col)` coordinate whose row-major flat index is `coord` in a
/// grid `width` pixels wide.
pub open spec fn spec_expand(width: nat, coord: int) -> (int, int) {
    (coord / width as int, coord % width as int)
}

/// Law (round trip): expanding the flat index of a valid coordinate
/// returns that coordinate.
pub proof fn lemma_expand_flatten(width: nat, height: nat, row: int, col: int)
    requires
        0 < width,
        0 <= row < height,
        0 <= col < width,
    ensures
        spec_expand(width, spec_flatten(width, row, col)) == (row, col),
{
    lemma_fundamental_div_mod_converse(row * width + col, width as int, row, col);
}

/// Law (round trip, the other direction): flattening the coordinate that a
/// valid flat index expands to returns that index, and the coordinate is
/// within the grid's bounds.
pub proof fn lemma_flatten_expand(width: nat, height: nat, coord: int)
    requires
        0 < width,
        0 <= coord < width * height,
    ensures
        ({
            let (row, col) = spec_expand(width, coord);
            spec_flatten(width, row, col) == coord && 0 <= row < height && 0 <= col < width
        }),
{
    lemma_fundamental_div_mod(coord, width as int);
    lemma_mod_bound(coord, width as int);
    lemma_div_pos_is_pos(coord, width as int);
    lemma_multiply_divide_lt(coord, width as int, height as int);
    lemma_mul_is_commutative(width as int, coord / width as int);
}

/// The read capability over a rectangular pixel grid.
///
/// Holders of this capability alone can only inspect the grid: report its
/// geometry and look pixels up by `(row, col)`, with `(0, 0)` the top left
/// corner. Looking up a coordinate outside the grid's bounds is a
/// programming error, ruled out by precondition rather than reported at
/// run time.
pub trait Composable2D<P: Pixel> {
    /// The grid is well formed: its geometry was validated at
    /// construction and lookups within bounds answer.
    spec fn wf(&self) -> bool;

    /// Width of the grid in pixels.
    spec fn spec_width(&self) -> nat;

    /// Height of the grid in pixels.
    spec fn spec_height(&self) -> nat;

    /// The pixel at `(row, col)`.
    spec fn spec_pixel(&self, row: int, col: int) -> P;

    /// Get the width of the grid in pixels.
    fn get_width(&self) -> (w: usize)
        requires
            self.wf(),
        ensures
            w == self.spec_width(),
    ;

    /// Get the height of the grid in pixels.
    fn get_height(&self) -> (h: usize)
        requires
            self.wf(),
        ensures
            h == self.spec_height(),
    ;

    /// Look up the pixel at `(row, col)`.
    fn get_pixel(&self, row: usize, col: usize) -> (p: P)
        requires
            self.wf(),
            row < self.spec_height(),
            col < self.spec_width(),
        ensures
            p == self.spec_pixel(row as int, col as int),
    ;
}

/// The write capability over a rectangular pixel grid: everything
/// [`Composable2D`] offers, plus replacing one pixel at a time. A grid
/// held through this capability is a canvas still open for mutation.
pub trait Source2D<P: Pixel>: Composable2D<P> {
    /// Replace the pixel at `(row, col)`, leaving the geometry and every
    /// other pixel as they were.
    fn set_pixel(&mut self, row: usize, col: usize, pixel: P)
        requires
            old(self).wf(),
            row < old(self).spec_height(),
            col < old(self).spec_width(),
        ensures
            final(self).wf(),
            final(self).spec_width() == old(self).spec_width(),
            final(self).spec_height() == old(self).spec_height(),
            final(self).spec_pixel(row as int, col as int) == pixel,
            forall|r: int, c: int|
                0 <= r < old(self).spec_height() && 0 <= c < old(self).spec_width() && !(r == row
                    as int && c == col as int) ==> #[trigger] final(self).spec_pixel(r, c) == old(
                self,
                ).spec_pixel(r, c),
    ;
}

/// A 2D image: a contiguous, row-major buffer of pixels together with its
/// validated geometry. The flat buffer of length `width * height` maps one
/// to one onto 2D coordinates through `flatten_coord` and `expand_coord`.
#[derive(Debug)]
pub struct Image2D<P> {
    /// Pixels of the grid, flattened row by row into one buffer.
    pixels: Vec<P>,
    /// Width of the grid in pixels.
    width: usize,
    /// Height of the grid in pixels.
    height: usize,
}

impl<P: Pixel> Image2D<P> {
    /// Create a new image from a flat row-major buffer of pixels and its
    /// intended geometry. The geometry is validated here, once: a zero
    /// dimension or a buffer whose length is not `width * height` is
    /// rejected as a typed failure, never silently truncated or padded.
    pub fn new(pixels: Vec<P>, width: usize, height: usize) -> (r: Result<Self, GeometryError>)
        ensures
            match r {
                Ok(img) => width > 0 && height > 0 && pixels@.len() == width * height && img.wf()
                    && img.spec_width() == width && img.spec_height() == height && forall|
                    row: int,
                    col: int,
                |
                    0 <= row < height && 0 <= col < width ==> #[trigger] img.spec_pixel(row, col)
                        == pixels@[row * width + col],
                Err(GeometryError::ZeroDimension) => width == 0 || height == 0,
                Err(GeometryError::LengthMismatch) => width > 0 && height > 0 && pixels@.len()
                    != width * height,
            },
    {
        if width == 0 || height == 0 {
            return Err(GeometryError::ZeroDimension);
        }
        let len: usize = pixels.len();
        match width.checked_mul(height) {
            Some(n) => {
                if n == len {
                    Ok(Image2D { pixels, width, height })
                } else {
                    Err(GeometryError::LengthMismatch)
                }
            },
            None => Err(GeometryError::LengthMismatch),
        }
    }

    /// Map a 2D coordinate to its flat row-major index.
    pub fn flatten_coord(&self, row: usize, col: usize) -> (coord: usize)
        requires
            self.wf(),
            row < self.spec_height(),
            col < self.spec_width(),
        ensures
            coord == spec_flatten(self.spec_width(), row as int, col as int),
            coord < self.spec_width() * self.spec_height(),
    {
        proof {
            lemma_flat_index_in_bounds(
                self.spec_width(),
                self.spec_height(),
                row as int,
                col as int,
            );
            assert(self.pixels@.len() == self.pixels.len());
        }
        row * self.width + col
    }

    /// Map a flat row-major index to its `(row, column)` coordinate.
    pub fn expand_coord(&self, coord: usize) -> (rc: (usize, usize))
        requires
            self.wf(),
            coord < self.spec_width() * self.spec_height(),
        ensures
            (rc.0 as int, rc.1 as int) == spec_expand(self.spec_width(), coord as int),
            rc.0 < self.spec_height(),
            rc.1 < self.spec_width(),
    {
        proof {
            lemma_flatten_expand(self.spec_width(), self.spec_height(), coord as int);
        }
        (coord / self.width, coord % self.width)
    }
}

/// The flat index of a coordinate within the grid's bounds lies within the
/// grid's buffer.
pub proof fn lemma_flat_index_in_bounds(width: nat, height: nat, row: int, col: int)
    requires
        0 < width,
        0 <= row < height,
        0 <= col < width,
    ensures
        0 <= spec_flatten(width, row, col) < width * height,
{
    assert(row * width <= (height - 1) * width && 0 <= row * width && width * height == height
        * width && (height - 1) * width == height * width - width) by (nonlinear_arith)
        requires
            0 <= row <= height - 1,
            0 < width,
    ;
}

impl<P: Pixel> Composable2D<P> for Image2D<P> {
    closed spec fn wf(&self) -> bool {
        self.width > 0 && self.height > 0 && self.pixels@.len() == self.width * self.height
    }

    closed spec fn spec_width(&self) -> nat {
        self.width as nat
    }

    closed spec fn spec_height(&self) -> nat {
        self.height as nat
    }

    closed spec fn spec_pixel(&self, row: int, col: int) -> P {
        self.pixels@[row * self.width + col]
    }

    fn get_width(&self) -> (w: usize) {
        self.width
    }

    fn get_height(&self) -> (h: usize) {
        self.height
    }

    fn get_pixel(&self, row: usize, col: usize) -> (p: P) {
        let coord = self.flatten_coord(row, col);
        self.pixels[coord]
    }
}

impl<P: Pixel> Source2D<P> for Image2D<P> {
    fn set_pixel(&mut self, row: usize, col: usize, pixel: P) {
        let coord = self.flatten_coord(row, col);
        self.pixels[coord] = pixel;
        proof {
            assert forall|r: int, c: int|
                0 <= r < old(self).spec_height() && 0 <= c < old(self).spec_width() && !(r == row
                    as int && c == col as int) implies #[trigger] self.spec_pixel(r, c) == old(
                self,
            ).spec_pixel(r, c) by {
                lemma_expand_flatten(old(self).spec_width(), old(self).spec_height(), r, c);
                lemma_expand_flatten(
                    old(self).spec_width(),
                    old(self).spec_height(),
                    row as int,
                    col as int,
                );
                lemma_flat_index_in_bounds(old(self).spec_width(), old(self).spec_height(), r, c);
            }
        }
    }
}

} // verus!
