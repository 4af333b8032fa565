//! The compositor: applying sources onto a mutable canvas and freezing the
//! canvas into an immutable, reusable source.
//!
//! A [`Composite2D`] is a canvas open for mutation. [`paint`] lays a source
//! onto it through the pixel algebra, clipping the parts that fall outside
//! the canvas; successive paints apply strictly in call order, which is
//! observable because blending at fractional opacity is neither associative
//! nor commutative. [`finalize`] consumes the canvas and freezes its pixels
//! into an [`Image2D`], which satisfies the read capability and can itself
//! be painted onto another canvas: nesting needs no special group type.

use crate::pixel::{lemma_blend_over_neutral, Pixel, RgbaPixel};
use crate::source::{lemma_flat_index_in_bounds, Composable2D, GeometryError, Image2D, Source2D};
use vstd::prelude::*;

verus! {

/// A mutable canvas accumulating blended layers.
///
/// The lifecycle is one way: a canvas is created fresh (all pixels
/// neutral) or copied from an existing source, mutated through
/// [`Source2D::set_pixel`] and [`paint`] while open, and consumed by
/// [`finalize`], which freezes it into an immutable [`Image2D`]. A caller
/// that needs further mutation after finalizing must copy first.
#[derive(Debug)]
pub struct Composite2D<P> {
    canvas: Image2D<P>,
}

impl<P: Pixel> Composite2D<P> {
    /// Create a fresh canvas of `width * height` pixels, all neutral
    /// (fully transparent). A zero dimension is rejected as a typed
    /// failure.
    pub fn new(width: usize, height: usize) -> (r: Result<Self, GeometryError>)
        requires
            width * height <= usize::MAX,
        ensures
            match r {
                Ok(c) => width > 0 && height > 0 && c.wf() && c.spec_width() == width
                    && c.spec_height() == height && forall|row: int, col: int|
                    0 <= row < height && 0 <= col < width ==> #[trigger] c.spec_pixel(row, col)
                        == P::spec_neutral(),
                Err(e) => (width == 0 || height == 0) && e == GeometryError::ZeroDimension,
            },
    {
        if width == 0 || height == 0 {
            return Err(GeometryError::ZeroDimension);
        }
        let n = width * height;
        let mut pixels: Vec<P> = Vec::new();
        let mut i: usize = 0;
        while i < n
            invariant
                i <= n,
                pixels@.len() == i,
                forall|k: int| 0 <= k < i ==> #[trigger] pixels@[k] == P::spec_neutral(),
            decreases n - i,
        {
            pixels.push(P::neutral());
            i = i + 1;
        }
        match Image2D::new(pixels, width, height) {
            Ok(img) => {
                proof {
                    assert forall|row: int, col: int|
                        0 <= row < height && 0 <= col < width implies #[trigger] img.spec_pixel(
                        row,
                        col,
                    ) == P::spec_neutral() by {
                        lemma_flat_index_in_bounds(width as nat, height as nat, row, col);
                    }
                }
                Ok(Composite2D { canvas: img })
            },
            Err(_) => vstd::pervasive::unreached(),
        }
    }

    /// Create a canvas by copying an existing source's pixels into owned,
    /// writable storage of identical geometry. The source itself is left
    /// untouched: sources are never mutated.
    pub fn from_source<S: Composable2D<P>>(src: &S) -> (c: Self)
        requires
            src.wf(),
            src.spec_width() > 0,
            src.spec_height() > 0,
            src.spec_width() * src.spec_height() <= usize::MAX,
        ensures
            c.wf(),
            c.spec_width() == src.spec_width(),
            c.spec_height() == src.spec_height(),
            forall|row: int, col: int|
                0 <= row < src.spec_height() && 0 <= col < src.spec_width() ==> #[trigger] c
                    .spec_pixel(row, col) == src.spec_pixel(row, col),
    {
        let width = src.get_width();
        let height = src.get_height();
        let mut pixels: Vec<P> = Vec::new();
        let mut row: usize = 0;
        while row < height
            invariant
                src.wf(),
                width == src.spec_width(),
                height == src.spec_height(),
                row <= height,
                pixels@.len() == row * width,
                forall|r: int, c2: int|
                    0 <= r < row && 0 <= c2 < width ==> pixels@[r * width + c2] == #[trigger] src
                        .spec_pixel(r, c2),
            decreases height - row,
        {
            let mut col: usize = 0;
            while col < width
                invariant
                    src.wf(),
                    width == src.spec_width(),
                    height == src.spec_height(),
                    row < height,
                    col <= width,
                    pixels@.len() == row * width + col,
                    forall|r: int, c2: int|
                        0 <= r < row && 0 <= c2 < width ==> pixels@[r * width + c2]
                            == #[trigger] src.spec_pixel(r, c2),
                    forall|c2: int|
                        0 <= c2 < col ==> pixels@[row * width + c2] == #[trigger] src.spec_pixel(
                            row as int,
                            c2,
                        ),
                decreases width - col,
            {
                let p = src.get_pixel(row, col);
                pixels.push(p);
                proof {
                    assert forall|r: int, c2: int|
                        0 <= r < row && 0 <= c2 < width implies pixels@[r * width + c2]
                        == #[trigger] src.spec_pixel(r, c2) by {
                        lemma_flat_index_in_bounds(width as nat, row as nat, r, c2);
                        assert(width * row == row * width) by (nonlinear_arith);
                    }
                }
                col = col + 1;
            }
            proof {
                assert((row + 1) * width == row * width + width) by (nonlinear_arith);
            }
            row = row + 1;
        }
        proof {
            assert(height * width == width * height) by (nonlinear_arith);
        }
        match Image2D::new(pixels, width, height) {
            Ok(img) => {
                proof {
                    assert forall|row2: int, col2: int|
                        0 <= row2 < height && 0 <= col2 < width implies #[trigger] img.spec_pixel(
                        row2,
                        col2,
                    ) == src.spec_pixel(row2, col2) by {
                        lemma_flat_index_in_bounds(width as nat, height as nat, row2, col2);
                    }
                }
                Composite2D { canvas: img }
            },
            Err(_) => vstd::pervasive::unreached(),
        }
    }
}

impl<P: Pixel> Composable2D<P> for Composite2D<P> {
    closed spec fn wf(&self) -> bool {
        self.canvas.wf()
    }

    closed spec fn spec_width(&self) -> nat {
        self.canvas.spec_width()
    }

    closed spec fn spec_height(&self) -> nat {
        self.canvas.spec_height()
    }

    closed spec fn spec_pixel(&self, row: int, col: int) -> P {
        self.canvas.spec_pixel(row, col)
    }

    fn get_width(&self) -> (w: usize) {
        self.canvas.get_width()
    }

    fn get_height(&self) -> (h: usize) {
        self.canvas.get_height()
    }

    fn get_pixel(&self, row: usize, col: usize) -> (p: P) {
        self.canvas.get_pixel(row, col)
    }
}

impl<P: Pixel> Source2D<P> for Composite2D<P> {
    fn set_pixel(&mut self, row: usize, col: usize, pixel: P) {
        self.canvas.set_pixel(row, col, pixel);
    }
}

/// Freeze an open canvas into an immutable source with identical geometry
/// and pixel contents. The canvas is consumed: the transition from open to
/// finalized is one way, and a caller that still needs mutation must copy
/// before finalizing.
pub fn finalize<P: Pixel>(composite: Composite2D<P>) -> (img: Image2D<P>)
    requires
        composite.wf(),
    ensures
        img.wf(),
        img.spec_width() == composite.spec_width(),
        img.spec_height() == composite.spec_height(),
        forall|row: int, col: int|
            0 <= row < composite.spec_height() && 0 <= col < composite.spec_width()
                ==> #[trigger] img.spec_pixel(row, col) == composite.spec_pixel(row, col),
{
    composite.canvas
}

/// Apply `src` onto `target` through the pixel algebra: every pixel of
/// `src` whose translated coordinate `(offset_row + r, offset_col + c)`
/// lies within `target`'s bounds replaces the pixel there with the blend
/// of the two at `opacity`; the applied pixel sits on top. Source pixels
/// translating outside the bounds are silently clipped — that is how
/// partial overlays are meant to work — and every pixel outside the
/// overlap is left exactly as it was.
///
/// Successive paints against one target apply strictly in call order:
/// blending at fractional opacity is neither associative nor commutative,
/// so the order is part of the observable result.
pub fn paint<P: Pixel, C: Source2D<P>, S: Composable2D<P>>(
    target: &mut C,
    src: &S,
    offset_row: usize,
    offset_col: usize,
    opacity: u8,
)
    requires
        old(target).wf(),
        src.wf(),
    ensures
        final(target).wf(),
        final(target).spec_width() == old(target).spec_width(),
        final(target).spec_height() == old(target).spec_height(),
        forall|row: int, col: int|
            0 <= row < old(target).spec_height() && 0 <= col < old(target).spec_width()
                ==> #[trigger] final(target).spec_pixel(row, col) == (if offset_row <= row
                < offset_row + src.spec_height() && offset_col <= col < offset_col
                + src.spec_width() {
                old(target).spec_pixel(row, col).spec_blend(
                    src.spec_pixel(row - offset_row, col - offset_col),
                    opacity,
                )
            } else {
                old(target).spec_pixel(row, col)
            }),
{
    let tgt_w = target.get_width();
    let tgt_h = target.get_height();
    if offset_row >= tgt_h || offset_col >= tgt_w {
        return;
    }
    let src_w = src.get_width();
    let src_h = src.get_height();
    let rows: usize = if src_h < tgt_h - offset_row {
        src_h
    } else {
        tgt_h - offset_row
    };
    let cols: usize = if src_w < tgt_w - offset_col {
        src_w
    } else {
        tgt_w - offset_col
    };
    let ghost orig = *target;
    let mut r: usize = 0;
    while r < rows
        invariant
            src.wf(),
            target.wf(),
            orig == *old(target),
            orig.wf(),
            target.spec_width() == orig.spec_width(),
            target.spec_height() == orig.spec_height(),
            tgt_w == orig.spec_width(),
            tgt_h == orig.spec_height(),
            src_w == src.spec_width(),
            src_h == src.spec_height(),
            offset_row < tgt_h,
            offset_col < tgt_w,
            rows <= src_h,
            offset_row + rows <= tgt_h,
            rows == src_h || offset_row + rows == tgt_h,
            cols <= src_w,
            offset_col + cols <= tgt_w,
            cols == src_w || offset_col + cols == tgt_w,
            r <= rows,
            forall|row: int, col: int|
                0 <= row < tgt_h && 0 <= col < tgt_w ==> #[trigger] target.spec_pixel(row, col)
                    == (if offset_row <= row < offset_row + r && offset_col <= col < offset_col
                    + cols {
                    orig.spec_pixel(row, col).spec_blend(
                        src.spec_pixel(row - offset_row, col - offset_col),
                        opacity,
                    )
                } else {
                    orig.spec_pixel(row, col)
                }),
        decreases rows - r,
    {
        let mut c: usize = 0;
        while c < cols
            invariant
                src.wf(),
                target.wf(),
                orig == *old(target),
                orig.wf(),
                target.spec_width() == orig.spec_width(),
                target.spec_height() == orig.spec_height(),
                tgt_w == orig.spec_width(),
                tgt_h == orig.spec_height(),
                src_w == src.spec_width(),
                src_h == src.spec_height(),
                offset_row < tgt_h,
                offset_col < tgt_w,
                rows <= src_h,
                offset_row + rows <= tgt_h,
                cols <= src_w,
                offset_col + cols <= tgt_w,
                r < rows,
                c <= cols,
                forall|row: int, col: int|
                    0 <= row < tgt_h && 0 <= col < tgt_w ==> #[trigger] target.spec_pixel(row, col)
                        == (if (offset_row <= row < offset_row + r && offset_col <= col
                        < offset_col + cols) || (row == offset_row + r && offset_col <= col
                        < offset_col + c) {
                        orig.spec_pixel(row, col).spec_blend(
                            src.spec_pixel(row - offset_row, col - offset_col),
                            opacity,
                        )
                    } else {
                        orig.spec_pixel(row, col)
                    }),
            decreases cols - c,
        {
            let base = target.get_pixel(offset_row + r, offset_col + c);
            let top = src.get_pixel(r, c);
            let blended = base.blend(&top, opacity);
            target.set_pixel(offset_row + r, offset_col + c, blended);
            c = c + 1;
        }
        r = r + 1;
    }
}

/// Law (nesting): finalizing a composite into a source and painting that
/// source at offset `(0, 0)` and full opacity onto a fresh canvas of the
/// same geometry reproduces the composite's pixels exactly.
///
/// `c` is the finalized composite and `d` the canvas after the paint: by
/// the contracts of [`finalize`] and [`paint`], each of `d`'s pixels is
/// the corresponding pixel of `c` blended over the neutral pixel that a
/// fresh canvas holds. The one family of exceptions is a transparent
/// pixel with colour left in its channels — blending maps it to the
/// neutral pixel — so those pixels are required out.
pub proof fn lemma_nesting_reproduces(c: Composite2D<RgbaPixel>, d: Composite2D<RgbaPixel>)
    requires
        c.wf(),
        d.wf(),
        d.spec_width() == c.spec_width(),
        d.spec_height() == c.spec_height(),
        forall|row: int, col: int|
            0 <= row < c.spec_height() && 0 <= col < c.spec_width() ==> (#[trigger] c.spec_pixel(
                row,
                col,
            )).a > 0 || c.spec_pixel(row, col) == RgbaPixel::spec_neutral(),
        forall|row: int, col: int|
            0 <= row < c.spec_height() && 0 <= col < c.spec_width() ==> #[trigger] d.spec_pixel(
                row,
                col,
            ) == RgbaPixel::spec_neutral().spec_blend(c.spec_pixel(row, col), 255),
    ensures
        forall|row: int, col: int|
            0 <= row < c.spec_height() && 0 <= col < c.spec_width() ==> #[trigger] d.spec_pixel(
                row,
                col,
            ) == c.spec_pixel(row, col),
{
    assert forall|row: int, col: int|
        0 <= row < c.spec_height() && 0 <= col < c.spec_width() implies #[trigger] d.spec_pixel(
        row,
        col,
    ) == c.spec_pixel(row, col) by {
        lemma_blend_over_neutral(c.spec_pixel(row, col));
    }
}

} // verus!
