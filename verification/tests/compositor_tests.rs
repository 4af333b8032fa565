use sahara::compositor::{finalize, paint, Composite2D};
use sahara::pixel::{Pixel, RgbaPixel};
use sahara::source::{Composable2D, GeometryError, Image2D, Source2D};

fn solid(p: RgbaPixel, width: usize, height: usize) -> Image2D<RgbaPixel> {
    Image2D::new(vec![p; width * height], width, height).unwrap()
}

#[test]
fn fresh_canvas_is_neutral() {
    let canvas = Composite2D::<RgbaPixel>::new(2, 3).unwrap();
    assert_eq!(canvas.get_width(), 2);
    assert_eq!(canvas.get_height(), 3);
    for row in 0..3 {
        for col in 0..2 {
            assert_eq!(canvas.get_pixel(row, col), RgbaPixel::neutral());
        }
    }
}

#[test]
fn fresh_canvas_rejects_zero_dimension() {
    assert_eq!(
        Composite2D::<RgbaPixel>::new(0, 3).unwrap_err(),
        GeometryError::ZeroDimension
    );
    assert_eq!(
        Composite2D::<RgbaPixel>::new(3, 0).unwrap_err(),
        GeometryError::ZeroDimension
    );
}

#[test]
fn from_source_copies_without_mutating() {
    let bl = RgbaPixel::new(0, 0, 0, 255);
    let r = RgbaPixel::new(255, 0, 0, 255);
    let src = Image2D::new(vec![bl, r, r, bl], 2, 2).unwrap();
    let mut canvas = Composite2D::from_source(&src);
    assert_eq!(canvas.get_pixel(0, 0), bl);
    assert_eq!(canvas.get_pixel(0, 1), r);
    canvas.set_pixel(0, 0, r);
    // The canvas changed; the source did not.
    assert_eq!(canvas.get_pixel(0, 0), r);
    assert_eq!(src.get_pixel(0, 0), bl);
}

#[test]
fn paint_full_overlap_blends_every_pixel() {
    let black = RgbaPixel::new(0, 0, 0, 255);
    let red = RgbaPixel::new(255, 0, 0, 255);
    let mut canvas = Composite2D::from_source(&solid(black, 2, 2));
    paint(&mut canvas, &solid(red, 2, 2), 0, 0, 128);
    for row in 0..2 {
        for col in 0..2 {
            assert_eq!(canvas.get_pixel(row, col), black.blend(&red, 128));
        }
    }
}

#[test]
fn paint_clips_to_the_overlap() {
    let black = RgbaPixel::new(0, 0, 0, 255);
    let red = RgbaPixel::new(255, 0, 0, 255);
    let mut canvas = Composite2D::from_source(&solid(black, 2, 2));
    // A 2-by-2 source painted at offset (1, 1) overlaps one pixel only.
    paint(&mut canvas, &solid(red, 2, 2), 1, 1, 255);
    assert_eq!(canvas.get_pixel(0, 0), black);
    assert_eq!(canvas.get_pixel(0, 1), black);
    assert_eq!(canvas.get_pixel(1, 0), black);
    assert_eq!(canvas.get_pixel(1, 1), red);
}

#[test]
fn paint_entirely_outside_changes_nothing() {
    let black = RgbaPixel::new(0, 0, 0, 255);
    let red = RgbaPixel::new(255, 0, 0, 255);
    let mut canvas = Composite2D::from_source(&solid(black, 2, 2));
    paint(&mut canvas, &solid(red, 2, 2), 5, 5, 255);
    for row in 0..2 {
        for col in 0..2 {
            assert_eq!(canvas.get_pixel(row, col), black);
        }
    }
}

#[test]
fn paint_order_is_observable() {
    let black = RgbaPixel::new(0, 0, 0, 255);
    let red = RgbaPixel::new(255, 0, 0, 255);
    let blue = RgbaPixel::new(0, 0, 255, 255);

    let mut red_then_blue = Composite2D::from_source(&solid(black, 2, 2));
    paint(&mut red_then_blue, &solid(red, 2, 2), 0, 0, 128);
    paint(&mut red_then_blue, &solid(blue, 2, 2), 0, 0, 128);

    let mut blue_then_red = Composite2D::from_source(&solid(black, 2, 2));
    paint(&mut blue_then_red, &solid(blue, 2, 2), 0, 0, 128);
    paint(&mut blue_then_red, &solid(red, 2, 2), 0, 0, 128);

    let a = red_then_blue.get_pixel(0, 0);
    let b = blue_then_red.get_pixel(0, 0);
    assert_ne!(a, b);
    // Each order composes pixel by pixel through the blend formula.
    assert_eq!(a, black.blend(&red, 128).blend(&blue, 128));
    assert_eq!(a, RgbaPixel::new(64, 0, 128, 255));
    assert_eq!(b, black.blend(&blue, 128).blend(&red, 128));
    assert_eq!(b, RgbaPixel::new(128, 0, 64, 255));
}

#[test]
fn finalize_keeps_geometry_and_pixels() {
    let black = RgbaPixel::new(0, 0, 0, 255);
    let red = RgbaPixel::new(255, 0, 0, 255);
    let mut canvas = Composite2D::from_source(&solid(black, 2, 2));
    canvas.set_pixel(1, 0, red);
    let frozen = finalize(canvas);
    assert_eq!(frozen.get_width(), 2);
    assert_eq!(frozen.get_height(), 2);
    assert_eq!(frozen.get_pixel(0, 0), black);
    assert_eq!(frozen.get_pixel(1, 0), red);
}

#[test]
fn nesting_reproduces_the_finalized_composite() {
    let black = RgbaPixel::new(0, 0, 0, 255);
    let red = RgbaPixel::new(255, 0, 0, 255);
    let mut inner = Composite2D::from_source(&solid(black, 2, 2));
    paint(&mut inner, &solid(red, 1, 1), 0, 1, 128);
    let expected = [
        [black, black.blend(&red, 128)],
        [black, black],
    ];
    let frozen = finalize(inner);

    let mut outer = Composite2D::<RgbaPixel>::new(2, 2).unwrap();
    paint(&mut outer, &frozen, 0, 0, 255);
    for row in 0..2 {
        for col in 0..2 {
            assert_eq!(outer.get_pixel(row, col), expected[row][col]);
            assert_eq!(outer.get_pixel(row, col), frozen.get_pixel(row, col));
        }
    }
}

#[test]
fn nested_offset_composition() {
    // A finalized composite painted into a larger canvas at an offset
    // lands intact in the overlapping region.
    let red = RgbaPixel::new(255, 0, 0, 255);
    let green = RgbaPixel::new(0, 255, 0, 255);
    let mut inner = Composite2D::<RgbaPixel>::new(2, 1).unwrap();
    inner.set_pixel(0, 0, red);
    inner.set_pixel(0, 1, green);
    let tile = finalize(inner);

    let black = RgbaPixel::new(0, 0, 0, 255);
    let mut outer = Composite2D::from_source(&solid(black, 3, 3));
    paint(&mut outer, &tile, 2, 1, 255);
    assert_eq!(outer.get_pixel(2, 1), red);
    assert_eq!(outer.get_pixel(2, 2), green);
    assert_eq!(outer.get_pixel(0, 0), black);
    assert_eq!(outer.get_pixel(1, 1), black);
    assert_eq!(outer.get_pixel(2, 0), black);
}
