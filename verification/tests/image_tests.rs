use sahara::pixel::RgbaPixel;
use sahara::source::{Composable2D, GeometryError, Image2D, Source2D};

#[test]
fn flatten_coord() {
    let bl = RgbaPixel::from((0, 0, 0, 255));
    assert_eq!(
        Image2D::new(vec![bl; 12], 3, 4).unwrap().flatten_coord(2, 2),
        8
    );
}

#[test]
fn expand_coord() {
    let bl = RgbaPixel::from((0, 0, 0, 255));
    assert_eq!(
        Image2D::new(vec![bl; 12], 3, 4).unwrap().expand_coord(8),
        (2, 2)
    );
}

#[test]
fn flatten_expand_round_trip() {
    let bl = RgbaPixel::new(0, 0, 0, 255);
    let img = Image2D::new(vec![bl; 12], 3, 4).unwrap();
    for row in 0..4 {
        for col in 0..3 {
            assert_eq!(img.expand_coord(img.flatten_coord(row, col)), (row, col));
        }
    }
    for coord in 0..12 {
        let (row, col) = img.expand_coord(coord);
        assert_eq!(img.flatten_coord(row, col), coord);
    }
}

#[test]
fn zero_width_rejected() {
    let bl = RgbaPixel::new(0, 0, 0, 255);
    assert_eq!(
        Image2D::new(vec![bl; 4], 0, 4).unwrap_err(),
        GeometryError::ZeroDimension
    );
}

#[test]
fn zero_height_rejected() {
    let bl = RgbaPixel::new(0, 0, 0, 255);
    assert_eq!(
        Image2D::new(vec![bl; 4], 4, 0).unwrap_err(),
        GeometryError::ZeroDimension
    );
}

#[test]
fn empty_buffer_and_dimensions_rejected() {
    assert_eq!(
        Image2D::<RgbaPixel>::new(vec![], 0, 0).unwrap_err(),
        GeometryError::ZeroDimension
    );
}

#[test]
fn length_mismatch_rejected() {
    let bl = RgbaPixel::from((0, 0, 0, 255));
    assert_eq!(
        Image2D::new(vec![bl, bl, bl], 10, 10).unwrap_err(),
        GeometryError::LengthMismatch
    );
}

#[test]
fn valid_geometry_accepted() {
    let b = RgbaPixel::new(0, 0, 0, 255);
    let image = Image2D::new(vec![b; 6], 2, 3).unwrap();
    assert_eq!(image.get_width(), 2);
    assert_eq!(image.get_height(), 3);
}

#[test]
fn get_pixel_reads_row_major() {
    let bl = RgbaPixel::new(0, 0, 0, 255);
    let r = RgbaPixel::new(255, 0, 0, 255);
    let g = RgbaPixel::new(0, 255, 0, 255);
    let image_2d = Image2D::new(vec![bl, r, g, r], 2, 2).unwrap();
    assert_eq!(image_2d.get_pixel(0, 0), bl);
    assert_eq!(image_2d.get_pixel(0, 1), r);
    assert_eq!(image_2d.get_pixel(1, 0), g);
    assert_eq!(image_2d.get_pixel(1, 1), r);
}

#[test]
fn set_pixel_replaces_only_its_target() {
    let bl = RgbaPixel::new(0, 0, 0, 255);
    let r = RgbaPixel::new(255, 0, 0, 255);
    let mut image_2d = Image2D::new(vec![bl; 4], 2, 2).unwrap();
    image_2d.set_pixel(0, 1, r);
    assert_eq!(image_2d.get_pixel(0, 0), bl);
    assert_eq!(image_2d.get_pixel(0, 1), r);
    assert_eq!(image_2d.get_pixel(1, 0), bl);
    assert_eq!(image_2d.get_pixel(1, 1), bl);
}
