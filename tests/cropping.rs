use image::{DynamicImage, GenericImageView, Rgb};
use imgcrop::coord::parse_coord;
use imgcrop::raster::crop_decoded;
use imgcrop::rect::CropRequest;

fn req(x1: &str, y1: &str, w: &str, h: &str, relative: bool) -> CropRequest {
    let p = |s: &str| parse_coord(s).unwrap();
    CropRequest { x1: p(x1), y1: p(y1), width: p(w), height: p(h), relative }
}

#[test]
fn absolute_crop_has_requested_size() {
    let mut img = DynamicImage::new_rgb8(800, 600);
    let out = crop_decoded(&mut img, &req("10", "20", "100.9", "50", false)).unwrap();
    assert_eq!(out.dimensions(), (100, 50));
    assert_eq!(img.dimensions(), (800, 600));
}

#[test]
fn relative_crop_on_800_by_600_is_400_by_300() {
    let mut img = DynamicImage::new_rgb8(800, 600);
    let out = crop_decoded(&mut img, &req("0.25", "0.25", "0.5", "0.5", true)).unwrap();
    assert_eq!(out.dimensions(), (400, 300));
}

#[test]
fn crop_keeps_the_right_pixels() {
    let mut buf = image::RgbImage::new(4, 3);
    buf.put_pixel(2, 1, Rgb([9, 8, 7]));
    let mut img = DynamicImage::ImageRgb8(buf);
    let out = crop_decoded(&mut img, &req("2", "1", "2", "2", false)).unwrap();
    assert_eq!(out.dimensions(), (2, 2));
    assert_eq!(out.get_pixel(0, 0).0, [9, 8, 7, 255]);
    assert_eq!(out.get_pixel(1, 1).0, [0, 0, 0, 255]);
}

#[test]
fn crop_past_the_edge_is_cut() {
    let mut img = DynamicImage::new_rgb8(800, 600);
    let out = crop_decoded(&mut img, &req("790", "0", "100", "1000", false)).unwrap();
    assert_eq!(out.dimensions(), (10, 600));
    let outside = crop_decoded(&mut img, &req("900", "700", "5", "5", false)).unwrap();
    assert_eq!(outside.dimensions(), (0, 0));
}

#[test]
fn zero_extent_gives_an_empty_image() {
    let mut img = DynamicImage::new_rgb8(20, 20);
    let out = crop_decoded(&mut img, &req("1", "1", "0", "0.5", false)).unwrap();
    assert_eq!(out.dimensions(), (0, 0));
}

fn marked_800_by_600() -> DynamicImage {
    let mut buf = image::RgbImage::new(800, 600);
    buf.put_pixel(200, 150, Rgb([1, 2, 3]));
    buf.put_pixel(599, 449, Rgb([4, 5, 6]));
    buf.put_pixel(600, 450, Rgb([7, 8, 9]));
    buf.put_pixel(0, 0, Rgb([10, 11, 12]));
    DynamicImage::ImageRgb8(buf)
}

#[test]
fn relative_crop_takes_the_rectangle_200_150_to_600_450() {
    let mut img = marked_800_by_600();
    let out = crop_decoded(&mut img, &req("0.25", "0.25", "0.5", "0.5", true)).unwrap();
    assert_eq!(out.dimensions(), (400, 300));
    assert_eq!(out.get_pixel(0, 0).0, [1, 2, 3, 255]);
    assert_eq!(out.get_pixel(399, 299).0, [4, 5, 6, 255]);
    assert_eq!(out.get_pixel(1, 1).0, [0, 0, 0, 255]);
}

#[test]
fn relative_crop_equals_scaled_absolute_crop() {
    let mut img = marked_800_by_600();
    let rel = crop_decoded(&mut img, &req("0.25", "0.25", "0.5", "0.5", true)).unwrap();
    let abs = crop_decoded(&mut img, &req("200", "150", "400", "300", false)).unwrap();
    assert_eq!(rel.dimensions(), abs.dimensions());
    assert_eq!(rel.to_rgba8().into_raw(), abs.to_rgba8().into_raw());
}

#[test]
fn absolute_crop_keeps_source_pixels_at_offset() {
    let mut img = marked_800_by_600();
    let out = crop_decoded(&mut img, &req("199.6", "149", "3", "2.9", false)).unwrap();
    assert_eq!(out.dimensions(), (3, 2));
    assert_eq!(out.get_pixel(1, 1).0, [1, 2, 3, 255]);
    assert_eq!(out.get_pixel(0, 0).0, [0, 0, 0, 255]);
}
