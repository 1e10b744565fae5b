use imgcrop::coord::{parse_coord, Coord, ONE, PIXEL_MAX};
use imgcrop::rect::{pixel_rect, to_pixels, CropRequest, PixelRect};
use imgcrop::request::{resolve_request, ArgError, Axis};

fn c(s: &str) -> Coord {
    parse_coord(s).expect("a decimal number")
}

#[test]
fn parses_whole_and_fractional_numbers() {
    assert_eq!(c("10").units, 10 * ONE);
    assert_eq!(c("0.25").units, ONE / 4);
    assert_eq!(c("-12").units, -12 * ONE);
    assert_eq!(c("+3.5").units, 7 * ONE / 2);
    assert_eq!(c(".5").units, ONE / 2);
    assert_eq!(c("5.").units, 5 * ONE);
    assert_eq!(c("0.000000000000000001").units, 1);
}

#[test]
fn rejects_text_that_is_no_decimal_number() {
    assert!(parse_coord("").is_none());
    assert!(parse_coord("-").is_none());
    assert!(parse_coord(".").is_none());
    assert!(parse_coord("1.2.3").is_none());
    assert!(parse_coord("12a").is_none());
    assert!(parse_coord(" 1").is_none());
    assert!(parse_coord("--1").is_none());
}

#[test]
fn digit_limits_on_each_side_of_the_point() {
    assert_eq!(c("999999999999999999").units, 999999999999999999 * ONE);
    assert!(parse_coord("1000000000000000000").is_none());
    assert_eq!(c("0.123456789012345678").units, 123456789012345678);
    assert!(parse_coord("0.1234567890123456789").is_none());
}

#[test]
fn pixel_counts_truncate_and_clamp() {
    assert_eq!(to_pixels(c("0.25"), 800), 200);
    assert_eq!(to_pixels(c("10.9"), 1), 10);
    assert_eq!(to_pixels(c("0.999"), 1), 0);
    assert_eq!(to_pixels(c("-3"), 1), 0);
    assert_eq!(to_pixels(c("5"), 0), 0);
    assert_eq!(to_pixels(c("4294967295.5"), 1), PIXEL_MAX);
    assert_eq!(to_pixels(c("4294967296"), 1), PIXEL_MAX);
    assert_eq!(to_pixels(c("100000000000"), 7), PIXEL_MAX);
    assert_eq!(to_pixels(c("0.5"), 4294967295), 2147483647);
}

#[test]
fn relative_request_on_800_by_600() {
    let req = CropRequest {
        x1: c("0.25"),
        y1: c("0.25"),
        width: c("0.5"),
        height: c("0.5"),
        relative: true,
    };
    let r = pixel_rect(&req, 800, 600);
    assert_eq!(r, PixelRect { left: 200, top: 150, width: 400, height: 300 });
    assert_eq!((r.left + r.width, r.top + r.height), (600, 450));
}

#[test]
fn absolute_request_ignores_image_size() {
    let req = CropRequest {
        x1: c("10.7"),
        y1: c("20"),
        width: c("100.2"),
        height: c("50"),
        relative: false,
    };
    assert_eq!(pixel_rect(&req, 800, 600), PixelRect { left: 10, top: 20, width: 100, height: 50 });
}

#[test]
fn both_far_corner_and_width_is_rejected() {
    let r = resolve_request(c("0"), c("0"), Some(c("5")), None, Some(c("5")), Some(c("5")), false);
    assert_eq!(r, Err(ArgError::BothGiven(Axis::Horizontal)));
}

#[test]
fn neither_far_corner_nor_width_is_rejected() {
    let r = resolve_request(c("0"), c("0"), None, None, None, Some(c("5")), false);
    assert_eq!(r, Err(ArgError::NoneGiven(Axis::Horizontal)));
}

#[test]
fn vertical_group_is_checked_too() {
    let both = resolve_request(c("0"), c("0"), None, Some(c("5")), Some(c("5")), Some(c("5")), false);
    assert_eq!(both, Err(ArgError::BothGiven(Axis::Vertical)));
    let neither = resolve_request(c("0"), c("0"), None, None, Some(c("5")), None, false);
    assert_eq!(neither, Err(ArgError::NoneGiven(Axis::Vertical)));
}

#[test]
fn horizontal_error_comes_first() {
    let r = resolve_request(c("0"), c("0"), None, None, None, None, true);
    assert_eq!(r, Err(ArgError::NoneGiven(Axis::Horizontal)));
}

#[test]
fn width_from_far_corner_equals_explicit_width() {
    let derived = resolve_request(c("10"), c("20"), Some(c("110")), Some(c("70")), None, None, false)
        .unwrap();
    let explicit = resolve_request(c("10"), c("20"), None, None, Some(c("100")), Some(c("50")), false)
        .unwrap();
    assert_eq!(derived, explicit);
    assert_eq!(derived.width.units, 100 * ONE);
    assert_eq!(derived.height.units, 50 * ONE);
    assert!(!derived.relative);
}

#[test]
fn negative_derived_width_is_kept() {
    let r = resolve_request(c("10"), c("0"), Some(c("4")), None, None, Some(c("1")), false).unwrap();
    assert_eq!(r.width.units, -6 * ONE);
    assert_eq!(to_pixels(r.width, 1), 0);
}
