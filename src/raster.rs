use vstd::prelude::*;
use image::{DynamicImage, GenericImageView};
use crate::coord::Coord;
use crate::rect::{pixel_count, pixel_rect, rect_for, CropRequest, PixelRect};

verus! {

#[verifier::external_type_specification]
#[verifier::external_body]
pub struct ExDynamicImage(DynamicImage);

/// Width and height in pixels of an image.
pub uninterp spec fn image_size(img: DynamicImage) -> (u32, u32);

/// The RGBA pixel that `GenericImageView::get_pixel` reads at `(x, y)`.
pub uninterp spec fn pixel_at(img: DynamicImage, x: u32, y: u32) -> (u8, u8, u8, u8);

/// `out` is the region `k` of `src`: of its size, pixel for pixel.
pub open spec fn is_region_of(out: DynamicImage, src: DynamicImage, k: PixelRect) -> bool {
    &&& image_size(out) == (k.width, k.height)
    &&& forall|x: u32, y: u32|
        x < k.width && y < k.height ==> #[trigger] pixel_at(out, x, y) == pixel_at(
            src,
            (k.left + x) as u32,
            (k.top + y) as u32,
        )
}

/// The region that the image crate's crop keeps of `rect` on an image of
/// the given size: the corner is moved inside the image, and the extent cut
/// at the image's right and bottom edges.
pub open spec fn kept_region(rect: PixelRect, image_width: u32, image_height: u32) -> PixelRect {
    let left = if rect.left < image_width { rect.left } else { image_width };
    let top = if rect.top < image_height { rect.top } else { image_height };
    PixelRect {
        left,
        top,
        width: if rect.width < image_width - left { rect.width } else { (image_width - left) as u32 },
        height: if rect.height < image_height - top { rect.height } else { (image_height - top) as u32 },
    }
}

/// Bytes of an RGBA buffer of that size, and of one row of it, fit in a `usize`.
pub open spec fn rgba_fits(width: u32, height: u32) -> bool {
    4 * width <= usize::MAX && 4 * width * height <= usize::MAX
}

/// Relies on `GenericImageView::dimensions` of `DynamicImage`: the image's
/// width and height.
#[verifier::external_body]
fn dimensions(img: &DynamicImage) -> (r: (u32, u32))
    ensures
        r == image_size(*img),
{
    img.dimensions()
}

/// Relies on `imageops::crop`, which moves the region inside the image, and
/// on `SubImage::to_image`, which copies that region into a new RGBA buffer
/// of its size, pixel `(x, y)` taken from `(left + x, top + y)` of the source
/// by `get_pixel` (it panics only when the buffer's length, four times the
/// width and then times the height, overflows `usize`), held as
/// `DynamicImage::ImageRgba8`. Neither writes to the source image.
#[verifier::external_body]
fn crop_to_buffer(img: &mut DynamicImage, rect: PixelRect) -> (r: DynamicImage)
    requires
        ({
            let k = kept_region(rect, image_size(*old(img)).0, image_size(*old(img)).1);
            rgba_fits(k.width, k.height)
        }),
    ensures
        *final(img) == *old(img),
        ({
            let k = kept_region(rect, image_size(*old(img)).0, image_size(*old(img)).1);
            &&& image_size(r) == (k.width, k.height)
            &&& forall|x: u32, y: u32|
                x < k.width && y < k.height ==> #[trigger] pixel_at(r, x, y) == pixel_at(
                    *old(img),
                    (k.left + x) as u32,
                    (k.top + y) as u32,
                )
        }),
{
    DynamicImage::ImageRgba8(
        image::imageops::crop(img, rect.left, rect.top, rect.width, rect.height).to_image(),
    )
}

/// Crops `req` out of a decoded image into a new RGBA image, leaving the
/// image as it was. The region is cut at the image's edges. `None` only
/// when the region's RGBA bytes would not fit in a `usize`.
pub fn crop_decoded(img: &mut DynamicImage, req: &CropRequest) -> (r: Option<DynamicImage>)
    ensures
        *final(img) == *old(img),
        ({
            let (w, h) = image_size(*old(img));
            let k = kept_region(rect_for(*req, w, h), w, h);
            &&& r is None <==> !rgba_fits(k.width, k.height)
            &&& r matches Some(out) ==> is_region_of(out, *old(img), k)
        }),
{
    let (w, h) = dimensions(img);
    let rect = pixel_rect(req, w, h);
    let left = if rect.left < w { rect.left } else { w };
    let top = if rect.top < h { rect.top } else { h };
    let cw = if rect.width < w - left { rect.width } else { w - left };
    let ch = if rect.height < h - top { rect.height } else { h - top };
    proof {
        assert((cw as int) * (ch as int) <= 0xffff_ffff * 0xffff_ffff) by (nonlinear_arith)
            requires
                cw <= 0xffff_ffffu32,
                ch <= 0xffff_ffffu32,
        ;
    }
    let area = (cw as u128) * (ch as u128);
    assert(kept_region(rect, w, h) == PixelRect { left, top, width: cw, height: ch });
    assert(4 * (cw as int) * (ch as int) == (area as int) * 4) by (nonlinear_arith)
        requires
            area == (cw as int) * (ch as int),
    ;
    if (cw as u128) * 4 > usize::MAX as u128 || area * 4 > usize::MAX as u128 {
        return None;
    }
    Some(crop_to_buffer(img, rect))
}

/// Within the image, an absolute request with non-negative values keeps the
/// whole pixels of its width and height, and pixel `(i, j)` of the result is
/// pixel `(floor(x1) + i, floor(y1) + j)` of the source.
pub proof fn lemma_absolute_crop(req: CropRequest, src: DynamicImage, out: DynamicImage)
    requires
        !req.relative,
        0 <= req.x1.units,
        0 <= req.y1.units,
        0 <= req.width.units,
        0 <= req.height.units,
        ({
            let (w, h) = image_size(src);
            let r = rect_for(req, w, h);
            r.left + r.width <= w && r.top + r.height <= h
        }),
        ({
            let (w, h) = image_size(src);
            is_region_of(out, src, kept_region(rect_for(req, w, h), w, h))
        }),
    ensures
        image_size(out) == (
            pixel_count(req.width.units as int, 1) as u32,
            pixel_count(req.height.units as int, 1) as u32,
        ),
        forall|i: u32, j: u32|
            i < pixel_count(req.width.units as int, 1) && j < pixel_count(req.height.units as int, 1)
                ==> #[trigger] pixel_at(out, i, j) == pixel_at(
                src,
                (pixel_count(req.x1.units as int, 1) + i) as u32,
                (pixel_count(req.y1.units as int, 1) + j) as u32,
            ),
{
}

/// The absolute request that names the same place as the relative `req` on an
/// image of the given size: each value multiplied by that axis's size.
pub open spec fn scaled_request(req: CropRequest, image_width: u32, image_height: u32) -> CropRequest {
    CropRequest {
        x1: Coord { units: (req.x1.units * image_width) as i128 },
        y1: Coord { units: (req.y1.units * image_height) as i128 },
        width: Coord { units: (req.width.units * image_width) as i128 },
        height: Coord { units: (req.height.units * image_height) as i128 },
        relative: false,
    }
}

/// Each value of `req`, multiplied by its axis's size, fits a coordinate.
pub open spec fn scaled_fits(req: CropRequest, image_width: u32, image_height: u32) -> bool {
    &&& i128::MIN <= req.x1.units * image_width <= i128::MAX
    &&& i128::MIN <= req.y1.units * image_height <= i128::MAX
    &&& i128::MIN <= req.width.units * image_width <= i128::MAX
    &&& i128::MIN <= req.height.units * image_height <= i128::MAX
}

/// A relative crop gives the same image as the absolute crop whose values
/// are scaled by the image's size: the same size and the same pixels.
pub proof fn lemma_relative_is_scaled_absolute(
    req: CropRequest,
    src: DynamicImage,
    rel_out: DynamicImage,
    abs_out: DynamicImage,
)
    requires
        req.relative,
        scaled_fits(req, image_size(src).0, image_size(src).1),
        ({
            let (w, h) = image_size(src);
            is_region_of(rel_out, src, kept_region(rect_for(req, w, h), w, h))
        }),
        ({
            let (w, h) = image_size(src);
            is_region_of(abs_out, src, kept_region(rect_for(scaled_request(req, w, h), w, h), w, h))
        }),
    ensures
        image_size(rel_out) == image_size(abs_out),
        forall|x: u32, y: u32|
            x < image_size(rel_out).0 && y < image_size(rel_out).1 ==> #[trigger] pixel_at(rel_out, x, y)
                == pixel_at(abs_out, x, y),
{
    let (w, h) = image_size(src);
    let a = scaled_request(req, w, h);
    assert(a.x1.units * 1 == req.x1.units * w);
    assert(a.y1.units * 1 == req.y1.units * h);
    assert(a.width.units * 1 == req.width.units * w);
    assert(a.height.units * 1 == req.height.units * h);
    assert(rect_for(req, w, h) == rect_for(a, w, h));
    let k = kept_region(rect_for(req, w, h), w, h);
    assert forall|x: u32, y: u32| x < image_size(rel_out).0 && y < image_size(rel_out).1 implies
        #[trigger] pixel_at(rel_out, x, y) == pixel_at(abs_out, x, y) by {
        assert(pixel_at(rel_out, x, y) == pixel_at(src, (k.left + x) as u32, (k.top + y) as u32));
        assert(pixel_at(abs_out, x, y) == pixel_at(src, (k.left + x) as u32, (k.top + y) as u32));
    }
}

} // verus!
