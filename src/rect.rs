use vstd::prelude::*;
use crate::coord::{Coord, ONE, PIXEL_MAX};

verus! {

/// `(PIXEL_MAX + 1) * ONE`: a coordinate this large, scaled by one or more,
/// exceeds every pixel count.
pub const PIXEL_OVERFLOW_UNITS: i128 = 4294967296000000000000000000;

/// The whole pixels in `units / ONE` times `scale`, truncated toward zero and
/// held in `0..=PIXEL_MAX`: a negative or zero product gives zero, one too
/// large for a pixel count gives `PIXEL_MAX`.
pub open spec fn pixel_count(units: int, scale: int) -> int {
    let p = units * scale;
    if p <= 0 {
        0
    } else if p / (ONE as int) > PIXEL_MAX {
        PIXEL_MAX as int
    } else {
        p / (ONE as int)
    }
}

/// The pixel count of `c` scaled by `scale` (see `pixel_count`).
pub fn to_pixels(c: Coord, scale: u32) -> (r: u32)
    ensures
        r == pixel_count(c.units as int, scale as int),
{
    if c.units <= 0 || scale == 0 {
        proof {
            assert(c.units * scale <= 0) by (nonlinear_arith)
                requires
                    c.units <= 0 || scale == 0,
                    scale >= 0,
            ;
        }
        return 0;
    }
    if c.units >= PIXEL_OVERFLOW_UNITS {
        proof {
            let p: int = c.units * scale;
            assert(p >= PIXEL_OVERFLOW_UNITS) by (nonlinear_arith)
                requires
                    c.units >= PIXEL_OVERFLOW_UNITS,
                    scale >= 1,
                    p == c.units * scale,
            ;
            assert(p / (ONE as int) >= (PIXEL_OVERFLOW_UNITS as int) / (ONE as int)) by (nonlinear_arith)
                requires
                    p >= PIXEL_OVERFLOW_UNITS,
            ;
        }
        return PIXEL_MAX;
    }
    proof {
        assert(0 < c.units * scale <= PIXEL_OVERFLOW_UNITS * PIXEL_MAX) by (nonlinear_arith)
            requires
                0 < c.units < PIXEL_OVERFLOW_UNITS,
                1 <= scale <= PIXEL_MAX,
        ;
    }
    let p = c.units * (scale as i128);
    let q = p / ONE;
    if q > PIXEL_MAX as i128 {
        PIXEL_MAX
    } else {
        q as u32
    }
}

/// A crop given in coordinates: the top-left corner and the extent. With
/// `relative` each value is a fraction of the image's width (x1, width) or
/// height (y1, height); without it each is a number of pixels.
#[derive(Clone, Copy, Debug, PartialEq, Eq, Structural)]
pub struct CropRequest {
    pub x1: Coord,
    pub y1: Coord,
    pub width: Coord,
    pub height: Coord,
    pub relative: bool,
}

/// A crop in whole pixels.
#[derive(Clone, Copy, Debug, PartialEq, Eq, Structural)]
pub struct PixelRect {
    pub left: u32,
    pub top: u32,
    pub width: u32,
    pub height: u32,
}

/// What a coordinate is multiplied by on each axis: the image's size for a
/// relative request, one otherwise.
pub open spec fn axis_scales(req: CropRequest, image_width: u32, image_height: u32) -> (u32, u32) {
    if req.relative {
        (image_width, image_height)
    } else {
        (1u32, 1u32)
    }
}

/// The pixel rectangle that `req` asks for on an image of the given size.
pub open spec fn rect_for(req: CropRequest, image_width: u32, image_height: u32) -> PixelRect {
    let (sx, sy) = axis_scales(req, image_width, image_height);
    PixelRect {
        left: pixel_count(req.x1.units as int, sx as int) as u32,
        top: pixel_count(req.y1.units as int, sy as int) as u32,
        width: pixel_count(req.width.units as int, sx as int) as u32,
        height: pixel_count(req.height.units as int, sy as int) as u32,
    }
}

/// The pixel rectangle that `req` asks for on an image of the given size.
/// Nothing is checked against the image's bounds here.
pub fn pixel_rect(req: &CropRequest, image_width: u32, image_height: u32) -> (r: PixelRect)
    ensures
        r == rect_for(*req, image_width, image_height),
{
    let (sx, sy) = if req.relative {
        (image_width, image_height)
    } else {
        (1u32, 1u32)
    };
    PixelRect {
        left: to_pixels(req.x1, sx),
        top: to_pixels(req.y1, sy),
        width: to_pixels(req.width, sx),
        height: to_pixels(req.height, sy),
    }
}

} // verus!
