use vstd::prelude::*;
use crate::coord::Coord;
use crate::rect::CropRequest;

verus! {

/// The axis of an argument group: x2 or width, y2 or height.
#[derive(Clone, Copy, Debug, PartialEq, Eq, Structural)]
pub enum Axis {
    Horizontal,
    Vertical,
}

/// A broken argument group.
#[derive(Clone, Copy, Debug, PartialEq, Eq, Structural)]
pub enum ArgError {
    /// Both the far corner and the extent were given for the axis.
    BothGiven(Axis),
    /// Neither the far corner nor the extent was given for the axis.
    NoneGiven(Axis),
}

/// The extent along one axis: the explicit one, or `end - start`; exactly one
/// of `end` and `extent` must be given.
pub open spec fn extent_of(start: Coord, end: Option<Coord>, extent: Option<Coord>, axis: Axis) -> Result<
    Coord,
    ArgError,
> {
    match (end, extent) {
        (Some(_), Some(_)) => Err(ArgError::BothGiven(axis)),
        (None, None) => Err(ArgError::NoneGiven(axis)),
        (None, Some(w)) => Ok(w),
        (Some(e), None) => Ok(e.minus_spec(start)),
    }
}

/// Resolves one axis's argument group (see `extent_of`). A negative
/// difference is kept as it is.
pub fn resolve_extent(start: Coord, end: Option<Coord>, extent: Option<Coord>, axis: Axis) -> (r:
    Result<Coord, ArgError>)
    requires
        start.wf(),
        end matches Some(e) ==> e.wf(),
    ensures
        r == extent_of(start, end, extent, axis),
{
    match (end, extent) {
        (Some(_), Some(_)) => Err(ArgError::BothGiven(axis)),
        (None, None) => Err(ArgError::NoneGiven(axis)),
        (None, Some(w)) => Ok(w),
        (Some(e), None) => Ok(e.minus(start)),
    }
}

/// The request that the arguments describe; the horizontal group is checked
/// before the vertical one.
pub open spec fn request_of(
    x1: Coord,
    y1: Coord,
    x2: Option<Coord>,
    y2: Option<Coord>,
    width: Option<Coord>,
    height: Option<Coord>,
    relative: bool,
) -> Result<CropRequest, ArgError> {
    match extent_of(x1, x2, width, Axis::Horizontal) {
        Err(e) => Err(e),
        Ok(w) => match extent_of(y1, y2, height, Axis::Vertical) {
            Err(e) => Err(e),
            Ok(h) => Ok(CropRequest { x1, y1, width: w, height: h, relative }),
        },
    }
}

/// Resolves the command's coordinate arguments into a crop request.
pub fn resolve_request(
    x1: Coord,
    y1: Coord,
    x2: Option<Coord>,
    y2: Option<Coord>,
    width: Option<Coord>,
    height: Option<Coord>,
    relative: bool,
) -> (r: Result<CropRequest, ArgError>)
    requires
        x1.wf(),
        y1.wf(),
        x2 matches Some(e) ==> e.wf(),
        y2 matches Some(e) ==> e.wf(),
    ensures
        r == request_of(x1, y1, x2, y2, width, height, relative),
        r is Err <==> (x2 is Some == width is Some) || (y2 is Some == height is Some),
{
    let w = match resolve_extent(x1, x2, width, Axis::Horizontal) {
        Err(e) => {
            return Err(e);
        },
        Ok(w) => w,
    };
    let h = match resolve_extent(y1, y2, height, Axis::Vertical) {
        Err(e) => {
            return Err(e);
        },
        Ok(h) => h,
    };
    Ok(CropRequest { x1, y1, width: w, height: h, relative })
}

/// An extent derived from a far corner equals the same extent given
/// explicitly: `x2 - x1` resolves to what `width = x2 - x1` resolves to.
pub proof fn lemma_derived_extent_is_explicit(start: Coord, end: Coord, axis: Axis)
    requires
        start.wf(),
        end.wf(),
    ensures
        extent_of(start, Some(end), None, axis) == extent_of(
            start,
            None,
            Some(end.minus_spec(start)),
            axis,
        ),
        extent_of(start, Some(end), None, axis) is Ok,
{
}

} // verus!
