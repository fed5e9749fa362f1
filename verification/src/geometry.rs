//! Coordinate conversion: mapping a capture's origin-relative rectangle to
//! absolute top-left coordinates, with exact bounds checking.

use vstd::prelude::*;

verus! {

use crate::capture::{CaptureSpec, CaptureModel, Origin};
use crate::errors::{CutoutError, ErrorModel};

/// The absolute y coordinate before any bounds check, as an integer:
/// top-left keeps `y`; bottom-left measures from the bottom edge, so the
/// rectangle's top lies at `img_height - y - height` (possibly negative).
pub open spec fn abs_y_model(y: u32, height: u32, origin: Origin, img_height: u32) -> int {
    if origin == Origin::TopLeft {
        y as int
    } else {
        img_height - y - height
    }
}

/// What coordinate conversion returns: the absolute top-left coordinates
/// of the rectangle, or the first failing check, in this order: for
/// bottom-left, `y` beyond the image height, then the bottom-edge
/// subtraction underflowing; then the origin point outside the image;
/// then the extent overrunning the right or bottom edge.
pub open spec fn spec_convert(c: CaptureModel, origin: Origin, img_width: u32, img_height: u32) -> Result<
    (u32, u32),
    ErrorModel,
> {
    if origin == Origin::BottomLeft && c.y > img_height {
        Err(ErrorModel::YOutsideHeight { name: c.name, y: c.y, img_height })
    } else if origin == Origin::BottomLeft && abs_y_model(c.y, c.height, origin, img_height) < 0 {
        Err(
            ErrorModel::BottomEdgeOutsideHeight {
                name: c.name,
                y: c.y,
                height: c.height,
                img_height,
            },
        )
    } else {
        let abs_x = c.x;
        let abs_y = abs_y_model(c.y, c.height, origin, img_height) as u32;
        if abs_x >= img_width || abs_y >= img_height {
            Err(
                ErrorModel::OriginOutsideBounds { name: c.name, abs_x, abs_y, img_width, img_height },
            )
        } else if c.width > img_width - abs_x || c.height > img_height - abs_y {
            Err(
                ErrorModel::ExceedsBounds {
                    name: c.name,
                    abs_x,
                    abs_y,
                    width: c.width,
                    height: c.height,
                    img_width,
                    img_height,
                },
            )
        } else {
            Ok((abs_x, abs_y))
        }
    }
}

/// Convert a capture's coordinates to absolute top-left coordinates
/// against an image of the given dimensions, exactly as `spec_convert`
/// describes it. All subtractions are guarded; nothing wraps.
pub fn convert_coordinates(capture: &CaptureSpec, origin: Origin, img_width: u32, img_height: u32) -> (r:
    Result<(u32, u32), CutoutError>)
    ensures
        (match r {
            Ok(v) => spec_convert(capture@, origin, img_width, img_height) == Ok::<
                (u32, u32),
                ErrorModel,
            >(v),
            Err(e) => spec_convert(capture@, origin, img_width, img_height) == Err::<
                (u32, u32),
                ErrorModel,
            >(e@),
        }),
{
    let abs_x = capture.x;
    let abs_y: u32 = match origin {
        Origin::TopLeft => capture.y,
        Origin::BottomLeft => {
            if capture.y > img_height {
                return Err(
                    CutoutError::YOutsideHeight {
                        name: capture.name.clone(),
                        y: capture.y,
                        img_height,
                    },
                );
            }
            let remaining = img_height - capture.y;
            if capture.height > remaining {
                return Err(
                    CutoutError::BottomEdgeOutsideHeight {
                        name: capture.name.clone(),
                        y: capture.y,
                        height: capture.height,
                        img_height,
                    },
                );
            }
            remaining - capture.height
        },
    };
    if abs_x >= img_width || abs_y >= img_height {
        return Err(
            CutoutError::OriginOutsideBounds {
                name: capture.name.clone(),
                abs_x,
                abs_y,
                img_width,
                img_height,
            },
        );
    }
    let max_w = img_width - abs_x;
    let max_h = img_height - abs_y;
    if capture.width > max_w || capture.height > max_h {
        return Err(
            CutoutError::ExceedsBounds {
                name: capture.name.clone(),
                abs_x,
                abs_y,
                width: capture.width,
                height: capture.height,
                img_width,
                img_height,
            },
        );
    }
    Ok((abs_x, abs_y))
}

/// A successful conversion yields a rectangle wholly inside the image:
/// the origin point lies strictly inside, and the extent stays within
/// both edges.
pub proof fn lemma_convert_ok_in_bounds(
    c: CaptureModel,
    origin: Origin,
    img_width: u32,
    img_height: u32,
)
    requires
        spec_convert(c, origin, img_width, img_height) is Ok,
    ensures
        ({
            let (abs_x, abs_y) = spec_convert(c, origin, img_width, img_height)->Ok_0;
            &&& abs_x < img_width
            &&& abs_y < img_height
            &&& abs_x + c.width <= img_width
            &&& abs_y + c.height <= img_height
        }),
{
}

/// For the top-left origin, conversion is the identity on coordinates:
/// whenever the rectangle lies within the image, it returns the capture's
/// own `(x, y)`.
pub proof fn lemma_top_left_identity(c: CaptureModel, img_width: u32, img_height: u32)
    requires
        c.x < img_width,
        c.y < img_height,
        c.width <= img_width - c.x,
        c.height <= img_height - c.y,
    ensures
        spec_convert(c, Origin::TopLeft, img_width, img_height) == Ok::<(u32, u32), ErrorModel>(
            (c.x, c.y),
        ),
{
}

/// A bottom-left capture whose `y` lies beyond the image height always
/// fails with the height-specific error, never the generic bounds errors.
pub proof fn lemma_bottom_left_y_outside(c: CaptureModel, img_width: u32, img_height: u32)
    requires
        c.y > img_height,
    ensures
        spec_convert(c, Origin::BottomLeft, img_width, img_height) == Err::<(u32, u32), ErrorModel>(
            ErrorModel::YOutsideHeight { name: c.name, y: c.y, img_height },
        ),
{
}

/// Whenever the origin point is admissible but the rectangle extends past
/// the image's right or bottom edge, conversion fails with the
/// exceeds-bounds error, under either origin.
pub proof fn lemma_exceeds_bounds(c: CaptureModel, origin: Origin, img_width: u32, img_height: u32)
    requires
        origin == Origin::BottomLeft ==> c.y <= img_height && c.y + c.height <= img_height,
        abs_y_model(c.y, c.height, origin, img_height) < img_height,
        c.x < img_width,
        c.x + c.width > img_width || abs_y_model(c.y, c.height, origin, img_height) + c.height
            > img_height,
    ensures
        ({
            let abs_y = abs_y_model(c.y, c.height, origin, img_height) as u32;
            spec_convert(c, origin, img_width, img_height) == Err::<(u32, u32), ErrorModel>(
                ErrorModel::ExceedsBounds {
                    name: c.name,
                    abs_x: c.x,
                    abs_y,
                    width: c.width,
                    height: c.height,
                    img_width,
                    img_height,
                },
            )
        }),
{
}

} // verus!
