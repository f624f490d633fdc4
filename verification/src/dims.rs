//! Resolves the output dimensions, preserving the source aspect ratio
//! where only one side is given.

use vstd::prelude::*;

use crate::RenderError;

verus! {

/// The output width used when neither side is given.
pub const DEFAULT_WIDTH: u32 = 80;

/// The height matching an output width `w` for a `sw` by `sh` source,
/// truncated toward zero.
pub open spec fn scaled_height(w: int, sw: int, sh: int) -> int {
    w * sh / sw
}

/// The width matching an output height `h` for a `sw` by `sh` source,
/// truncated toward zero.
pub open spec fn scaled_width(h: int, sw: int, sh: int) -> int {
    h * sw / sh
}

/// What dimension resolution yields: the pair of output sides, or the
/// error.  A zero-area source has no aspect ratio and is refused; a
/// scaled side too large for `u32` is a configuration error.
pub open spec fn dims_result(
    maybe_width: Option<u32>,
    maybe_height: Option<u32>,
    image_width: int,
    image_height: int,
) -> Result<(int, int), RenderError> {
    if image_width <= 0 || image_height <= 0 {
        Err(RenderError::InvalidImage)
    } else {
        match (maybe_width, maybe_height) {
            (Some(w), Some(h)) => Ok((w as int, h as int)),
            (Some(w), None) => {
                let h = scaled_height(w as int, image_width, image_height);
                if h <= u32::MAX { Ok((w as int, h)) } else { Err(RenderError::InvalidConfiguration) }
            },
            (None, Some(h)) => {
                let w = scaled_width(h as int, image_width, image_height);
                if w <= u32::MAX { Ok((w, h as int)) } else { Err(RenderError::InvalidConfiguration) }
            },
            (None, None) => {
                let h = scaled_height(DEFAULT_WIDTH as int, image_width, image_height);
                if h <= u32::MAX { Ok((DEFAULT_WIDTH as int, h)) } else {
                    Err(RenderError::InvalidConfiguration)
                }
            },
        }
    }
}

/// Scales one side against the source aspect ratio: `a * b / c`,
/// truncated toward zero, or an error where the result does not fit.
fn scale_side(a: u32, b: u32, c: u32) -> (r: Result<u32, RenderError>)
    requires
        c >= 1,
    ensures
        a * b / (c as int) <= u32::MAX ==> (r matches Ok(v) && v == a * b / (c as int)),
        a * b / (c as int) > u32::MAX ==> r == Err::<u32, RenderError>(
            RenderError::InvalidConfiguration,
        ),
{
    proof {
        assert((a as int) * (b as int) <= (u32::MAX as int) * (u32::MAX as int)) by (nonlinear_arith)
            requires
                0 <= a <= u32::MAX,
                0 <= b <= u32::MAX,
        ;
    }
    let prod: u64 = (a as u64) * (b as u64);
    let q: u64 = prod / (c as u64);
    if q > u32::MAX as u64 {
        Err(RenderError::InvalidConfiguration)
    } else {
        Ok(q as u32)
    }
}

/// Resolves the output width and height in character cells.
///
/// Both sides present: returned as given, with no aspect correction.
/// One side present: the other is scaled by the source aspect ratio,
/// truncating toward zero.  Neither present: the width is
/// `DEFAULT_WIDTH` and the height is scaled from it.  A source with a
/// zero side is refused with `InvalidImage`; a scaled side beyond
/// `u32::MAX` with `InvalidConfiguration`.
pub fn calculate_target_dimension(
    maybe_width: Option<u32>,
    maybe_height: Option<u32>,
    image_width: u32,
    image_height: u32,
) -> (r: Result<(u32, u32), RenderError>)
    ensures
        match dims_result(maybe_width, maybe_height, image_width as int, image_height as int) {
            Ok((w, h)) => r matches Ok(p) && p.0 == w && p.1 == h,
            Err(e) => r == Err::<(u32, u32), RenderError>(e),
        },
{
    if image_width == 0 || image_height == 0 {
        return Err(RenderError::InvalidImage);
    }
    match (maybe_width, maybe_height) {
        (Some(w), Some(h)) => Ok((w, h)),
        (Some(w), None) => {
            match scale_side(w, image_height, image_width) {
                Ok(h) => Ok((w, h)),
                Err(e) => Err(e),
            }
        },
        (None, Some(h)) => {
            match scale_side(h, image_width, image_height) {
                Ok(w) => Ok((w, h)),
                Err(e) => Err(e),
            }
        },
        (None, None) => {
            match scale_side(DEFAULT_WIDTH, image_height, image_width) {
                Ok(h) => Ok((DEFAULT_WIDTH, h)),
                Err(e) => Err(e),
            }
        },
    }
}

} // verus!
