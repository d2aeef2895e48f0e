//! Capture regions and how a requested region is clamped to a display.

use vstd::prelude::*;
use crate::error::CaptureError;

verus! {

/// A requested rectangle in display coordinates. The origin may be negative
/// (a selection that starts off screen); the extents are not trusted.
#[derive(Clone, Copy, Debug, PartialEq, Eq, Structural)]
pub struct CaptureRegion {
    pub x: i32,
    pub y: i32,
    pub width: u32,
    pub height: u32,
}

/// A rectangle in display coordinates whose origin is not negative.
#[derive(Clone, Copy, Debug, PartialEq, Eq, Structural)]
pub struct ScreenRect {
    pub x: u32,
    pub y: u32,
    pub width: u32,
    pub height: u32,
}

impl ScreenRect {
    /// Whether the rectangle has at least one pixel and lies wholly inside a
    /// display of the given size.
    pub open spec fn inside(self, display_width: int, display_height: int) -> bool {
        &&& self.width >= 1
        &&& self.height >= 1
        &&& self.x + self.width <= display_width
        &&& self.y + self.height <= display_height
    }
}

/// A coordinate moved into `0..=limit`: negative values become 0, values
/// beyond `limit` become `limit`.
pub open spec fn clamp_coordinate(value: int, limit: int) -> int {
    if value < 0 {
        0
    } else if value > limit {
        limit
    } else {
        value
    }
}

/// An extent cut to what is left of `limit` from `start` on.
pub open spec fn clamp_extent(extent: int, start: int, limit: int) -> int {
    if extent < limit - start {
        extent
    } else {
        limit - start
    }
}

/// The region clamped to a display of the given size: first the origin is
/// moved into the display, then each extent is cut to what the display has
/// left from the clamped origin on.
pub open spec fn clamped(region: CaptureRegion, display_width: u32, display_height: u32) -> ScreenRect {
    let x = clamp_coordinate(region.x as int, display_width as int);
    let y = clamp_coordinate(region.y as int, display_height as int);
    ScreenRect {
        x: x as u32,
        y: y as u32,
        width: clamp_extent(region.width as int, x, display_width as int) as u32,
        height: clamp_extent(region.height as int, y, display_height as int) as u32,
    }
}

/// What clamping answers: the clamped rectangle, or `InvalidRegion` with
/// the clamped extents if clamping left it no area.
pub open spec fn clamp_outcome(region: CaptureRegion, display_width: u32, display_height: u32) -> Result<
    ScreenRect,
    CaptureError,
> {
    let rect = clamped(region, display_width, display_height);
    if rect.width < 1 || rect.height < 1 {
        Err(CaptureError::InvalidRegion { width: rect.width, height: rect.height })
    } else {
        Ok(rect)
    }
}

/// Clamps a requested region to a display of the given size. Fails with
/// `InvalidRegion` exactly when the clamped region has no area.
pub fn clamp_region(region: &CaptureRegion, display_width: u32, display_height: u32) -> (result:
    Result<ScreenRect, CaptureError>)
    ensures
        result == clamp_outcome(*region, display_width, display_height),
{
    let x: u32 = if region.x < 0 {
        0
    } else if region.x as u32 > display_width {
        display_width
    } else {
        region.x as u32
    };
    let y: u32 = if region.y < 0 {
        0
    } else if region.y as u32 > display_height {
        display_height
    } else {
        region.y as u32
    };
    let width: u32 = if region.width < display_width - x {
        region.width
    } else {
        display_width - x
    };
    let height: u32 = if region.height < display_height - y {
        region.height
    } else {
        display_height - y
    };
    if width < 1 || height < 1 {
        Err(CaptureError::InvalidRegion { width, height })
    } else {
        Ok(ScreenRect { x, y, width, height })
    }
}

/// A region that lies wholly inside the display is captured as requested:
/// clamping changes neither its origin nor its extents.
pub proof fn lemma_region_inside_is_kept(region: CaptureRegion, display_width: u32, display_height: u32)
    requires
        region.x >= 0,
        region.y >= 0,
        region.width >= 1,
        region.height >= 1,
        region.x + region.width <= display_width,
        region.y + region.height <= display_height,
    ensures
        clamp_outcome(region, display_width, display_height) == Ok::<ScreenRect, CaptureError>(
            ScreenRect {
                x: region.x as u32,
                y: region.y as u32,
                width: region.width,
                height: region.height,
            },
        ),
{
}

/// Whatever is requested, a region that survives clamping lies wholly
/// inside the display, is no larger than requested, and starts at 0 on
/// each axis on which the request started off screen.
pub proof fn lemma_clamped_region_is_inside(
    region: CaptureRegion,
    display_width: u32,
    display_height: u32,
)
    ensures
        clamp_outcome(region, display_width, display_height) matches Ok(rect) ==> {
            &&& rect.inside(display_width as int, display_height as int)
            &&& rect.width <= region.width
            &&& rect.height <= region.height
            &&& region.x < 0 ==> rect.x == 0
            &&& region.y < 0 ==> rect.y == 0
            &&& region.x >= 0 ==> rect.x == region.x
            &&& region.y >= 0 ==> rect.y == region.y
        },
{
}

/// A region that starts at or beyond the display's right or bottom edge,
/// or that asks for no pixels, is refused.
pub proof fn lemma_region_off_screen_is_refused(
    region: CaptureRegion,
    display_width: u32,
    display_height: u32,
)
    requires
        region.x >= display_width || region.y >= display_height || region.width == 0
            || region.height == 0,
    ensures
        clamp_outcome(region, display_width, display_height) matches Err(
            CaptureError::InvalidRegion { width, height },
        ) && (width == 0 || height == 0),
{
}

/// Clamping succeeds exactly when the display is not empty and the region
/// asks for at least one pixel and starts before the display's right and
/// bottom edges.
pub proof fn lemma_clamp_succeeds_iff(region: CaptureRegion, display_width: u32, display_height: u32)
    ensures
        clamp_outcome(region, display_width, display_height) is Ok <==> (region.width >= 1
            && region.height >= 1 && display_width >= 1 && display_height >= 1 && region.x
            < display_width && region.y < display_height),
{
}

} // verus!
