//! Region algebra: clamping a requested rectangle to the image.
use vstd::prelude::*;

verus! {

/// A rectangle that a client asks to edit, in whole pixels; it may reach past the image.
#[derive(Clone, Copy, PartialEq, Eq, Structural, Debug)]
pub struct InpaintRegion {
    pub x: u32,
    pub y: u32,
    pub width: u32,
    pub height: u32,
}

pub open spec fn min(a: int, b: int) -> int {
    if a <= b {
        a
    } else {
        b
    }
}

pub open spec fn max(a: int, b: int) -> int {
    if a >= b {
        a
    } else {
        b
    }
}

/// The left edge after clamping: the requested one, or the last column where it lies past it.
pub open spec fn clamped_x0(r: InpaintRegion, width: u32) -> int {
    min(r.x as int, width - 1)
}

pub open spec fn clamped_y0(r: InpaintRegion, height: u32) -> int {
    min(r.y as int, height - 1)
}

/// The width left once the requested width, measured from the clamped corner, is cut at the
/// image's right edge.
pub open spec fn clamped_width(r: InpaintRegion, width: u32) -> int {
    if width == 0 {
        0
    } else {
        min(clamped_x0(r, width) + r.width, width as int) - clamped_x0(r, width)
    }
}

pub open spec fn clamped_height(r: InpaintRegion, height: u32) -> int {
    if height == 0 {
        0
    } else {
        min(clamped_y0(r, height) + r.height, height as int) - clamped_y0(r, height)
    }
}

/// The clamped rectangle `(x0, y0, w, h)`, or `None` where nothing of it is left.
pub open spec fn clamp_spec(r: InpaintRegion, width: u32, height: u32) -> Option<(u32, u32, u32, u32)> {
    if clamped_width(r, width) == 0 || clamped_height(r, height) == 0 {
        None
    } else {
        Some(
            (
                clamped_x0(r, width) as u32,
                clamped_y0(r, height) as u32,
                clamped_width(r, width) as u32,
                clamped_height(r, height) as u32,
            ),
        )
    }
}

/// Clamps `region` to a `width × height` image: its corner moves to the last valid column and
/// row where it lies past them, and its extent, measured from that corner, is cut at the
/// image's edges. The clamped rectangle is never larger than the one requested.
pub fn clamp_region(region: &InpaintRegion, width: u32, height: u32) -> (r: Option<(u32, u32, u32, u32)>)
    ensures
        r == clamp_spec(*region, width, height),
        r is None <==> (clamped_width(*region, width) == 0 || clamped_height(*region, height) == 0),
        r matches Some((x0, y0, w, h)) ==> 0 < w && 0 < h && x0 + w <= width && y0 + h <= height
            && w <= region.width && h <= region.height,
{
    if width == 0 || height == 0 {
        return None;
    }
    let x0 = if region.x < width - 1 { region.x } else { width - 1 };
    let y0 = if region.y < height - 1 { region.y } else { height - 1 };
    let x_end: u64 = x0 as u64 + region.width as u64;
    let y_end: u64 = y0 as u64 + region.height as u64;
    let x1: u32 = if x_end < width as u64 { x_end as u32 } else { width };
    let y1: u32 = if y_end < height as u64 { y_end as u32 } else { height };
    let w = x1 - x0;
    let h = y1 - y0;
    if w == 0 || h == 0 {
        return None;
    }
    Some((x0, y0, w, h))
}

} // verus!
