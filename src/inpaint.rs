//! Full and partial inpainting: the mask handed to the inpainting capability and the
//! stitching of what it returns.
use vstd::prelude::*;

use crate::document::{Document, Error, Missing, State, TextBlock, MILLI};
use crate::edit::size_mismatch;
use crate::raster::{cropped, in_rect, is_masked, lemma_index, patched, selected, Raster, RasterView, Rgba};
use crate::region::{clamp_region, clamp_spec, max, InpaintRegion};

verus! {

/// A block's box meets the pixel rectangle `(x0, y0, w, h)`. Negative edges count as zero and
/// a negative extent as none.
pub open spec fn block_overlaps(b: TextBlock, x0: int, y0: int, w: int, h: int) -> bool {
    let bx0 = max(b.x as int, 0);
    let by0 = max(b.y as int, 0);
    let bx1 = max(b.x + b.width, bx0);
    let by1 = max(b.y + b.height, by0);
    bx0 < (x0 + w) * MILLI && by0 < (y0 + h) * MILLI && bx1 > x0 * MILLI && by1 > y0 * MILLI
}

pub open spec fn overlaps_any(blocks: Seq<TextBlock>, x0: int, y0: int, w: int, h: int) -> bool {
    exists|i: int| 0 <= i < blocks.len() && block_overlaps(#[trigger] blocks[i], x0, y0, w, h)
}

/// The rectangle a partial re-inpaint works on: `None` for a degenerate request or one with
/// nothing left after clamping.
pub open spec fn partial_rect(d: Document, region: InpaintRegion) -> Option<(u32, u32, u32, u32)> {
    if region.width == 0 || region.height == 0 {
        None
    } else {
        clamp_spec(region, d.width, d.height)
    }
}

/// The rectangle a partial re-inpaint has work in: `None` where the request is degenerate,
/// nothing is left of it after clamping, or it meets no text block.
pub open spec fn partial_work(d: Document, region: InpaintRegion) -> Option<(u32, u32, u32, u32)> {
    match partial_rect(d, region) {
        None => None,
        Some((x0, y0, w, h)) => if overlaps_any(d.text_blocks@, x0 as int, y0 as int, w as int, h as int) {
            Some((x0, y0, w, h))
        } else {
            None
        },
    }
}

/// `r` is what planning a partial re-inpaint of `region` in `d` gives: nothing to do, the
/// missing mask, or the crops of the image and the mask to the rectangle with work in it.
pub open spec fn plan_matches(d: Document, region: InpaintRegion, r: Result<Option<PartialInpaint>, Error>) -> bool {
    match partial_work(d, region) {
        None => r matches Ok(None),
        Some((x0, y0, w, h)) => match d.segment {
            None => r == Err::<Option<PartialInpaint>, Error>(Error::NotFound(Missing::Segment)),
            Some(seg) => r matches Ok(Some(p)) && p.x == x0 && p.y == y0 && p.width == w && p.height == h
                && p.image.wf() && p.mask.wf() && p.image@ == cropped(d.image@, x0 as int, y0 as int, w as nat, h as nat)
                && p.mask@ == cropped(seg@, x0 as int, y0 as int, w as nat, h as nat),
        },
    }
}

/// What a partial re-inpaint starts from: the inpainted page, or the original before there is one.
pub open spec fn inpaint_base(d: Document) -> RasterView {
    match d.inpainted {
        Some(p) => p@,
        None => d.image@,
    }
}

/// The inpainted page after stitching `crop` into the rectangle: inside it, masked pixels come
/// from `crop` and the others from the original image; outside it nothing changes.
pub open spec fn stitched(d: Document, seg: RasterView, x0: int, y0: int, w: nat, h: nat, crop: RasterView) -> RasterView {
    patched(
        inpaint_base(d),
        selected(crop, cropped(d.image@, x0, y0, w, h), cropped(seg, x0, y0, w, h)),
        x0,
        y0,
        w as int,
        h as int,
    )
}

/// What stitching an inpainted crop into `d` gives: an error, nothing, or the new inpainted page.
pub open spec fn stitch_outcome(d: Document, region: InpaintRegion, crop: RasterView) -> Result<Option<RasterView>, Error> {
    match partial_work(d, region) {
        None => Ok(None),
        Some((x0, y0, w, h)) => match d.segment {
            None => Err(Error::NotFound(Missing::Segment)),
            Some(seg) => if crop.width != w || crop.height != h {
                Err(size_mismatch(w, h, crop))
            } else {
                Ok(Some(stitched(d, seg@, x0 as int, y0 as int, w as nat, h as nat, crop)))
            },
        },
    }
}

/// `after` is `before` with the inpainted page replaced as `outcome` says, and `r` reports it.
pub open spec fn inpainted_applied(
    before: Document,
    after: Document,
    r: Result<(), Error>,
    outcome: Result<Option<RasterView>, Error>,
) -> bool {
    match outcome {
        Err(e) => r == Err::<(), Error>(e) && after == before,
        Ok(None) => r is Ok && after == before,
        Ok(Some(v)) => {
            &&& r is Ok
            &&& after.inpainted matches Some(p) && p@ == v
            &&& after == Document { inpainted: after.inpainted, ..before }
        },
    }
}

/// The part of a page that a partial re-inpaint hands to the inpainting capability.
#[derive(Debug)]
pub struct PartialInpaint {
    pub x: u32,
    pub y: u32,
    pub width: u32,
    pub height: u32,
    /// The original image inside the rectangle.
    pub image: Raster,
    /// The mask inside the rectangle.
    pub mask: Raster,
}

/// A float-to-`u32` cast of a length in thousandths of a pixel: the whole pixels, with negative
/// values at zero and large ones at `u32::MAX`.
pub open spec fn whole_pixels(v: int) -> int {
    if v <= 0 {
        0
    } else if v / (MILLI as int) > u32::MAX {
        u32::MAX as int
    } else {
        v / (MILLI as int)
    }
}

/// Pixel `(x, y)` lies in the block's box, its edges cut to whole pixels.
pub open spec fn block_contains(b: TextBlock, x: int, y: int) -> bool {
    &&& whole_pixels(b.x as int) <= x < whole_pixels(b.x + b.width)
    &&& whole_pixels(b.y as int) <= y < whole_pixels(b.y + b.height)
}

pub open spec fn inside_any_block(blocks: Seq<TextBlock>, x: int, y: int) -> bool {
    exists|i: int| 0 <= i < blocks.len() && block_contains(#[trigger] blocks[i], x, y)
}

/// The mask for a full inpaint: a marked pixel (one that is not opaque black) outside every
/// block is cleared to opaque black; the rest are kept.
pub open spec fn refined_mask(seg: RasterView, blocks: Seq<TextBlock>) -> RasterView {
    RasterView {
        pixels: Seq::new(
            seg.pixels.len(),
            |i: int|
                if seg.pixels[i] != (Rgba { r: 0, g: 0, b: 0, a: 255 }) && !inside_any_block(
                    blocks,
                    seg.col(i),
                    seg.row(i),
                ) {
                    Rgba { r: 0, g: 0, b: 0, a: 255 }
                } else {
                    seg.pixels[i]
                },
        ),
        ..seg
    }
}

fn whole_pixels_of(v: i128) -> (r: u32)
    ensures
        r == whole_pixels(v as int),
{
    if v <= 0 {
        0
    } else if v / 1000 > 0xFFFF_FFFF {
        0xFFFF_FFFF
    } else {
        (v / 1000) as u32
    }
}

fn block_overlaps_rect(b: &TextBlock, x0: u32, y0: u32, w: u32, h: u32) -> (r: bool)
    ensures
        r == block_overlaps(*b, x0 as int, y0 as int, w as int, h as int),
{
    let bx0: i128 = if b.x >= 0 { b.x as i128 } else { 0 };
    let by0: i128 = if b.y >= 0 { b.y as i128 } else { 0 };
    let ex: i128 = b.x as i128 + b.width as i128;
    let ey: i128 = b.y as i128 + b.height as i128;
    let bx1: i128 = if ex >= bx0 { ex } else { bx0 };
    let by1: i128 = if ey >= by0 { ey } else { by0 };
    bx0 < (x0 as i128 + w as i128) * 1000 && by0 < (y0 as i128 + h as i128) * 1000 && bx1 > x0 as i128
        * 1000 && by1 > y0 as i128 * 1000
}

fn any_block_overlaps(blocks: &Vec<TextBlock>, x0: u32, y0: u32, w: u32, h: u32) -> (r: bool)
    ensures
        r == overlaps_any(blocks@, x0 as int, y0 as int, w as int, h as int),
{
    let mut i: usize = 0;
    while i < blocks.len()
        invariant
            i <= blocks@.len(),
            forall|j: int| 0 <= j < i ==> !block_overlaps(#[trigger] blocks@[j], x0 as int, y0 as int, w as int, h as int),
        decreases blocks@.len() - i,
    {
        if block_overlaps_rect(&blocks[i], x0, y0, w, h) {
            return true;
        }
        i = i + 1;
    }
    false
}

fn block_contains_pixel(b: &TextBlock, x: u32, y: u32) -> (r: bool)
    ensures
        r == block_contains(*b, x as int, y as int),
{
    x >= whole_pixels_of(b.x as i128) && x < whole_pixels_of(b.x as i128 + b.width as i128) && y
        >= whole_pixels_of(b.y as i128) && y < whole_pixels_of(b.y as i128 + b.height as i128)
}

fn inside_any(blocks: &Vec<TextBlock>, x: u32, y: u32) -> (r: bool)
    ensures
        r == inside_any_block(blocks@, x as int, y as int),
{
    let mut i: usize = 0;
    while i < blocks.len()
        invariant
            i <= blocks@.len(),
            forall|j: int| 0 <= j < i ==> !block_contains(#[trigger] blocks@[j], x as int, y as int),
        decreases blocks@.len() - i,
    {
        if block_contains_pixel(&blocks[i], x, y) {
            return true;
        }
        i = i + 1;
    }
    false
}

impl Document {
    /// Decides whether a partial re-inpaint of `region` has work to do and, where it has,
    /// crops the image and the mask to the clamped region for the inpainting capability.
    /// A degenerate region, one with nothing left after clamping, and one that meets no text
    /// block give `Ok(None)`: nothing is to be inpainted, and the mask is not needed. Only
    /// where there is work does a missing mask fail.
    pub fn plan_partial_inpaint(&self, region: InpaintRegion) -> (r: Result<Option<PartialInpaint>, Error>)
        requires
            self.wf(),
        ensures
            plan_matches(*self, region, r),
    {
        if region.width == 0 || region.height == 0 {
            return Ok(None);
        }
        let (x0, y0, w, h) = match clamp_region(&region, self.width, self.height) {
            Some(rect) => rect,
            None => return Ok(None),
        };
        if !any_block_overlaps(&self.text_blocks, x0, y0, w, h) {
            return Ok(None);
        }
        let seg = match &self.segment {
            Some(s) => s,
            None => return Err(Error::NotFound(Missing::Segment)),
        };
        let image = self.image.crop(x0, y0, w, h);
        let mask = seg.crop(x0, y0, w, h);
        Ok(Some(PartialInpaint { x: x0, y: y0, width: w, height: h, image, mask }))
    }

    /// Stitches what the inpainting capability returned for the clamped `region` into the
    /// inpainted page (or into a copy of the original where there is none yet). Inside the
    /// region a masked pixel comes from `inpainted_crop` and any other from the original image,
    /// never from an earlier inpainting; outside it no pixel changes. A request with no work
    /// in it (see [`partial_work`]) is a no-op whether or not there is a mask.
    pub fn stitch_partial_inpaint(&mut self, region: InpaintRegion, inpainted_crop: &Raster) -> (r: Result<(), Error>)
        requires
            old(self).wf(),
            inpainted_crop.wf(),
        ensures
            final(self).wf(),
            inpainted_applied(*old(self), *final(self), r, stitch_outcome(*old(self), region, inpainted_crop@)),
    {
        if region.width == 0 || region.height == 0 {
            return Ok(());
        }
        let (x0, y0, w, h) = match clamp_region(&region, self.width, self.height) {
            Some(rect) => rect,
            None => return Ok(()),
        };
        if !any_block_overlaps(&self.text_blocks, x0, y0, w, h) {
            return Ok(());
        }
        if self.segment.is_none() {
            return Err(Error::NotFound(Missing::Segment));
        }
        if inpainted_crop.width() != w || inpainted_crop.height() != h {
            return Err(
                Error::SizeMismatch {
                    expected_width: w,
                    expected_height: h,
                    width: inpainted_crop.width(),
                    height: inpainted_crop.height(),
                },
            );
        }
        let patch = match &self.segment {
            Some(seg) => {
                let original = self.image.crop(x0, y0, w, h);
                let mask = seg.crop(x0, y0, w, h);
                Raster::select_masked(&mask, inpainted_crop, &original)
            },
            None => return Err(Error::NotFound(Missing::Segment)),
        };
        let mut canvas = match self.inpainted.take() {
            Some(p) => p,
            None => self.image.duplicate(),
        };
        canvas.copy_from(&patch, x0, y0, w, h);
        self.inpainted = Some(canvas);
        Ok(())
    }

    /// The mask handed to a full inpaint: the current mask with every marked pixel outside all
    /// text blocks cleared to opaque black.
    pub fn inpaint_mask(&self) -> (r: Result<Raster, Error>)
        requires
            self.wf(),
        ensures
            self.segment is None ==> r == Err::<Raster, Error>(Error::NotFound(Missing::Segment)),
            self.segment matches Some(seg) ==> r matches Ok(m) && m.wf() && m@ == refined_mask(
                seg@,
                self.text_blocks@,
            ),
    {
        let seg = match &self.segment {
            Some(s) => s,
            None => return Err(Error::NotFound(Missing::Segment)),
        };
        let ghost target = refined_mask(seg@, self.text_blocks@);
        let width = seg.width();
        let height = seg.height();
        let n = seg.pixel_count();
        let mut mask = seg.duplicate();
        let black = Rgba::opaque_black();
        let mut i: usize = 0;
        let mut x: u32 = 0;
        let mut y: u32 = 0;
        proof {
            if n > 0 {
                assert(width > 0 && height > 0) by (nonlinear_arith)
                    requires
                        n == width * height,
                        n > 0,
                ;
            }
        }
        while i < n
            invariant
                seg.wf(),
                n == seg@.pixels.len(),
                width == seg@.width,
                height == seg@.height,
                target == refined_mask(seg@, self.text_blocks@),
                black == (Rgba { r: 0, g: 0, b: 0, a: 255 }),
                mask@.width == seg@.width,
                mask@.height == seg@.height,
                mask@.pixels.len() == n,
                i <= n,
                i < n ==> x < width && y < height && i == y * width + x,
                forall|j: int| 0 <= j < i ==> #[trigger] mask@.pixels[j] == target.pixels[j],
                forall|j: int| i <= j < n ==> #[trigger] mask@.pixels[j] == seg@.pixels[j],
            decreases n - i,
        {
            proof {
                lemma_index(width as int, height as int, x as int, y as int);
                assert(seg@.col(i as int) == x && seg@.row(i as int) == y);
            }
            let p = mask.get_index(i);
            let is_black = p.r == 0 && p.g == 0 && p.b == 0 && p.a == 255;
            if !is_black && !inside_any(&self.text_blocks, x, y) {
                mask.put_index(i, black);
            }
            proof {
                if is_black {
                    assert(p == (Rgba { r: 0, g: 0, b: 0, a: 255 }));
                }
            }
            i = i + 1;
            if x + 1 < width {
                x = x + 1;
            } else {
                proof {
                    if i < n {
                        assert((y + 1) * width == y * width + width) by (nonlinear_arith);
                        assert(y + 1 < height) by (nonlinear_arith)
                            requires
                                i == y * width + width,
                                i < n,
                                n == width * height,
                        ;
                    }
                }
                x = 0;
                y = y + 1;
            }
        }
        assert(mask@.pixels =~= target.pixels);
        Ok(mask)
    }

    /// Stores the page that a full inpaint returned; it must have the page's size.
    pub fn set_inpainted(&mut self, inpainted: Raster) -> (r: Result<(), Error>)
        requires
            old(self).wf(),
            inpainted.wf(),
        ensures
            final(self).wf(),
            inpainted_applied(
                *old(self),
                *final(self),
                r,
                if inpainted@.width != old(self).width || inpainted@.height != old(self).height {
                    Err(size_mismatch(old(self).width, old(self).height, inpainted@))
                } else {
                    Ok(Some(inpainted@))
                },
            ),
    {
        if inpainted.width() != self.width || inpainted.height() != self.height {
            return Err(
                Error::SizeMismatch {
                    expected_width: self.width,
                    expected_height: self.height,
                    width: inpainted.width(),
                    height: inpainted.height(),
                },
            );
        }
        self.inpainted = Some(inpainted);
        Ok(())
    }
}

/// Writing one patch twice over the same rectangle gives what writing it once gives.
pub proof fn lemma_patched_twice(canvas: RasterView, patch: RasterView, x0: int, y0: int, w: int, h: int)
    ensures
        patched(patched(canvas, patch, x0, y0, w, h), patch, x0, y0, w, h) == patched(canvas, patch, x0, y0, w, h),
{
    assert(patched(patched(canvas, patch, x0, y0, w, h), patch, x0, y0, w, h).pixels =~= patched(
        canvas,
        patch,
        x0,
        y0,
        w,
        h,
    ).pixels);
}

/// A partial re-inpaint is idempotent: stitching the same inpainted crop into the same region
/// a second time, with nothing changed in between, leaves the inpainted page as the first
/// stitch left it, because pixels outside the mask come from the original image and never from
/// an earlier inpainting.
pub proof fn lemma_inpaint_partial_idempotent(d: Document, once: Document, region: InpaintRegion, crop: RasterView)
    requires
        d.wf(),
        stitch_outcome(d, region, crop) is Ok,
        inpainted_applied(d, once, Ok(()), stitch_outcome(d, region, crop)),
    ensures
        stitch_outcome(once, region, crop) == stitch_outcome(d, region, crop),
{
    match stitch_outcome(d, region, crop) {
        Ok(Some(v)) => {
            let seg = d.segment->Some_0;
            let (x0, y0, w, h) = partial_work(d, region)->Some_0;
            let sel = selected(
                crop,
                cropped(d.image@, x0 as int, y0 as int, w as nat, h as nat),
                cropped(seg@, x0 as int, y0 as int, w as nat, h as nat),
            );
            lemma_patched_twice(inpaint_base(d), sel, x0 as int, y0 as int, w as int, h as int);
            assert(inpaint_base(once) == v);
        },
        _ => {},
    }
}

/// Pixel by pixel, what a partial re-inpaint leaves: inside the rectangle, a pixel the mask
/// marks comes from the inpainted crop and any other from the original image, whatever the
/// inpainted page held before; outside it, the pixel the page had.
pub proof fn lemma_stitched_pixel(d: Document, region: InpaintRegion, crop: RasterView, x: int, y: int)
    requires
        d.wf(),
        stitch_outcome(d, region, crop) is Ok,
        partial_work(d, region) is Some,
        d.image@.in_bounds(x, y),
    ensures
        ({
            let (x0, y0, w, h) = partial_work(d, region)->Some_0;
            let seg = d.segment->Some_0@;
            let v = stitch_outcome(d, region, crop)->Ok_0->Some_0;
            v.at(x, y) == if in_rect(x, y, x0 as int, y0 as int, w as int, h as int) {
                if is_masked(seg.at(x, y)) {
                    crop.at(x - x0, y - y0)
                } else {
                    d.image@.at(x, y)
                }
            } else {
                inpaint_base(d).at(x, y)
            }
        }),
{
    let (x0, y0, w, h) = partial_work(d, region)->Some_0;
    let seg = d.segment->Some_0@;
    let width = d.width as int;
    let height = d.height as int;
    assert(inpaint_base(d).wf() && inpaint_base(d).width == width && inpaint_base(d).height == height);
    lemma_index(width, height, x, y);
    if in_rect(x, y, x0 as int, y0 as int, w as int, h as int) {
        lemma_index(w as int, h as int, x - x0, y - y0);
        let i = (y - y0) * w + (x - x0);
        assert(cropped(seg, x0 as int, y0 as int, w as nat, h as nat).pixels[i] == seg.at(x, y));
        assert(cropped(d.image@, x0 as int, y0 as int, w as nat, h as nat).pixels[i] == d.image@.at(x, y));
    }
}

/// Decides what a partial re-inpaint of `region` in document `index` has to do: `Ok(None)`
/// where it is a no-op, so that the inpainting capability is not called, or the crops to hand
/// to it (see [`Document::plan_partial_inpaint`]).
pub fn inpaint_partial(state: &State, index: usize, region: InpaintRegion) -> (r: Result<Option<PartialInpaint>, Error>)
    requires
        state.wf(),
    ensures
        index >= state.documents@.len() ==> r == Err::<Option<PartialInpaint>, Error>(
            Error::NotFound(Missing::Document),
        ),
        index < state.documents@.len() ==> plan_matches(state.documents@[index as int], region, r),
{
    if index >= state.documents.len() {
        return Err(Error::NotFound(Missing::Document));
    }
    state.documents[index].plan_partial_inpaint(region)
}

/// Stitches the inpainting capability's result for `region` into document `index` (see
/// [`Document::stitch_partial_inpaint`]).
pub fn complete_inpaint_partial(state: &mut State, index: usize, region: InpaintRegion, inpainted_crop: &Raster) -> (r:
    Result<(), Error>)
    requires
        old(state).wf(),
        inpainted_crop.wf(),
    ensures
        final(state).wf(),
        index >= old(state).documents@.len() ==> r == Err::<(), Error>(Error::NotFound(Missing::Document))
            && final(state).documents@ == old(state).documents@,
        index < old(state).documents@.len() ==> {
            &&& final(state).documents@ == old(state).documents@.update(index as int, final(state).documents@[index as int])
            &&& inpainted_applied(
                old(state).documents@[index as int],
                final(state).documents@[index as int],
                r,
                stitch_outcome(old(state).documents@[index as int], region, inpainted_crop@),
            )
        },
{
    if index >= state.documents.len() {
        return Err(Error::NotFound(Missing::Document));
    }
    let doc = &mut state.documents[index];
    doc.stitch_partial_inpaint(region, inpainted_crop)
}

/// The mask to hand to the inpainting capability for a full inpaint of document `index` (see
/// [`Document::inpaint_mask`]).
pub fn inpaint(state: &State, index: usize) -> (r: Result<Raster, Error>)
    requires
        state.wf(),
    ensures
        index >= state.documents@.len() ==> r == Err::<Raster, Error>(Error::NotFound(Missing::Document)),
        index < state.documents@.len() ==> {
            let d = state.documents@[index as int];
            &&& d.segment is None ==> r == Err::<Raster, Error>(Error::NotFound(Missing::Segment))
            &&& d.segment matches Some(seg) ==> r matches Ok(m) && m.wf() && m@ == refined_mask(seg@, d.text_blocks@)
        },
{
    if index >= state.documents.len() {
        return Err(Error::NotFound(Missing::Document));
    }
    state.documents[index].inpaint_mask()
}

/// Stores the result of a full inpaint in document `index`.
pub fn complete_inpaint(state: &mut State, index: usize, inpainted: Raster) -> (r: Result<(), Error>)
    requires
        old(state).wf(),
        inpainted.wf(),
    ensures
        final(state).wf(),
        index >= old(state).documents@.len() ==> r == Err::<(), Error>(Error::NotFound(Missing::Document))
            && final(state).documents@ == old(state).documents@,
        index < old(state).documents@.len() ==> {
            let d = old(state).documents@[index as int];
            &&& final(state).documents@ == old(state).documents@.update(index as int, final(state).documents@[index as int])
            &&& inpainted_applied(
                d,
                final(state).documents@[index as int],
                r,
                if inpainted@.width != d.width || inpainted@.height != d.height {
                    Err(size_mismatch(d.width, d.height, inpainted@))
                } else {
                    Ok(Some(inpainted@))
                },
            )
        },
{
    if index >= state.documents.len() {
        return Err(Error::NotFound(Missing::Document));
    }
    let doc = &mut state.documents[index];
    doc.set_inpainted(inpainted)
}

} // verus!
