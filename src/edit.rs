//! Mask and brush edits: patches written into a sub-rectangle of a layer.
use vstd::prelude::*;

use crate::document::{Document, Error, Missing, State};
use crate::raster::{
    cropped, decode_image, decoded_image, lemma_index, lemma_position, patched, uniform, Raster, RasterView, Rgba,
};
use crate::region::{clamp_region, clamp_spec, InpaintRegion};

verus! {

pub open spec fn size_mismatch(expected_width: u32, expected_height: u32, patch: RasterView) -> Error {
    Error::SizeMismatch {
        expected_width,
        expected_height,
        width: patch.width as u32,
        height: patch.height as u32,
    }
}

/// The mask that a region patch is written into: the current one, or an opaque black page.
pub open spec fn mask_canvas(d: Document) -> RasterView {
    match d.segment {
        Some(s) => s@,
        None => uniform(d.width as nat, d.height as nat, Rgba { r: 0, g: 0, b: 0, a: 255 }),
    }
}

/// The overlay that a brush patch is written into: the current one, or a transparent page.
pub open spec fn brush_canvas(d: Document) -> RasterView {
    match d.brush_layer {
        Some(b) => b@,
        None => uniform(d.width as nat, d.height as nat, Rgba { r: 0, g: 0, b: 0, a: 0 }),
    }
}

/// What a mask edit with a decoded `patch` does to `d`: an error, nothing (`Ok(None)`), or the
/// new mask.
pub open spec fn mask_patch_outcome(d: Document, patch: RasterView, region: Option<InpaintRegion>) -> Result<
    Option<RasterView>,
    Error,
> {
    match region {
        None => if patch.width != d.width || patch.height != d.height {
            Err(size_mismatch(d.width, d.height, patch))
        } else {
            Ok(Some(patch))
        },
        Some(r) => if patch.width != r.width || patch.height != r.height {
            Err(size_mismatch(r.width, r.height, patch))
        } else {
            match clamp_spec(r, d.width, d.height) {
                None => Ok(None),
                Some((x0, y0, w, h)) => Ok(Some(patched(mask_canvas(d), patch, x0 as int, y0 as int, w as int, h as int))),
            }
        },
    }
}

/// What a brush edit with a decoded `patch` does to `d`. The size is checked against the
/// region as requested, not as clamped.
pub open spec fn brush_patch_outcome(d: Document, patch: RasterView, region: InpaintRegion) -> Result<
    Option<RasterView>,
    Error,
> {
    match clamp_spec(region, d.width, d.height) {
        None => Ok(None),
        Some((x0, y0, w, h)) => if patch.width != region.width || patch.height != region.height {
            Err(size_mismatch(region.width, region.height, patch))
        } else {
            Ok(Some(patched(brush_canvas(d), patch, x0 as int, y0 as int, w as int, h as int)))
        },
    }
}

/// A mask edit from encoded bytes: they are decoded first.
pub open spec fn mask_update_outcome(d: Document, bytes: Seq<u8>, region: Option<InpaintRegion>) -> Result<
    Option<RasterView>,
    Error,
> {
    match decoded_image(bytes) {
        None => Err(Error::DecodeFailure),
        Some(p) => mask_patch_outcome(d, p, region),
    }
}

/// A brush edit from encoded bytes: a region with nothing left after clamping is a no-op
/// whatever the bytes hold.
pub open spec fn brush_update_outcome(d: Document, bytes: Seq<u8>, region: InpaintRegion) -> Result<
    Option<RasterView>,
    Error,
> {
    if clamp_spec(region, d.width, d.height) is None {
        Ok(None)
    } else {
        match decoded_image(bytes) {
            None => Err(Error::DecodeFailure),
            Some(p) => brush_patch_outcome(d, p, region),
        }
    }
}

/// `after` is `before` with the mask replaced as `outcome` says, and `r` reports it.
pub open spec fn mask_applied(
    before: Document,
    after: Document,
    r: Result<(), Error>,
    outcome: Result<Option<RasterView>, Error>,
) -> bool {
    match outcome {
        Err(e) => r == Err::<(), Error>(e) && after == before,
        Ok(None) => r is Ok && after == before,
        Ok(Some(v)) => {
            &&& r is Ok
            &&& after.segment matches Some(s) && s@ == v
            &&& after == Document { segment: after.segment, ..before }
        },
    }
}

pub open spec fn brush_applied(
    before: Document,
    after: Document,
    r: Result<(), Error>,
    outcome: Result<Option<RasterView>, Error>,
) -> bool {
    match outcome {
        Err(e) => r == Err::<(), Error>(e) && after == before,
        Ok(None) => r is Ok && after == before,
        Ok(Some(v)) => {
            &&& r is Ok
            &&& after.brush_layer matches Some(b) && b@ == v
            &&& after == Document { brush_layer: after.brush_layer, ..before }
        },
    }
}

fn mismatch(expected_width: u32, expected_height: u32, patch: &Raster) -> (e: Error)
    ensures
        e == size_mismatch(expected_width, expected_height, patch@),
{
    Error::SizeMismatch { expected_width, expected_height, width: patch.width(), height: patch.height() }
}

impl Document {
    /// Writes a decoded mask patch. Without a region the patch must cover the whole page and
    /// replaces the mask; with one it must have the region's size and is written into the
    /// clamped region of the current mask (or of an opaque black page where there is none).
    pub fn apply_mask_patch(&mut self, patch: Raster, region: Option<InpaintRegion>) -> (r: Result<(), Error>)
        requires
            old(self).wf(),
            patch.wf(),
        ensures
            final(self).wf(),
            mask_applied(*old(self), *final(self), r, mask_patch_outcome(*old(self), patch@, region)),
    {
        match region {
            None => {
                if patch.width() != self.width || patch.height() != self.height {
                    return Err(mismatch(self.width, self.height, &patch));
                }
                self.segment = Some(patch);
                Ok(())
            },
            Some(reg) => {
                if patch.width() != reg.width || patch.height() != reg.height {
                    return Err(mismatch(reg.width, reg.height, &patch));
                }
                match clamp_region(&reg, self.width, self.height) {
                    None => Ok(()),
                    Some((x0, y0, w, h)) => {
                        // The page's pixel count fits in a `usize`, so a blank page can be allocated.
                        let _page_pixels = self.image.pixel_count();
                        let mut canvas = match self.segment.take() {
                            Some(s) => s,
                            None => Raster::filled(self.width, self.height, Rgba::opaque_black()),
                        };
                        canvas.copy_from(&patch, x0, y0, w, h);
                        self.segment = Some(canvas);
                        Ok(())
                    },
                }
            },
        }
    }

    /// Writes a decoded brush patch into the clamped region of the brush overlay (or of a
    /// transparent page where there is none). A region with nothing left after clamping is a
    /// no-op.
    pub fn apply_brush_patch(&mut self, patch: Raster, region: InpaintRegion) -> (r: Result<(), Error>)
        requires
            old(self).wf(),
            patch.wf(),
        ensures
            final(self).wf(),
            brush_applied(*old(self), *final(self), r, brush_patch_outcome(*old(self), patch@, region)),
    {
        match clamp_region(&region, self.width, self.height) {
            None => Ok(()),
            Some((x0, y0, w, h)) => {
                if patch.width() != region.width || patch.height() != region.height {
                    return Err(mismatch(region.width, region.height, &patch));
                }
                // The page's pixel count fits in a `usize`, so a blank page can be allocated.
                let _page_pixels = self.image.pixel_count();
                let mut canvas = match self.brush_layer.take() {
                    Some(b) => b,
                    None => Raster::filled(self.width, self.height, Rgba::transparent()),
                };
                canvas.copy_from(&patch, x0, y0, w, h);
                self.brush_layer = Some(canvas);
                Ok(())
            },
        }
    }
}

/// Updates the mask of document `index` from encoded image bytes (see
/// [`Document::apply_mask_patch`]).
pub fn update_inpaint_mask(state: &mut State, index: usize, mask: &[u8], region: Option<InpaintRegion>) -> (r:
    Result<(), Error>)
    requires
        old(state).wf(),
    ensures
        final(state).wf(),
        index >= old(state).documents@.len() ==> r == Err::<(), Error>(Error::NotFound(Missing::Document))
            && final(state).documents@ == old(state).documents@,
        index < old(state).documents@.len() ==> {
            &&& final(state).documents@ == old(state).documents@.update(index as int, final(state).documents@[index as int])
            &&& mask_applied(
                old(state).documents@[index as int],
                final(state).documents@[index as int],
                r,
                mask_update_outcome(old(state).documents@[index as int], mask@, region),
            )
        },
{
    if index >= state.documents.len() {
        return Err(Error::NotFound(Missing::Document));
    }
    let patch = match decode_image(mask) {
        Ok(p) => p,
        Err(_) => return Err(Error::DecodeFailure),
    };
    let doc = &mut state.documents[index];
    doc.apply_mask_patch(patch, region)
}

/// Paints a brush patch, given as encoded image bytes, into document `index` (see
/// [`Document::apply_brush_patch`]).
pub fn update_brush_layer(state: &mut State, index: usize, patch: &[u8], region: InpaintRegion) -> (r: Result<
    (),
    Error,
>)
    requires
        old(state).wf(),
    ensures
        final(state).wf(),
        index >= old(state).documents@.len() ==> r == Err::<(), Error>(Error::NotFound(Missing::Document))
            && final(state).documents@ == old(state).documents@,
        index < old(state).documents@.len() ==> {
            &&& final(state).documents@ == old(state).documents@.update(index as int, final(state).documents@[index as int])
            &&& brush_applied(
                old(state).documents@[index as int],
                final(state).documents@[index as int],
                r,
                brush_update_outcome(old(state).documents@[index as int], patch@, region),
            )
        },
{
    if index >= state.documents.len() {
        return Err(Error::NotFound(Missing::Document));
    }
    if clamp_region(&region, state.documents[index].width, state.documents[index].height).is_none() {
        return Ok(());
    }
    let decoded = match decode_image(patch) {
        Ok(p) => p,
        Err(_) => return Err(Error::DecodeFailure),
    };
    let doc = &mut state.documents[index];
    doc.apply_brush_patch(decoded, region)
}

/// Writing a mask patch into a rectangle of the page and reading that rectangle back gives
/// the patch exactly; every pixel outside the rectangle keeps the value it had before.
pub proof fn lemma_mask_patch_read_back(d: Document, patch: RasterView, region: InpaintRegion)
    requires
        d.wf(),
        patch.wf(),
        patch.width == region.width,
        patch.height == region.height,
        0 < region.width,
        0 < region.height,
        region.x + region.width <= d.width,
        region.y + region.height <= d.height,
    ensures
        mask_patch_outcome(d, patch, Some(region)) matches Ok(Some(v)) && {
            &&& cropped(v, region.x as int, region.y as int, region.width as nat, region.height as nat) == patch
            &&& forall|x: int, y: int|
                #![trigger v.at(x, y)]
                v.in_bounds(x, y) && !(region.x <= x < region.x + region.width && region.y <= y < region.y
                    + region.height) ==> v.at(x, y) == mask_canvas(d).at(x, y)
        },
{
    let canvas = mask_canvas(d);
    let (x0, y0, w, h) = (region.x as int, region.y as int, region.width as int, region.height as int);
    let v = patched(canvas, patch, x0, y0, w, h);
    let width = d.width as int;
    let height = d.height as int;
    assert(canvas.wf() && canvas.width == width && canvas.height == height);
    let back = cropped(v, x0, y0, w as nat, h as nat);
    assert forall|i: int| 0 <= i < patch.pixels.len() implies back.pixels[i] == patch.pixels[i] by {
        lemma_position(w, h, i);
        let (c, r) = (i % w, i / w);
        lemma_index(width, height, x0 + c, y0 + r);
    }
    assert(back.pixels =~= patch.pixels);
    assert forall|x: int, y: int|
        #![trigger v.at(x, y)]
        v.in_bounds(x, y) && !(x0 <= x < x0 + w && y0 <= y < y0 + h) implies v.at(x, y) == canvas.at(x, y) by {
        lemma_index(width, height, x, y);
    }
}

} // verus!
