//! Storing what detection and recognition found, and the styles implied by font predictions.
use vstd::prelude::*;

use crate::document::{
    blocks_wf, default_families, families_view, layer_wf, Document, Error, FontPrediction, Missing, State, TextBlock,
    TextStyle,
};
use crate::edit::size_mismatch;
use crate::inpaint::whole_pixels;
use crate::raster::{cropped, Raster, RasterView, Rgba};
use crate::region::min;

verus! {

/// The part of a `width × height` page that a block's crop takes: its corner and size cut to
/// whole pixels, then clipped to the page.
pub open spec fn block_crop_rect(b: TextBlock, width: u32, height: u32) -> (int, int, int, int) {
    let x = min(whole_pixels(b.x as int), width as int);
    let y = min(whole_pixels(b.y as int), height as int);
    (x, y, min(whole_pixels(b.width as int), width - x), min(whole_pixels(b.height as int), height - y))
}

/// The style filled in from a font prediction: the default font chain, the predicted size where
/// it is positive (else a fitted size), the predicted colour made opaque, no effect override.
pub open spec fn predicted_style(s: TextStyle, p: FontPrediction) -> bool {
    &&& families_view(s.font_families@) == default_families()
    &&& s.font_size == if p.font_size > 0 {
        Some(p.font_size)
    } else {
        None
    }
    &&& s.color == (Rgba { r: p.text_color.r, g: p.text_color.g, b: p.text_color.b, a: 255 })
    &&& s.effect is None
}

/// Block `after` is block `before` with the prediction and the style it implies.
pub open spec fn prediction_applied(before: TextBlock, after: TextBlock, p: FontPrediction) -> bool {
    &&& after.style matches Some(s) && predicted_style(s, p)
    &&& after == TextBlock { style: after.style, font_prediction: Some(p), ..before }
}

/// Blocks `after` are `before` with the `i`-th prediction applied to the `i`-th block, for as
/// many blocks as there are predictions.
pub open spec fn predictions_applied(before: Seq<TextBlock>, after: Seq<TextBlock>, preds: Seq<FontPrediction>) -> bool {
    &&& after.len() == before.len()
    &&& forall|i: int|
        0 <= i < before.len() ==> if i < preds.len() {
            prediction_applied(before[i], #[trigger] after[i], preds[i])
        } else {
            after[i] == before[i]
        }
}

/// `after` is `before` with new text blocks and a new mask, as detection found them.
pub open spec fn detection_stored(before: Document, after: Document, blocks: Seq<TextBlock>, segment: Raster) -> bool {
    &&& after.text_blocks@ == blocks
    &&& after.segment == Some(segment)
    &&& after == Document { text_blocks: after.text_blocks, segment: after.segment, ..before }
}

/// `crops` holds, for each block in order, the part of `image` under it.
pub open spec fn block_crops_of(crops: Seq<Raster>, image: RasterView, blocks: Seq<TextBlock>) -> bool {
    &&& crops.len() == blocks.len()
    &&& forall|i: int|
        0 <= i < crops.len() ==> (#[trigger] crops[i]).wf() && ({
            let (x, y, w, h) = block_crop_rect(blocks[i], image.width as u32, image.height as u32);
            crops[i]@ == cropped(image, x, y, w as nat, h as nat)
        })
}

/// The style that a font prediction implies.
pub fn style_from_prediction(p: &FontPrediction) -> (s: TextStyle)
    ensures
        predicted_style(s, *p),
{
    let base = TextStyle::default();
    let font_size = if p.font_size > 0 {
        Some(p.font_size)
    } else {
        None
    };
    TextStyle {
        font_families: base.font_families,
        font_size,
        color: Rgba { r: p.text_color.r, g: p.text_color.g, b: p.text_color.b, a: 255 },
        effect: None,
    }
}

fn pixels_of(v: i64) -> (r: u32)
    ensures
        r == whole_pixels(v as int),
{
    if v <= 0 {
        0
    } else if v / 1000 > 0xFFFF_FFFF {
        0xFFFF_FFFF
    } else {
        (v / 1000) as u32
    }
}

impl Document {
    /// The original image under each block, for the font classifier.
    pub fn block_crops(&self) -> (r: Vec<Raster>)
        requires
            self.wf(),
        ensures
            block_crops_of(r@, self.image@, self.text_blocks@),
    {
        let mut crops: Vec<Raster> = Vec::new();
        let mut i: usize = 0;
        while i < self.text_blocks.len()
            invariant
                self.wf(),
                i <= self.text_blocks@.len(),
                crops@.len() == i,
                forall|j: int|
                    0 <= j < i ==> (#[trigger] crops@[j]).wf() && ({
                        let (x, y, w, h) = block_crop_rect(self.text_blocks@[j], self.width, self.height);
                        crops@[j]@ == cropped(self.image@, x, y, w as nat, h as nat)
                    }),
            decreases self.text_blocks@.len() - i,
        {
            let b = &self.text_blocks[i];
            let bx = pixels_of(b.x);
            let by = pixels_of(b.y);
            let x = if bx < self.width {
                bx
            } else {
                self.width
            };
            let y = if by < self.height {
                by
            } else {
                self.height
            };
            let bw = pixels_of(b.width);
            let bh = pixels_of(b.height);
            let w = if bw < self.width - x {
                bw
            } else {
                self.width - x
            };
            let h = if bh < self.height - y {
                bh
            } else {
                self.height - y
            };
            crops.push(self.image.crop(x, y, w, h));
            i = i + 1;
        }
        crops
    }

    /// Replaces the text blocks and the mask with what detection found. The mask must have
    /// the page's size.
    pub fn set_detection(&mut self, blocks: Vec<TextBlock>, segment: Raster) -> (r: Result<(), Error>)
        requires
            old(self).wf(),
            segment.wf(),
            blocks_wf(blocks@),
        ensures
            final(self).wf(),
            segment@.width != old(self).width || segment@.height != old(self).height ==> r == Err::<(), Error>(
                size_mismatch(old(self).width, old(self).height, segment@),
            ) && *final(self) == *old(self),
            segment@.width == old(self).width && segment@.height == old(self).height ==> r is Ok
                && detection_stored(*old(self), *final(self), blocks@, segment),
    {
        if segment.width() != self.width || segment.height() != self.height {
            return Err(
                Error::SizeMismatch {
                    expected_width: self.width,
                    expected_height: self.height,
                    width: segment.width(),
                    height: segment.height(),
                },
            );
        }
        self.text_blocks = blocks;
        self.segment = Some(segment);
        Ok(())
    }

    /// Gives the `i`-th block the `i`-th font prediction and the style it implies; blocks
    /// without a prediction are left as they are.
    pub fn apply_font_predictions(&mut self, predictions: &[FontPrediction])
        requires
            old(self).wf(),
        ensures
            final(self).wf(),
            predictions_applied(old(self).text_blocks@, final(self).text_blocks@, predictions@),
            *final(self) == (Document { text_blocks: final(self).text_blocks, ..*old(self) }),
    {
        let ghost start = *self;
        let mut i: usize = 0;
        while i < self.text_blocks.len() && i < predictions.len()
            invariant
                self.wf(),
                i <= self.text_blocks@.len(),
                self.text_blocks@.len() == start.text_blocks@.len(),
                *self == (Document { text_blocks: self.text_blocks, ..start }),
                forall|j: int|
                    0 <= j < self.text_blocks@.len() ==> if j < i && j < predictions@.len() {
                        prediction_applied(start.text_blocks@[j], #[trigger] self.text_blocks@[j], predictions@[j])
                    } else {
                        self.text_blocks@[j] == start.text_blocks@[j]
                    },
            decreases self.text_blocks@.len() - i,
        {
            let p = predictions[i];
            let style = style_from_prediction(&p);
            let ghost blocks = self.text_blocks@;
            let block = &mut self.text_blocks[i];
            block.font_prediction = Some(p);
            block.style = Some(style);
            proof {
                assert forall|j: int| 0 <= j < self.text_blocks@.len() implies layer_wf(
                    #[trigger] self.text_blocks@[j].rendered,
                ) by {
                    if j != i {
                        assert(self.text_blocks@[j] == blocks[j]);
                    }
                }
            }
            i = i + 1;
        }
    }
}

/// Stores the blocks and the mask that dialog detection found in document `index`, and gives
/// back the crops of the original image under each block for the font classifier.
pub fn detect(state: &mut State, index: usize, blocks: Vec<TextBlock>, segment: Raster) -> (r: Result<Vec<Raster>, Error>)
    requires
        old(state).wf(),
        segment.wf(),
        blocks_wf(blocks@),
    ensures
        final(state).wf(),
        index >= old(state).documents@.len() ==> r == Err::<Vec<Raster>, Error>(Error::NotFound(Missing::Document))
            && final(state).documents@ == old(state).documents@,
        index < old(state).documents@.len() ==> {
            let d = old(state).documents@[index as int];
            let e = final(state).documents@[index as int];
            &&& final(state).documents@ == old(state).documents@.update(index as int, e)
            &&& segment@.width != d.width || segment@.height != d.height ==> r == Err::<Vec<Raster>, Error>(
                size_mismatch(d.width, d.height, segment@),
            ) && e == d
            &&& segment@.width == d.width && segment@.height == d.height ==> detection_stored(d, e, blocks@, segment)
                && (r matches Ok(crops) && block_crops_of(crops@, d.image@, blocks@))
        },
{
    if index >= state.documents.len() {
        return Err(Error::NotFound(Missing::Document));
    }
    let doc = &mut state.documents[index];
    match doc.set_detection(blocks, segment) {
        Ok(()) => Ok(doc.block_crops()),
        Err(e) => Err(e),
    }
}

/// Gives the blocks of document `index` the font predictions, in order (see
/// [`Document::apply_font_predictions`]).
pub fn apply_font_predictions(state: &mut State, index: usize, predictions: &[FontPrediction]) -> (r: Result<(), Error>)
    requires
        old(state).wf(),
    ensures
        final(state).wf(),
        index >= old(state).documents@.len() ==> r == Err::<(), Error>(Error::NotFound(Missing::Document))
            && final(state).documents@ == old(state).documents@,
        index < old(state).documents@.len() ==> {
            let d = old(state).documents@[index as int];
            let e = final(state).documents@[index as int];
            &&& r is Ok
            &&& final(state).documents@ == old(state).documents@.update(index as int, e)
            &&& predictions_applied(d.text_blocks@, e.text_blocks@, predictions@)
            &&& e == (Document { text_blocks: e.text_blocks, ..d })
        },
{
    if index >= state.documents.len() {
        return Err(Error::NotFound(Missing::Document));
    }
    let doc = &mut state.documents[index];
    doc.apply_font_predictions(predictions);
    Ok(())
}

/// Replaces the text blocks of document `index`, as OCR or an edit by the user gives them.
pub fn update_text_blocks(state: &mut State, index: usize, text_blocks: Vec<TextBlock>) -> (r: Result<(), Error>)
    requires
        old(state).wf(),
        blocks_wf(text_blocks@),
    ensures
        final(state).wf(),
        index >= old(state).documents@.len() ==> r == Err::<(), Error>(Error::NotFound(Missing::Document))
            && final(state).documents@ == old(state).documents@,
        index < old(state).documents@.len() ==> {
            let d = old(state).documents@[index as int];
            let e = final(state).documents@[index as int];
            &&& r is Ok
            &&& final(state).documents@ == old(state).documents@.update(index as int, e)
            &&& e.text_blocks@ == text_blocks@
            &&& e == (Document { text_blocks: e.text_blocks, ..d })
        },
{
    if index >= state.documents.len() {
        return Err(Error::NotFound(Missing::Document));
    }
    let doc = &mut state.documents[index];
    doc.text_blocks = text_blocks;
    Ok(())
}

} // verus!
