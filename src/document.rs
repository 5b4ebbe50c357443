//! The document model: text blocks, styles, the layered page, the open document set, and
//! the errors of the operations on them.
use vstd::prelude::*;

use crate::raster::{decode_image, decoded_image, Raster, Rgba};

verus! {

/// Text-block geometry is kept in thousandths of a pixel, so that fractional positions from
/// a detector survive.
pub const MILLI: i64 = 1000;

/// Why an operation found nothing to work on.
#[derive(Clone, Copy, PartialEq, Eq, Structural, Debug)]
pub enum Missing {
    Document,
    TextBlock,
    Segment,
}

/// The ways an operation on a document fails. A failed operation leaves the document as it was.
#[derive(Clone, Debug)]
pub enum Error {
    /// An index out of range, or a layer that the operation needs and that is not there yet.
    NotFound(Missing),
    /// A patch whose dimensions are not those it was declared with.
    SizeMismatch { expected_width: u32, expected_height: u32, width: u32, height: u32 },
    /// Bytes that are no image.
    DecodeFailure,
    /// An outside capability (inference, rasterisation) reported an error; its message is kept.
    CapabilityFailure(String),
}

/// A shader effect applied when text is rasterised.
#[derive(Clone, Copy, PartialEq, Eq, Structural, Debug, Default)]
pub struct TextShaderEffect {
    pub italic: bool,
    pub bold: bool,
}

/// What the font classifier guessed for a block: the text colour and the size in
/// thousandths of a pixel.
#[derive(Clone, Copy, PartialEq, Eq, Structural, Debug)]
pub struct FontPrediction {
    pub text_color: Rgba,
    pub font_size: i64,
}

/// How one block is drawn.
#[derive(Clone, Debug)]
pub struct TextStyle {
    /// Font families in order of preference; the first that is installed wins.
    pub font_families: Vec<String>,
    /// A size in thousandths of a pixel, or `None` to fit the text to the block.
    pub font_size: Option<i64>,
    pub color: Rgba,
    /// Overrides the effect that a render call asks for.
    pub effect: Option<TextShaderEffect>,
}

/// A dialog region of the page, with its text as recognised and as translated.
#[derive(Clone, Debug, Default)]
pub struct TextBlock {
    /// Left edge, in thousandths of a pixel.
    pub x: i64,
    /// Top edge, in thousandths of a pixel.
    pub y: i64,
    /// In thousandths of a pixel.
    pub width: i64,
    /// In thousandths of a pixel.
    pub height: i64,
    /// Detector confidence in thousandths.
    pub confidence: i64,
    pub text: Option<String>,
    pub translation: Option<String>,
    pub style: Option<TextStyle>,
    pub font_prediction: Option<FontPrediction>,
    /// The text as last rasterised; valid until `translation` or `style` changes.
    pub rendered: Option<Raster>,
}

/// One page under edit. Absent layers are "not computed yet", not blank.
#[derive(Clone, Debug)]
pub struct Document {
    /// Content hash of the original bytes.
    pub id: String,
    pub path: String,
    pub name: String,
    /// The original page; never changed.
    pub image: Raster,
    pub width: u32,
    pub height: u32,
    /// In detection or insertion order; the index addresses a block in every edit.
    pub text_blocks: Vec<TextBlock>,
    /// Full-page mask: pixels that are not black mark what inpainting erases.
    pub segment: Option<Raster>,
    /// Full-page base with the masked regions filled.
    pub inpainted: Option<Raster>,
    /// The flattened output; derived, never edited by hand.
    pub rendered: Option<Raster>,
    /// Full-page RGBA overlay painted above the inpainted base.
    pub brush_layer: Option<Raster>,
}

/// The open documents, in order.
#[derive(Clone, Debug, Default)]
pub struct State {
    pub documents: Vec<Document>,
}

/// A layer that is absent, or present with the page's dimensions.
pub open spec fn layer_fits(layer: Option<Raster>, width: u32, height: u32) -> bool {
    layer matches Some(r) ==> r.wf() && r@.width == width && r@.height == height
}

pub open spec fn layer_wf(layer: Option<Raster>) -> bool {
    layer matches Some(r) ==> r.wf()
}

pub open spec fn blocks_wf(blocks: Seq<TextBlock>) -> bool {
    forall|i: int| 0 <= i < blocks.len() ==> layer_wf(#[trigger] blocks[i].rendered)
}

/// The default font fallback chain, spanning the fonts that Windows, macOS and Linux ship.
pub open spec fn default_families() -> Seq<Seq<char>> {
    seq![
        "Microsoft YaHei"@,
        "Microsoft Jhenghei"@,
        "Yu Mincho"@,
        "PingFang TC"@,
        "PingFang SC"@,
        "Hiragino Mincho"@,
        "SF Pro"@,
        "Source Han Sans CN"@,
        "Arial"@,
    ]
}

pub open spec fn families_view(families: Seq<String>) -> Seq<Seq<char>> {
    families.map_values(|f: String| f@)
}

impl TextStyle {
    /// The default style: the fallback chain, a fitted size, opaque black, no effect override.
    pub open spec fn is_default(&self) -> bool {
        &&& families_view(self.font_families@) == default_families()
        &&& self.font_size is None
        &&& self.color == (Rgba { r: 0, g: 0, b: 0, a: 255 })
        &&& self.effect is None
    }
}

impl Default for TextStyle {
    fn default() -> (s: TextStyle)
        ensures
            s.is_default(),
    {
        let mut families: Vec<String> = Vec::new();
        families.push("Microsoft YaHei".to_owned());
        families.push("Microsoft Jhenghei".to_owned());
        families.push("Yu Mincho".to_owned());
        families.push("PingFang TC".to_owned());
        families.push("PingFang SC".to_owned());
        families.push("Hiragino Mincho".to_owned());
        families.push("SF Pro".to_owned());
        families.push("Source Han Sans CN".to_owned());
        families.push("Arial".to_owned());
        let s = TextStyle { font_families: families, font_size: None, color: Rgba::opaque_black(), effect: None };
        assert(families_view(s.font_families@) =~= default_families());
        s
    }
}

impl Document {
    /// The document's invariant: the cached dimensions are the image's, and every layer that
    /// exists has them too.
    pub open spec fn wf(&self) -> bool {
        &&& self.image.wf()
        &&& self.image@.width == self.width
        &&& self.image@.height == self.height
        &&& layer_fits(self.segment, self.width, self.height)
        &&& layer_fits(self.inpainted, self.width, self.height)
        &&& layer_fits(self.rendered, self.width, self.height)
        &&& layer_fits(self.brush_layer, self.width, self.height)
        &&& blocks_wf(self.text_blocks@)
    }
}

impl State {
    pub open spec fn wf(&self) -> bool {
        forall|i: int| 0 <= i < self.documents@.len() ==> (#[trigger] self.documents@[i]).wf()
    }
}

/// The BLAKE3 digest of `bytes` in lowercase hexadecimal.
pub uninterp spec fn blake3_hex(bytes: Seq<u8>) -> Seq<char>;

/// Relies on blake3::hash, the BLAKE3 digest of the bytes, and on Hash::to_hex, which writes
/// its 32 bytes as 64 lowercase hexadecimal digits.
#[verifier::external_body]
fn content_hash(bytes: &[u8]) -> (r: String)
    ensures
        r@ == blake3_hex(bytes@),
        r@.len() == 64,
{
    blake3::hash(bytes).to_hex().to_string()
}

impl Document {
    /// A new document for the image encoded in `bytes`, identified by the hash of those bytes,
    /// with no text blocks and no layer computed yet.
    pub fn from_image(path: String, name: String, bytes: &[u8]) -> (r: Result<Document, Error>)
        ensures
            decoded_image(bytes@) is None ==> r == Err::<Document, Error>(Error::DecodeFailure),
            decoded_image(bytes@) matches Some(v) ==> r matches Ok(d) && d.wf() && d.image@ == v && d.id@ == blake3_hex(bytes@)
                && d.path == path && d.name == name && d.text_blocks@.len() == 0 && d.segment is None
                && d.inpainted is None && d.rendered is None && d.brush_layer is None,
    {
        let image = match decode_image(bytes) {
            Ok(img) => img,
            Err(_) => return Err(Error::DecodeFailure),
        };
        let id = content_hash(bytes);
        let width = image.width();
        let height = image.height();
        Ok(
            Document {
                id,
                path,
                name,
                image,
                width,
                height,
                text_blocks: Vec::new(),
                segment: None,
                inpainted: None,
                rendered: None,
                brush_layer: None,
            },
        )
    }
}

} // verus!
