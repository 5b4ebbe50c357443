use koharu::document::{Document, Error, Missing, State, TextBlock};
use koharu::inpaint::{complete_inpaint, complete_inpaint_partial, inpaint, inpaint_partial};
use koharu::raster::{Raster, Rgba};
use koharu::region::InpaintRegion;

const IMAGE: Rgba = Rgba { r: 10, g: 20, b: 30, a: 255 };
const OLD: Rgba = Rgba { r: 99, g: 99, b: 99, a: 255 };
const FILL: Rgba = Rgba { r: 200, g: 100, b: 50, a: 255 };
const MARK: Rgba = Rgba { r: 255, g: 255, b: 255, a: 255 };
const BLACK: Rgba = Rgba { r: 0, g: 0, b: 0, a: 255 };

fn page(width: u32, height: u32) -> Document {
    Document {
        id: String::new(),
        path: String::new(),
        name: "page".to_string(),
        image: Raster::filled(width, height, IMAGE),
        width,
        height,
        text_blocks: Vec::new(),
        segment: None,
        inpainted: None,
        rendered: None,
        brush_layer: None,
    }
}

/// A block covering whole pixels `[x, x + w) × [y, y + h)`.
fn block(x: i64, y: i64, w: i64, h: i64) -> TextBlock {
    TextBlock { x: x * 1000, y: y * 1000, width: w * 1000, height: h * 1000, ..TextBlock::default() }
}

fn region(x: u32, y: u32, width: u32, height: u32) -> InpaintRegion {
    InpaintRegion { x, y, width, height }
}

/// An 8 × 6 page whose mask marks column 3 of rows 0..6, one block at (2, 1) of 3 × 2,
/// and an earlier inpainted page filled with `OLD`.
fn state() -> State {
    let mut doc = page(8, 6);
    let mut seg = Raster::filled(8, 6, BLACK);
    for y in 0..6 {
        seg.put(3, y, MARK);
    }
    doc.segment = Some(seg);
    doc.inpainted = Some(Raster::filled(8, 6, OLD));
    doc.text_blocks = vec![block(2, 1, 3, 2)];
    State { documents: vec![doc] }
}

#[test]
fn partial_inpaint_needs_a_mask() {
    let mut s = state();
    s.documents[0].segment = None;
    let r = inpaint_partial(&s, 0, region(0, 0, 4, 4));
    assert!(matches!(r, Err(Error::NotFound(Missing::Segment))));
}

#[test]
fn partial_inpaint_with_nothing_to_do_needs_no_mask() {
    let mut s = state();
    s.documents[0].segment = None;
    assert!(matches!(inpaint_partial(&s, 0, region(6, 4, 2, 2)), Ok(None)));
    assert!(matches!(inpaint_partial(&s, 0, region(2, 1, 0, 2)), Ok(None)));
    let crop = Raster::filled(2, 2, FILL);
    assert!(complete_inpaint_partial(&mut s, 0, region(6, 4, 2, 2), &crop).is_ok());
    assert_eq!(s.documents[0].inpainted.as_ref().unwrap().get(6, 4), OLD);
}

#[test]
fn stitching_a_region_without_text_is_a_no_op() {
    let mut s = state();
    let crop = Raster::filled(2, 2, FILL);
    complete_inpaint_partial(&mut s, 0, region(6, 4, 2, 2), &crop).unwrap();
    assert_eq!(s.documents[0].inpainted.as_ref().unwrap().get(6, 4), OLD);
}

#[test]
fn partial_inpaint_on_a_missing_document_fails() {
    let s = state();
    assert!(matches!(inpaint_partial(&s, 3, region(0, 0, 4, 4)), Err(Error::NotFound(Missing::Document))));
}

#[test]
fn partial_inpaint_without_text_is_a_no_op() {
    let s = state();
    assert!(matches!(inpaint_partial(&s, 0, region(6, 4, 2, 2)), Ok(None)));
    assert!(matches!(inpaint_partial(&s, 0, region(2, 1, 0, 2)), Ok(None)));
}

#[test]
fn partial_inpaint_crops_image_and_mask() {
    let s = state();
    let plan = inpaint_partial(&s, 0, region(1, 0, 4, 3)).unwrap().unwrap();
    assert_eq!((plan.x, plan.y, plan.width, plan.height), (1, 0, 4, 3));
    assert_eq!(plan.image.width(), 4);
    assert_eq!(plan.image.get(0, 0), IMAGE);
    assert_eq!(plan.mask.get(2, 1), MARK);
    assert_eq!(plan.mask.get(1, 1), BLACK);
}

#[test]
fn partial_inpaint_region_past_the_edge_is_clamped() {
    let s = state();
    let plan = inpaint_partial(&s, 0, region(4, 2, 10, 10)).unwrap().unwrap();
    assert_eq!((plan.x, plan.y, plan.width, plan.height), (4, 2, 4, 4));
}

#[test]
fn stitch_takes_masked_pixels_from_the_crop_and_the_rest_from_the_original() {
    let mut s = state();
    let r = region(2, 1, 3, 2);
    let crop = Raster::filled(3, 2, FILL);
    complete_inpaint_partial(&mut s, 0, r, &crop).unwrap();
    let out = s.documents[0].inpainted.as_ref().unwrap();
    assert_eq!(out.get(3, 1), FILL);
    assert_eq!(out.get(3, 2), FILL);
    assert_eq!(out.get(2, 1), IMAGE);
    assert_eq!(out.get(4, 2), IMAGE);
    assert_eq!(out.get(3, 0), OLD);
    assert_eq!(out.get(0, 0), OLD);
    assert_eq!(out.get(5, 1), OLD);
}

#[test]
fn stitching_twice_gives_the_same_page() {
    let mut s = state();
    let r = region(1, 0, 4, 3);
    let crop = Raster::filled(4, 3, FILL);
    complete_inpaint_partial(&mut s, 0, r, &crop).unwrap();
    let once = s.documents[0].inpainted.as_ref().unwrap().pixels().to_vec();
    complete_inpaint_partial(&mut s, 0, r, &crop).unwrap();
    let twice = s.documents[0].inpainted.as_ref().unwrap().pixels().to_vec();
    assert_eq!(once, twice);
}

#[test]
fn stitch_starts_from_the_original_when_nothing_is_inpainted() {
    let mut s = state();
    s.documents[0].inpainted = None;
    let crop = Raster::filled(3, 2, FILL);
    complete_inpaint_partial(&mut s, 0, region(2, 1, 3, 2), &crop).unwrap();
    let out = s.documents[0].inpainted.as_ref().unwrap();
    assert_eq!(out.get(0, 0), IMAGE);
    assert_eq!(out.get(3, 1), FILL);
}

#[test]
fn stitch_rejects_a_crop_of_the_wrong_size() {
    let mut s = state();
    let crop = Raster::filled(2, 2, FILL);
    let r = complete_inpaint_partial(&mut s, 0, region(2, 1, 3, 2), &crop);
    assert!(matches!(
        r,
        Err(Error::SizeMismatch { expected_width: 3, expected_height: 2, width: 2, height: 2 })
    ));
    assert_eq!(s.documents[0].inpainted.as_ref().unwrap().get(3, 1), OLD);
}

#[test]
fn full_inpaint_mask_clears_marks_outside_the_blocks() {
    let s = state();
    let mask = inpaint(&s, 0).unwrap();
    assert_eq!(mask.get(3, 1), MARK);
    assert_eq!(mask.get(3, 2), MARK);
    assert_eq!(mask.get(3, 0), BLACK);
    assert_eq!(mask.get(3, 5), BLACK);
    assert_eq!(mask.get(0, 0), BLACK);
}

#[test]
fn full_inpaint_mask_keeps_fractional_block_edges_by_whole_pixels() {
    let mut s = state();
    s.documents[0].text_blocks =
        vec![TextBlock { x: 3_700, y: 3_200, width: 500, height: 900, ..TextBlock::default() }];
    let mask = inpaint(&s, 0).unwrap();
    assert_eq!(mask.get(3, 3), MARK);
    assert_eq!(mask.get(3, 4), BLACK);
    assert_eq!(mask.get(3, 2), BLACK);
}

#[test]
fn full_inpaint_needs_a_mask() {
    let mut s = state();
    s.documents[0].segment = None;
    assert!(matches!(inpaint(&s, 0), Err(Error::NotFound(Missing::Segment))));
}

#[test]
fn full_inpaint_result_must_fit_the_page() {
    let mut s = state();
    let r = complete_inpaint(&mut s, 0, Raster::filled(3, 3, FILL));
    assert!(matches!(r, Err(Error::SizeMismatch { .. })));
    complete_inpaint(&mut s, 0, Raster::filled(8, 6, FILL)).unwrap();
    assert_eq!(s.documents[0].inpainted.as_ref().unwrap().get(7, 5), FILL);
}
