use koharu::document::{Document, Error, Missing, State, TextBlock};
use koharu::edit::{update_brush_layer, update_inpaint_mask};
use koharu::raster::{Raster, Rgba};
use koharu::region::{clamp_region, InpaintRegion};

const RED: Rgba = Rgba { r: 255, g: 0, b: 0, a: 255 };
const WHITE: Rgba = Rgba { r: 255, g: 255, b: 255, a: 255 };
const GREY: Rgba = Rgba { r: 128, g: 128, b: 128, a: 255 };
const BLACK: Rgba = Rgba { r: 0, g: 0, b: 0, a: 255 };
const CLEAR: Rgba = Rgba { r: 0, g: 0, b: 0, a: 0 };

fn page(width: u32, height: u32, fill: Rgba) -> Document {
    Document {
        id: String::new(),
        path: String::new(),
        name: "page".to_string(),
        image: Raster::filled(width, height, fill),
        width,
        height,
        text_blocks: Vec::new(),
        segment: None,
        inpainted: None,
        rendered: None,
        brush_layer: None,
    }
}

fn png(raster: &Raster) -> Vec<u8> {
    let raw: Vec<u8> = raster.pixels().iter().flat_map(|p| [p.r, p.g, p.b, p.a]).collect();
    let img = image::RgbaImage::from_raw(raster.width(), raster.height(), raw).unwrap();
    let mut out = std::io::Cursor::new(Vec::new());
    img.write_to(&mut out, image::ImageFormat::Png).unwrap();
    out.into_inner()
}

fn region(x: u32, y: u32, width: u32, height: u32) -> InpaintRegion {
    InpaintRegion { x, y, width, height }
}

#[test]
fn clamp_keeps_a_region_inside_the_image() {
    assert_eq!(clamp_region(&region(2, 3, 4, 5), 10, 10), Some((2, 3, 4, 5)));
}

#[test]
fn clamp_cuts_at_the_far_edges() {
    assert_eq!(clamp_region(&region(8, 7, 10, 10), 10, 10), Some((8, 7, 2, 3)));
}

#[test]
fn clamp_moves_a_corner_past_the_edge_to_the_last_pixel() {
    assert_eq!(clamp_region(&region(50, 60, 5, 5), 10, 10), Some((9, 9, 1, 1)));
}

#[test]
fn clamp_rejects_empty_regions_and_images() {
    assert_eq!(clamp_region(&region(2, 2, 0, 4), 10, 10), None);
    assert_eq!(clamp_region(&region(2, 2, 4, 0), 10, 10), None);
    assert_eq!(clamp_region(&region(0, 0, 4, 4), 0, 10), None);
    assert_eq!(clamp_region(&region(0, 0, 4, 4), 10, 0), None);
}

#[test]
fn clamp_result_is_always_inside_the_image() {
    for (w, h) in [(1u32, 1u32), (3, 5), (8, 2)] {
        for x in 0..12u32 {
            for y in 0..12u32 {
                for rw in 0..6u32 {
                    for rh in 0..6u32 {
                        match clamp_region(&region(x, y, rw, rh), w, h) {
                            Some((x0, y0, cw, ch)) => {
                                assert!(cw > 0 && ch > 0);
                                assert!(x0 + cw <= w && y0 + ch <= h);
                                assert!(cw <= rw && ch <= rh);
                            }
                            None => {
                                let x0 = x.min(w - 1);
                                let y0 = y.min(h - 1);
                                let cw = (x0 + rw).min(w) - x0;
                                let ch = (y0 + rh).min(h) - y0;
                                assert!(cw == 0 || ch == 0);
                            }
                        }
                    }
                }
            }
        }
    }
}

#[test]
fn clamp_of_an_empty_request_past_the_edge_is_none() {
    assert_eq!(clamp_region(&region(5, 0, 0, 1), 1, 1), None);
    assert_eq!(clamp_region(&region(0, 7, 1, 0), 1, 1), None);
    assert_eq!(clamp_region(&region(12, 12, 0, 0), 10, 10), None);
}

#[test]
fn clamp_measures_the_extent_from_the_clamped_corner() {
    assert_eq!(clamp_region(&region(12, 3, 4, 2), 10, 10), Some((9, 3, 1, 2)));
}

#[test]
fn clamp_saturates_huge_requests() {
    assert_eq!(clamp_region(&region(u32::MAX, 1, u32::MAX, 2), 10, 10), Some((9, 1, 1, 2)));
}

#[test]
fn full_mask_of_the_wrong_size_is_rejected() {
    let mut state = State { documents: vec![page(4, 3, GREY)] };
    let patch = Raster::filled(3, 3, WHITE);
    let r = update_inpaint_mask(&mut state, 0, &png(&patch), None);
    assert!(matches!(
        r,
        Err(Error::SizeMismatch { expected_width: 4, expected_height: 3, width: 3, height: 3 })
    ));
    assert!(state.documents[0].segment.is_none());
}

#[test]
fn full_mask_replaces_the_segment() {
    let mut state = State { documents: vec![page(4, 3, GREY)] };
    let mut patch = Raster::filled(4, 3, BLACK);
    patch.put(1, 2, WHITE);
    update_inpaint_mask(&mut state, 0, &png(&patch), None).unwrap();
    let seg = state.documents[0].segment.as_ref().unwrap();
    assert_eq!(seg.width(), 4);
    assert_eq!(seg.height(), 3);
    assert_eq!(seg.pixels(), patch.pixels());
}

#[test]
fn region_mask_patch_reads_back_and_leaves_the_rest() {
    let mut doc = page(6, 5, GREY);
    let mut seg = Raster::filled(6, 5, BLACK);
    seg.put(0, 0, RED);
    doc.segment = Some(seg);
    let mut state = State { documents: vec![doc] };
    let mut patch = Raster::filled(3, 2, WHITE);
    patch.put(2, 1, RED);
    update_inpaint_mask(&mut state, 0, &png(&patch), Some(region(2, 1, 3, 2))).unwrap();
    let seg = state.documents[0].segment.as_ref().unwrap();
    for y in 0..5u32 {
        for x in 0..6u32 {
            let inside = (2..5).contains(&x) && (1..3).contains(&y);
            let expected = if inside {
                patch.get(x - 2, y - 1)
            } else if (x, y) == (0, 0) {
                RED
            } else {
                BLACK
            };
            assert_eq!(seg.get(x, y), expected, "pixel ({x}, {y})");
        }
    }
    assert!(state.documents[0].inpainted.is_none());
}

#[test]
fn region_mask_patch_starts_from_an_opaque_black_page() {
    let mut state = State { documents: vec![page(4, 4, GREY)] };
    let patch = Raster::filled(1, 1, WHITE);
    update_inpaint_mask(&mut state, 0, &png(&patch), Some(region(3, 3, 1, 1))).unwrap();
    let seg = state.documents[0].segment.as_ref().unwrap();
    assert_eq!(seg.get(3, 3), WHITE);
    assert_eq!(seg.get(0, 0), BLACK);
}

#[test]
fn region_mask_patch_of_the_wrong_size_is_rejected() {
    let mut state = State { documents: vec![page(4, 4, GREY)] };
    let patch = Raster::filled(2, 2, WHITE);
    let r = update_inpaint_mask(&mut state, 0, &png(&patch), Some(region(0, 0, 3, 2)));
    assert!(matches!(
        r,
        Err(Error::SizeMismatch { expected_width: 3, expected_height: 2, width: 2, height: 2 })
    ));
    assert!(state.documents[0].segment.is_none());
}

#[test]
fn mask_bytes_that_are_no_image_fail_to_decode() {
    let mut state = State { documents: vec![page(4, 4, GREY)] };
    let r = update_inpaint_mask(&mut state, 0, b"not an image", None);
    assert!(matches!(r, Err(Error::DecodeFailure)));
}

#[test]
fn mask_edit_on_a_missing_document_fails() {
    let mut state = State::default();
    let patch = Raster::filled(1, 1, WHITE);
    let r = update_inpaint_mask(&mut state, 0, &png(&patch), None);
    assert!(matches!(r, Err(Error::NotFound(Missing::Document))));
}

#[test]
fn brush_at_the_bottom_right_corner_is_clamped() {
    let mut state = State { documents: vec![page(5, 4, GREY)] };
    let mut patch = Raster::filled(4, 4, RED);
    patch.put(1, 1, WHITE);
    update_brush_layer(&mut state, 0, &png(&patch), region(3, 2, 4, 4)).unwrap();
    let brush = state.documents[0].brush_layer.as_ref().unwrap();
    assert_eq!(brush.width(), 5);
    assert_eq!(brush.height(), 4);
    assert_eq!(brush.get(3, 2), RED);
    assert_eq!(brush.get(4, 3), WHITE);
    assert_eq!(brush.get(4, 2), RED);
    assert_eq!(brush.get(2, 2), CLEAR);
    assert_eq!(brush.get(0, 0), CLEAR);
}

#[test]
fn brush_size_is_checked_against_the_requested_region() {
    let mut state = State { documents: vec![page(5, 4, GREY)] };
    let patch = Raster::filled(2, 2, RED);
    let r = update_brush_layer(&mut state, 0, &png(&patch), region(3, 2, 4, 4));
    assert!(matches!(
        r,
        Err(Error::SizeMismatch { expected_width: 4, expected_height: 4, width: 2, height: 2 })
    ));
    assert!(state.documents[0].brush_layer.is_none());
}

#[test]
fn brush_with_nothing_left_after_clamping_is_a_no_op() {
    let mut state = State { documents: vec![page(5, 4, GREY)] };
    let r = update_brush_layer(&mut state, 0, b"garbage", region(1, 1, 0, 3));
    assert!(r.is_ok());
    assert!(state.documents[0].brush_layer.is_none());
}

#[test]
fn empty_brush_past_the_edge_allocates_nothing() {
    let mut state = State { documents: vec![page(5, 4, GREY)] };
    let r = update_brush_layer(&mut state, 0, b"garbage", region(9, 0, 0, 2));
    assert!(r.is_ok());
    assert!(state.documents[0].brush_layer.is_none());
}

#[test]
fn brush_keeps_earlier_strokes() {
    let mut state = State { documents: vec![page(4, 4, GREY)] };
    let patch = Raster::filled(1, 1, RED);
    update_brush_layer(&mut state, 0, &png(&patch), region(0, 0, 1, 1)).unwrap();
    let patch = Raster::filled(1, 1, WHITE);
    update_brush_layer(&mut state, 0, &png(&patch), region(3, 3, 1, 1)).unwrap();
    let brush = state.documents[0].brush_layer.as_ref().unwrap();
    assert_eq!(brush.get(0, 0), RED);
    assert_eq!(brush.get(3, 3), WHITE);
}

#[test]
fn text_block_default_has_nothing_rendered() {
    let b = TextBlock::default();
    assert!(b.translation.is_none());
    assert!(b.rendered.is_none());
}
