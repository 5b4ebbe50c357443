use koharu::detect::{apply_font_predictions, detect, style_from_prediction, update_text_blocks};
use koharu::document::{Document, Error, FontPrediction, Missing, State, TextBlock};
use koharu::message::build_message;
use koharu::raster::{Raster, Rgba};

const IMAGE: Rgba = Rgba { r: 1, g: 2, b: 3, a: 255 };
const MARK: Rgba = Rgba { r: 255, g: 255, b: 255, a: 255 };

fn encoded(width: u32, height: u32) -> Vec<u8> {
    let img = image::RgbaImage::from_fn(width, height, |x, y| image::Rgba([x as u8, y as u8, 7, 255]));
    let mut out = std::io::Cursor::new(Vec::new());
    img.write_to(&mut out, image::ImageFormat::Png).unwrap();
    out.into_inner()
}

fn page(width: u32, height: u32) -> Document {
    Document {
        id: String::new(),
        path: String::new(),
        name: "page".to_string(),
        image: Raster::filled(width, height, IMAGE),
        width,
        height,
        text_blocks: Vec::new(),
        segment: None,
        inpainted: None,
        rendered: None,
        brush_layer: None,
    }
}

#[test]
fn build_message_frames_type_length_and_payload() {
    assert_eq!(build_message(2, b"abc"), vec![2, 0, 0, 0, 3, b'a', b'b', b'c']);
    assert_eq!(build_message(1, &[]), vec![1, 0, 0, 0, 0]);
    let big = vec![9u8; 0x0102];
    let framed = build_message(0, &big);
    assert_eq!(&framed[..5], &[0, 0, 0, 1, 2]);
    assert_eq!(framed.len(), 5 + 0x0102);
}

#[test]
fn a_document_is_opened_from_image_bytes() {
    let bytes = encoded(5, 3);
    let doc = Document::from_image("dir/page.png".to_string(), "page".to_string(), &bytes).unwrap();
    assert_eq!((doc.width, doc.height), (5, 3));
    assert_eq!(doc.image.get(4, 2), Rgba { r: 4, g: 2, b: 7, a: 255 });
    assert_eq!(doc.id, blake3::hash(&bytes).to_hex().to_string());
    assert_eq!(doc.id.len(), 64);
    assert_eq!(doc.name, "page");
    assert!(doc.text_blocks.is_empty() && doc.segment.is_none() && doc.inpainted.is_none());
}

#[test]
fn a_document_from_other_bytes_has_another_id() {
    let a = Document::from_image(String::new(), String::new(), &encoded(2, 2)).unwrap();
    let b = Document::from_image(String::new(), String::new(), &encoded(2, 3)).unwrap();
    assert_ne!(a.id, b.id);
}

#[test]
fn bytes_that_are_no_image_open_no_document() {
    assert!(matches!(
        Document::from_image(String::new(), String::new(), b"\x89PNG broken"),
        Err(Error::DecodeFailure)
    ));
}

#[test]
fn detection_stores_blocks_and_mask_and_crops_each_block() {
    let mut doc = page(6, 4);
    doc.image.put(2, 1, MARK);
    let mut state = State { documents: vec![doc] };
    let blocks = vec![
        TextBlock { x: 2_400, y: 1_000, width: 2_900, height: 2_000, ..TextBlock::default() },
        TextBlock { x: 5_000, y: 3_000, width: 9_000, height: 9_000, ..TextBlock::default() },
    ];
    let crops = detect(&mut state, 0, blocks, Raster::filled(6, 4, MARK)).unwrap();
    assert_eq!(crops.len(), 2);
    assert_eq!((crops[0].width(), crops[0].height()), (2, 2));
    assert_eq!(crops[0].get(0, 0), MARK);
    assert_eq!((crops[1].width(), crops[1].height()), (1, 1));
    assert_eq!(state.documents[0].text_blocks.len(), 2);
    assert_eq!(state.documents[0].segment.as_ref().unwrap().get(5, 3), MARK);
}

#[test]
fn detection_mask_must_fit_the_page() {
    let mut state = State { documents: vec![page(6, 4)] };
    let r = detect(&mut state, 0, vec![TextBlock::default()], Raster::filled(6, 5, MARK));
    assert!(matches!(r, Err(Error::SizeMismatch { expected_width: 6, expected_height: 4, width: 6, height: 5 })));
    assert!(state.documents[0].text_blocks.is_empty());
    assert!(matches!(
        detect(&mut state, 1, vec![], Raster::filled(6, 4, MARK)),
        Err(Error::NotFound(Missing::Document))
    ));
}

#[test]
fn font_predictions_fill_styles_in_order() {
    let mut doc = page(4, 4);
    doc.text_blocks = vec![TextBlock::default(), TextBlock::default(), TextBlock::default()];
    let mut state = State { documents: vec![doc] };
    let preds = [
        FontPrediction { text_color: Rgba { r: 10, g: 20, b: 30, a: 0 }, font_size: 18_500 },
        FontPrediction { text_color: Rgba { r: 1, g: 1, b: 1, a: 0 }, font_size: 0 },
    ];
    apply_font_predictions(&mut state, 0, &preds).unwrap();
    let blocks = &state.documents[0].text_blocks;
    let s0 = blocks[0].style.as_ref().unwrap();
    assert_eq!(s0.color, Rgba { r: 10, g: 20, b: 30, a: 255 });
    assert_eq!(s0.font_size, Some(18_500));
    assert_eq!(s0.font_families.len(), 9);
    assert_eq!(blocks[1].style.as_ref().unwrap().font_size, None);
    assert_eq!(blocks[1].font_prediction, Some(preds[1]));
    assert!(blocks[2].style.is_none() && blocks[2].font_prediction.is_none());
}

#[test]
fn a_negative_predicted_size_means_fit_to_the_block() {
    let s = style_from_prediction(&FontPrediction { text_color: Rgba { r: 0, g: 0, b: 0, a: 0 }, font_size: -5 });
    assert!(s.font_size.is_none());
}

#[test]
fn text_blocks_are_replaced() {
    let mut state = State { documents: vec![page(4, 4)] };
    let blocks = vec![TextBlock { text: Some("やあ".to_string()), ..TextBlock::default() }];
    update_text_blocks(&mut state, 0, blocks).unwrap();
    assert_eq!(state.documents[0].text_blocks[0].text.as_deref(), Some("やあ"));
    assert!(matches!(update_text_blocks(&mut state, 2, vec![]), Err(Error::NotFound(Missing::Document))));
}
