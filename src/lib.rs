//! Document model and region-based compositing for an interactive comic translation editor.
//!
//! A page under edit is a [`document::Document`]: the original raster plus optional layers
//! (segmentation mask, inpainted base, brush overlay, flattened output) and the detected
//! text blocks. Edits touch sub-rectangles of these layers; the contracts state exactly which
//! pixels change and from where they come.

pub mod raster;
pub mod region;
pub mod document;
pub mod edit;
pub mod inpaint;
pub mod layout;
pub mod llm;
pub mod compose;
pub mod detect;
pub mod message;
