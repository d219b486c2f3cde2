//! Verified core of the NexSpot screenshot tool: selection and annotation
//! geometry, hit testing, the mosaic brush, snapping, the selection toolbar, the pin
//! collection, shortcut rules, GDI resource caching, colour and pixel
//! conversions, scrolling-capture stitching, image encoding, text
//! recognition around the engines, capture workflows, a model of JSON
//! values and the PaddleOCR component protocol.
pub mod geometry;
pub mod types;
pub mod selection;
pub mod shortcuts;
pub mod toolbar;
pub mod snapping;
pub mod overlay;
pub mod annotation;
pub mod pin;
pub mod color;
pub mod gdi_cache;
pub mod stitch;
pub mod pixels;
pub mod capture;
pub mod text;
pub mod encoding;
pub mod paddle;
pub mod ocr;
pub mod scrolling;
pub mod desktop;
pub mod workflow;
pub mod save;
pub mod json;
pub mod mosaic;
