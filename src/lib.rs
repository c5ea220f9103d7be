//! Display composition and refresh logic for a small monochrome e-paper panel:
//! an in-memory framebuffer, bounding-box layout, drawable elements and the
//! refresh-protocol state machine.

pub mod drawable;
pub mod font;
pub mod framebuffer;
pub mod geometry;
pub mod image;
pub mod refresh;
pub mod shape;
pub mod text;
