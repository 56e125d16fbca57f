//! The landscape mesh demos: frame buffer, dirty rectangles and what is sent to
//! the panel.

pub mod demo;
pub mod dirty_rect;
pub mod faces;
pub mod offscreen;
pub mod panel;
