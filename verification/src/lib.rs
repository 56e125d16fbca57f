//! Verified logic of the demos for an STM32WBA65RI board with an ILI9341 panel:
//! frame buffers with dirty-rectangle tracking, text, the level game, the
//! orientation demo and the live display agent.

pub mod array_string;
pub mod color;
pub mod doom;
pub mod ft6236;
pub mod mesh;
pub mod orientation;
pub mod studio;
pub mod text;
pub mod timing;
