//! The level walkthrough: the map, the controls, the rules of the game and what
//! is drawn over the three-dimensional view.

pub mod ahrs;
pub mod controls;
pub mod depth;
pub mod frame;
pub mod game;
pub mod hud;
pub mod level;
pub mod minimap;
pub mod texture;
pub mod view;
