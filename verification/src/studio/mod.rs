//! The live display agent: touch reports, the link to the host and the panel.

pub mod agent;
pub mod link;
pub mod panel;
pub mod touch;
