//! Core of a static-guide generator: it replays a linear commit history into
//! an ordered sequence of page/workspace build steps and turns flat, pre-order
//! directory listings into nested navigation outlines.
pub mod code;
pub mod config;
pub mod context;
pub mod export;
pub mod html;
pub mod page;
pub mod paths;
pub mod projector;
pub mod sequencer;
