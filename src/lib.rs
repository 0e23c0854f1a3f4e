//! Frame identification: stamps QR-code identifiers into raw video frames,
//! reads them back from a region of a frame, and reconciles the identifiers
//! seen in a reference pass and a capture pass of the same video.
pub mod frame;
pub mod identifier;
pub mod error;
pub mod symbol;
pub mod encoder;
pub mod region;
pub mod scanner;
pub mod codeset;
pub mod matcher;
pub mod plugin;
pub mod laws;
pub use plugin::plugin_init;
