//! Post-processing and rendering pipeline for a small extracted color
//! palette: ordering the colors by a chosen perceptual channel, re-rendering
//! them at configured lightness levels, and encoding each line as text with
//! optional terminal colorization. The host application supplies the colors
//! (already clustered and converted to a cylindrical representation) and
//! performs the actual writes; everything the pipeline decides is specified
//! and verified here.

pub mod color;
pub mod level;
pub mod pipeline;
pub mod render;
pub mod sort;
