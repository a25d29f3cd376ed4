//! Verified core of an SVG to G-code converter for pen plotters.
pub mod output;
pub mod scene;
pub mod flatten;
pub mod sampling;
pub mod settings;
pub mod program;
