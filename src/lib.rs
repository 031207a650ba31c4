//! Renders a static background into per-output pixel buffers: solid colors,
//! stretched and tiled pictures, pictures picked at random from a directory
//! tree, and a border drawn over all of them; plus the per-output state
//! machine that decides when to redraw, and the reading of the command line.

pub mod canvas;
pub mod cli;
pub mod number;
pub mod output;
pub mod paper;
pub mod render;
pub mod session;
pub mod text;
pub mod walk;
