//! Verified core of the Nano-9 fantasy console: sound-effect data, indexed
//! graphics, palettes, rasterisation, sprite flags, maps and the clearing cache.
pub mod audio;
pub mod text;
pub mod gfx;
pub mod palette;
pub mod sprite;
pub mod map;
pub mod color;
pub mod components;
pub mod shapes;
pub mod sys;
pub mod plan;
pub mod camera;
pub mod camera3d;
pub mod level;
pub mod asset;
pub mod gfx_png;
pub mod clear;
pub mod raster;
pub mod line;
pub mod one_or_map;
pub mod draw;
pub mod cli;
pub mod config;
