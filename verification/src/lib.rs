//! Game logic of a terminal maze-chase arcade game: a tile world, a sprite
//! rasteriser, the maze runner and its four chasers, with contracts checked by Verus.
#![allow(non_snake_case)]

pub mod util;
pub mod gfx;
pub mod raster;
pub mod data;
pub mod moves;
pub mod game;
pub mod term_out;
