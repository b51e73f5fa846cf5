//! A small windowed desktop that draws into a 1280x720 RGBA frame buffer.
use vstd::prelude::*;

pub mod font;
pub mod raster;
pub mod text;
pub mod state;
pub mod scene;
pub mod input;
pub mod laws;

verus! {
} // verus!
