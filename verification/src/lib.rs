//! Shaping and laying out digital timing diagrams.
use vstd::prelude::*;

pub mod color;
pub mod cycle_offset;
pub mod dimensions;
pub mod edges;
pub mod escape;
pub mod figure;
pub mod font;
pub mod markers;
pub mod mdbook;
pub mod options;
pub mod path;
pub mod rect;
pub mod reg;
pub mod svg;
pub mod svg_path;
pub mod text;
pub mod wavejson;

verus! {

} // verus!
