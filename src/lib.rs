//! A grid-based node graph for live-coded audio: the occupancy index of the grid, the
//! node model, the pulse simulation that carries signals between nodes one cell per
//! tick, the script binding that initializes nodes from their programs, the audio chain
//! table those pulses extend, and the reader unit's double buffer.
use vstd::prelude::*;

pub mod assets;
pub mod binding;
pub mod dsp;
pub mod grid;
pub mod node;
pub mod position;
pub mod read;
pub mod world;

verus! {

} // verus!
