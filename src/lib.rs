//! Control plane of a real-time renderer: a render graph ordered over its
//! passes' image dependencies, graphics-pipeline descriptions assembled and
//! created in batches, the swap chain of a window's surface, and the frame
//! loop that rebuilds them on resize, runs the graph on redraw and stops on
//! close. The GPU work itself is left to the host, which carries out the
//! commands these types hand it and reports back what the backend answered.

use vstd::prelude::*;

pub mod decay;
pub mod driver;
pub mod graph;
pub mod pipeline;
pub mod surface;

verus! {

} // verus!
