//! A GPU-driven scene: the flat records that shader stages read, the logic
//! those stages run on them, and the scene graph that keeps them current.
use vstd::prelude::*;

pub mod bits;
pub mod channel;
pub mod math;
pub mod object;
pub mod scene;

verus! {

} // verus!
