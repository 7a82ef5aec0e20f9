//! Particle phase identifiers.

use vstd::prelude::*;

verus! {

/// Solid phase.
pub const SOLID: usize = 0;

/// Liquid phase.
pub const LIQUID: usize = 1;

} // verus!
