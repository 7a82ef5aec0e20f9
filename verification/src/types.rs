//! Core index type, enumerations and constants.

use vstd::prelude::*;
use crate::text::str_eq;

verus! {

/// Global index type for nodes, cells and particles.
pub type Index = u64;

/// Number of Voigt stress/strain components.
pub const VOIGT_SIZE: usize = 6;

/// Number of phases for multiphase problems.
pub const NPHASES: usize = 1;

/// Polynomial degree of an element.
#[derive(Debug, Clone, Copy, PartialEq, Eq, Structural)]
pub enum ElementDegree {
    Linear,
    Quadratic,
}

/// Kind of shape function an element uses.
#[derive(Debug, Clone, Copy, PartialEq, Eq, Structural)]
pub enum ShapefnType {
    NormalMpm,
    Gimp,
    Cpdi,
}

/// Kind of damping applied to nodal accelerations.
#[derive(Debug, Clone, Copy, PartialEq, Eq, Structural)]
pub enum DampingType {
    NoDamping,
    Cundall,
}

impl DampingType {
    /// The damping a configured damping type asks for: Cundall damping for
    /// `cundall`, none for anything else.
    pub fn from_name(damping_type: &str) -> (d: DampingType)
        ensures
            d == (if damping_type@ == "cundall"@ { DampingType::Cundall } else { DampingType::NoDamping }),
    {
        if str_eq(damping_type, "cundall") {
            DampingType::Cundall
        } else {
            DampingType::NoDamping
        }
    }
}

} // verus!
