//! Contact between materials.

use vstd::prelude::*;

verus! {

/// No contact between materials (the default): initialising it and
/// computing its forces leave the mesh as it is.
#[derive(Debug, Clone, Copy, PartialEq, Eq, Structural)]
pub struct NoContact;

} // verus!
