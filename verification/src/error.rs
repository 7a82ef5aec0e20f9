//! Errors of the MPM library.

use vstd::prelude::*;
use crate::types::Index;

verus! {

#[verifier::external_type_specification]
#[verifier::external_body]
pub struct ExIoError(std::io::Error);

/// The errors the library reports.
#[derive(Debug)]
pub enum MpmError {
    InvalidMaterial(String),
    ParticleOutOfDomain(Index),
    CellNotFound(Index),
    NodeNotFound(Index),
    InvalidElement(String),
    InvalidMesh(String),
    ConvergenceFailure(String),
    InvalidInput(String),
    Io(std::io::Error),
    Json(String),
    DuplicateId(Index),
    FeatureNotAvailable(String),
}

} // verus!
