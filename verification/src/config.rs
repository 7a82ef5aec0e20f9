//! Configuration records of an analysis that hold no real numbers, and
//! the defaults of optional settings.

use vstd::prelude::*;
use vstd::string::StringExecFns;

verus! {

#[verifier::external_type_specification]
#[verifier::external_body]
pub struct ExPathBuf(std::path::PathBuf);

/// Command-line settings of the MPM program.
pub struct Cli {
    /// Working directory containing input files.
    pub working_dir: std::path::PathBuf,
    /// Input JSON file name.
    pub input_file: String,
    /// Number of parallel threads.
    pub parallel: Option<usize>,
}

/// An entity set (node, cell or particle set): its id and the file or
/// list that defines it.
pub struct EntitySetConfig {
    pub id: u32,
    pub set: String,
}

/// How particles are generated.
pub struct ParticleGeneratorConfig {
    pub generator_type: Option<String>,
    pub location: Option<String>,
    pub material_id: Vec<u32>,
    pub particle_sets: Vec<EntitySetConfig>,
    pub particles_volumes: Option<String>,
    pub particles_stresses: Option<String>,
    pub particles_cells: Option<String>,
    pub particle_type: Option<String>,
    pub io_type: Option<String>,
    pub pset_id: Option<u32>,
    pub cset_id: Option<i32>,
    pub nparticles_per_dir: Option<usize>,
}

/// Whether and from where an analysis resumes from a checkpoint.
pub struct ResumeConfig {
    pub resume: bool,
    pub uuid: Option<String>,
    pub step: Option<u64>,
}

/// Output settings.
pub struct PostProcessingConfig {
    pub output_steps: u64,
    pub path: Option<String>,
    pub vtk: Vec<String>,
    pub vtk_statevars: Vec<VtkStatevarConfig>,
}

/// State variables written to VTK files for one phase.
pub struct VtkStatevarConfig {
    pub phase_id: u32,
    pub statevars: Vec<String>,
}

/// Elements are isoparametric unless the mesh settings say otherwise.
pub fn default_isoparametric() -> (r: bool)
    ensures
        r,
{
    true
}

/// Duplicate nodes are checked unless the mesh settings say otherwise.
pub fn default_check_duplicates() -> (r: bool)
    ensures
        r,
{
    true
}

/// The time-stepping scheme used unless the analysis names one: `usf`.
pub fn default_scheme() -> (r: String)
    ensures
        r@ == "usf"@,
{
    String::from_str("usf")
}

/// The default of switches that are off unless set: `false`.
pub fn default_false() -> (r: bool)
    ensures
        !r,
{
    false
}

} // verus!
