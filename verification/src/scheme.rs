//! Explicit time-stepping schemes: USF (update stress first) and USL
//! (update stress last), and the sequence of phases each step runs.

use vstd::prelude::*;
use crate::text::{lowercase, str_eq, to_lowercase};

verus! {

/// One phase of an explicit MPM time step.
#[derive(Debug, Clone, Copy, PartialEq, Eq, Structural)]
pub enum SolverAction {
    /// Reset nodes, find active nodes and compute particle shape functions.
    Initialise,
    /// Map particle mass and momentum to the nodes.
    ComputeNodalKinematics,
    /// Compute particle strains and stresses from nodal velocities.
    ComputeStressStrain,
    /// Map body and internal forces to the nodes.
    ComputeForces,
    /// Integrate nodal accelerations and update particle velocities and positions.
    ComputeParticleKinematics,
    /// Locate the particles in the cells again.
    LocateParticles,
    /// Report the step as an output step.
    ReportStep,
}

/// Whether step `step` is reported: output is on (`output_steps > 0`) and
/// the step is a multiple of `output_steps`.
pub open spec fn is_output_step(output_steps: u64, step: u64) -> bool {
    output_steps > 0 && step % output_steps == 0
}

/// The phases after the stress update, common to both schemes.
pub open spec fn closing_actions(locate_particles: bool, output_steps: u64, step: u64) -> Seq<SolverAction> {
    (if locate_particles { seq![SolverAction::LocateParticles] } else { Seq::empty() })
        + (if is_output_step(output_steps, step) { seq![SolverAction::ReportStep] } else { Seq::empty() })
}

/// The phases of one USF step: stresses are updated before the forces.
pub open spec fn usf_actions(locate_particles: bool, output_steps: u64, step: u64) -> Seq<SolverAction> {
    seq![
        SolverAction::Initialise,
        SolverAction::ComputeNodalKinematics,
        SolverAction::ComputeStressStrain,
        SolverAction::ComputeForces,
        SolverAction::ComputeParticleKinematics,
    ] + closing_actions(locate_particles, output_steps, step)
}

/// The phases of one USL step: stresses are updated after the particles move.
pub open spec fn usl_actions(locate_particles: bool, output_steps: u64, step: u64) -> Seq<SolverAction> {
    seq![
        SolverAction::Initialise,
        SolverAction::ComputeNodalKinematics,
        SolverAction::ComputeForces,
        SolverAction::ComputeParticleKinematics,
        SolverAction::ComputeStressStrain,
    ] + closing_actions(locate_particles, output_steps, step)
}

/// Each step updates the stresses exactly once: USF right after mapping
/// mass and momentum, before the forces; USL right after moving the
/// particles. No phase but the stress update, and the final location and
/// report, differs in order between the two schemes.
pub proof fn law_stress_updated_once(locate_particles: bool, output_steps: u64, step: u64)
    ensures
        ({
            let f = usf_actions(locate_particles, output_steps, step);
            &&& f[2] == SolverAction::ComputeStressStrain
            &&& f[3] == SolverAction::ComputeForces
            &&& forall|i: int| 0 <= i < f.len() && i != 2 ==> f[i] != SolverAction::ComputeStressStrain
        }),
        ({
            let l = usl_actions(locate_particles, output_steps, step);
            &&& l[3] == SolverAction::ComputeParticleKinematics
            &&& l[4] == SolverAction::ComputeStressStrain
            &&& forall|i: int| 0 <= i < l.len() && i != 4 ==> l[i] != SolverAction::ComputeStressStrain
        }),
        usf_actions(locate_particles, output_steps, step).len() == usl_actions(locate_particles, output_steps, step).len(),
{
    let c = closing_actions(locate_particles, output_steps, step);
    assert(forall|i: int| 0 <= i < c.len() ==> c[i] != SolverAction::ComputeStressStrain);
}

/// A step is reported exactly when output is on and the step is a
/// multiple of `output_steps`; a reported step ends with the report, under
/// either scheme.
pub proof fn law_reported_exactly_on_output_steps(locate_particles: bool, output_steps: u64, step: u64)
    ensures
        usf_actions(locate_particles, output_steps, step).contains(SolverAction::ReportStep)
            <==> (output_steps > 0 && step % output_steps == 0),
        usl_actions(locate_particles, output_steps, step).contains(SolverAction::ReportStep)
            <==> (output_steps > 0 && step % output_steps == 0),
        (output_steps > 0 && step % output_steps == 0) ==> {
            &&& usf_actions(locate_particles, output_steps, step).last() == SolverAction::ReportStep
            &&& usl_actions(locate_particles, output_steps, step).last() == SolverAction::ReportStep
        },
{
    let c = closing_actions(locate_particles, output_steps, step);
    let f = usf_actions(locate_particles, output_steps, step);
    let l = usl_actions(locate_particles, output_steps, step);
    assert(forall|i: int| 0 <= i < 5 ==> f[i] != SolverAction::ReportStep);
    assert(forall|i: int| 0 <= i < 5 ==> l[i] != SolverAction::ReportStep);
    if output_steps > 0 && step % output_steps == 0 {
        assert(c.last() == SolverAction::ReportStep);
        assert(f.last() == SolverAction::ReportStep);
        assert(l.last() == SolverAction::ReportStep);
        assert(f[f.len() - 1] == SolverAction::ReportStep);
        assert(l[l.len() - 1] == SolverAction::ReportStep);
    } else {
        assert(forall|i: int| 0 <= i < c.len() ==> c[i] != SolverAction::ReportStep);
        assert(forall|i: int| 0 <= i < f.len() ==> f[i] != SolverAction::ReportStep);
        assert(forall|i: int| 0 <= i < l.len() ==> l[i] != SolverAction::ReportStep);
    }
}

/// Every multiple of `output_steps` is a reported step.
pub proof fn law_every_multiple_is_reported(locate_particles: bool, output_steps: u64, k: u64)
    requires
        output_steps > 0,
        k * output_steps <= u64::MAX,
    ensures
        usf_actions(locate_particles, output_steps, (k * output_steps) as u64).last() == SolverAction::ReportStep,
        usl_actions(locate_particles, output_steps, (k * output_steps) as u64).last() == SolverAction::ReportStep,
{
    vstd::arithmetic::div_mod::lemma_mod_multiples_basic(k as int, output_steps as int);
    law_reported_exactly_on_output_steps(locate_particles, output_steps, (k * output_steps) as u64);
}

/// Appends the closing phases of a step.
fn push_closing(actions: &mut Vec<SolverAction>, locate_particles: bool, output_steps: u64, step: u64)
    ensures
        final(actions)@ == old(actions)@ + closing_actions(locate_particles, output_steps, step),
{
    if locate_particles {
        actions.push(SolverAction::LocateParticles);
    }
    if output_steps > 0 && step % output_steps == 0 {
        actions.push(SolverAction::ReportStep);
    }
    proof {
        assert(final(actions)@ =~= old(actions)@ + closing_actions(locate_particles, output_steps, step));
    }
}

/// Update Stress First (USF) scheme.
#[derive(Debug, Clone, Copy, PartialEq, Eq, Structural)]
pub struct SchemeUSF;

impl SchemeUSF {
    /// The scheme's name.
    pub fn name(&self) -> (r: &'static str)
        ensures
            r@ == "USF"@,
    {
        "USF"
    }

    /// The phases of step `step`: initialise, map mass and momentum,
    /// update stresses, map forces, move particles, then locate particles
    /// when `locate_particles` holds and report the step when it is an
    /// output step.
    pub fn step_actions(&self, locate_particles: bool, output_steps: u64, step: u64) -> (r: Vec<SolverAction>)
        ensures
            r@ == usf_actions(locate_particles, output_steps, step),
    {
        let mut actions = vec![
            SolverAction::Initialise,
            SolverAction::ComputeNodalKinematics,
            SolverAction::ComputeStressStrain,
            SolverAction::ComputeForces,
            SolverAction::ComputeParticleKinematics,
        ];
        push_closing(&mut actions, locate_particles, output_steps, step);
        actions
    }
}

/// Update Stress Last (USL) scheme.
#[derive(Debug, Clone, Copy, PartialEq, Eq, Structural)]
pub struct SchemeUSL;

impl SchemeUSL {
    /// The scheme's name.
    pub fn name(&self) -> (r: &'static str)
        ensures
            r@ == "USL"@,
    {
        "USL"
    }

    /// The phases of step `step`: initialise, map mass and momentum, map
    /// forces, move particles, update stresses, then locate particles when
    /// `locate_particles` holds and report the step when it is an output
    /// step.
    pub fn step_actions(&self, locate_particles: bool, output_steps: u64, step: u64) -> (r: Vec<SolverAction>)
        ensures
            r@ == usl_actions(locate_particles, output_steps, step),
    {
        let mut actions = vec![
            SolverAction::Initialise,
            SolverAction::ComputeNodalKinematics,
            SolverAction::ComputeForces,
            SolverAction::ComputeParticleKinematics,
            SolverAction::ComputeStressStrain,
        ];
        push_closing(&mut actions, locate_particles, output_steps, step);
        actions
    }
}

/// The scheme an explicit solver runs.
#[derive(Debug, Clone, Copy, PartialEq, Eq, Structural)]
pub enum Scheme {
    Usf(SchemeUSF),
    Usl(SchemeUSL),
}

impl Scheme {
    /// The scheme named by the analysis setting `mpm_scheme`: USF when it
    /// reads `usf` in lower case, USL otherwise.
    pub fn from_name(mpm_scheme: &str) -> (s: Scheme)
        ensures
            s == (if lowercase(mpm_scheme@) == "usf"@ { Scheme::Usf(SchemeUSF) } else { Scheme::Usl(SchemeUSL) }),
    {
        let name = to_lowercase(mpm_scheme);
        if str_eq(name.as_str(), "usf") {
            Scheme::Usf(SchemeUSF)
        } else {
            Scheme::Usl(SchemeUSL)
        }
    }

    /// The scheme's name.
    pub fn name(&self) -> (r: &'static str)
        ensures
            r@ == (match self { Scheme::Usf(_) => "USF"@, Scheme::Usl(_) => "USL"@ }),
    {
        match self {
            Scheme::Usf(s) => s.name(),
            Scheme::Usl(s) => s.name(),
        }
    }

    /// The phases of step `step` under this scheme.
    pub fn step_actions(&self, locate_particles: bool, output_steps: u64, step: u64) -> (r: Vec<SolverAction>)
        ensures
            r@ == (match self {
                Scheme::Usf(_) => usf_actions(locate_particles, output_steps, step),
                Scheme::Usl(_) => usl_actions(locate_particles, output_steps, step),
            }),
    {
        match self {
            Scheme::Usf(s) => s.step_actions(locate_particles, output_steps, step),
            Scheme::Usl(s) => s.step_actions(locate_particles, output_steps, step),
        }
    }
}

} // verus!
