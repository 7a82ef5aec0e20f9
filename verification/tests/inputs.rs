use mpm::analysis::analysis_dimension;
use mpm::config::{default_check_duplicates, default_false, default_isoparametric, default_scheme};
use mpm::functions::{function_kind, FunctionKind};
use mpm::mesh_ascii::{parse_mesh_cells, parse_particles_cells, particles_cells_text};
use mpm::scheme::{Scheme, SchemeUSF, SchemeUSL, SolverAction};
use mpm::types::DampingType;

#[test]
fn mesh_cells_skip_header_and_short_lines() {
    let text = "3\n0 1 2 3 4\n\n7\n1 4 x 5 +6\n";
    let cells = parse_mesh_cells(text);
    assert_eq!(cells, vec![vec![1, 2, 3, 4], vec![4, 5, 6]]);
}

#[test]
fn mesh_cells_of_empty_text() {
    assert!(parse_mesh_cells("").is_empty());
    assert!(parse_mesh_cells("2").is_empty());
}

#[test]
fn particles_cells_read_and_write() {
    let pairs = parse_particles_cells("0 5\n1\t7 extra\nsingle\nbad 3\n");
    assert_eq!(pairs, vec![[0, 5], [1, 7], [0, 3]]);
    let text = particles_cells_text(&[[0, 5], [12, 1234567890123]]);
    assert_eq!(text, "0\t5\n12\t1234567890123\n");
    assert_eq!(parse_particles_cells(&text), vec![[0, 5], [12, 1234567890123]]);
    assert_eq!(particles_cells_text(&[]), "");
}

#[test]
fn overflowing_ids_are_not_numbers() {
    let pairs = parse_particles_cells("18446744073709551616 18446744073709551615\n");
    assert_eq!(pairs, vec![[0, u64::MAX]]);
}

#[test]
fn scheme_phases() {
    let usf = SchemeUSF.step_actions(true, 10, 20);
    assert_eq!(
        usf,
        vec![
            SolverAction::Initialise,
            SolverAction::ComputeNodalKinematics,
            SolverAction::ComputeStressStrain,
            SolverAction::ComputeForces,
            SolverAction::ComputeParticleKinematics,
            SolverAction::LocateParticles,
            SolverAction::ReportStep,
        ]
    );
    let usl = SchemeUSL.step_actions(false, 0, 0);
    assert_eq!(
        usl,
        vec![
            SolverAction::Initialise,
            SolverAction::ComputeNodalKinematics,
            SolverAction::ComputeForces,
            SolverAction::ComputeParticleKinematics,
            SolverAction::ComputeStressStrain,
        ]
    );
    assert_eq!(SchemeUSL.step_actions(true, 3, 4).last(), Some(&SolverAction::LocateParticles));
    assert_eq!(SchemeUSF.name(), "USF");
    assert_eq!(SchemeUSL.name(), "USL");
}

#[test]
fn scheme_from_configuration() {
    assert_eq!(Scheme::from_name("usf"), Scheme::Usf(SchemeUSF));
    assert_eq!(Scheme::from_name("USF"), Scheme::Usf(SchemeUSF));
    assert_eq!(Scheme::from_name("usl"), Scheme::Usl(SchemeUSL));
    assert_eq!(Scheme::from_name("musl"), Scheme::Usl(SchemeUSL));
    assert_eq!(Scheme::from_name("Usf").name(), "USF");
    assert_eq!(Scheme::from_name(&default_scheme()).step_actions(false, 1, 1)[2], SolverAction::ComputeStressStrain);
}

#[test]
fn function_and_analysis_types() {
    assert_eq!(function_kind("Linear"), Ok(FunctionKind::Linear));
    assert_eq!(function_kind("Sin"), Ok(FunctionKind::Sin));
    assert_eq!(function_kind("Cos"), Err("Unknown function type: Cos".to_string()));
    assert_eq!(analysis_dimension("MPMExplicit2D"), Ok(2));
    assert_eq!(analysis_dimension("MPMExplicit3D"), Ok(3));
    assert_eq!(analysis_dimension("MPMImplicit2D"), Err("Unknown analysis type: MPMImplicit2D".to_string()));
}

#[test]
fn damping_and_defaults() {
    assert_eq!(DampingType::from_name("cundall"), DampingType::Cundall);
    assert_eq!(DampingType::from_name("Cundall"), DampingType::NoDamping);
    assert_eq!(DampingType::from_name("none"), DampingType::NoDamping);
    assert!(default_isoparametric());
    assert!(default_check_duplicates());
    assert!(!default_false());
    assert_eq!(default_scheme(), "usf");
}

#[test]
fn line_endings_and_unicode_whitespace() {
    let pairs = parse_particles_cells("0\u{a0}5\r\n1\u{2003}7\n\r\n2 3");
    assert_eq!(pairs, vec![[0, 5], [1, 7], [2, 3]]);
    let cells = parse_mesh_cells("1\r\n0\t4 5\u{3000}6\r\n");
    assert_eq!(cells, vec![vec![4, 5, 6]]);
}
