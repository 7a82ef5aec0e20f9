use mpm::particle::particle_type;
use mpm::state_variables::{
    fluid_state_variables, linear_elastic_state_variables, modified_cam_clay_state_variables,
    mohr_coulomb_state_variables, norsand_state_variables,
};

#[test]
fn mohr_coulomb_lists_its_seven_variables() {
    let v = mohr_coulomb_state_variables();
    assert_eq!(v, vec!["phi", "psi", "cohesion", "epsilon", "rho", "theta", "pdstrain"]);
}

#[test]
fn modified_cam_clay_variables_follow_switches() {
    let plain = modified_cam_clay_state_variables(false, false);
    assert_eq!(plain.len(), 14);
    assert_eq!(plain[0], "bulk_modulus");
    assert_eq!(plain[13], "pdstrain");
    let bonded = modified_cam_clay_state_variables(true, false);
    assert_eq!(bonded.len(), 17);
    assert_eq!(&bonded[14..], &["chi", "pcd", "pcc"]);
    let both = modified_cam_clay_state_variables(true, true);
    assert_eq!(both.len(), 18);
    assert_eq!(both[17], "subloading_r");
    let sub = modified_cam_clay_state_variables(false, true);
    assert_eq!(sub.len(), 15);
    assert_eq!(sub[14], "subloading_r");
}

#[test]
fn norsand_variables_include_plastic_strains() {
    let v = norsand_state_variables(false);
    assert_eq!(v.len(), 14);
    for i in 0..6 {
        assert_eq!(v[8 + i], format!("plastic_strain{}", i));
    }
    let b = norsand_state_variables(true);
    assert_eq!(b.len(), 16);
    assert_eq!(b[14], "p_cohesion");
    assert_eq!(b[15], "p_dilation");
}

#[test]
fn fluids_and_elastic_variables() {
    assert_eq!(fluid_state_variables(), vec!["pressure"]);
    assert!(linear_elastic_state_variables().is_empty());
}

#[test]
fn particle_type_by_dimension() {
    assert_eq!(particle_type(2), "P2D");
    assert_eq!(particle_type(3), "P3D");
}
