//! Names of the state variables each constitutive model keeps per particle,
//! in the order the models report and write them.

use vstd::prelude::*;
use vstd::string::StringExecFns;

verus! {

/// The character sequences of a list of strings.
pub open spec fn names_of(v: Seq<String>) -> Seq<Seq<char>> {
    v.map_values(|s: String| s@)
}

/// The state variables of the Mohr-Coulomb model.
pub open spec fn mohr_coulomb_names() -> Seq<Seq<char>> {
    seq!["phi"@, "psi"@, "cohesion"@, "epsilon"@, "rho"@, "theta"@, "pdstrain"@]
}

/// The state variables of the Modified Cam Clay model: fourteen always,
/// three more with bonding, one more with subloading.
pub open spec fn modified_cam_clay_names(bonding: bool, subloading: bool) -> Seq<Seq<char>> {
    let base = seq![
        "bulk_modulus"@, "shear_modulus"@, "p"@, "q"@, "theta"@, "pc"@,
        "void_ratio"@, "delta_phi"@, "M_theta"@, "f_function"@,
        "dpvstrain"@, "dpdstrain"@, "pvstrain"@, "pdstrain"@,
    ];
    let bonded = if bonding { base + seq!["chi"@, "pcd"@, "pcc"@] } else { base };
    if subloading { bonded.push("subloading_r"@) } else { bonded }
}

/// The state variables of the NorSand model: eight scalars, the six
/// plastic strain components, and the two bond pressures with bonding.
pub open spec fn norsand_names(bond_model: bool) -> Seq<Seq<char>> {
    let base = seq![
        "M_theta"@, "M_image"@, "M_image_tc"@, "void_ratio"@,
        "e_image"@, "psi_image"@, "p_image"@, "pdstrain"@,
        "plastic_strain0"@, "plastic_strain1"@, "plastic_strain2"@,
        "plastic_strain3"@, "plastic_strain4"@, "plastic_strain5"@,
    ];
    if bond_model { base + seq!["p_cohesion"@, "p_dilation"@] } else { base }
}

/// The state variable of the Newtonian and Bingham fluids.
pub open spec fn fluid_names() -> Seq<Seq<char>> {
    seq!["pressure"@]
}

/// The code of the character at position `k` of `s`, 0 past its end.
spec fn letter(s: Seq<char>, k: int) -> int {
    if k < s.len() { s[k] as u32 as int } else { 0 }
}

/// A number that tells the state variable names apart: the length and the
/// first three characters.
spec fn fingerprint(s: Seq<char>) -> int {
    s.len() * 16777216 + letter(s, 0) * 65536 + letter(s, 1) * 256 + letter(s, 2)
}

/// The position of a name in the full Modified Cam Clay list (both
/// switches on), told by its fingerprint.
spec fn cam_clay_slot(s: Seq<char>) -> int {
    let f = fingerprint(s);
    if false {
        -1
    } else if f == 207779180 {
        0
    } else if f == 225667173 {
        1
    } else if f == 24117248 {
        2
    } else if f == 24182784 {
        3
    } else if f == 91514981 {
        4
    } else if f == 40919808 {
        5
    } else if f == 175533929 {
        6
    } else if f == 157574508 {
        7
    } else if f == 122511220 {
        8
    } else if f == 174481254 {
        9
    } else if f == 157577334 {
        10
    } else if f == 157577316 {
        11
    } else if f == 141588083 {
        12
    } else if f == 141583475 {
        13
    } else if f == 56846441 {
        14
    } else if f == 57697124 {
        15
    } else if f == 57697123 {
        16
    } else if f == 208893282 {
        17
    } else {
        -1
    }
}

proof fn lemma_cam_clay_slots()
    ensures
        forall|k: int| 0 <= k < 18 ==> #[trigger] cam_clay_slot(modified_cam_clay_names(true, true)[k]) == k,
{
    reveal_strlit("bulk_modulus");
    reveal_strlit("shear_modulus");
    reveal_strlit("p");
    reveal_strlit("q");
    reveal_strlit("theta");
    reveal_strlit("pc");
    reveal_strlit("void_ratio");
    reveal_strlit("delta_phi");
    reveal_strlit("M_theta");
    reveal_strlit("f_function");
    reveal_strlit("dpvstrain");
    reveal_strlit("dpdstrain");
    reveal_strlit("pvstrain");
    reveal_strlit("pdstrain");
    reveal_strlit("chi");
    reveal_strlit("pcd");
    reveal_strlit("pcc");
    reveal_strlit("subloading_r");
    let full = modified_cam_clay_names(true, true);
    assert(full.len() == 18);
    assert(cam_clay_slot(full[0]) == 0);
    assert(cam_clay_slot(full[1]) == 1);
    assert(cam_clay_slot(full[2]) == 2);
    assert(cam_clay_slot(full[3]) == 3);
    assert(cam_clay_slot(full[4]) == 4);
    assert(cam_clay_slot(full[5]) == 5);
    assert(cam_clay_slot(full[6]) == 6);
    assert(cam_clay_slot(full[7]) == 7);
    assert(cam_clay_slot(full[8]) == 8);
    assert(cam_clay_slot(full[9]) == 9);
    assert(cam_clay_slot(full[10]) == 10);
    assert(cam_clay_slot(full[11]) == 11);
    assert(cam_clay_slot(full[12]) == 12);
    assert(cam_clay_slot(full[13]) == 13);
    assert(cam_clay_slot(full[14]) == 14);
    assert(cam_clay_slot(full[15]) == 15);
    assert(cam_clay_slot(full[16]) == 16);
    assert(cam_clay_slot(full[17]) == 17);
    assert forall|k: int| 0 <= k < 18 implies #[trigger] cam_clay_slot(full[k]) == k by {
        assert(k == 0 || k == 1 || k == 2 || k == 3 || k == 4 || k == 5 || k == 6 || k == 7 || k == 8 || k == 9 || k == 10 || k == 11 || k == 12 || k == 13 || k == 14 || k == 15 || k == 16 || k == 17);
    }
}

/// Every Modified Cam Clay list, whatever its switches, names each state
/// variable once: its entries are distinct, and it keeps the plastic
/// strain increments `dpvstrain` and `dpdstrain`, and `pdstrain`.
pub proof fn law_modified_cam_clay_names_are_distinct(bonding: bool, subloading: bool)
    ensures
        modified_cam_clay_names(bonding, subloading).no_duplicates(),
        modified_cam_clay_names(bonding, subloading).contains("dpvstrain"@),
        modified_cam_clay_names(bonding, subloading).contains("dpdstrain"@),
        modified_cam_clay_names(bonding, subloading).contains("pdstrain"@),
{
    let full = modified_cam_clay_names(true, true);
    let n = modified_cam_clay_names(bonding, subloading);
    lemma_cam_clay_slots();
    assert forall|i: int| 0 <= i < n.len() implies
        #[trigger] n[i] == full[if bonding || i < 14 { i } else { 17 }] by {
        if i < 14 {
            assert(n[i] == full[i]);
        } else if bonding {
            assert(n[i] == full[i]);
        } else {
            assert(n[i] == full[17]);
        }
    }
    assert forall|i: int, j: int| 0 <= i < n.len() && 0 <= j < n.len() && i != j implies n[i] != n[j] by {
        let ei = if bonding || i < 14 { i } else { 17 };
        let ej = if bonding || j < 14 { j } else { 17 };
        assert(n[i] == full[ei]);
        assert(n[j] == full[ej]);
        assert(cam_clay_slot(full[ei]) == ei);
        assert(cam_clay_slot(full[ej]) == ej);
    }
    assert(n[10] == full[10]);
    assert(n[11] == full[11]);
    assert(n[13] == full[13]);
    reveal_strlit("dpvstrain");
    reveal_strlit("dpdstrain");
    reveal_strlit("pdstrain");
}

fn push_name(v: &mut Vec<String>, name: &str)
    ensures
        names_of(final(v)@) == names_of(old(v)@).push(name@),
{
    v.push(String::from_str(name));
    assert(names_of(v@) =~= names_of(old(v)@).push(name@));
}

fn names_from(list: &[&str]) -> (r: Vec<String>)
    ensures
        names_of(r@) == list@.map_values(|s: &str| s@),
{
    let mut v: Vec<String> = Vec::new();
    let mut i: usize = 0;
    while i < list.len()
        invariant
            i <= list@.len(),
            names_of(v@) == list@.subrange(0, i as int).map_values(|s: &str| s@),
        decreases list@.len() - i,
    {
        push_name(&mut v, list[i]);
        assert(list@.subrange(0, i + 1).map_values(|s: &str| s@)
            =~= list@.subrange(0, i as int).map_values(|s: &str| s@).push(list@[i as int]@));
        i = i + 1;
    }
    assert(list@.subrange(0, i as int) =~= list@);
    v
}

/// The state variables of the Mohr-Coulomb model.
pub fn mohr_coulomb_state_variables() -> (r: Vec<String>)
    ensures
        names_of(r@) == mohr_coulomb_names(),
{
    let list = ["phi", "psi", "cohesion", "epsilon", "rho", "theta", "pdstrain"];
    let r = names_from(&list);
    assert(names_of(r@) =~= mohr_coulomb_names());
    r
}

/// The state variables of the Modified Cam Clay model with the given
/// bonding and subloading switches.
pub fn modified_cam_clay_state_variables(bonding: bool, subloading: bool) -> (r: Vec<String>)
    ensures
        names_of(r@) == modified_cam_clay_names(bonding, subloading),
{
    let list = [
        "bulk_modulus", "shear_modulus", "p", "q", "theta", "pc",
        "void_ratio", "delta_phi", "M_theta", "f_function",
        "dpvstrain", "dpdstrain", "pvstrain", "pdstrain",
    ];
    let mut r = names_from(&list);
    if bonding {
        push_name(&mut r, "chi");
        push_name(&mut r, "pcd");
        push_name(&mut r, "pcc");
    }
    if subloading {
        push_name(&mut r, "subloading_r");
    }
    assert(names_of(r@) =~= modified_cam_clay_names(bonding, subloading));
    r
}

/// The state variables of the NorSand model with or without bonding.
pub fn norsand_state_variables(bond_model: bool) -> (r: Vec<String>)
    ensures
        names_of(r@) == norsand_names(bond_model),
{
    let list = [
        "M_theta", "M_image", "M_image_tc", "void_ratio",
        "e_image", "psi_image", "p_image", "pdstrain",
        "plastic_strain0", "plastic_strain1", "plastic_strain2",
        "plastic_strain3", "plastic_strain4", "plastic_strain5",
    ];
    let mut r = names_from(&list);
    if bond_model {
        push_name(&mut r, "p_cohesion");
        push_name(&mut r, "p_dilation");
    }
    assert(names_of(r@) =~= norsand_names(bond_model));
    r
}

/// The state variables of the Newtonian and Bingham fluids.
pub fn fluid_state_variables() -> (r: Vec<String>)
    ensures
        names_of(r@) == fluid_names(),
{
    let mut r: Vec<String> = Vec::new();
    push_name(&mut r, "pressure");
    assert(names_of(r@) =~= fluid_names());
    r
}

/// The state variables of the linear elastic model: none.
pub fn linear_elastic_state_variables() -> (r: Vec<String>)
    ensures
        r@.len() == 0,
{
    Vec::new()
}

} // verus!
