use mpm::cell::Cell;
use mpm::mesh::Mesh;
use mpm::node::Node;
use mpm::particle::Particle;
use std::collections::HashMap;

type TestMesh = Mesh<(f64, f64), &'static str, (f64, f64)>;

#[test]
fn node_starts_inactive_and_collects_materials() {
    let mut n = Node::new(7, 1.5f64);
    assert_eq!(n.id(), 7);
    assert!(!n.status());
    assert_eq!(n.ghost_id(), u64::MAX);
    n.assign_status(true);
    n.append_material_id(3);
    n.append_material_id(1);
    n.append_material_id(3);
    assert_eq!(n.material_ids().iter().copied().collect::<Vec<_>>(), vec![1, 3]);
    n.initialise();
    assert!(!n.status());
    assert_eq!(n.material_ids().len(), 2);
    n.set_ghost_id(4);
    assert_eq!(n.ghost_id(), 4);
    *n.data_mut() = 2.5;
    assert_eq!(*n.data(), 2.5);
}

#[test]
fn cell_add_node_pads_with_zero() {
    let mut c = Cell::new(10, 4, true, ());
    assert!(!c.is_initialised());
    assert!(c.add_node(2, 42));
    assert_eq!(c.node_ids(), &vec![0, 0, 42]);
    assert_eq!(c.nnodes(), 3);
    assert!(!c.add_node(4, 5));
    assert!(c.add_node(0, 40));
    assert!(c.add_node(3, 43));
    assert_eq!(c.node_ids(), &vec![40, 0, 42, 43]);
    assert!(c.is_initialised());
}

#[test]
fn cell_particles_and_neighbours() {
    let mut c = Cell::new(1, 4, false, ());
    assert!(!c.status());
    assert!(c.add_particle_id(5));
    assert!(c.add_particle_id(6));
    assert!(c.add_particle_id(5));
    assert_eq!(c.nparticles(), 3);
    assert!(c.status());
    c.remove_particle_id(5);
    assert_eq!(c.particle_ids(), &vec![6]);
    c.clear_particle_ids();
    assert_eq!(c.nparticles(), 0);
    assert!(!c.add_neighbour(1));
    assert!(c.add_neighbour(2));
    assert!(c.add_neighbour(2));
    assert_eq!(c.nneighbours(), 1);
    assert!(c.neighbours().contains(&2));
    c.set_rank(3);
    c.set_rank(5);
    assert_eq!(c.rank(), 5);
    assert_eq!(c.previous_mpirank(), 3);
    c.set_nglobal_particles(9);
    assert_eq!(c.nglobal_particles(), 9);
}

#[test]
fn remove_after_add_restores_the_list() {
    let mut c = Cell::new(1, 4, false, ());
    c.add_particle_id(1);
    c.add_particle_id(2);
    c.add_particle_id(9);
    c.remove_particle_id(9);
    assert_eq!(c.particle_ids(), &vec![1, 2]);
}

#[test]
fn particle_bookkeeping() {
    let mut p = Particle::new(3, 0u8);
    assert!(p.status());
    assert_eq!(p.cell_id(), None);
    assert_eq!(p.material_id(), None);
    p.assign_cell_id(8);
    assert_eq!(p.cell_id(), Some(8));
    assert!(p.assign_material((1u64 << 32) + 7));
    assert_eq!(p.material_id(), Some(7));
    p.set_node_ids(vec![1, 2, 3]);
    assert_eq!(p.node_ids(), &vec![1, 2, 3]);
    p.assign_neighbours(vec![4, 5]);
    assert_eq!(p.nneighbours(), 2);
    assert_eq!(p.neighbours(), &vec![4, 5]);
    p.assign_status(false);
    assert!(!p.status());
}

fn square_mesh() -> TestMesh {
    // Nodes 0..6 on a 3x2 grid, two quadrilateral cells 100 and 101 sharing nodes 1 and 4.
    let mut m: TestMesh = Mesh::new(0, true);
    let coords = vec![(0.0, 0.0), (1.0, 0.0), (2.0, 0.0), (0.0, 1.0), (1.0, 1.0), (2.0, 1.0)];
    assert!(m.create_nodes(0, coords));
    let conn = vec![vec![0, 1, 4, 3], vec![1, 2, 5, 4]];
    assert!(m.create_cells(100, &conn, vec!["left", "right"]));
    m
}

#[test]
fn created_nodes_and_cells_are_found() {
    let m = square_mesh();
    assert_eq!(m.nnodes(), 6);
    assert_eq!(m.ncells(), 2);
    let n = m.node(4).unwrap();
    assert_eq!(n.id(), 4);
    assert_eq!(*n.data(), (1.0, 1.0));
    assert!(m.node(6).is_none());
    let c = m.cell(101).unwrap();
    assert_eq!(c.node_ids(), &vec![1, 2, 5, 4]);
    assert_eq!(*c.data(), "right");
    assert!(c.is_initialised());
    assert!(m.cell(102).is_none());
}

#[test]
fn cells_hold_only_existing_nodes() {
    let mut m: TestMesh = Mesh::new(1, false);
    m.create_nodes(0, vec![(0.0, 0.0), (1.0, 0.0)]);
    m.create_cells(0, &vec![vec![0, 9, 1, 8]], vec!["c"]);
    let c = m.cell(0).unwrap();
    assert_eq!(c.node_ids(), &vec![0, 0, 1]);
    assert!(!c.is_initialised());
}

#[test]
fn missing_nodes_read_as_node_zero_for_neighbours() {
    let mut m = square_mesh();
    m.create_cells(300, &vec![vec![2, 70, 80, 5]], vec!["gap"]);
    assert_eq!(m.cell(300).unwrap().node_ids(), &vec![2, 0, 0, 5]);
    m.find_cell_neighbours();
    assert!(m.cell(100).unwrap().neighbours().contains(&300));
}

#[test]
fn add_node_refuses_a_known_id() {
    let mut m = square_mesh();
    assert!(!m.add_node(Node::new(2, (9.0, 9.0))));
    assert_eq!(m.nnodes(), 6);
    assert!(m.add_node(Node::new(20, (9.0, 9.0))));
    assert_eq!(m.nnodes(), 7);
    assert_eq!(*m.node(20).unwrap().data(), (9.0, 9.0));
}

#[test]
fn recreated_ids_look_up_the_latest_node() {
    let mut m: TestMesh = Mesh::new(0, true);
    m.create_nodes(5, vec![(0.0, 0.0), (1.0, 0.0)]);
    m.create_nodes(6, vec![(2.0, 2.0)]);
    assert_eq!(m.nnodes(), 3);
    assert_eq!(*m.node(6).unwrap().data(), (2.0, 2.0));
    assert_eq!(*m.node(5).unwrap().data(), (0.0, 0.0));
}

#[test]
fn neighbours_share_a_node_both_ways() {
    let mut m = square_mesh();
    m.create_nodes(6, vec![(3.0, 0.0), (3.0, 1.0)]);
    m.create_cells(200, &vec![vec![2, 6, 7, 5]], vec!["far"]);
    m.find_cell_neighbours();
    let left = m.cell(100).unwrap();
    let right = m.cell(101).unwrap();
    let far = m.cell(200).unwrap();
    assert_eq!(left.neighbours().iter().copied().collect::<Vec<_>>(), vec![101]);
    assert_eq!(right.neighbours().iter().copied().collect::<Vec<_>>(), vec![100, 200]);
    assert_eq!(far.neighbours().iter().copied().collect::<Vec<_>>(), vec![101]);
}

#[test]
fn particles_receive_known_materials() {
    let mut m = square_mesh();
    m.add_material(1, 11);
    m.add_material(2, 22);
    assert!(m.create_particles(vec![(0.5, 0.5), (1.5, 0.5), (9.0, 9.0)], &vec![2, 5]));
    assert_eq!(m.nparticles(), 3);
    assert_eq!(m.particle(0).unwrap().material_id(), Some(22));
    assert_eq!(m.particle(1).unwrap().material_id(), None);
    assert_eq!(m.particle(2).unwrap().material_id(), None);
    assert_eq!(m.materials().get(&1), Some(&11));
}

#[test]
fn locating_particles_and_active_nodes() {
    let mut m = square_mesh();
    m.add_material(1, 1);
    m.create_particles(vec![(0.5, 0.5), (1.5, 0.5), (9.0, 9.0)], &vec![1, 1, 1]);
    // particle 0 lies in cell 100 only, particle 1 in both (the first wins), particle 2 in none
    let inside = vec![vec![true, false], vec![true, true], vec![false, false]];
    let unlocated = m.locate_particles(&inside);
    assert_eq!(unlocated, vec![2]);
    let p0 = m.particle(0).unwrap();
    assert_eq!(p0.cell_id(), Some(100));
    assert_eq!(p0.node_ids(), &vec![0, 1, 4, 3]);
    assert!(p0.status());
    assert!(!m.particle(2).unwrap().status());
    assert_eq!(m.cell(100).unwrap().particle_ids(), &vec![0, 1]);
    assert!(m.cell(101).unwrap().particle_ids().is_empty());

    m.find_active_nodes();
    let active: Vec<u64> = m.nodes_ref().iter().filter(|n| n.status()).map(|n| n.id()).collect();
    assert_eq!(active, vec![0, 1, 3, 4]);

    m.map_material_ids_to_nodes();
    assert!(m.node(4).unwrap().material_ids().contains(&1));
    assert!(m.node(2).unwrap().material_ids().is_empty());

    m.initialise_nodes();
    assert!(m.nodes_ref().iter().all(|n| !n.status()));
}

#[test]
fn payloads_can_be_updated() {
    let mut m = square_mesh();
    *m.node_data_mut(3).unwrap() = (7.0, 7.0);
    assert_eq!(*m.node(3).unwrap().data(), (7.0, 7.0));
    assert!(m.node_data_mut(99).is_none());
    *m.node_data_at(0) = (1.0, 2.0);
    assert_eq!(*m.node(0).unwrap().data(), (1.0, 2.0));
    *m.cell_data_at(1) = "renamed";
    assert_eq!(*m.cell(101).unwrap().data(), "renamed");
    m.create_particles(vec![(0.1, 0.1)], &vec![]);
    *m.particle_data_at(0) = (0.2, 0.2);
    assert_eq!(*m.particle(0).unwrap().data(), (0.2, 0.2));
}

#[test]
fn entity_sets() {
    let mut m = square_mesh();
    let mut sets = HashMap::new();
    sets.insert(1u32, vec![0u64, 3]);
    m.create_node_sets(sets.clone());
    m.create_cell_sets(sets.clone());
    m.create_particle_sets(sets);
    assert_eq!(m.node_set(1), Some(&vec![0, 3]));
    assert_eq!(m.cell_set(1), Some(&vec![0, 3]));
    assert_eq!(m.particle_set(1), Some(&vec![0, 3]));
    assert!(m.node_set(2).is_none());
    assert_eq!(m.id(), 0);
    assert!(m.is_isoparametric());
    assert_eq!(m.cells_ref().len(), 2);
    assert_eq!(m.particles_ref().len(), 0);
}
