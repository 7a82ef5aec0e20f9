//! Material point (particle): its identity, the cell and nodes it is
//! mapped to, its material and its neighbours. The particle's physical
//! state (coordinates, stresses, shape functions) is an opaque payload.

use vstd::prelude::*;
use crate::types::Index;

verus! {

/// A material point.
pub struct Particle<D> {
    id: Index,
    cell_id: Option<Index>,
    status: bool,
    material_id: Option<u32>,
    node_ids: Vec<Index>,
    neighbours: Vec<Index>,
    data: D,
}

impl<D> Particle<D> {
    /// The particle's id.
    pub closed spec fn spec_id(self) -> Index {
        self.id
    }

    /// The cell the particle was located in, if any.
    pub closed spec fn spec_cell_id(self) -> Option<Index> {
        self.cell_id
    }

    /// Whether the particle takes part in the computation.
    pub closed spec fn spec_status(self) -> bool {
        self.status
    }

    /// The particle's material id, once a material is assigned.
    pub closed spec fn spec_material_id(self) -> Option<u32> {
        self.material_id
    }

    /// The ids of the nodes of the particle's cell.
    pub closed spec fn spec_node_ids(self) -> Seq<Index> {
        self.node_ids@
    }

    /// The ids of the neighbouring particles.
    pub closed spec fn spec_neighbours(self) -> Seq<Index> {
        self.neighbours@
    }

    /// The particle's physical state.
    pub closed spec fn spec_data(self) -> D {
        self.data
    }

    /// Whether everything but the location (cell, nodes, status) is as in
    /// `other`.
    pub open spec fn same_except_location(self, other: Self) -> bool {
        &&& self.spec_id() == other.spec_id()
        &&& self.spec_material_id() == other.spec_material_id()
        &&& self.spec_neighbours() == other.spec_neighbours()
        &&& self.spec_data() == other.spec_data()
    }

    /// Whether everything but the payload is as in `other`.
    pub open spec fn same_except_data(self, other: Self) -> bool {
        &&& self.spec_id() == other.spec_id()
        &&& self.spec_cell_id() == other.spec_cell_id()
        &&& self.spec_status() == other.spec_status()
        &&& self.spec_material_id() == other.spec_material_id()
        &&& self.spec_node_ids() == other.spec_node_ids()
        &&& self.spec_neighbours() == other.spec_neighbours()
    }

    /// A fresh, active particle in no cell, with no material.
    pub fn new(id: Index, data: D) -> (p: Self)
        ensures
            p.spec_id() == id,
            p.spec_cell_id() is None,
            p.spec_status(),
            p.spec_material_id() is None,
            p.spec_node_ids() == Seq::<Index>::empty(),
            p.spec_neighbours() == Seq::<Index>::empty(),
            p.spec_data() == data,
    {
        Particle {
            id,
            cell_id: None,
            status: true,
            material_id: None,
            node_ids: Vec::new(),
            neighbours: Vec::new(),
            data,
        }
    }

    /// The particle's id.
    pub fn id(&self) -> (r: Index)
        ensures
            r == self.spec_id(),
    {
        self.id
    }

    /// The cell the particle was located in, if any.
    pub fn cell_id(&self) -> (r: Option<Index>)
        ensures
            r == self.spec_cell_id(),
    {
        self.cell_id
    }

    /// Records that the particle lies in cell `cell_id`.
    pub fn assign_cell_id(&mut self, cell_id: Index)
        ensures
            final(self).spec_cell_id() == Some(cell_id),
            final(self).spec_status() == old(self).spec_status(),
            final(self).spec_node_ids() == old(self).spec_node_ids(),
            final(self).same_except_location(*old(self)),
    {
        self.cell_id = Some(cell_id);
    }

    /// Whether the particle takes part in the computation.
    pub fn status(&self) -> (r: bool)
        ensures
            r == self.spec_status(),
    {
        self.status
    }

    /// Sets whether the particle takes part in the computation.
    pub fn assign_status(&mut self, status: bool)
        ensures
            final(self).spec_status() == status,
            final(self).spec_cell_id() == old(self).spec_cell_id(),
            final(self).spec_node_ids() == old(self).spec_node_ids(),
            final(self).same_except_location(*old(self)),
    {
        self.status = status;
    }

    /// The particle's material id, once a material is assigned.
    pub fn material_id(&self) -> (r: Option<u32>)
        ensures
            r == self.spec_material_id(),
    {
        self.material_id
    }

    /// Assigns the material whose own id is `material_id`; the particle
    /// keeps its lower 32 bits. Always accepted.
    pub fn assign_material(&mut self, material_id: Index) -> (r: bool)
        ensures
            r,
            final(self).spec_material_id() == Some(material_id as u32),
            final(self).spec_id() == old(self).spec_id(),
            final(self).spec_cell_id() == old(self).spec_cell_id(),
            final(self).spec_status() == old(self).spec_status(),
            final(self).spec_node_ids() == old(self).spec_node_ids(),
            final(self).spec_neighbours() == old(self).spec_neighbours(),
            final(self).spec_data() == old(self).spec_data(),
    {
        self.material_id = Some(material_id as u32);
        true
    }

    /// The ids of the nodes of the particle's cell.
    pub fn node_ids(&self) -> (r: &Vec<Index>)
        ensures
            r@ == self.spec_node_ids(),
    {
        &self.node_ids
    }

    /// Records the ids of the nodes of the particle's cell.
    pub fn set_node_ids(&mut self, ids: Vec<Index>)
        ensures
            final(self).spec_node_ids() == ids@,
            final(self).spec_cell_id() == old(self).spec_cell_id(),
            final(self).spec_status() == old(self).spec_status(),
            final(self).same_except_location(*old(self)),
    {
        self.node_ids = ids;
    }

    /// Records the ids of the neighbouring particles.
    pub fn assign_neighbours(&mut self, neighbours: Vec<Index>)
        ensures
            final(self).spec_neighbours() == neighbours@,
            final(self).spec_id() == old(self).spec_id(),
            final(self).spec_cell_id() == old(self).spec_cell_id(),
            final(self).spec_status() == old(self).spec_status(),
            final(self).spec_material_id() == old(self).spec_material_id(),
            final(self).spec_node_ids() == old(self).spec_node_ids(),
            final(self).spec_data() == old(self).spec_data(),
    {
        self.neighbours = neighbours;
    }

    /// The ids of the neighbouring particles.
    pub fn neighbours(&self) -> (r: &Vec<Index>)
        ensures
            r@ == self.spec_neighbours(),
    {
        &self.neighbours
    }

    /// The number of neighbouring particles.
    pub fn nneighbours(&self) -> (r: usize)
        ensures
            r == self.spec_neighbours().len(),
    {
        self.neighbours.len()
    }

    /// The particle's physical state.
    pub fn data(&self) -> (r: &D)
        ensures
            *r == self.spec_data(),
    {
        &self.data
    }

    /// The particle's physical state, for updating.
    pub fn data_mut(&mut self) -> (r: &mut D)
        ensures
            *r == old(self).spec_data(),
            final(self).spec_data() == *final(r),
            final(self).same_except_data(*old(self)),
    {
        &mut self.data
    }
}

/// The type tag written for a particle of an analysis of dimension `dim`:
/// `P2D` in two dimensions, `P3D` otherwise.
pub fn particle_type(dim: usize) -> (r: &'static str)
    ensures
        r@ == (if dim == 2 { "P2D"@ } else { "P3D"@ }),
{
    if dim == 2 { "P2D" } else { "P3D" }
}

} // verus!
