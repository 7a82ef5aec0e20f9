//! Grid node of the background mesh: its identity, activity and the set
//! of materials mapped to it. The node's physical state (coordinates,
//! mass, momentum, forces) is carried as an opaque payload.

use vstd::prelude::*;
use std::collections::BTreeSet;
use crate::types::Index;

verus! {

broadcast use vstd::std_specs::btree::group_btree_axioms, vstd::laws_cmp::group_laws_cmp;

/// A grid node that stores its id, whether it is active, the materials
/// mapped to it, its ghost id, and a payload `D` of physical state.
pub struct Node<D> {
    id: Index,
    status: bool,
    material_ids: BTreeSet<u32>,
    ghost_id: Index,
    data: D,
}

impl<D> Node<D> {
    /// The node's global id.
    pub closed spec fn spec_id(self) -> Index {
        self.id
    }

    /// Whether the node is active.
    pub closed spec fn spec_status(self) -> bool {
        self.status
    }

    /// The ids of the materials mapped to the node.
    pub closed spec fn spec_material_ids(self) -> Set<u32> {
        self.material_ids@
    }

    /// The node's ghost id.
    pub closed spec fn spec_ghost_id(self) -> Index {
        self.ghost_id
    }

    /// The node's physical state.
    pub closed spec fn spec_data(self) -> D {
        self.data
    }

    /// A fresh node: inactive, with no materials and the largest index as
    /// ghost id.
    pub fn new(id: Index, data: D) -> (n: Self)
        ensures
            n.spec_id() == id,
            !n.spec_status(),
            n.spec_material_ids() == Set::<u32>::empty(),
            n.spec_ghost_id() == u64::MAX,
            n.spec_data() == data,
    {
        Node { id, status: false, material_ids: BTreeSet::new(), ghost_id: u64::MAX, data }
    }

    /// The node's global id.
    pub fn id(&self) -> (r: Index)
        ensures
            r == self.spec_id(),
    {
        self.id
    }

    /// Whether the node is active.
    pub fn status(&self) -> (r: bool)
        ensures
            r == self.spec_status(),
    {
        self.status
    }

    /// Sets whether the node is active.
    pub fn assign_status(&mut self, status: bool)
        ensures
            final(self).spec_status() == status,
            final(self).spec_id() == old(self).spec_id(),
            final(self).spec_material_ids() == old(self).spec_material_ids(),
            final(self).spec_ghost_id() == old(self).spec_ghost_id(),
            final(self).spec_data() == old(self).spec_data(),
    {
        self.status = status;
    }

    /// Resets the node for a new time step: it becomes inactive. (The
    /// physical state in the payload is reset by its owner.)
    pub fn initialise(&mut self)
        ensures
            !final(self).spec_status(),
            final(self).spec_id() == old(self).spec_id(),
            final(self).spec_material_ids() == old(self).spec_material_ids(),
            final(self).spec_ghost_id() == old(self).spec_ghost_id(),
            final(self).spec_data() == old(self).spec_data(),
    {
        self.status = false;
    }

    /// Records that material `id` is mapped to this node.
    pub fn append_material_id(&mut self, id: u32)
        ensures
            final(self).spec_material_ids() == old(self).spec_material_ids().insert(id),
            final(self).spec_id() == old(self).spec_id(),
            final(self).spec_status() == old(self).spec_status(),
            final(self).spec_ghost_id() == old(self).spec_ghost_id(),
            final(self).spec_data() == old(self).spec_data(),
    {
        self.material_ids.insert(id);
    }

    /// The ids of the materials mapped to this node.
    pub fn material_ids(&self) -> (r: &BTreeSet<u32>)
        ensures
            r@ == self.spec_material_ids(),
    {
        &self.material_ids
    }

    /// The node's ghost id.
    pub fn ghost_id(&self) -> (r: Index)
        ensures
            r == self.spec_ghost_id(),
    {
        self.ghost_id
    }

    /// Sets the node's ghost id.
    pub fn set_ghost_id(&mut self, gid: Index)
        ensures
            final(self).spec_ghost_id() == gid,
            final(self).spec_id() == old(self).spec_id(),
            final(self).spec_status() == old(self).spec_status(),
            final(self).spec_material_ids() == old(self).spec_material_ids(),
            final(self).spec_data() == old(self).spec_data(),
    {
        self.ghost_id = gid;
    }

    /// The node's physical state.
    pub fn data(&self) -> (r: &D)
        ensures
            *r == self.spec_data(),
    {
        &self.data
    }

    /// The node's physical state, for updating.
    pub fn data_mut(&mut self) -> (r: &mut D)
        ensures
            *r == old(self).spec_data(),
            final(self).spec_data() == *final(r),
            final(self).spec_id() == old(self).spec_id(),
            final(self).spec_status() == old(self).spec_status(),
            final(self).spec_material_ids() == old(self).spec_material_ids(),
            final(self).spec_ghost_id() == old(self).spec_ghost_id(),
    {
        &mut self.data
    }
}

} // verus!
