//! Cell of the background mesh: its nodes, neighbours and the particles
//! it holds. The cell's geometry and element are carried as an opaque
//! payload.

use vstd::prelude::*;
use std::collections::BTreeSet;
use crate::types::Index;

verus! {

broadcast use vstd::std_specs::btree::group_btree_axioms, vstd::laws_cmp::group_laws_cmp;

/// `ids` extended with zeros to at least `n` entries.
pub open spec fn padded(ids: Seq<Index>, n: nat) -> Seq<Index> {
    if ids.len() >= n {
        ids
    } else {
        ids + Seq::new((n - ids.len()) as nat, |i: int| 0u64)
    }
}

/// `ids` without any occurrence of `id`, the others kept in order.
pub open spec fn without(ids: Seq<Index>, id: Index) -> Seq<Index> {
    ids.filter(|x: Index| x != id)
}

proof fn lemma_without_absent(ids: Seq<Index>, id: Index)
    requires
        !ids.contains(id),
    ensures
        without(ids, id) == ids,
    decreases ids.len(),
{
    reveal_with_fuel(Seq::filter, 1);
    if ids.len() > 0 {
        assert(!ids.drop_last().contains(id)) by {
            if ids.drop_last().contains(id) {
                let w = ids.drop_last().index_of(id);
                assert(ids[w] == id);
            }
        }
        lemma_without_absent(ids.drop_last(), id);
        assert(ids.drop_last().push(ids.last()) =~= ids);
    }
}

proof fn lemma_without_removes(ids: Seq<Index>, id: Index)
    ensures
        !without(ids, id).contains(id),
    decreases ids.len(),
{
    reveal_with_fuel(Seq::filter, 1);
    if ids.len() > 0 {
        lemma_without_removes(ids.drop_last(), id);
        let prev = without(ids.drop_last(), id);
        if without(ids, id).contains(id) {
            let w = without(ids, id).index_of(id);
            if ids.last() != id {
                assert(without(ids, id) == prev.push(ids.last()));
                if w < prev.len() {
                    assert(prev[w] == id);
                }
            }
        }
    }
}

/// Removing a particle undoes adding it: when `ids` does not hold `id`,
/// adding `id` and then removing it gives back `ids`; and after a removal
/// no occurrence of the removed id is left.
pub proof fn law_remove_undoes_add(ids: Seq<Index>, id: Index)
    ensures
        !ids.contains(id) ==> without(ids.push(id), id) == ids,
        !without(ids, id).contains(id),
{
    reveal_with_fuel(Seq::filter, 1);
    lemma_without_removes(ids, id);
    if !ids.contains(id) {
        lemma_without_absent(ids, id);
        assert(ids.push(id).drop_last() =~= ids);
    }
}

/// A cell in the background mesh.
pub struct Cell<D> {
    id: Index,
    rank: u32,
    previous_mpirank: u32,
    isoparametric: bool,
    nnodes: usize,
    particle_ids: Vec<Index>,
    nglobal_particles: u32,
    node_ids: Vec<Index>,
    neighbours: BTreeSet<Index>,
    data: D,
}

impl<D> Cell<D> {
    /// The cell's global id.
    pub closed spec fn spec_id(self) -> Index {
        self.id
    }

    /// The number of nodes the cell is made of.
    pub closed spec fn spec_capacity(self) -> usize {
        self.nnodes
    }

    /// Whether the cell's element is isoparametric.
    pub closed spec fn spec_isoparametric(self) -> bool {
        self.isoparametric
    }

    /// The ids of the particles in the cell, in the order they were added.
    pub closed spec fn spec_particle_ids(self) -> Seq<Index> {
        self.particle_ids@
    }

    /// The ids of the cell's nodes, by local node number.
    pub closed spec fn spec_node_ids(self) -> Seq<Index> {
        self.node_ids@
    }

    /// The ids of the neighbouring cells.
    pub closed spec fn spec_neighbours(self) -> Set<Index> {
        self.neighbours@
    }

    /// The rank that owns the cell.
    pub closed spec fn spec_rank(self) -> u32 {
        self.rank
    }

    /// The rank that owned the cell before the last change of rank.
    pub closed spec fn spec_previous_mpirank(self) -> u32 {
        self.previous_mpirank
    }

    /// The number of particles in the cell over all ranks.
    pub closed spec fn spec_nglobal_particles(self) -> u32 {
        self.nglobal_particles
    }

    /// The cell's geometry and element.
    pub closed spec fn spec_data(self) -> D {
        self.data
    }

    /// Whether everything but the particle list is as in `other`.
    pub open spec fn same_except_particles(self, other: Self) -> bool {
        &&& self.spec_id() == other.spec_id()
        &&& self.spec_capacity() == other.spec_capacity()
        &&& self.spec_isoparametric() == other.spec_isoparametric()
        &&& self.spec_node_ids() == other.spec_node_ids()
        &&& self.spec_neighbours() == other.spec_neighbours()
        &&& self.spec_rank() == other.spec_rank()
        &&& self.spec_previous_mpirank() == other.spec_previous_mpirank()
        &&& self.spec_nglobal_particles() == other.spec_nglobal_particles()
        &&& self.spec_data() == other.spec_data()
    }

    /// Whether everything but the neighbour set is as in `other`.
    pub open spec fn same_except_neighbours(self, other: Self) -> bool {
        &&& self.spec_id() == other.spec_id()
        &&& self.spec_capacity() == other.spec_capacity()
        &&& self.spec_isoparametric() == other.spec_isoparametric()
        &&& self.spec_node_ids() == other.spec_node_ids()
        &&& self.spec_particle_ids() == other.spec_particle_ids()
        &&& self.spec_rank() == other.spec_rank()
        &&& self.spec_previous_mpirank() == other.spec_previous_mpirank()
        &&& self.spec_nglobal_particles() == other.spec_nglobal_particles()
        &&& self.spec_data() == other.spec_data()
    }

    /// Whether everything but the payload is as in `other`.
    pub open spec fn same_except_data(self, other: Self) -> bool {
        &&& self.spec_id() == other.spec_id()
        &&& self.spec_capacity() == other.spec_capacity()
        &&& self.spec_isoparametric() == other.spec_isoparametric()
        &&& self.spec_node_ids() == other.spec_node_ids()
        &&& self.spec_particle_ids() == other.spec_particle_ids()
        &&& self.spec_neighbours() == other.spec_neighbours()
        &&& self.spec_rank() == other.spec_rank()
        &&& self.spec_previous_mpirank() == other.spec_previous_mpirank()
        &&& self.spec_nglobal_particles() == other.spec_nglobal_particles()
    }

    /// A cell `id` of `nnodes` nodes, with no node assigned yet, no
    /// particles and no neighbours, owned by rank 0.
    pub fn new(id: Index, nnodes: usize, isoparametric: bool, data: D) -> (c: Self)
        ensures
            c.spec_id() == id,
            c.spec_capacity() == nnodes,
            c.spec_isoparametric() == isoparametric,
            c.spec_particle_ids() == Seq::<Index>::empty(),
            c.spec_node_ids() == Seq::<Index>::empty(),
            c.spec_neighbours() == Set::<Index>::empty(),
            c.spec_rank() == 0,
            c.spec_previous_mpirank() == 0,
            c.spec_nglobal_particles() == 0,
            c.spec_data() == data,
    {
        Cell {
            id,
            rank: 0,
            previous_mpirank: 0,
            isoparametric,
            nnodes,
            particle_ids: Vec::new(),
            nglobal_particles: 0,
            node_ids: Vec::with_capacity(nnodes),
            neighbours: BTreeSet::new(),
            data,
        }
    }

    /// The cell's global id.
    pub fn id(&self) -> (r: Index)
        ensures
            r == self.spec_id(),
    {
        self.id
    }

    /// Whether a node id is held for each of the cell's nodes.
    pub fn is_initialised(&self) -> (r: bool)
        ensures
            r == (self.spec_node_ids().len() == self.spec_capacity()),
    {
        self.node_ids.len() == self.nnodes
    }

    /// The number of particles in the cell.
    pub fn nparticles(&self) -> (r: usize)
        ensures
            r == self.spec_particle_ids().len(),
    {
        self.particle_ids.len()
    }

    /// Sets the number of particles in the cell over all ranks.
    pub fn set_nglobal_particles(&mut self, n: u32)
        ensures
            final(self).spec_nglobal_particles() == n,
            final(self).spec_id() == old(self).spec_id(),
            final(self).spec_capacity() == old(self).spec_capacity(),
            final(self).spec_isoparametric() == old(self).spec_isoparametric(),
            final(self).spec_node_ids() == old(self).spec_node_ids(),
            final(self).spec_particle_ids() == old(self).spec_particle_ids(),
            final(self).spec_neighbours() == old(self).spec_neighbours(),
            final(self).spec_rank() == old(self).spec_rank(),
            final(self).spec_previous_mpirank() == old(self).spec_previous_mpirank(),
            final(self).spec_data() == old(self).spec_data(),
    {
        self.nglobal_particles = n;
    }

    /// The number of particles in the cell over all ranks.
    pub fn nglobal_particles(&self) -> (r: u32)
        ensures
            r == self.spec_nglobal_particles(),
    {
        self.nglobal_particles
    }

    /// A cell is active when it holds at least one particle.
    pub fn status(&self) -> (r: bool)
        ensures
            r == (self.spec_particle_ids().len() > 0),
    {
        self.particle_ids.len() > 0
    }

    /// The ids of the particles in the cell.
    pub fn particle_ids(&self) -> (r: &Vec<Index>)
        ensures
            r@ == self.spec_particle_ids(),
    {
        &self.particle_ids
    }

    /// The number of node ids held so far.
    pub fn nnodes(&self) -> (r: usize)
        ensures
            r == self.spec_node_ids().len(),
    {
        self.node_ids.len()
    }

    /// The ids of the cell's nodes, by local node number.
    pub fn node_ids(&self) -> (r: &Vec<Index>)
        ensures
            r@ == self.spec_node_ids(),
    {
        &self.node_ids
    }

    /// Assigns node `node_id` as local node `local_id`. Refused (false) when
    /// `local_id` is not below the cell's number of nodes; local numbers
    /// skipped so far hold id 0.
    pub fn add_node(&mut self, local_id: usize, node_id: Index) -> (r: bool)
        ensures
            r == (local_id < old(self).spec_capacity()),
            r ==> final(self).spec_node_ids() == padded(
                old(self).spec_node_ids(),
                local_id as nat + 1,
            ).update(local_id as int, node_id),
            !r ==> final(self).spec_node_ids() == old(self).spec_node_ids(),
            final(self).spec_id() == old(self).spec_id(),
            final(self).spec_capacity() == old(self).spec_capacity(),
            final(self).spec_isoparametric() == old(self).spec_isoparametric(),
            final(self).spec_particle_ids() == old(self).spec_particle_ids(),
            final(self).spec_neighbours() == old(self).spec_neighbours(),
            final(self).spec_rank() == old(self).spec_rank(),
            final(self).spec_previous_mpirank() == old(self).spec_previous_mpirank(),
            final(self).spec_nglobal_particles() == old(self).spec_nglobal_particles(),
            final(self).spec_data() == old(self).spec_data(),
    {
        if local_id < self.nnodes {
            let ghost before = self.node_ids@;
            if self.node_ids.len() <= local_id {
                self.node_ids.resize(local_id + 1, 0);
                assert(self.node_ids@ =~= padded(before, local_id as nat + 1)) by {
                    assert forall|i: int| 0 <= i < self.node_ids@.len() implies
                        #[trigger] self.node_ids@[i] == padded(before, local_id as nat + 1)[i] by {
                        if i < before.len() {
                            assert(self.node_ids@.subrange(0, before.len() as int)[i] == before[i]);
                        }
                    }
                }
            }
            self.node_ids.set(local_id, node_id);
            true
        } else {
            false
        }
    }

    /// Adds `neighbour_id` as a neighbour; refused (false) for the cell's
    /// own id.
    pub fn add_neighbour(&mut self, neighbour_id: Index) -> (r: bool)
        ensures
            r == (neighbour_id != old(self).spec_id()),
            r ==> final(self).spec_neighbours() == old(self).spec_neighbours().insert(neighbour_id),
            !r ==> final(self).spec_neighbours() == old(self).spec_neighbours(),
            final(self).same_except_neighbours(*old(self)),
    {
        if neighbour_id != self.id {
            self.neighbours.insert(neighbour_id);
            true
        } else {
            false
        }
    }

    /// The number of neighbouring cells.
    pub fn nneighbours(&self) -> (r: usize)
        ensures
            r == self.spec_neighbours().len(),
    {
        self.neighbours.len()
    }

    /// The ids of the neighbouring cells.
    pub fn neighbours(&self) -> (r: &BTreeSet<Index>)
        ensures
            r@ == self.spec_neighbours(),
    {
        &self.neighbours
    }

    /// Adds particle `id` to the cell; always accepted.
    pub fn add_particle_id(&mut self, id: Index) -> (r: bool)
        ensures
            r,
            final(self).spec_particle_ids() == old(self).spec_particle_ids().push(id),
            final(self).same_except_particles(*old(self)),
    {
        self.particle_ids.push(id);
        true
    }

    /// Removes every occurrence of particle `id` from the cell.
    pub fn remove_particle_id(&mut self, id: Index)
        ensures
            final(self).spec_particle_ids() == without(old(self).spec_particle_ids(), id),
            final(self).same_except_particles(*old(self)),
    {
        let mut kept: Vec<Index> = Vec::new();
        let mut i: usize = 0;
        while i < self.particle_ids.len()
            invariant
                i <= self.particle_ids@.len(),
                kept@ == without(self.particle_ids@.take(i as int), id),
            decreases self.particle_ids@.len() - i,
        {
            let pid = self.particle_ids[i];
            proof {
                let s = self.particle_ids@.take(i as int + 1);
                assert(s.drop_last() =~= self.particle_ids@.take(i as int));
                reveal_with_fuel(Seq::filter, 1);
            }
            if pid != id {
                kept.push(pid);
            }
            i = i + 1;
        }
        assert(self.particle_ids@.take(i as int) =~= self.particle_ids@);
        self.particle_ids = kept;
    }

    /// Removes all particles from the cell.
    pub fn clear_particle_ids(&mut self)
        ensures
            final(self).spec_particle_ids() == Seq::<Index>::empty(),
            final(self).same_except_particles(*old(self)),
    {
        self.particle_ids.clear();
    }

    /// The rank that owns the cell.
    pub fn rank(&self) -> (r: u32)
        ensures
            r == self.spec_rank(),
    {
        self.rank
    }

    /// Moves the cell to `rank`, remembering the rank it leaves.
    pub fn set_rank(&mut self, rank: u32)
        ensures
            final(self).spec_rank() == rank,
            final(self).spec_previous_mpirank() == old(self).spec_rank(),
            final(self).spec_id() == old(self).spec_id(),
            final(self).spec_capacity() == old(self).spec_capacity(),
            final(self).spec_isoparametric() == old(self).spec_isoparametric(),
            final(self).spec_node_ids() == old(self).spec_node_ids(),
            final(self).spec_particle_ids() == old(self).spec_particle_ids(),
            final(self).spec_neighbours() == old(self).spec_neighbours(),
            final(self).spec_nglobal_particles() == old(self).spec_nglobal_particles(),
            final(self).spec_data() == old(self).spec_data(),
    {
        self.previous_mpirank = self.rank;
        self.rank = rank;
    }

    /// The rank that owned the cell before the last change of rank.
    pub fn previous_mpirank(&self) -> (r: u32)
        ensures
            r == self.spec_previous_mpirank(),
    {
        self.previous_mpirank
    }

    /// The cell's geometry and element.
    pub fn data(&self) -> (r: &D)
        ensures
            *r == self.spec_data(),
    {
        &self.data
    }

    /// The cell's geometry and element, for updating.
    pub fn data_mut(&mut self) -> (r: &mut D)
        ensures
            *r == old(self).spec_data(),
            final(self).spec_data() == *final(r),
            final(self).same_except_data(*old(self)),
    {
        &mut self.data
    }
}

} // verus!
