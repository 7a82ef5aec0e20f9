//! The mesh: nodes, cells and particles with their ids, the id lookup
//! tables, entity sets and materials, and the bookkeeping that connects
//! them (cell connectivity, particle location, active nodes, cell
//! neighbours).

use vstd::prelude::*;
use std::collections::HashMap;
use crate::cell::Cell;
use crate::node::Node;
use crate::particle::Particle;
use crate::types::Index;

verus! {

broadcast use vstd::std_specs::hash::group_hash_axioms, vstd::std_specs::vec::group_vec_axioms;

/// The top-level mesh container. `ND`, `CD` and `PD` are the physical
/// state carried by each node, cell and particle.
pub struct Mesh<ND, CD, PD> {
    id: u32,
    isoparametric: bool,
    nodes: Vec<Node<ND>>,
    cells: Vec<Cell<CD>>,
    particles: Vec<Particle<PD>>,
    node_map: HashMap<Index, usize>,
    cell_map: HashMap<Index, usize>,
    particle_map: HashMap<Index, usize>,
    node_sets: HashMap<u32, Vec<Index>>,
    cell_sets: HashMap<u32, Vec<Index>>,
    particle_sets: HashMap<u32, Vec<Index>>,
    materials: HashMap<u32, Index>,
}

/// Whether `index` maps ids to positions in `ids` that hold those ids.
pub open spec fn lookup_consistent(index: Map<Index, usize>, ids: Seq<Index>) -> bool {
    forall|k: Index| #[trigger] index.contains_key(k) ==> index[k] < ids.len() && ids[index[k] as int] == k
}

/// The lookup table after the ids `first .. first + n` were placed at
/// positions `start .. start + n`: a later entry replaces an earlier one.
pub open spec fn placed(index: Map<Index, usize>, first: Index, n: nat, start: nat) -> Map<Index, usize> {
    index.union_prefer_right(
        Map::new(|k: Index| first <= k < first + n, |k: Index| (start + (k - first)) as usize),
    )
}

/// `after` is `before` with one new node per entry of `data`, with ids
/// `gnid`, `gnid + 1`, ..., each id looking up its new node.
pub open spec fn nodes_created<ND, CD, PD>(
    before: Mesh<ND, CD, PD>,
    after: Mesh<ND, CD, PD>,
    gnid: Index,
    data: Seq<ND>,
) -> bool {
    &&& after.spec_nodes().len() == before.spec_nodes().len() + data.len()
    &&& forall|i: int| 0 <= i < before.spec_nodes().len() ==>
        #[trigger] after.spec_nodes()[i] == before.spec_nodes()[i]
    &&& forall|i: int| 0 <= i < data.len() ==>
        (#[trigger] after.spec_nodes()[before.spec_nodes().len() + i]).is_new((gnid + i) as Index, data[i])
    &&& after.node_index() == placed(before.node_index(), gnid, data.len(), before.spec_nodes().len())
    &&& after.same_but_nodes(before)
}

impl<ND, CD, PD> Mesh<ND, CD, PD> {
    /// The nodes, in the order they were added.
    pub closed spec fn spec_nodes(self) -> Seq<Node<ND>> {
        self.nodes@
    }

    /// The cells, in the order they were added.
    pub closed spec fn spec_cells(self) -> Seq<Cell<CD>> {
        self.cells@
    }

    /// The particles, in the order they were added.
    pub closed spec fn spec_particles(self) -> Seq<Particle<PD>> {
        self.particles@
    }

    /// Node id to position in `spec_nodes`.
    pub closed spec fn node_index(self) -> Map<Index, usize> {
        self.node_map@
    }

    /// Cell id to position in `spec_cells`.
    pub closed spec fn cell_index(self) -> Map<Index, usize> {
        self.cell_map@
    }

    /// Particle id to position in `spec_particles`.
    pub closed spec fn particle_index(self) -> Map<Index, usize> {
        self.particle_map@
    }

    /// Material key to the material's own id.
    pub closed spec fn spec_materials(self) -> Map<u32, Index> {
        self.materials@
    }

    /// Node sets by set id.
    pub closed spec fn spec_node_sets(self) -> Map<u32, Vec<Index>> {
        self.node_sets@
    }

    /// Cell sets by set id.
    pub closed spec fn spec_cell_sets(self) -> Map<u32, Vec<Index>> {
        self.cell_sets@
    }

    /// Particle sets by set id.
    pub closed spec fn spec_particle_sets(self) -> Map<u32, Vec<Index>> {
        self.particle_sets@
    }

    /// The mesh id.
    pub closed spec fn spec_id(self) -> u32 {
        self.id
    }

    /// Whether the mesh's elements are isoparametric.
    pub closed spec fn spec_isoparametric(self) -> bool {
        self.isoparametric
    }

    /// The ids of the nodes, in order.
    pub open spec fn node_ids(self) -> Seq<Index> {
        self.spec_nodes().map_values(|n: Node<ND>| n.spec_id())
    }

    /// The ids of the cells, in order.
    pub open spec fn cell_ids(self) -> Seq<Index> {
        self.spec_cells().map_values(|c: Cell<CD>| c.spec_id())
    }

    /// The ids of the particles, in order.
    pub open spec fn particle_ids(self) -> Seq<Index> {
        self.spec_particles().map_values(|p: Particle<PD>| p.spec_id())
    }

    /// Each lookup table maps an id to a position that holds that id, and
    /// no cell is its own neighbour.
    pub open spec fn wf(self) -> bool {
        &&& lookup_consistent(self.node_index(), self.node_ids())
        &&& lookup_consistent(self.cell_index(), self.cell_ids())
        &&& lookup_consistent(self.particle_index(), self.particle_ids())
        &&& self.spec_nodes().len() <= usize::MAX
        &&& self.spec_cells().len() <= usize::MAX
        &&& self.spec_particles().len() <= usize::MAX
        &&& forall|k: int| 0 <= k < self.spec_cells().len() ==>
            !(#[trigger] self.spec_cells()[k]).spec_neighbours().contains(self.spec_cells()[k].spec_id())
    }

    /// Whether only the nodes (and their lookup table) may differ from `other`.
    pub open spec fn same_but_nodes(self, other: Self) -> bool {
        &&& self.spec_id() == other.spec_id()
        &&& self.spec_isoparametric() == other.spec_isoparametric()
        &&& self.spec_cells() == other.spec_cells()
        &&& self.spec_particles() == other.spec_particles()
        &&& self.cell_index() == other.cell_index()
        &&& self.particle_index() == other.particle_index()
        &&& self.spec_materials() == other.spec_materials()
        &&& self.spec_node_sets() == other.spec_node_sets()
        &&& self.spec_cell_sets() == other.spec_cell_sets()
        &&& self.spec_particle_sets() == other.spec_particle_sets()
    }

    /// Whether only the cells (and their lookup table) may differ from `other`.
    pub open spec fn same_but_cells(self, other: Self) -> bool {
        &&& self.spec_id() == other.spec_id()
        &&& self.spec_isoparametric() == other.spec_isoparametric()
        &&& self.spec_nodes() == other.spec_nodes()
        &&& self.spec_particles() == other.spec_particles()
        &&& self.node_index() == other.node_index()
        &&& self.particle_index() == other.particle_index()
        &&& self.spec_materials() == other.spec_materials()
        &&& self.spec_node_sets() == other.spec_node_sets()
        &&& self.spec_cell_sets() == other.spec_cell_sets()
        &&& self.spec_particle_sets() == other.spec_particle_sets()
    }

    /// Whether only the particles (and their lookup table) may differ from `other`.
    pub open spec fn same_but_particles(self, other: Self) -> bool {
        &&& self.spec_id() == other.spec_id()
        &&& self.spec_isoparametric() == other.spec_isoparametric()
        &&& self.spec_nodes() == other.spec_nodes()
        &&& self.spec_cells() == other.spec_cells()
        &&& self.node_index() == other.node_index()
        &&& self.cell_index() == other.cell_index()
        &&& self.spec_materials() == other.spec_materials()
        &&& self.spec_node_sets() == other.spec_node_sets()
        &&& self.spec_cell_sets() == other.spec_cell_sets()
        &&& self.spec_particle_sets() == other.spec_particle_sets()
    }

    /// Whether the nodes, cells, particles and lookup tables are as in `other`.
    pub open spec fn same_entities(self, other: Self) -> bool {
        &&& self.spec_id() == other.spec_id()
        &&& self.spec_isoparametric() == other.spec_isoparametric()
        &&& self.spec_nodes() == other.spec_nodes()
        &&& self.spec_cells() == other.spec_cells()
        &&& self.spec_particles() == other.spec_particles()
        &&& self.node_index() == other.node_index()
        &&& self.cell_index() == other.cell_index()
        &&& self.particle_index() == other.particle_index()
    }

    /// An empty mesh.
    pub fn new(id: u32, isoparametric: bool) -> (m: Self)
        ensures
            m.wf(),
            m.spec_id() == id,
            m.spec_isoparametric() == isoparametric,
            m.spec_nodes() == Seq::<Node<ND>>::empty(),
            m.spec_cells() == Seq::<Cell<CD>>::empty(),
            m.spec_particles() == Seq::<Particle<PD>>::empty(),
            m.node_index() == Map::<Index, usize>::empty(),
            m.cell_index() == Map::<Index, usize>::empty(),
            m.particle_index() == Map::<Index, usize>::empty(),
            m.spec_materials() == Map::<u32, Index>::empty(),
            m.spec_node_sets() == Map::<u32, Vec<Index>>::empty(),
            m.spec_cell_sets() == Map::<u32, Vec<Index>>::empty(),
            m.spec_particle_sets() == Map::<u32, Vec<Index>>::empty(),
    {
        Mesh {
            id,
            isoparametric,
            nodes: Vec::new(),
            cells: Vec::new(),
            particles: Vec::new(),
            node_map: HashMap::new(),
            cell_map: HashMap::new(),
            particle_map: HashMap::new(),
            node_sets: HashMap::new(),
            cell_sets: HashMap::new(),
            particle_sets: HashMap::new(),
            materials: HashMap::new(),
        }
    }

    /// The mesh id.
    pub fn id(&self) -> (r: u32)
        ensures
            r == self.spec_id(),
    {
        self.id
    }

    /// Whether the mesh's elements are isoparametric.
    pub fn is_isoparametric(&self) -> (r: bool)
        ensures
            r == self.spec_isoparametric(),
    {
        self.isoparametric
    }

    /// The number of nodes.
    pub fn nnodes(&self) -> (r: usize)
        ensures
            r == self.spec_nodes().len(),
    {
        self.nodes.len()
    }

    /// The number of cells.
    pub fn ncells(&self) -> (r: usize)
        ensures
            r == self.spec_cells().len(),
    {
        self.cells.len()
    }

    /// The number of particles.
    pub fn nparticles(&self) -> (r: usize)
        ensures
            r == self.spec_particles().len(),
    {
        self.particles.len()
    }

    /// Appends one node per entry of `coordinates`, with ids `gnid`,
    /// `gnid + 1`, ...; each new id now looks up its new node. Always
    /// accepted.
    pub fn create_nodes(&mut self, gnid: Index, coordinates: Vec<ND>) -> (r: bool)
        requires
            old(self).wf(),
            gnid + coordinates@.len() <= u64::MAX + 1,
        ensures
            r,
            final(self).wf(),
            nodes_created(*old(self), *final(self), gnid, coordinates@),
    {
        let ghost old_nodes = self.nodes@;
        let ghost old_index = self.node_map@;
        let ghost cs = coordinates@;
        assert(cs.len() == coordinates.len());
        let mut i: usize = 0;
        for data in it: coordinates.into_iter()
            invariant
                i == it.index(),
                it.seq() == cs,
                i <= cs.len(),
                cs.len() <= usize::MAX,
                gnid + cs.len() <= u64::MAX + 1,
                self.nodes@.len() == old_nodes.len() + i,
                forall|j: int| 0 <= j < old_nodes.len() ==> #[trigger] self.nodes@[j] == old_nodes[j],
                forall|j: int| 0 <= j < i ==>
                    (#[trigger] self.nodes@[old_nodes.len() + j]).is_new((gnid + j) as Index, cs[j]),
                self.node_map@ == placed(old_index, gnid, i as nat, old_nodes.len()),
                lookup_consistent(self.node_map@, self.nodes@.map_values(|n: Node<ND>| n.spec_id())),
                self.same_but_nodes(*old(self)),
        {
            assert(i < cs.len());
            let nid = gnid + i as u64;
            let idx = self.nodes.len();
            self.nodes.push(Node::new(nid, data));
            self.node_map.insert(nid, idx);
            i = i + 1;
            proof {
                assert(self.node_map@ =~= placed(old_index, gnid, i as nat, old_nodes.len()));
            }
        }
        proof {
            assert(self.nodes.len() == self.nodes@.len());
        }
        true
    }
}

impl<ND, CD, PD> Mesh<ND, CD, PD> {
    /// Adds `node` unless a node with its id is already looked up by that
    /// id (then false, and nothing changes).
    pub fn add_node(&mut self, node: Node<ND>) -> (r: bool)
        requires
            old(self).wf(),
        ensures
            final(self).wf(),
            r == !old(self).node_index().contains_key(node.spec_id()),
            r ==> final(self).spec_nodes() == old(self).spec_nodes().push(node),
            r ==> final(self).node_index() == old(self).node_index().insert(
                node.spec_id(),
                old(self).spec_nodes().len() as usize,
            ),
            !r ==> *final(self) == *old(self),
            final(self).same_but_nodes(*old(self)),
    {
        let nid = node.id();
        if self.node_map.contains_key(&nid) {
            return false;
        }
        let idx = self.nodes.len();
        self.nodes.push(node);
        self.node_map.insert(nid, idx);
        proof {
            assert(self.nodes.len() == self.nodes@.len());
            assert(self.nodes@.map_values(|n: Node<ND>| n.spec_id()) =~= old(self).nodes@.map_values(
                |n: Node<ND>| n.spec_id(),
            ).push(nid));
        }
        true
    }

    /// The node looked up by `node_id`, if any.
    pub fn node(&self, node_id: Index) -> (r: Option<&Node<ND>>)
        requires
            self.wf(),
        ensures
            match r {
                Some(n) => self.node_index().contains_key(node_id) && *n == self.spec_nodes()[self.node_index()[node_id] as int],
                None => !self.node_index().contains_key(node_id),
            },
            r matches Some(n) ==> n.spec_id() == node_id,
    {
        match self.node_map.get(&node_id) {
            Some(idx) => Some(&self.nodes[*idx]),
            None => None,
        }
    }

    /// The physical state of the node looked up by `node_id`, for updating.
    pub fn node_data_mut(&mut self, node_id: Index) -> (r: Option<&mut ND>)
        requires
            old(self).wf(),
        ensures
            final(self).wf(),
            final(self).same_but_nodes(*old(self)),
            final(self).node_index() == old(self).node_index(),
            final(self).spec_nodes().len() == old(self).spec_nodes().len(),
            match r {
                Some(d) => {
                    let i = old(self).node_index()[node_id] as int;
                    &&& old(self).node_index().contains_key(node_id)
                    &&& *d == old(self).spec_nodes()[i].spec_data()
                    &&& final(self).spec_nodes()[i].spec_data() == *final(d)
                    &&& final(self).spec_nodes()[i].spec_id() == old(self).spec_nodes()[i].spec_id()
                    &&& final(self).spec_nodes()[i].spec_status() == old(self).spec_nodes()[i].spec_status()
                    &&& final(self).spec_nodes()[i].spec_material_ids() == old(self).spec_nodes()[i].spec_material_ids()
                    &&& final(self).spec_nodes()[i].spec_ghost_id() == old(self).spec_nodes()[i].spec_ghost_id()
                    &&& forall|j: int| 0 <= j < old(self).spec_nodes().len() && j != i ==>
                        #[trigger] final(self).spec_nodes()[j] == old(self).spec_nodes()[j]
                },
                None => !old(self).node_index().contains_key(node_id) && *final(self) == *old(self),
            },
    {
        match self.node_map.get(&node_id) {
            Some(idx) => {
                let i = *idx;
                Some(self.node_data_at(i))
            },
            None => None,
        }
    }

    /// The physical state of the node at position `i`, for updating.
    pub fn node_data_at(&mut self, i: usize) -> (r: &mut ND)
        requires
            old(self).wf(),
            i < old(self).spec_nodes().len(),
        ensures
            final(self).wf(),
            final(self).same_but_nodes(*old(self)),
            final(self).node_index() == old(self).node_index(),
            final(self).spec_nodes().len() == old(self).spec_nodes().len(),
            *r == old(self).spec_nodes()[i as int].spec_data(),
            final(self).spec_nodes()[i as int].spec_data() == *final(r),
            final(self).spec_nodes()[i as int].spec_id() == old(self).spec_nodes()[i as int].spec_id(),
            final(self).spec_nodes()[i as int].spec_status() == old(self).spec_nodes()[i as int].spec_status(),
            final(self).spec_nodes()[i as int].spec_material_ids() == old(self).spec_nodes()[i as int].spec_material_ids(),
            final(self).spec_nodes()[i as int].spec_ghost_id() == old(self).spec_nodes()[i as int].spec_ghost_id(),
            forall|j: int| 0 <= j < old(self).spec_nodes().len() && j != i ==>
                #[trigger] final(self).spec_nodes()[j] == old(self).spec_nodes()[j],
    {
        let node = &mut self.nodes[i];
        node.data_mut()
    }
}

/// One past the position of the last id of `ids` that `known` holds
/// (0 when it holds none).
pub open spec fn known_prefix_len(ids: Seq<Index>, known: Set<Index>) -> nat
    decreases ids.len(),
{
    if ids.len() == 0 {
        0
    } else if known.contains(ids.last()) {
        ids.len()
    } else {
        known_prefix_len(ids.drop_last(), known)
    }
}

/// The node ids a cell built from connectivity `ids` holds when only the
/// nodes in `known` exist: the connectivity up to its last existing node,
/// with 0 in place of each node that does not exist.
pub open spec fn connected(ids: Seq<Index>, known: Set<Index>) -> Seq<Index> {
    Seq::new(
        known_prefix_len(ids, known),
        |j: int| if known.contains(ids[j]) { ids[j] } else { 0u64 },
    )
}

proof fn lemma_known_prefix_len(ids: Seq<Index>, known: Set<Index>)
    ensures
        known_prefix_len(ids, known) <= ids.len(),
        known_prefix_len(ids, known) > 0 ==> known.contains(ids[known_prefix_len(ids, known) - 1]),
        forall|j: int| known_prefix_len(ids, known) <= j < ids.len() ==> !known.contains(#[trigger] ids[j]),
    decreases ids.len(),
{
    if ids.len() > 0 {
        lemma_known_prefix_len(ids.drop_last(), known);
        if !known.contains(ids.last()) {
            assert forall|j: int| known_prefix_len(ids, known) <= j < ids.len() implies !known.contains(
                #[trigger] ids[j],
            ) by {
                if j < ids.len() - 1 {
                    assert(ids.drop_last()[j] == ids[j]);
                }
            }
        }
    }
}

/// A new cell `id` built from connectivity `ids` when the nodes in `known` exist.
pub open spec fn is_new_cell<D>(c: Cell<D>, id: Index, ids: Seq<Index>, known: Set<Index>, iso: bool, data: D) -> bool {
    &&& c.spec_id() == id
    &&& c.spec_capacity() == ids.len()
    &&& c.spec_isoparametric() == iso
    &&& c.spec_particle_ids() == Seq::<Index>::empty()
    &&& c.spec_node_ids() == connected(ids, known)
    &&& c.spec_neighbours() == Set::<Index>::empty()
    &&& c.spec_rank() == 0
    &&& c.spec_previous_mpirank() == 0
    &&& c.spec_nglobal_particles() == 0
    &&& c.spec_data() == data
}

/// `after` is `before` with one new cell per entry of `connectivity`, with
/// ids `gnid`, `gnid + 1`, ..., each holding the nodes of its entry that
/// exist in `before` and its entry of `data`, and each id looking up its
/// new cell.
pub open spec fn cells_created<ND, CD, PD>(
    before: Mesh<ND, CD, PD>,
    after: Mesh<ND, CD, PD>,
    gnid: Index,
    connectivity: Seq<Seq<Index>>,
    data: Seq<CD>,
) -> bool {
    &&& after.spec_cells().len() == before.spec_cells().len() + connectivity.len()
    &&& forall|i: int| 0 <= i < before.spec_cells().len() ==>
        #[trigger] after.spec_cells()[i] == before.spec_cells()[i]
    &&& forall|i: int| 0 <= i < connectivity.len() ==>
        is_new_cell(
            #[trigger] after.spec_cells()[before.spec_cells().len() + i],
            (gnid + i) as Index,
            connectivity[i],
            before.node_index().dom(),
            before.spec_isoparametric(),
            data[i],
        )
    &&& after.cell_index() == placed(before.cell_index(), gnid, connectivity.len(), before.spec_cells().len())
    &&& after.same_but_cells(before)
}

impl<ND, CD, PD> Mesh<ND, CD, PD> {
    /// Assigns to `cell` each node of `ids` that exists in the mesh, by its
    /// position in `ids`.
    fn connect_cell(&self, cell: &mut Cell<CD>, ids: &Vec<Index>)
        requires
            self.wf(),
            old(cell).spec_capacity() == ids@.len(),
            old(cell).spec_node_ids() == Seq::<Index>::empty(),
        ensures
            final(cell).spec_node_ids() == connected(ids@, self.node_index().dom()),
            final(cell).spec_id() == old(cell).spec_id(),
            final(cell).spec_capacity() == old(cell).spec_capacity(),
            final(cell).spec_isoparametric() == old(cell).spec_isoparametric(),
            final(cell).spec_particle_ids() == old(cell).spec_particle_ids(),
            final(cell).spec_neighbours() == old(cell).spec_neighbours(),
            final(cell).spec_rank() == old(cell).spec_rank(),
            final(cell).spec_previous_mpirank() == old(cell).spec_previous_mpirank(),
            final(cell).spec_nglobal_particles() == old(cell).spec_nglobal_particles(),
            final(cell).spec_data() == old(cell).spec_data(),
    {
        let ghost known = self.node_index().dom();
        let mut local_id: usize = 0;
        while local_id < ids.len()
            invariant
                local_id <= ids@.len(),
                cell.spec_capacity() == ids@.len(),
                cell.spec_node_ids() == connected(ids@.take(local_id as int), known),
                cell.spec_id() == old(cell).spec_id(),
                cell.spec_capacity() == old(cell).spec_capacity(),
                cell.spec_isoparametric() == old(cell).spec_isoparametric(),
                cell.spec_particle_ids() == old(cell).spec_particle_ids(),
                cell.spec_neighbours() == old(cell).spec_neighbours(),
                cell.spec_rank() == old(cell).spec_rank(),
                cell.spec_previous_mpirank() == old(cell).spec_previous_mpirank(),
                cell.spec_nglobal_particles() == old(cell).spec_nglobal_particles(),
                cell.spec_data() == old(cell).spec_data(),
                known == self.node_index().dom(),
            decreases ids@.len() - local_id,
        {
            let node_id = ids[local_id];
            let ghost prefix = ids@.take(local_id as int);
            let ghost next = ids@.take(local_id as int + 1);
            proof {
                assert(next.drop_last() =~= prefix);
                lemma_known_prefix_len(prefix, known);
            }
            if self.node_map.contains_key(&node_id) {
                cell.add_node(local_id, node_id);
                proof {
                    assert(cell.spec_node_ids() =~= connected(next, known));
                }
            } else {
                proof {
                    assert(cell.spec_node_ids() =~= connected(next, known));
                }
            }
            local_id = local_id + 1;
        }
        assert(ids@.take(ids@.len() as int) =~= ids@);
    }

    /// Appends one cell per entry of `connectivity`, with ids `gnid`,
    /// `gnid + 1`, ...: each new cell has as many nodes as its entry lists
    /// and holds those of them that exist in the mesh; each new id now looks
    /// up its new cell. `cells_data` gives each cell's physical state.
    /// Always accepted.
    pub fn create_cells(&mut self, gnid: Index, connectivity: &Vec<Vec<Index>>, cells_data: Vec<CD>) -> (r: bool)
        requires
            old(self).wf(),
            cells_data@.len() == connectivity@.len(),
            gnid + connectivity@.len() <= u64::MAX + 1,
        ensures
            r,
            final(self).wf(),
            cells_created(
                *old(self),
                *final(self),
                gnid,
                connectivity@.map_values(|ids: Vec<Index>| ids@),
                cells_data@,
            ),
    {
        let ghost old_cells = self.cells@;
        let ghost old_index = self.cell_map@;
        let ghost ds = cells_data@;
        assert(ds.len() == cells_data.len());
        let ghost known = self.node_index().dom();
        let mut i: usize = 0;
        for data in it: cells_data.into_iter()
            invariant
                i == it.index(),
                it.seq() == ds,
                i <= ds.len(),
                ds.len() <= usize::MAX,
                ds.len() == connectivity@.len(),
                gnid + ds.len() <= u64::MAX + 1,
                self.cells@.len() == old_cells.len() + i,
                forall|j: int| 0 <= j < old_cells.len() ==> #[trigger] self.cells@[j] == old_cells[j],
                forall|j: int| 0 <= j < i ==>
                    is_new_cell(
                        #[trigger] self.cells@[old_cells.len() + j],
                        (gnid + j) as Index,
                        connectivity@[j]@,
                        known,
                        old(self).spec_isoparametric(),
                        ds[j],
                    ),
                self.cell_map@ == placed(old_index, gnid, i as nat, old_cells.len()),
                lookup_consistent(self.cell_map@, self.cells@.map_values(|c: Cell<CD>| c.spec_id())),
                self.wf(),
                known == self.node_index().dom(),
                self.same_but_cells(*old(self)),
        {
            assert(i < ds.len());
            let cid = gnid + i as u64;
            let ids = &connectivity[i];
            let mut cell = Cell::new(cid, ids.len(), self.isoparametric, data);
            self.connect_cell(&mut cell, ids);
            let idx = self.cells.len();
            self.cells.push(cell);
            self.cell_map.insert(cid, idx);
            i = i + 1;
            proof {
                assert(self.cell_map@ =~= placed(old_index, gnid, i as nat, old_cells.len()));
                assert(self.cells.len() == self.cells@.len());
            }
        }
        proof {
            let conn = connectivity@.map_values(|ids: Vec<Index>| ids@);
            assert forall|k: int| 0 <= k < conn.len() implies is_new_cell(
                #[trigger] self.spec_cells()[old_cells.len() + k],
                (gnid + k) as Index,
                conn[k],
                old(self).node_index().dom(),
                old(self).spec_isoparametric(),
                ds[k],
            ) by {
                assert(conn[k] == connectivity@[k]@);
            }
        }
        true
    }

    /// The cell looked up by `cell_id`, if any.
    pub fn cell(&self, cell_id: Index) -> (r: Option<&Cell<CD>>)
        requires
            self.wf(),
        ensures
            match r {
                Some(c) => self.cell_index().contains_key(cell_id) && *c == self.spec_cells()[self.cell_index()[cell_id] as int],
                None => !self.cell_index().contains_key(cell_id),
            },
            r matches Some(c) ==> c.spec_id() == cell_id,
    {
        match self.cell_map.get(&cell_id) {
            Some(idx) => Some(&self.cells[*idx]),
            None => None,
        }
    }

    /// The physical state of the cell at position `i`, for updating.
    pub fn cell_data_at(&mut self, i: usize) -> (r: &mut CD)
        requires
            old(self).wf(),
            i < old(self).spec_cells().len(),
        ensures
            final(self).wf(),
            final(self).same_but_cells(*old(self)),
            final(self).cell_index() == old(self).cell_index(),
            final(self).spec_cells().len() == old(self).spec_cells().len(),
            *r == old(self).spec_cells()[i as int].spec_data(),
            final(self).spec_cells()[i as int].spec_data() == *final(r),
            final(self).spec_cells()[i as int].same_except_data(old(self).spec_cells()[i as int]),
            forall|j: int| 0 <= j < old(self).spec_cells().len() && j != i ==>
                #[trigger] final(self).spec_cells()[j] == old(self).spec_cells()[j],
    {
        let cell = &mut self.cells[i];
        cell.data_mut()
    }
}

/// The material a particle created at position `i` receives: the one
/// keyed by `material_ids[i]`, when there is such an entry and such a
/// material; its id is kept in 32 bits.
pub open spec fn assigned_material(materials: Map<u32, Index>, material_ids: Seq<u32>, i: int) -> Option<u32> {
    if i < material_ids.len() && materials.contains_key(material_ids[i]) {
        Some(materials[material_ids[i]] as u32)
    } else {
        None
    }
}

/// A fresh particle `id` holding `data` with material `material_id`.
pub open spec fn is_new_particle<D>(p: Particle<D>, id: Index, data: D, material_id: Option<u32>) -> bool {
    &&& p.spec_id() == id
    &&& p.spec_cell_id() is None
    &&& p.spec_status()
    &&& p.spec_material_id() == material_id
    &&& p.spec_node_ids() == Seq::<Index>::empty()
    &&& p.spec_neighbours() == Seq::<Index>::empty()
    &&& p.spec_data() == data
}

/// `after` is `before` with one new particle per entry of `data`, with ids
/// 0, 1, ..., the particle at position `i` holding `data[i]` and the
/// material keyed by `material_ids[i]` where both exist, and each id
/// looking up its new particle.
pub open spec fn particles_created<ND, CD, PD>(
    before: Mesh<ND, CD, PD>,
    after: Mesh<ND, CD, PD>,
    data: Seq<PD>,
    material_ids: Seq<u32>,
) -> bool {
    &&& after.spec_particles().len() == before.spec_particles().len() + data.len()
    &&& forall|i: int| 0 <= i < before.spec_particles().len() ==>
        #[trigger] after.spec_particles()[i] == before.spec_particles()[i]
    &&& forall|i: int| 0 <= i < data.len() ==>
        is_new_particle(
            #[trigger] after.spec_particles()[before.spec_particles().len() + i],
            i as Index,
            data[i],
            assigned_material(before.spec_materials(), material_ids, i),
        )
    &&& after.particle_index() == placed(before.particle_index(), 0, data.len(), before.spec_particles().len())
    &&& after.same_but_particles(before)
}

impl<ND, CD, PD> Mesh<ND, CD, PD> {
    /// Appends one particle per entry of `coordinates`, with ids 0, 1, ...;
    /// the particle at position `i` receives the material keyed by
    /// `material_ids[i]` when both exist. Each new id now looks up its new
    /// particle. Always accepted.
    pub fn create_particles(&mut self, coordinates: Vec<PD>, material_ids: &Vec<u32>) -> (r: bool)
        requires
            old(self).wf(),
        ensures
            r,
            final(self).wf(),
            particles_created(*old(self), *final(self), coordinates@, material_ids@),
    {
        let ghost old_particles = self.particles@;
        let ghost old_index = self.particle_map@;
        let ghost ds = coordinates@;
        assert(ds.len() == coordinates.len());
        let mut i: usize = 0;
        for data in it: coordinates.into_iter()
            invariant
                i == it.index(),
                it.seq() == ds,
                i <= ds.len(),
                ds.len() <= usize::MAX,
                self.particles@.len() == old_particles.len() + i,
                forall|j: int| 0 <= j < old_particles.len() ==> #[trigger] self.particles@[j] == old_particles[j],
                forall|j: int| 0 <= j < i ==>
                    is_new_particle(
                        #[trigger] self.particles@[old_particles.len() + j],
                        j as Index,
                        ds[j],
                        assigned_material(old(self).spec_materials(), material_ids@, j),
                    ),
                self.particle_map@ == placed(old_index, 0, i as nat, old_particles.len()),
                lookup_consistent(self.particle_map@, self.particles@.map_values(|p: Particle<PD>| p.spec_id())),
                self.same_but_particles(*old(self)),
        {
            assert(i < ds.len());
            let pid = i as u64;
            let mut particle = Particle::new(pid, data);
            if i < material_ids.len() {
                match self.materials.get(&material_ids[i]) {
                    Some(mid) => {
                        particle.assign_material(*mid);
                    },
                    None => {},
                }
            }
            let idx = self.particles.len();
            self.particles.push(particle);
            self.particle_map.insert(pid, idx);
            i = i + 1;
            proof {
                assert(self.particle_map@ =~= placed(old_index, 0, i as nat, old_particles.len()));
            }
        }
        proof {
            assert(self.particles.len() == self.particles@.len());
        }
        true
    }

    /// The particle looked up by `particle_id`, if any.
    pub fn particle(&self, particle_id: Index) -> (r: Option<&Particle<PD>>)
        requires
            self.wf(),
        ensures
            match r {
                Some(p) => self.particle_index().contains_key(particle_id) && *p == self.spec_particles()[self.particle_index()[particle_id] as int],
                None => !self.particle_index().contains_key(particle_id),
            },
            r matches Some(p) ==> p.spec_id() == particle_id,
    {
        match self.particle_map.get(&particle_id) {
            Some(idx) => Some(&self.particles[*idx]),
            None => None,
        }
    }

    /// The physical state of the particle at position `i`, for updating.
    pub fn particle_data_at(&mut self, i: usize) -> (r: &mut PD)
        requires
            old(self).wf(),
            i < old(self).spec_particles().len(),
        ensures
            final(self).wf(),
            final(self).same_but_particles(*old(self)),
            final(self).particle_index() == old(self).particle_index(),
            final(self).spec_particles().len() == old(self).spec_particles().len(),
            *r == old(self).spec_particles()[i as int].spec_data(),
            final(self).spec_particles()[i as int].spec_data() == *final(r),
            final(self).spec_particles()[i as int].same_except_data(old(self).spec_particles()[i as int]),
            forall|j: int| 0 <= j < old(self).spec_particles().len() && j != i ==>
                #[trigger] final(self).spec_particles()[j] == old(self).spec_particles()[j],
    {
        let particle = &mut self.particles[i];
        particle.data_mut()
    }

    /// Registers the material whose own id is `material_id` under key `id`,
    /// replacing any material under that key.
    pub fn add_material(&mut self, id: u32, material_id: Index)
        requires
            old(self).wf(),
        ensures
            final(self).wf(),
            final(self).spec_materials() == old(self).spec_materials().insert(id, material_id),
            final(self).same_entities(*old(self)),
            final(self).spec_node_sets() == old(self).spec_node_sets(),
            final(self).spec_cell_sets() == old(self).spec_cell_sets(),
            final(self).spec_particle_sets() == old(self).spec_particle_sets(),
    {
        self.materials.insert(id, material_id);
    }

    /// The registered materials: key to the material's own id.
    pub fn materials(&self) -> (r: &HashMap<u32, Index>)
        ensures
            r@ == self.spec_materials(),
    {
        &self.materials
    }

    /// Replaces the node sets.
    pub fn create_node_sets(&mut self, sets: HashMap<u32, Vec<Index>>)
        requires
            old(self).wf(),
        ensures
            final(self).wf(),
            final(self).spec_node_sets() == sets@,
            final(self).same_entities(*old(self)),
            final(self).spec_materials() == old(self).spec_materials(),
            final(self).spec_cell_sets() == old(self).spec_cell_sets(),
            final(self).spec_particle_sets() == old(self).spec_particle_sets(),
    {
        self.node_sets = sets;
    }

    /// Replaces the cell sets.
    pub fn create_cell_sets(&mut self, sets: HashMap<u32, Vec<Index>>)
        requires
            old(self).wf(),
        ensures
            final(self).wf(),
            final(self).spec_cell_sets() == sets@,
            final(self).same_entities(*old(self)),
            final(self).spec_materials() == old(self).spec_materials(),
            final(self).spec_node_sets() == old(self).spec_node_sets(),
            final(self).spec_particle_sets() == old(self).spec_particle_sets(),
    {
        self.cell_sets = sets;
    }

    /// Replaces the particle sets.
    pub fn create_particle_sets(&mut self, sets: HashMap<u32, Vec<Index>>)
        requires
            old(self).wf(),
        ensures
            final(self).wf(),
            final(self).spec_particle_sets() == sets@,
            final(self).same_entities(*old(self)),
            final(self).spec_materials() == old(self).spec_materials(),
            final(self).spec_node_sets() == old(self).spec_node_sets(),
            final(self).spec_cell_sets() == old(self).spec_cell_sets(),
    {
        self.particle_sets = sets;
    }

    /// The node set `set_id`, if any.
    pub fn node_set(&self, set_id: u32) -> (r: Option<&Vec<Index>>)
        ensures
            match r {
                Some(v) => self.spec_node_sets().contains_key(set_id) && *v == self.spec_node_sets()[set_id],
                None => !self.spec_node_sets().contains_key(set_id),
            },
    {
        self.node_sets.get(&set_id)
    }

    /// The cell set `set_id`, if any.
    pub fn cell_set(&self, set_id: u32) -> (r: Option<&Vec<Index>>)
        ensures
            match r {
                Some(v) => self.spec_cell_sets().contains_key(set_id) && *v == self.spec_cell_sets()[set_id],
                None => !self.spec_cell_sets().contains_key(set_id),
            },
    {
        self.cell_sets.get(&set_id)
    }

    /// The particle set `set_id`, if any.
    pub fn particle_set(&self, set_id: u32) -> (r: Option<&Vec<Index>>)
        ensures
            match r {
                Some(v) => self.spec_particle_sets().contains_key(set_id) && *v == self.spec_particle_sets()[set_id],
                None => !self.spec_particle_sets().contains_key(set_id),
            },
    {
        self.particle_sets.get(&set_id)
    }

    /// All nodes, in the order they were added.
    pub fn nodes_ref(&self) -> (r: &Vec<Node<ND>>)
        ensures
            r@ == self.spec_nodes(),
    {
        &self.nodes
    }

    /// All cells, in the order they were added.
    pub fn cells_ref(&self) -> (r: &Vec<Cell<CD>>)
        ensures
            r@ == self.spec_cells(),
    {
        &self.cells
    }

    /// All particles, in the order they were added.
    pub fn particles_ref(&self) -> (r: &Vec<Particle<PD>>)
        ensures
            r@ == self.spec_particles(),
    {
        &self.particles
    }

    /// Resets every node for a new time step: all become inactive. (Their
    /// physical state is reset by its owner.)
    pub fn initialise_nodes(&mut self)
        requires
            old(self).wf(),
        ensures
            final(self).wf(),
            final(self).same_but_nodes(*old(self)),
            final(self).node_index() == old(self).node_index(),
            final(self).spec_nodes().len() == old(self).spec_nodes().len(),
            forall|i: int| 0 <= i < old(self).spec_nodes().len() ==> {
                let n = #[trigger] final(self).spec_nodes()[i];
                let o = old(self).spec_nodes()[i];
                &&& !n.spec_status()
                &&& n.spec_id() == o.spec_id()
                &&& n.spec_material_ids() == o.spec_material_ids()
                &&& n.spec_ghost_id() == o.spec_ghost_id()
                &&& n.spec_data() == o.spec_data()
            },
    {
        let mut i: usize = 0;
        while i < self.nodes.len()
            invariant
                i <= self.nodes@.len(),
                self.nodes@.len() == old(self).nodes@.len(),
                self.wf(),
                self.same_but_nodes(*old(self)),
                self.node_index() == old(self).node_index(),
                forall|j: int| 0 <= j < self.nodes@.len() ==> {
                    let n = #[trigger] self.nodes@[j];
                    let o = old(self).nodes@[j];
                    &&& (j < i ==> !n.spec_status())
                    &&& (j >= i ==> n.spec_status() == o.spec_status())
                    &&& n.spec_id() == o.spec_id()
                    &&& n.spec_material_ids() == o.spec_material_ids()
                    &&& n.spec_ghost_id() == o.spec_ghost_id()
                    &&& n.spec_data() == o.spec_data()
                },
            decreases self.nodes@.len() - i,
        {
            let ghost before = self.nodes@;
            self.nodes[i].initialise();
            proof {
                assert(self.nodes@.map_values(|n: Node<ND>| n.spec_id()) =~= before.map_values(
                    |n: Node<ND>| n.spec_id(),
                ));
            }
            i = i + 1;
        }
    }
}

/// Whether some active cell (one holding particles) among the first `k`
/// cells, or the active cell `k` within its first `t` local nodes, lists
/// node `id`.
pub open spec fn listed_by_active_cell<CD>(cells: Seq<Cell<CD>>, id: Index, k: int, t: int) -> bool {
    ||| exists|c: int|
        0 <= c < k && #[trigger] cells[c].spec_particle_ids().len() > 0 && cells[c].spec_node_ids().contains(id)
    ||| (0 <= k < cells.len() && cells[k].spec_particle_ids().len() > 0 && exists|u: int|
        0 <= u < t && #[trigger] cells[k].spec_node_ids()[u] == id)
}

/// Whether the node at position `i` is active once active nodes are found:
/// its id looks it up, and some cell holding particles lists it.
pub open spec fn node_is_active<ND, CD, PD>(m: Mesh<ND, CD, PD>, i: int) -> bool {
    let id = m.spec_nodes()[i].spec_id();
    &&& m.node_index().contains_key(id)
    &&& m.node_index()[id] == i
    &&& listed_by_active_cell(m.spec_cells(), id, m.spec_cells().len() as int, 0)
}

/// `after` is `before` with exactly the nodes that `node_is_active`
/// holds of marked active.
pub open spec fn active_nodes_found<ND, CD, PD>(before: Mesh<ND, CD, PD>, after: Mesh<ND, CD, PD>) -> bool {
    &&& after.same_but_nodes(before)
    &&& after.node_index() == before.node_index()
    &&& after.spec_nodes().len() == before.spec_nodes().len()
    &&& forall|i: int| 0 <= i < before.spec_nodes().len() ==> {
        let n = #[trigger] after.spec_nodes()[i];
        let o = before.spec_nodes()[i];
        &&& n.spec_status() == node_is_active(before, i)
        &&& n.spec_id() == o.spec_id()
        &&& n.spec_material_ids() == o.spec_material_ids()
        &&& n.spec_ghost_id() == o.spec_ghost_id()
        &&& n.spec_data() == o.spec_data()
    }
}

impl<ND, CD, PD> Mesh<ND, CD, PD> {
    /// Marks active exactly the nodes listed by a cell that holds particles
    /// (a node listed by id is the one that id looks up); all others become
    /// inactive.
    pub fn find_active_nodes(&mut self)
        requires
            old(self).wf(),
        ensures
            final(self).wf(),
            active_nodes_found(*old(self), *final(self)),
    {
        self.initialise_nodes();
        let ghost cells = self.cells@;
        let ghost nodes0 = self.nodes@;
        let mut k: usize = 0;
        while k < self.cells.len()
            invariant
                k <= cells.len(),
                self.cells@ == cells,
                cells == old(self).cells@,
                self.wf(),
                self.same_but_nodes(*old(self)),
                self.node_index() == old(self).node_index(),
                self.nodes@.len() == nodes0.len(),
                nodes0.len() == old(self).nodes@.len(),
                forall|i: int| 0 <= i < self.nodes@.len() ==> {
                    let n = #[trigger] self.nodes@[i];
                    let o = old(self).nodes@[i];
                    &&& n.spec_status() == (self.node_index().contains_key(n.spec_id())
                        && self.node_index()[n.spec_id()] == i
                        && listed_by_active_cell(cells, n.spec_id(), k as int, 0))
                    &&& n.spec_id() == o.spec_id()
                    &&& n.spec_material_ids() == o.spec_material_ids()
                    &&& n.spec_ghost_id() == o.spec_ghost_id()
                    &&& n.spec_data() == o.spec_data()
                },
            decreases cells.len() - k,
        {
            if self.cells[k].status() {
                let ids = self.cells[k].node_ids();
                let mut t: usize = 0;
                while t < ids.len()
                    invariant
                        k < cells.len(),
                        ids@ == cells[k as int].spec_node_ids(),
                        cells[k as int].spec_particle_ids().len() > 0,
                        t <= ids@.len(),
                        self.cells@ == cells,
                        self.wf(),
                        self.same_but_nodes(*old(self)),
                        self.node_index() == old(self).node_index(),
                        self.nodes@.len() == nodes0.len(),
                        forall|i: int| 0 <= i < self.nodes@.len() ==> {
                            let n = #[trigger] self.nodes@[i];
                            let o = old(self).nodes@[i];
                            &&& n.spec_status() == (self.node_index().contains_key(n.spec_id())
                                && self.node_index()[n.spec_id()] == i
                                && listed_by_active_cell(cells, n.spec_id(), k as int, t as int))
                            &&& n.spec_id() == o.spec_id()
                            &&& n.spec_material_ids() == o.spec_material_ids()
                            &&& n.spec_ghost_id() == o.spec_ghost_id()
                            &&& n.spec_data() == o.spec_data()
                        },
                    decreases ids@.len() - t,
                {
                    let nid = ids[t];
                    let ghost before = self.nodes@;
                    match self.node_map.get(&nid) {
                        Some(idx) => {
                            let i = *idx;
                            self.nodes[i].assign_status(true);
                            proof {
                                assert(self.nodes@.map_values(|n: Node<ND>| n.spec_id()) =~= before.map_values(
                                    |n: Node<ND>| n.spec_id(),
                                ));
                            }
                        },
                        None => {},
                    }
                    t = t + 1;
                }
            }
            k = k + 1;
        }
    }
}

/// The position of the first `true` in `row`, or `row.len()` when there
/// is none.
pub open spec fn first_inside(row: Seq<bool>) -> nat
    decreases row.len(),
{
    if row.len() == 0 {
        0
    } else if row[0] {
        0
    } else {
        1 + first_inside(row.drop_first())
    }
}

/// `first_inside` is the position found by a search from the front.
proof fn lemma_first_inside(row: Seq<bool>, c: int)
    requires
        0 <= c <= row.len(),
        forall|j: int| 0 <= j < c ==> !row[j],
        c == row.len() || row[c],
    ensures
        first_inside(row) == c,
    decreases row.len(),
{
    if row.len() > 0 && c > 0 {
        assert forall|j: int| 0 <= j < c - 1 implies !row.drop_first()[j] by {
            assert(row.drop_first()[j] == row[j + 1]);
        }
        lemma_first_inside(row.drop_first(), c - 1);
    }
}

/// The rows of a containment table, as sequences.
pub open spec fn table_rows(inside: Seq<Vec<bool>>) -> Seq<Seq<bool>> {
    inside.map_values(|r: Vec<bool>| r@)
}

/// The ids, in order, of the first `n` particles whose first containing
/// cell (by `rows`) is cell `c`.
pub open spec fn arrivals(pids: Seq<Index>, rows: Seq<Seq<bool>>, c: int, n: nat) -> Seq<Index>
    decreases n,
{
    if n == 0 {
        Seq::empty()
    } else {
        let prev = arrivals(pids, rows, c, (n - 1) as nat);
        if first_inside(rows[n - 1]) == c {
            prev.push(pids[n - 1])
        } else {
            prev
        }
    }
}

/// The ids, in order, of the first `n` particles that no cell contains.
pub open spec fn unlocated(pids: Seq<Index>, rows: Seq<Seq<bool>>, n: nat) -> Seq<Index>
    decreases n,
{
    if n == 0 {
        Seq::empty()
    } else {
        let prev = unlocated(pids, rows, (n - 1) as nat);
        if first_inside(rows[n - 1]) == rows[n - 1].len() {
            prev.push(pids[n - 1])
        } else {
            prev
        }
    }
}

/// The particle `p` after location: in the first cell `c` that contains it,
/// with the node ids of `c`; or, when no cell contains it, deactivated.
pub open spec fn located<D, CD>(p: Particle<D>, o: Particle<D>, row: Seq<bool>, cells: Seq<Cell<CD>>) -> bool {
    let f = first_inside(row);
    &&& p.same_except_location(o)
    &&& f < row.len() ==> {
        &&& p.spec_cell_id() == Some(cells[f as int].spec_id())
        &&& p.spec_node_ids() == cells[f as int].spec_node_ids()
        &&& p.spec_status() == o.spec_status()
    }
    &&& f == row.len() ==> {
        &&& !p.spec_status()
        &&& p.spec_cell_id() == o.spec_cell_id()
        &&& p.spec_node_ids() == o.spec_node_ids()
    }
}

/// `after` is `before` with each particle located in the first cell that
/// contains it by `rows` (`rows[p][c]`: particle `p` lies in cell `c`),
/// each cell listing the particles located in it, and `unlocated_ids` the
/// ids of the particles no cell contains, which are deactivated.
pub open spec fn particles_located<ND, CD, PD>(
    before: Mesh<ND, CD, PD>,
    after: Mesh<ND, CD, PD>,
    rows: Seq<Seq<bool>>,
    unlocated_ids: Seq<Index>,
) -> bool {
    &&& after.same_entities_but_locations(before)
    &&& forall|p: int| 0 <= p < before.spec_particles().len() ==>
        located(#[trigger] after.spec_particles()[p], before.spec_particles()[p], rows[p], before.spec_cells())
    &&& forall|c: int| 0 <= c < before.spec_cells().len() ==> {
        let n = #[trigger] after.spec_cells()[c];
        let o = before.spec_cells()[c];
        &&& n.same_except_particles(o)
        &&& n.spec_particle_ids() == o.spec_particle_ids() + arrivals(
            before.particle_ids(),
            rows,
            c,
            before.spec_particles().len(),
        )
    }
    &&& unlocated_ids == unlocated(before.particle_ids(), rows, before.spec_particles().len())
}

impl<ND, CD, PD> Mesh<ND, CD, PD> {
    /// Whether everything but the particles' locations and the cells'
    /// particle lists is as in `other`.
    pub open spec fn same_entities_but_locations(self, other: Self) -> bool {
        &&& self.spec_nodes() == other.spec_nodes()
        &&& self.node_index() == other.node_index()
        &&& self.cell_index() == other.cell_index()
        &&& self.particle_index() == other.particle_index()
        &&& self.spec_id() == other.spec_id()
        &&& self.spec_isoparametric() == other.spec_isoparametric()
        &&& self.spec_materials() == other.spec_materials()
        &&& self.spec_node_sets() == other.spec_node_sets()
        &&& self.spec_cell_sets() == other.spec_cell_sets()
        &&& self.spec_particle_sets() == other.spec_particle_sets()
        &&& self.spec_particles().len() == other.spec_particles().len()
        &&& self.spec_cells().len() == other.spec_cells().len()
    }

    /// Locates each particle in the first cell that contains it, where
    /// `inside[p][c]` tells whether particle `p` (by position) lies in cell
    /// `c` (by position). A located particle records the cell's id and node
    /// ids and the cell records the particle's id; a particle that no cell
    /// contains is deactivated. Returns the ids of those particles, in order.
    pub fn locate_particles(&mut self, inside: &Vec<Vec<bool>>) -> (r: Vec<Index>)
        requires
            old(self).wf(),
            inside@.len() == old(self).spec_particles().len(),
            forall|p: int| 0 <= p < inside@.len() ==> #[trigger] inside@[p]@.len() == old(self).spec_cells().len(),
        ensures
            final(self).wf(),
            particles_located(*old(self), *final(self), table_rows(inside@), r@),
    {
        let ghost cells0 = self.cells@;
        let ghost parts0 = self.particles@;
        let ghost pids = old(self).particle_ids();
        let ghost rows = table_rows(inside@);
        let ncells = self.cells.len();
        let mut unlocated_ids: Vec<Index> = Vec::new();
        let mut p: usize = 0;
        while p < self.particles.len()
            invariant
                p <= parts0.len(),
                ncells == cells0.len(),
                inside@.len() == parts0.len(),
                forall|q: int| 0 <= q < inside@.len() ==> #[trigger] inside@[q]@.len() == ncells,
                rows == table_rows(inside@),
                pids == parts0.map_values(|x: Particle<PD>| x.spec_id()),
                parts0 == old(self).particles@,
                cells0 == old(self).cells@,
                self.particles@.len() == parts0.len(),
                self.cells@.len() == cells0.len(),
                self.nodes@ == old(self).nodes@,
                self.node_map@ == old(self).node_map@,
                self.cell_map@ == old(self).cell_map@,
                self.particle_map@ == old(self).particle_map@,
                self.id == old(self).id,
                self.isoparametric == old(self).isoparametric,
                self.materials@ == old(self).materials@,
                self.node_sets@ == old(self).node_sets@,
                self.cell_sets@ == old(self).cell_sets@,
                self.particle_sets@ == old(self).particle_sets@,
                old(self).wf(),
                forall|q: int| 0 <= q < p ==> located(#[trigger] self.particles@[q], parts0[q], inside@[q]@, cells0),
                forall|q: int| p <= q < parts0.len() ==> #[trigger] self.particles@[q] == parts0[q],
                forall|c: int| 0 <= c < cells0.len() ==> {
                    let n = #[trigger] self.cells@[c];
                    &&& n.same_except_particles(cells0[c])
                    &&& n.spec_particle_ids() == cells0[c].spec_particle_ids() + arrivals(pids, rows, c, p as nat)
                },
                unlocated_ids@ == unlocated(pids, rows, p as nat),
            decreases parts0.len() - p,
        {
            let row = &inside[p];
            let mut c: usize = 0;
            while c < ncells && !row[c]
                invariant
                    c <= ncells,
                    row@.len() == ncells,
                    forall|j: int| 0 <= j < c ==> !row@[j],
                decreases ncells - c,
            {
                c = c + 1;
            }
            proof {
                assert(rows[p as int] == row@);
                lemma_first_inside(row@, c as int);
            }
            let pid = self.particles[p].id();
            let ghost cells_before = self.cells@;
            if c < ncells {
                let cid = self.cells[c].id();
                let nids = self.cells[c].node_ids().clone();
                self.particles[p].assign_cell_id(cid);
                self.particles[p].set_node_ids(nids);
                self.cells[c].add_particle_id(pid);
            } else {
                unlocated_ids.push(pid);
                self.particles[p].assign_status(false);
            }
            proof {
                assert forall|cc: int| 0 <= cc < cells0.len() implies {
                    let n = #[trigger] self.cells@[cc];
                    &&& n.same_except_particles(cells0[cc])
                    &&& n.spec_particle_ids() == cells0[cc].spec_particle_ids() + arrivals(pids, rows, cc, p as nat + 1)
                } by {
                    assert(cells_before[cc].spec_particle_ids() == cells0[cc].spec_particle_ids() + arrivals(pids, rows, cc, p as nat));
                    if cc == c as int {
                        assert(cells0[cc].spec_particle_ids() + arrivals(pids, rows, cc, p as nat).push(pid) =~= (cells0[cc].spec_particle_ids() + arrivals(pids, rows, cc, p as nat)).push(pid));
                    }
                }
            }
            p = p + 1;
        }
        proof {
            assert(self.particles@.map_values(|x: Particle<PD>| x.spec_id()) =~= pids);
            assert(self.cells@.map_values(|x: Cell<CD>| x.spec_id()) =~= cells0.map_values(|x: Cell<CD>| x.spec_id()));
        }
        unlocated_ids
    }
}

/// Whether two lists of node ids have a node in common.
pub open spec fn shares_node(a: Seq<Index>, b: Seq<Index>) -> bool {
    exists|x: Index| a.contains(x) && b.contains(x)
}

/// The ids of the cells that share a node with cell `k` (by position),
/// other than the id of cell `k` itself.
pub open spec fn neighbour_ids<CD>(cells: Seq<Cell<CD>>, k: int) -> Set<Index> {
    Set::new(
        |id: Index|
            id != cells[k].spec_id() && exists|j: int|
                0 <= j < cells.len() && #[trigger] cells[j].spec_id() == id && shares_node(
                    cells[k].spec_node_ids(),
                    cells[j].spec_node_ids(),
                ),
    )
}

/// Whether a cell with id `id` among the first `k` cells, or cell `k`
/// within its first `t` local nodes, lists node `nid`.
pub open spec fn lists_node<CD>(cells: Seq<Cell<CD>>, nid: Index, id: Index, k: int, t: int) -> bool {
    ||| exists|c: int|
        0 <= c < k && #[trigger] cells[c].spec_id() == id && cells[c].spec_node_ids().contains(nid)
    ||| (0 <= k < cells.len() && cells[k].spec_id() == id && exists|u: int|
        0 <= u < t && #[trigger] cells[k].spec_node_ids()[u] == nid)
}

/// The neighbours found for a cell with id `cid` and node ids `ids` from
/// its first `t` nodes, when `lists(nid, id)` tells whether a cell with id
/// `id` lists node `nid`.
pub open spec fn found_neighbours(table: Map<Index, Vec<Index>>, ids: Seq<Index>, cid: Index, t: int) -> Set<Index> {
    Set::new(
        |id: Index|
            id != cid && exists|u: int|
                0 <= u < t && table.contains_key(#[trigger] ids[u]) && table[ids[u]]@.contains(id),
    )
}

proof fn lemma_lists_node_step<CD>(cells: Seq<Cell<CD>>, nid: Index, id: Index, k: int, t: int)
    requires
        0 <= k < cells.len(),
        0 <= t < cells[k].spec_node_ids().len(),
    ensures
        lists_node(cells, nid, id, k, t + 1) <==> (lists_node(cells, nid, id, k, t) || (
        cells[k].spec_node_ids()[t] == nid && cells[k].spec_id() == id)),
{
    if lists_node(cells, nid, id, k, t + 1) && !lists_node(cells, nid, id, k, t) {
        let u = choose|u: int| 0 <= u < t + 1 && #[trigger] cells[k].spec_node_ids()[u] == nid;
        assert(u == t);
    }
    if cells[k].spec_node_ids()[t] == nid && cells[k].spec_id() == id {
        assert(cells[k].spec_node_ids()[t] == nid);
    }
}

proof fn lemma_lists_node_next<CD>(cells: Seq<Cell<CD>>, nid: Index, id: Index, k: int)
    requires
        0 <= k < cells.len(),
    ensures
        lists_node(cells, nid, id, k, cells[k].spec_node_ids().len() as int) <==> lists_node(cells, nid, id, k + 1, 0),
{
    let ids = cells[k].spec_node_ids();
    if lists_node(cells, nid, id, k, ids.len() as int) {
        if !(exists|c: int| 0 <= c < k && #[trigger] cells[c].spec_id() == id && cells[c].spec_node_ids().contains(nid)) {
            let u = choose|u: int| 0 <= u < ids.len() && #[trigger] ids[u] == nid;
            assert(ids.contains(nid));
            assert(cells[k].spec_id() == id);
        } else {
            let c = choose|c: int| 0 <= c < k && #[trigger] cells[c].spec_id() == id && cells[c].spec_node_ids().contains(nid);
            assert(0 <= c < k + 1 && cells[c].spec_id() == id && cells[c].spec_node_ids().contains(nid));
        }
    }
    if lists_node(cells, nid, id, k + 1, 0) {
        let c = choose|c: int| 0 <= c < k + 1 && #[trigger] cells[c].spec_id() == id && cells[c].spec_node_ids().contains(nid);
        if c == k {
            let u = ids.index_of(nid);
            assert(ids[u] == nid);
        } else {
            assert(0 <= c < k && cells[c].spec_id() == id && cells[c].spec_node_ids().contains(nid));
        }
    }
}

/// `after` is `before` with each cell's neighbours extended by the ids of
/// the cells that share a node with it.
pub open spec fn neighbours_found<ND, CD, PD>(before: Mesh<ND, CD, PD>, after: Mesh<ND, CD, PD>) -> bool {
    &&& after.same_but_cells(before)
    &&& after.cell_index() == before.cell_index()
    &&& after.spec_cells().len() == before.spec_cells().len()
    &&& forall|k: int| 0 <= k < before.spec_cells().len() ==> {
        let n = #[trigger] after.spec_cells()[k];
        let o = before.spec_cells()[k];
        &&& n.same_except_neighbours(o)
        &&& n.spec_neighbours() == o.spec_neighbours().union(neighbour_ids(before.spec_cells(), k))
    }
}

impl<ND, CD, PD> Mesh<ND, CD, PD> {
    /// Adds to each cell, as neighbours, the ids of all cells that share a
    /// node id with it (other than its own id).
    pub fn find_cell_neighbours(&mut self)
        requires
            old(self).wf(),
        ensures
            final(self).wf(),
            neighbours_found(*old(self), *final(self)),
    {
        let ghost cells0 = self.cells@;
        let ncells = self.cells.len();
        let mut node_cells: HashMap<Index, Vec<Index>> = HashMap::new();
        let mut k: usize = 0;
        while k < ncells
            invariant
                k <= ncells,
                ncells == cells0.len(),
                self.cells@ == cells0,
                forall|nid: Index, id: Index|
                    #![trigger node_cells@[nid]@.contains(id)]
                    #![trigger lists_node(cells0, nid, id, k as int, 0)]
                    (node_cells@.contains_key(nid) && node_cells@[nid]@.contains(id))
                        <==> lists_node(cells0, nid, id, k as int, 0),
            decreases ncells - k,
        {
            let cid = self.cells[k].id();
            let ids = self.cells[k].node_ids();
            let mut t: usize = 0;
            while t < ids.len()
                invariant
                    k < ncells,
                    ncells == cells0.len(),
                    self.cells@ == cells0,
                    ids@ == cells0[k as int].spec_node_ids(),
                    cid == cells0[k as int].spec_id(),
                    t <= ids@.len(),
                    forall|nid: Index, id: Index|
                        #![trigger node_cells@[nid]@.contains(id)]
                        #![trigger lists_node(cells0, nid, id, k as int, t as int)]
                        (node_cells@.contains_key(nid) && node_cells@[nid]@.contains(id))
                            <==> lists_node(cells0, nid, id, k as int, t as int),
                decreases ids@.len() - t,
            {
                let nid = ids[t];
                let ghost table = node_cells@;
                let ghost old_list: Seq<Index> = if table.contains_key(nid) { table[nid]@ } else { Seq::empty() };
                let mut list = match node_cells.remove(&nid) {
                    Some(v) => v,
                    None => Vec::new(),
                };
                assert(list@ == old_list);
                list.push(cid);
                node_cells.insert(nid, list);
                proof {
                    assert(node_cells@ == table.remove(nid).insert(nid, list));
                    assert forall|n2: Index, id: Index|
                        #![trigger node_cells@[n2]@.contains(id)]
                        #![trigger lists_node(cells0, n2, id, k as int, t as int + 1)]
                        (node_cells@.contains_key(n2) && node_cells@[n2]@.contains(id))
                            <==> lists_node(cells0, n2, id, k as int, t as int + 1) by {
                        lemma_lists_node_step(cells0, n2, id, k as int, t as int);
                        if n2 == nid {
                            let nl = node_cells@[n2]@;
                            assert(nl == old_list.push(cid));
                            if nl.contains(id) {
                                let w = nl.index_of(id);
                                if w < old_list.len() {
                                    assert(old_list[w] == id);
                                    assert(table.contains_key(nid) && table[nid]@.contains(id));
                                }
                            }
                            if table.contains_key(nid) && table[nid]@.contains(id) {
                                let w = old_list.index_of(id);
                                assert(nl[w] == id);
                            }
                            assert(nl[nl.len() - 1] == cid);
                        } else {
                            assert(node_cells@.contains_key(n2) == table.contains_key(n2));
                            if table.contains_key(n2) {
                                assert(node_cells@[n2] == table[n2]);
                            }
                        }
                    }
                }
                t = t + 1;
            }
            proof {
                assert forall|nid: Index, id: Index|
                    #![trigger node_cells@[nid]@.contains(id)]
                    #![trigger lists_node(cells0, nid, id, k as int + 1, 0)]
                    (node_cells@.contains_key(nid) && node_cells@[nid]@.contains(id))
                        <==> lists_node(cells0, nid, id, k as int + 1, 0) by {
                    lemma_lists_node_next(cells0, nid, id, k as int);
                }
            }
            k = k + 1;
        }
        let ghost table = node_cells@;
        let mut k: usize = 0;
        while k < ncells
            invariant
                k <= ncells,
                ncells == cells0.len(),
                self.cells@.len() == ncells,
                node_cells@ == table,
                forall|nid: Index, id: Index|
                    #![trigger table[nid]@.contains(id)]
                    #![trigger lists_node(cells0, nid, id, ncells as int, 0)]
                    (table.contains_key(nid) && table[nid]@.contains(id))
                        <==> lists_node(cells0, nid, id, ncells as int, 0),
                forall|j: int| 0 <= j < k ==> {
                    let n = #[trigger] self.cells@[j];
                    &&& n.same_except_neighbours(cells0[j])
                    &&& n.spec_neighbours() == cells0[j].spec_neighbours().union(neighbour_ids(cells0, j))
                },
                forall|j: int| k <= j < ncells ==> #[trigger] self.cells@[j] == cells0[j],
                self.nodes@ == old(self).nodes@,
                self.particles@ == old(self).particles@,
                self.node_map@ == old(self).node_map@,
                self.cell_map@ == old(self).cell_map@,
                self.particle_map@ == old(self).particle_map@,
                self.id == old(self).id,
                self.isoparametric == old(self).isoparametric,
                self.materials@ == old(self).materials@,
                self.node_sets@ == old(self).node_sets@,
                self.cell_sets@ == old(self).cell_sets@,
                self.particle_sets@ == old(self).particle_sets@,
                cells0 == old(self).cells@,
            decreases ncells - k,
        {
            let cid = self.cells[k].id();
            let ids = self.cells[k].node_ids().clone();
            let mut t: usize = 0;
            while t < ids.len()
                invariant
                    k < ncells,
                    ncells == cells0.len(),
                    self.cells@.len() == ncells,
                    node_cells@ == table,
                    ids@ == cells0[k as int].spec_node_ids(),
                    cid == cells0[k as int].spec_id(),
                    t <= ids@.len(),
                    self.cells@[k as int].same_except_neighbours(cells0[k as int]),
                    self.cells@[k as int].spec_neighbours() == cells0[k as int].spec_neighbours().union(
                        found_neighbours(table, ids@, cid, t as int),
                    ),
                    self.nodes@ == old(self).nodes@,
                    self.particles@ == old(self).particles@,
                    self.node_map@ == old(self).node_map@,
                    self.cell_map@ == old(self).cell_map@,
                    self.particle_map@ == old(self).particle_map@,
                    self.id == old(self).id,
                    self.isoparametric == old(self).isoparametric,
                    self.materials@ == old(self).materials@,
                    self.node_sets@ == old(self).node_sets@,
                    self.cell_sets@ == old(self).cell_sets@,
                    self.particle_sets@ == old(self).particle_sets@,
                    forall|j: int| 0 <= j < k ==> {
                        let n = #[trigger] self.cells@[j];
                        &&& n.same_except_neighbours(cells0[j])
                        &&& n.spec_neighbours() == cells0[j].spec_neighbours().union(neighbour_ids(cells0, j))
                    },
                    forall|j: int| k < j < ncells ==> #[trigger] self.cells@[j] == cells0[j],
                decreases ids@.len() - t,
            {
                let nid = ids[t];
                match node_cells.get(&nid) {
                    Some(list) => {
                        let mut u: usize = 0;
                        while u < list.len()
                            invariant
                                k < ncells,
                                ncells == cells0.len(),
                                self.cells@.len() == ncells,
                                self.nodes@ == old(self).nodes@,
                                self.particles@ == old(self).particles@,
                                self.node_map@ == old(self).node_map@,
                                self.cell_map@ == old(self).cell_map@,
                                self.particle_map@ == old(self).particle_map@,
                                self.id == old(self).id,
                                self.isoparametric == old(self).isoparametric,
                                self.materials@ == old(self).materials@,
                                self.node_sets@ == old(self).node_sets@,
                                self.cell_sets@ == old(self).cell_sets@,
                                self.particle_sets@ == old(self).particle_sets@,
                                table.contains_key(nid),
                                list@ == table[nid]@,
                                nid == ids@[t as int],
                                t < ids@.len(),
                                u <= list@.len(),
                                cid == cells0[k as int].spec_id(),
                                self.cells@[k as int].same_except_neighbours(cells0[k as int]),
                                self.cells@[k as int].spec_neighbours() == cells0[k as int].spec_neighbours().union(
                                    found_neighbours(table, ids@, cid, t as int),
                                ).union(Set::new(|id: Index| id != cid && exists|w: int| 0 <= w < u && #[trigger] list@[w] == id)),
                                forall|j: int| 0 <= j < k ==> {
                                    let n = #[trigger] self.cells@[j];
                                    &&& n.same_except_neighbours(cells0[j])
                                    &&& n.spec_neighbours() == cells0[j].spec_neighbours().union(neighbour_ids(cells0, j))
                                },
                                forall|j: int| k < j < ncells ==> #[trigger] self.cells@[j] == cells0[j],
                            decreases list@.len() - u,
                        {
                            let other = list[u];
                            let ghost before = self.cells@[k as int].spec_neighbours();
                            if other != cid {
                                self.cells[k].add_neighbour(other);
                            }
                            proof {
                                assert(self.cells@[k as int].spec_neighbours() =~= cells0[k as int].spec_neighbours().union(
                                    found_neighbours(table, ids@, cid, t as int),
                                ).union(Set::new(|id: Index| id != cid && exists|w: int| 0 <= w < u + 1 && #[trigger] list@[w] == id))) by {
                                    assert(list@[u as int] == other);
                                }
                            }
                            u = u + 1;
                        }
                        proof {
                            assert(self.cells@[k as int].spec_neighbours() =~= cells0[k as int].spec_neighbours().union(
                                found_neighbours(table, ids@, cid, t as int + 1))) by {
                                assert forall|id: Index| found_neighbours(table, ids@, cid, t as int + 1).contains(id) implies
                                    found_neighbours(table, ids@, cid, t as int).contains(id) || (id != cid && exists|w: int| 0 <= w < list@.len() && #[trigger] list@[w] == id) by {
                                    if !found_neighbours(table, ids@, cid, t as int).contains(id) {
                                        let w = table[nid]@.index_of(id);
                                        assert(list@[w] == id);
                                    }
                                }
                                assert forall|id: Index| #![trigger found_neighbours(table, ids@, cid, t as int + 1).contains(id)]
                                    (id != cid && exists|w: int| 0 <= w < list@.len() && #[trigger] list@[w] == id) implies
                                    found_neighbours(table, ids@, cid, t as int + 1).contains(id) by {
                                    let w = choose|w: int| 0 <= w < list@.len() && #[trigger] list@[w] == id;
                                    assert(table[ids@[t as int]]@.contains(id));
                                }
                            }
                        }
                    },
                    None => {
                        proof {
                            assert(self.cells@[k as int].spec_neighbours() =~= cells0[k as int].spec_neighbours().union(
                                found_neighbours(table, ids@, cid, t as int + 1)));
                        }
                    },
                }
                t = t + 1;
            }
            proof {
                assert(found_neighbours(table, ids@, cid, ids@.len() as int) =~= neighbour_ids(cells0, k as int)) by {
                    assert forall|id: Index| found_neighbours(table, ids@, cid, ids@.len() as int).contains(id) implies
                        neighbour_ids(cells0, k as int).contains(id) by {
                        let u = choose|u: int| 0 <= u < ids@.len() && table.contains_key(#[trigger] ids@[u]) && table[ids@[u]]@.contains(id);
                        let nid = ids@[u];
                        assert(lists_node(cells0, nid, id, ncells as int, 0));
                        let j = choose|j: int| 0 <= j < ncells && #[trigger] cells0[j].spec_id() == id && cells0[j].spec_node_ids().contains(nid);
                        assert(cells0[k as int].spec_node_ids().contains(nid));
                        assert(shares_node(cells0[k as int].spec_node_ids(), cells0[j].spec_node_ids()));
                    }
                    assert forall|id: Index| neighbour_ids(cells0, k as int).contains(id) implies
                        found_neighbours(table, ids@, cid, ids@.len() as int).contains(id) by {
                        let j = choose|j: int| 0 <= j < cells0.len() && #[trigger] cells0[j].spec_id() == id && shares_node(
                            cells0[k as int].spec_node_ids(), cells0[j].spec_node_ids());
                        let x = choose|x: Index| cells0[k as int].spec_node_ids().contains(x) && cells0[j].spec_node_ids().contains(x);
                        let u = ids@.index_of(x);
                        assert(lists_node(cells0, x, id, ncells as int, 0));
                        assert(table.contains_key(ids@[u]) && table[ids@[u]]@.contains(id));
                    }
                }
            }
            k = k + 1;
        }
        proof {
            assert(self.cells@.map_values(|c: Cell<CD>| c.spec_id()) =~= cells0.map_values(|c: Cell<CD>| c.spec_id()));
        }
    }
}

/// Whether an active particle of material `mid` among the first `p`
/// particles, or particle `p` within its first `t` node ids, lists node
/// `id`.
pub open spec fn carried_to<PD>(parts: Seq<Particle<PD>>, id: Index, mid: u32, p: int, t: int) -> bool {
    ||| exists|q: int|
        0 <= q < p && #[trigger] parts[q].spec_material_id() == Some(mid) && parts[q].spec_status()
            && parts[q].spec_node_ids().contains(id)
    ||| (0 <= p < parts.len() && parts[p].spec_status() && parts[p].spec_material_id() == Some(mid)
        && exists|u: int| 0 <= u < t && #[trigger] parts[p].spec_node_ids()[u] == id)
}

/// The materials mapped to the node at position `i` by its active
/// particles: those of active particles that list the node's id, when that
/// id looks the node up.
pub open spec fn materials_reaching<ND, CD, PD>(m: Mesh<ND, CD, PD>, i: int) -> Set<u32> {
    let id = m.spec_nodes()[i].spec_id();
    Set::new(
        |mid: u32|
            m.node_index().contains_key(id) && m.node_index()[id] == i && carried_to(
                m.spec_particles(),
                id,
                mid,
                m.spec_particles().len() as int,
                0,
            ),
    )
}

impl<ND, CD, PD> Mesh<ND, CD, PD> {
    /// Records at each node the materials of the active particles that list
    /// it (the first step of multimaterial contact).
    pub fn map_material_ids_to_nodes(&mut self)
        requires
            old(self).wf(),
        ensures
            final(self).wf(),
            final(self).same_but_nodes(*old(self)),
            final(self).node_index() == old(self).node_index(),
            final(self).spec_nodes().len() == old(self).spec_nodes().len(),
            forall|i: int| 0 <= i < old(self).spec_nodes().len() ==> {
                let n = #[trigger] final(self).spec_nodes()[i];
                let o = old(self).spec_nodes()[i];
                &&& n.spec_material_ids() == o.spec_material_ids().union(materials_reaching(*old(self), i))
                &&& n.spec_id() == o.spec_id()
                &&& n.spec_status() == o.spec_status()
                &&& n.spec_ghost_id() == o.spec_ghost_id()
                &&& n.spec_data() == o.spec_data()
            },
    {
        let ghost parts = self.particles@;
        let ghost nodes0 = self.nodes@;
        let mut p: usize = 0;
        while p < self.particles.len()
            invariant
                p <= parts.len(),
                self.particles@ == parts,
                parts == old(self).particles@,
                self.wf(),
                self.same_but_nodes(*old(self)),
                self.node_index() == old(self).node_index(),
                self.nodes@.len() == nodes0.len(),
                nodes0 == old(self).nodes@,
                forall|i: int| 0 <= i < self.nodes@.len() ==> {
                    let n = #[trigger] self.nodes@[i];
                    let o = nodes0[i];
                    &&& n.spec_material_ids() == o.spec_material_ids().union(Set::new(|mid: u32|
                        self.node_index().contains_key(o.spec_id()) && self.node_index()[o.spec_id()] == i
                            && carried_to(parts, o.spec_id(), mid, p as int, 0)))
                    &&& n.spec_id() == o.spec_id()
                    &&& n.spec_status() == o.spec_status()
                    &&& n.spec_ghost_id() == o.spec_ghost_id()
                    &&& n.spec_data() == o.spec_data()
                },
            decreases parts.len() - p,
        {
            if self.particles[p].status() {
                match self.particles[p].material_id() {
                    Some(mid) => {
                        let ids = self.particles[p].node_ids();
                        let mut t: usize = 0;
                        while t < ids.len()
                            invariant
                                p < parts.len(),
                                ids@ == parts[p as int].spec_node_ids(),
                                parts[p as int].spec_status(),
                                parts[p as int].spec_material_id() == Some(mid),
                                t <= ids@.len(),
                                self.particles@ == parts,
                                self.wf(),
                                self.same_but_nodes(*old(self)),
                                self.node_index() == old(self).node_index(),
                                self.nodes@.len() == nodes0.len(),
                                forall|i: int| 0 <= i < self.nodes@.len() ==> {
                                    let n = #[trigger] self.nodes@[i];
                                    let o = nodes0[i];
                                    &&& n.spec_material_ids() == o.spec_material_ids().union(Set::new(|m2: u32|
                                        self.node_index().contains_key(o.spec_id()) && self.node_index()[o.spec_id()] == i
                                            && carried_to(parts, o.spec_id(), m2, p as int, t as int)))
                                    &&& n.spec_id() == o.spec_id()
                                    &&& n.spec_status() == o.spec_status()
                                    &&& n.spec_ghost_id() == o.spec_ghost_id()
                                    &&& n.spec_data() == o.spec_data()
                                },
                            decreases ids@.len() - t,
                        {
                            let nid = ids[t];
                            let ghost before = self.nodes@;
                            match self.node_map.get(&nid) {
                                Some(idx) => {
                                    let i = *idx;
                                    self.nodes[i].append_material_id(mid);
                                    proof {
                                        assert(self.nodes@.map_values(|n: Node<ND>| n.spec_id()) =~= before.map_values(
                                            |n: Node<ND>| n.spec_id(),
                                        ));
                                    }
                                },
                                None => {},
                            }
                            proof {
                                assert forall|i: int| 0 <= i < self.nodes@.len() implies {
                                    let n = #[trigger] self.nodes@[i];
                                    let o = nodes0[i];
                                    n.spec_material_ids() =~= o.spec_material_ids().union(Set::new(|m2: u32|
                                        self.node_index().contains_key(o.spec_id()) && self.node_index()[o.spec_id()] == i
                                            && carried_to(parts, o.spec_id(), m2, p as int, t as int + 1)))
                                } by {
                                    let o = nodes0[i];
                                    assert forall|m2: u32| carried_to(parts, o.spec_id(), m2, p as int, t as int + 1) <==> (
                                        carried_to(parts, o.spec_id(), m2, p as int, t as int) || (m2 == mid && ids@[t as int] == o.spec_id())) by {
                                        if carried_to(parts, o.spec_id(), m2, p as int, t as int + 1) && !carried_to(parts, o.spec_id(), m2, p as int, t as int) {
                                            let u = choose|u: int| 0 <= u < t + 1 && #[trigger] parts[p as int].spec_node_ids()[u] == o.spec_id();
                                            assert(u == t);
                                        }
                                        if m2 == mid && ids@[t as int] == o.spec_id() {
                                            assert(parts[p as int].spec_node_ids()[t as int] == o.spec_id());
                                        }
                                    }
                                }
                            }
                            t = t + 1;
                        }
                    },
                    None => {},
                }
            }
            proof {
                assert forall|i: int| 0 <= i < self.nodes@.len() implies {
                    let n = #[trigger] self.nodes@[i];
                    let o = nodes0[i];
                    n.spec_material_ids() =~= o.spec_material_ids().union(Set::new(|m2: u32|
                        self.node_index().contains_key(o.spec_id()) && self.node_index()[o.spec_id()] == i
                            && carried_to(parts, o.spec_id(), m2, p as int + 1, 0)))
                } by {
                    let o = nodes0[i];
                    let ids = parts[p as int].spec_node_ids();
                    assert forall|m2: u32| carried_to(parts, o.spec_id(), m2, p as int + 1, 0) <==> (
                        carried_to(parts, o.spec_id(), m2, p as int, ids.len() as int)) by {
                        if carried_to(parts, o.spec_id(), m2, p as int + 1, 0) {
                            let q = choose|q: int| 0 <= q < p + 1 && #[trigger] parts[q].spec_material_id() == Some(m2) && parts[q].spec_status()
                                && parts[q].spec_node_ids().contains(o.spec_id());
                            if q == p {
                                let u = ids.index_of(o.spec_id());
                                assert(ids[u] == o.spec_id());
                            } else {
                                assert(0 <= q < p && parts[q].spec_material_id() == Some(m2));
                            }
                        }
                        if carried_to(parts, o.spec_id(), m2, p as int, ids.len() as int) {
                            if !(exists|q: int| 0 <= q < p && #[trigger] parts[q].spec_material_id() == Some(m2) && parts[q].spec_status()
                                && parts[q].spec_node_ids().contains(o.spec_id())) {
                                let u = choose|u: int| 0 <= u < ids.len() && #[trigger] ids[u] == o.spec_id();
                                assert(ids.contains(o.spec_id()));
                                assert(parts[p as int].spec_material_id() == Some(m2));
                            } else {
                                let q = choose|q: int| 0 <= q < p && #[trigger] parts[q].spec_material_id() == Some(m2) && parts[q].spec_status()
                                    && parts[q].spec_node_ids().contains(o.spec_id());
                                assert(0 <= q < p + 1 && parts[q].spec_material_id() == Some(m2));
                            }
                        }
                    }
                }
            }
            p = p + 1;
        }
        proof {
            assert forall|i: int| 0 <= i < self.nodes@.len() implies
                #[trigger] self.nodes@[i].spec_material_ids() == nodes0[i].spec_material_ids().union(materials_reaching(*old(self), i)) by {
                assert(Set::new(|m2: u32|
                    self.node_index().contains_key(nodes0[i].spec_id()) && self.node_index()[nodes0[i].spec_id()] == i
                        && carried_to(parts, nodes0[i].spec_id(), m2, p as int, 0)) =~= materials_reaching(*old(self), i));
            }
        }
    }
}

impl<D> Node<D> {
    /// Whether this node is a fresh node `id` holding `data`.
    pub open spec fn is_new(self, id: Index, data: D) -> bool {
        &&& self.spec_id() == id
        &&& !self.spec_status()
        &&& self.spec_material_ids() == Set::<u32>::empty()
        &&& self.spec_ghost_id() == u64::MAX
        &&& self.spec_data() == data
    }
}

} // verus!
