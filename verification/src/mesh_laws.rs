//! Laws of the mesh bookkeeping that relate its operations and lookups.

use vstd::prelude::*;
use crate::mesh::{
    Mesh, active_nodes_found, arrivals, assigned_material, cells_created, connected, first_inside,
    is_new_cell, is_new_particle, listed_by_active_cell, neighbour_ids, node_is_active, neighbours_found, nodes_created,
    particles_created, particles_located, placed, shares_node, unlocated,
};
use crate::types::Index;

verus! {

/// After `create_nodes(gnid, data)`, id `gnid + i` looks up the new node
/// that holds `data[i]`.
pub proof fn law_created_node_is_found<ND, CD, PD>(
    before: Mesh<ND, CD, PD>,
    after: Mesh<ND, CD, PD>,
    gnid: Index,
    data: Seq<ND>,
    i: int,
)
    requires
        after.wf(),
        nodes_created(before, after, gnid, data),
        0 <= i < data.len(),
        gnid + data.len() <= u64::MAX + 1,
    ensures
        after.node_index().contains_key((gnid + i) as Index),
        after.node_index()[(gnid + i) as Index] == before.spec_nodes().len() + i,
        after.spec_nodes()[after.node_index()[(gnid + i) as Index] as int].spec_id() == gnid + i,
        after.spec_nodes()[after.node_index()[(gnid + i) as Index] as int].spec_data() == data[i],
{
    let k = (gnid + i) as Index;
    assert(placed(before.node_index(), gnid, data.len(), before.spec_nodes().len()).contains_key(k));
    assert(after.spec_nodes()[before.spec_nodes().len() + i].is_new(k, data[i]));
}

/// After `create_cells(gnid, connectivity, data)`, id `gnid + i` looks up
/// the new cell of entry `i`: it holds `data[i]` and, by local number, the
/// nodes of `connectivity[i]` that the mesh had.
pub proof fn law_created_cell_is_found<ND, CD, PD>(
    before: Mesh<ND, CD, PD>,
    after: Mesh<ND, CD, PD>,
    gnid: Index,
    connectivity: Seq<Seq<Index>>,
    data: Seq<CD>,
    i: int,
)
    requires
        after.wf(),
        cells_created(before, after, gnid, connectivity, data),
        0 <= i < connectivity.len(),
        gnid + connectivity.len() <= u64::MAX + 1,
    ensures
        after.cell_index().contains_key((gnid + i) as Index),
        after.cell_index()[(gnid + i) as Index] == before.spec_cells().len() + i,
        ({
            let c = after.spec_cells()[after.cell_index()[(gnid + i) as Index] as int];
            &&& c.spec_id() == gnid + i
            &&& c.spec_node_ids() == connected(connectivity[i], before.node_index().dom())
            &&& c.spec_data() == data[i]
        }),
{
    let k = (gnid + i) as Index;
    assert(placed(before.cell_index(), gnid, connectivity.len(), before.spec_cells().len()).contains_key(k));
    assert(is_new_cell(
        after.spec_cells()[before.spec_cells().len() + i],
        k,
        connectivity[i],
        before.node_index().dom(),
        before.spec_isoparametric(),
        data[i],
    ));
}

/// After `create_particles(data, material_ids)`, id `i` looks up the new
/// particle at position `i`: it holds `data[i]` and the material keyed by
/// `material_ids[i]`, where both exist.
pub proof fn law_created_particle_is_found<ND, CD, PD>(
    before: Mesh<ND, CD, PD>,
    after: Mesh<ND, CD, PD>,
    data: Seq<PD>,
    material_ids: Seq<u32>,
    i: int,
)
    requires
        after.wf(),
        particles_created(before, after, data, material_ids),
        0 <= i < data.len(),
    ensures
        after.particle_index().contains_key(i as Index),
        after.particle_index()[i as Index] == before.spec_particles().len() + i,
        ({
            let p = after.spec_particles()[after.particle_index()[i as Index] as int];
            &&& p.spec_id() == i
            &&& p.spec_data() == data[i]
            &&& p.spec_material_id() == assigned_material(before.spec_materials(), material_ids, i)
        }),
{
    let k = i as Index;
    assert(placed(before.particle_index(), 0, data.len(), before.spec_particles().len()).contains_key(k));
    assert(is_new_particle(
        after.spec_particles()[before.spec_particles().len() + i],
        k,
        data[i],
        assigned_material(before.spec_materials(), material_ids, i),
    ));
}

/// Neighbourhood is mutual: after `find_cell_neighbours`, two cells with
/// different ids that share a node each list the other as a neighbour.
pub proof fn law_neighbours_are_mutual<ND, CD, PD>(
    before: Mesh<ND, CD, PD>,
    after: Mesh<ND, CD, PD>,
    k: int,
    j: int,
)
    requires
        neighbours_found(before, after),
        0 <= k < before.spec_cells().len(),
        0 <= j < before.spec_cells().len(),
        before.spec_cells()[k].spec_id() != before.spec_cells()[j].spec_id(),
        shares_node(before.spec_cells()[k].spec_node_ids(), before.spec_cells()[j].spec_node_ids()),
    ensures
        after.spec_cells()[k].spec_neighbours().contains(before.spec_cells()[j].spec_id()),
        after.spec_cells()[j].spec_neighbours().contains(before.spec_cells()[k].spec_id()),
{
    let cells = before.spec_cells();
    let x = choose|x: Index| cells[k].spec_node_ids().contains(x) && cells[j].spec_node_ids().contains(x);
    assert(shares_node(cells[j].spec_node_ids(), cells[k].spec_node_ids()));
    assert(neighbour_ids(cells, k).contains(cells[j].spec_id()));
    assert(neighbour_ids(cells, j).contains(cells[k].spec_id()));
    assert(after.spec_cells()[k].spec_neighbours() == cells[k].spec_neighbours().union(neighbour_ids(cells, k)));
    assert(after.spec_cells()[j].spec_neighbours() == cells[j].spec_neighbours().union(neighbour_ids(cells, j)));
}

/// After `find_active_nodes`, a node is active exactly when its id looks
/// it up and some cell that holds particles lists that id; whether it was
/// active before has no effect, so a node that no cell holding particles
/// lists is inactive.
pub proof fn law_active_nodes_are_exactly_listed<ND, CD, PD>(
    before: Mesh<ND, CD, PD>,
    after: Mesh<ND, CD, PD>,
    i: int,
)
    requires
        before.wf(),
        active_nodes_found(before, after),
        0 <= i < before.spec_nodes().len(),
    ensures
        after.spec_nodes()[i].spec_status() <==> ({
            let id = before.spec_nodes()[i].spec_id();
            &&& before.node_index().contains_key(id)
            &&& before.node_index()[id] == i
            &&& exists|c: int|
                0 <= c < before.spec_cells().len()
                    && (#[trigger] before.spec_cells()[c]).spec_particle_ids().len() > 0
                    && before.spec_cells()[c].spec_node_ids().contains(id)
        }),
{
    let id = before.spec_nodes()[i].spec_id();
    let cells = before.spec_cells();
    assert(after.spec_nodes()[i].spec_status() == node_is_active(before, i));
    if exists|c: int| 0 <= c < cells.len() && (#[trigger] cells[c]).spec_particle_ids().len() > 0
        && cells[c].spec_node_ids().contains(id) {
        let c = choose|c: int| 0 <= c < cells.len() && (#[trigger] cells[c]).spec_particle_ids().len() > 0
            && cells[c].spec_node_ids().contains(id);
        assert(listed_by_active_cell(cells, id, cells.len() as int, 0));
    }
    if listed_by_active_cell(cells, id, cells.len() as int, 0) {
        let c = choose|c: int|
            0 <= c < cells.len() && #[trigger] cells[c].spec_particle_ids().len() > 0 && cells[c].spec_node_ids().contains(id);
        assert(cells[c].spec_particle_ids().len() > 0);
    }
}

/// After `find_active_nodes`, every node that a cell holding particles
/// lists (by the id that looks it up) is active.
pub proof fn law_nodes_of_active_cells_are_active<ND, CD, PD>(
    before: Mesh<ND, CD, PD>,
    after: Mesh<ND, CD, PD>,
    c: int,
    t: int,
)
    requires
        before.wf(),
        active_nodes_found(before, after),
        0 <= c < before.spec_cells().len(),
        before.spec_cells()[c].spec_particle_ids().len() > 0,
        0 <= t < before.spec_cells()[c].spec_node_ids().len(),
        before.node_index().contains_key(before.spec_cells()[c].spec_node_ids()[t]),
    ensures
        after.spec_nodes()[before.node_index()[before.spec_cells()[c].spec_node_ids()[t]] as int].spec_status(),
{
    let id = before.spec_cells()[c].spec_node_ids()[t];
    let i = before.node_index()[id] as int;
    assert(before.node_ids()[i] == id);
    assert(before.spec_cells()[c].spec_node_ids().contains(id));
}

proof fn lemma_arrivals_holds(pids: Seq<Index>, rows: Seq<Seq<bool>>, c: int, n: nat, p: int)
    requires
        0 <= p < n,
        n <= rows.len(),
        first_inside(rows[p]) == c,
    ensures
        arrivals(pids, rows, c, n).contains(pids[p]),
    decreases n,
{
    if p == n - 1 {
        assert(arrivals(pids, rows, c, n).last() == pids[p]);
    } else {
        lemma_arrivals_holds(pids, rows, c, (n - 1) as nat, p);
        let prev = arrivals(pids, rows, c, (n - 1) as nat);
        let w = prev.index_of(pids[p]);
        assert(arrivals(pids, rows, c, n)[w] == pids[p]);
    }
}

proof fn lemma_unlocated_holds(pids: Seq<Index>, rows: Seq<Seq<bool>>, n: nat, p: int)
    requires
        0 <= p < n,
        n <= rows.len(),
        first_inside(rows[p]) == rows[p].len(),
    ensures
        unlocated(pids, rows, n).contains(pids[p]),
    decreases n,
{
    if p == n - 1 {
        assert(unlocated(pids, rows, n).last() == pids[p]);
    } else {
        lemma_unlocated_holds(pids, rows, (n - 1) as nat, p);
        let prev = unlocated(pids, rows, (n - 1) as nat);
        let w = prev.index_of(pids[p]);
        assert(unlocated(pids, rows, n)[w] == pids[p]);
    }
}

/// After `locate_particles`, a particle that some cell contains records
/// the first such cell, and that cell lists the particle; a particle that
/// no cell contains is deactivated and its id is among those returned.
pub proof fn law_located_particles_are_listed<ND, CD, PD>(
    before: Mesh<ND, CD, PD>,
    after: Mesh<ND, CD, PD>,
    rows: Seq<Seq<bool>>,
    unlocated_ids: Seq<Index>,
    p: int,
)
    requires
        particles_located(before, after, rows, unlocated_ids),
        rows.len() == before.spec_particles().len(),
        forall|q: int| 0 <= q < rows.len() ==> #[trigger] rows[q].len() == before.spec_cells().len(),
        0 <= p < before.spec_particles().len(),
    ensures
        first_inside(rows[p]) < before.spec_cells().len() ==> {
            let c = first_inside(rows[p]) as int;
            &&& after.spec_particles()[p].spec_cell_id() == Some(before.spec_cells()[c].spec_id())
            &&& after.spec_cells()[c].spec_particle_ids().contains(before.spec_particles()[p].spec_id())
        },
        first_inside(rows[p]) >= before.spec_cells().len() ==> {
            &&& !after.spec_particles()[p].spec_status()
            &&& unlocated_ids.contains(before.spec_particles()[p].spec_id())
        },
{
    let pids = before.particle_ids();
    let n = before.spec_particles().len();
    lemma_first_inside_bound(rows[p]);
    if first_inside(rows[p]) < before.spec_cells().len() {
        let c = first_inside(rows[p]) as int;
        lemma_arrivals_holds(pids, rows, c, n, p);
        let o = before.spec_cells()[c].spec_particle_ids();
        let a = arrivals(pids, rows, c, n);
        let w = a.index_of(pids[p]);
        assert(after.spec_cells()[c].spec_particle_ids() == o + a);
        assert((o + a)[o.len() + w] == pids[p]);
    } else {
        lemma_unlocated_holds(pids, rows, n, p);
    }
}

proof fn lemma_first_inside_bound(row: Seq<bool>)
    ensures
        first_inside(row) <= row.len(),
    decreases row.len(),
{
    if row.len() > 0 && !row[0] {
        lemma_first_inside_bound(row.drop_first());
    }
}

} // verus!
