//! 3D hexahedron element with 8 or 20 nodes: its index tables.

use vstd::prelude::*;
use crate::quadrature::{HexahedronQuadrature, hexahedron_npoints_supported};
use crate::table::{IndexMatrix, IndexVector, matrix_rows, vector_entries};
use crate::types::{ElementDegree, ShapefnType};

verus! {

/// Node counts a hexahedron element supports.
pub open spec fn hexahedron_nnodes_supported(n: usize) -> bool {
    n == 8 || n == 20
}

/// Node pairs on the twelve edges of a hexahedron.
pub open spec fn hexahedron_sides() -> Seq<Seq<i32>> {
    seq![
        seq![0i32, 1], seq![1i32, 2], seq![2i32, 3], seq![3i32, 0],
        seq![4i32, 5], seq![5i32, 6], seq![6i32, 7], seq![7i32, 4],
        seq![0i32, 4], seq![1i32, 5], seq![2i32, 6], seq![3i32, 7],
    ]
}

/// Reference coordinate along x (-1 or 1) of corner `i` of the unit
/// hexahedron: corners 1, 2, 5 and 6 lie at x = 1.
pub open spec fn corner_x(i: int) -> int {
    if i == 1 || i == 2 || i == 5 || i == 6 { 1 } else { -1 }
}

/// Reference coordinate along y of corner `i`: corners 2, 3, 6 and 7 lie
/// at y = 1.
pub open spec fn corner_y(i: int) -> int {
    if i == 2 || i == 3 || i == 6 || i == 7 { 1 } else { -1 }
}

/// Reference coordinate along z of corner `i`: corners 4 to 7 lie at z = 1.
pub open spec fn corner_z(i: int) -> int {
    if i >= 4 { 1 } else { -1 }
}

/// Whether corners `a` and `b` of the unit hexahedron are joined by an
/// edge: both are corners and they differ along exactly one axis.
pub open spec fn is_cube_edge(a: int, b: int) -> bool {
    &&& 0 <= a < 8
    &&& 0 <= b < 8
    &&& (if corner_x(a) != corner_x(b) { 1int } else { 0 })
        + (if corner_y(a) != corner_y(b) { 1int } else { 0 })
        + (if corner_z(a) != corner_z(b) { 1int } else { 0 }) == 1
}

/// The side table of a hexahedron lists its twelve edges, each once: every
/// row joins two corners that differ along exactly one axis, no two rows
/// join the same pair, and the vertical edges are `[i, i + 4]`.
pub proof fn law_hexahedron_sides_are_its_edges()
    ensures
        hexahedron_sides().len() == 12,
        forall|r: int| 0 <= r < 12 ==> {
            &&& (#[trigger] hexahedron_sides()[r]).len() == 2
            &&& is_cube_edge(hexahedron_sides()[r][0] as int, hexahedron_sides()[r][1] as int)
        },
        forall|r: int, q: int| 0 <= r < q < 12 ==> {
            let a = #[trigger] hexahedron_sides()[r];
            let b = #[trigger] hexahedron_sides()[q];
            !((a[0] == b[0] && a[1] == b[1]) || (a[0] == b[1] && a[1] == b[0]))
        },
        forall|i: int| 0 <= i < 4 ==> #[trigger] hexahedron_sides()[8 + i] == seq![i as i32, (i + 4) as i32],
{
    let t = hexahedron_sides();
    assert(t[0] == seq![0i32, 1] && t[1] == seq![1i32, 2] && t[2] == seq![2i32, 3] && t[3] == seq![3i32, 0]);
    assert(t[4] == seq![4i32, 5] && t[5] == seq![5i32, 6] && t[6] == seq![6i32, 7] && t[7] == seq![7i32, 4]);
    assert(t[8] == seq![0i32, 4] && t[9] == seq![1i32, 5] && t[10] == seq![2i32, 6] && t[11] == seq![3i32, 7]);
    assert forall|i: int| 0 <= i < 4 implies #[trigger] hexahedron_sides()[8 + i] == seq![i as i32, (i + 4) as i32] by {
        assert(t[8 + i] =~= seq![i as i32, (i + 4) as i32]);
    }
}

/// Corner quadruples of the six faces of a hexahedron, each with an
/// outward normal by the right-hand rule.
pub open spec fn hexahedron_faces() -> Seq<Seq<i32>> {
    seq![
        seq![0i32, 3, 2, 1], seq![4i32, 5, 6, 7], seq![0i32, 1, 5, 4],
        seq![1i32, 2, 6, 5], seq![2i32, 3, 7, 6], seq![3i32, 0, 4, 7],
    ]
}

/// Node indices of the six faces of a hexahedron; shared by the GIMP element.
pub(crate) fn hexahedron_face(face_id: usize) -> (v: IndexVector)
    requires
        face_id < 6,
    ensures
        vector_entries(v) == hexahedron_faces()[face_id as int],
{
    let v = if face_id == 0 {
        vec![0, 3, 2, 1]
    } else if face_id == 1 {
        vec![4, 5, 6, 7]
    } else if face_id == 2 {
        vec![0, 1, 5, 4]
    } else if face_id == 3 {
        vec![1, 2, 6, 5]
    } else if face_id == 4 {
        vec![2, 3, 7, 6]
    } else {
        vec![3, 0, 4, 7]
    };
    proof { assert(v@ =~= hexahedron_faces()[face_id as int]); }
    IndexVector::from_vec(v)
}

/// The edge table of a hexahedron; shared by the GIMP element.
pub(crate) fn hexahedron_edge_table() -> (m: IndexMatrix)
    ensures
        matrix_rows(m) == hexahedron_sides(),
{
    let m = IndexMatrix::from_row_slice(
        12,
        2,
        &[0, 1, 1, 2, 2, 3, 3, 0, 4, 5, 5, 6, 6, 7, 7, 4, 0, 4, 1, 5, 2, 6, 3, 7],
    );
    assert(matrix_rows(m) =~~= hexahedron_sides());
    m
}

/// The face table of a hexahedron; shared by the GIMP element.
pub(crate) fn hexahedron_face_table() -> (m: IndexMatrix)
    ensures
        matrix_rows(m) == hexahedron_faces(),
{
    let m = IndexMatrix::from_row_slice(
        6,
        4,
        &[0, 3, 2, 1, 4, 5, 6, 7, 0, 1, 5, 4, 1, 2, 6, 5, 2, 3, 7, 6, 3, 0, 4, 7],
    );
    assert(matrix_rows(m) =~~= hexahedron_faces());
    m
}

/// The corner list of a hexahedron; shared by the GIMP element.
pub(crate) fn hexahedron_corners() -> (v: IndexVector)
    ensures
        vector_entries(v) == seq![0i32, 1, 2, 3, 4, 5, 6, 7],
{
    IndexVector::from_vec(vec![0, 1, 2, 3, 4, 5, 6, 7])
}

/// 3D hexahedron element.
pub struct HexahedronElement {
    nnodes: usize,
}

impl HexahedronElement {
    #[verifier::type_invariant]
    spec fn supported(self) -> bool {
        hexahedron_nnodes_supported(self.nnodes)
    }

    /// The number of nodes of this element.
    pub closed spec fn spec_nnodes(self) -> usize {
        self.nnodes
    }

    /// An element with `nnodes` nodes; only 8 and 20 are supported.
    pub fn new(nnodes: usize) -> (e: Self)
        requires
            hexahedron_nnodes_supported(nnodes),
        ensures
            e.spec_nnodes() == nnodes,
    {
        Self { nnodes }
    }

    /// Number of shape functions, one per node.
    pub fn nfunctions(&self) -> (n: usize)
        ensures
            n == self.spec_nnodes(),
            hexahedron_nnodes_supported(n),
    {
        proof { use_type_invariant(self); }
        self.nnodes
    }

    /// Polynomial degree: linear with 8 nodes, quadratic with 20.
    pub fn degree(&self) -> (d: ElementDegree)
        ensures
            d == (if self.spec_nnodes() == 8 { ElementDegree::Linear } else { ElementDegree::Quadratic }),
    {
        if self.nnodes == 8 {
            ElementDegree::Linear
        } else {
            ElementDegree::Quadratic
        }
    }

    /// Standard MPM shape functions.
    pub fn shapefn_type(&self) -> (t: ShapefnType)
        ensures
            t == ShapefnType::NormalMpm,
    {
        ShapefnType::NormalMpm
    }

    /// Node indices of the twelve edges, one row per edge.
    pub fn sides_indices(&self) -> (m: IndexMatrix)
        ensures
            matrix_rows(m) == hexahedron_sides(),
    {
        hexahedron_edge_table()
    }

    /// Node indices of the eight corners.
    pub fn corner_indices(&self) -> (v: IndexVector)
        ensures
            vector_entries(v) == seq![0i32, 1, 2, 3, 4, 5, 6, 7],
    {
        hexahedron_corners()
    }

    /// Node quadruples for the point-in-element test, one row per face.
    pub fn inhedron_indices(&self) -> (m: IndexMatrix)
        ensures
            matrix_rows(m) == hexahedron_faces(),
    {
        hexahedron_face_table()
    }

    /// Corner node indices of face `face_id`.
    pub fn face_indices(&self, face_id: usize) -> (v: IndexVector)
        requires
            face_id < 6,
        ensures
            vector_entries(v) == hexahedron_faces()[face_id as int],
    {
        hexahedron_face(face_id)
    }

    /// Number of faces.
    pub fn nfaces(&self) -> (n: usize)
        ensures
            n == 6,
    {
        6
    }

    /// The quadrature rule with `nquadratures` points.
    pub fn quadrature(&self, nquadratures: usize) -> (q: HexahedronQuadrature)
        requires
            hexahedron_npoints_supported(nquadratures),
        ensures
            q.spec_npoints() == nquadratures,
    {
        HexahedronQuadrature::new(nquadratures)
    }

    /// Natural coordinates have no closed form for a hexahedron.
    pub fn isvalid_natural_coordinates_analytical(&self) -> (b: bool)
        ensures
            !b,
    {
        false
    }
}

} // verus!
