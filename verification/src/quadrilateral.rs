//! 2D quadrilateral element with 4, 8 or 9 nodes: its index tables.

use vstd::prelude::*;
use crate::quadrature::{QuadrilateralQuadrature, quadrilateral_npoints_supported};
use crate::table::{IndexMatrix, IndexVector, matrix_rows, vector_entries};
use crate::types::{ElementDegree, ShapefnType};

verus! {

/// Node counts a quadrilateral element supports.
pub open spec fn quadrilateral_nnodes_supported(n: usize) -> bool {
    n == 4 || n == 8 || n == 9
}

/// Node pairs on the four sides of a quadrilateral, counter-clockwise.
pub open spec fn quadrilateral_sides() -> Seq<Seq<i32>> {
    seq![seq![0i32, 1], seq![1i32, 2], seq![2i32, 3], seq![3i32, 0]]
}

/// Node triples used to test whether a point lies inside a quadrilateral.
pub open spec fn quadrilateral_inhedron() -> Seq<Seq<i32>> {
    seq![seq![1i32, 0, 3], seq![2i32, 1, 0], seq![3i32, 2, 1], seq![0i32, 3, 2]]
}

/// The side table of a quadrilateral; shared by the GIMP element.
pub(crate) fn quadrilateral_side_table() -> (m: IndexMatrix)
    ensures
        matrix_rows(m) == quadrilateral_sides(),
{
    let m = IndexMatrix::from_row_slice(4, 2, &[0, 1, 1, 2, 2, 3, 3, 0]);
    assert(matrix_rows(m) =~~= quadrilateral_sides());
    m
}

/// The inhedron table of a quadrilateral; shared by the GIMP element.
pub(crate) fn quadrilateral_inhedron_table() -> (m: IndexMatrix)
    ensures
        matrix_rows(m) == quadrilateral_inhedron(),
{
    let m = IndexMatrix::from_row_slice(4, 3, &[1, 0, 3, 2, 1, 0, 3, 2, 1, 0, 3, 2]);
    assert(matrix_rows(m) =~~= quadrilateral_inhedron());
    m
}

/// Node indices of a side of a quadrilateral; shared by the GIMP element.
pub(crate) fn quadrilateral_face(face_id: usize) -> (v: IndexVector)
    requires
        face_id < 4,
    ensures
        vector_entries(v) == quadrilateral_sides()[face_id as int],
{
    let v = if face_id == 0 {
        vec![0, 1]
    } else if face_id == 1 {
        vec![1, 2]
    } else if face_id == 2 {
        vec![2, 3]
    } else {
        vec![3, 0]
    };
    proof { assert(v@ =~= quadrilateral_sides()[face_id as int]); }
    IndexVector::from_vec(v)
}

/// The corner list of a quadrilateral; shared by the GIMP element.
pub(crate) fn quadrilateral_corners() -> (v: IndexVector)
    ensures
        vector_entries(v) == seq![0i32, 1, 2, 3],
{
    IndexVector::from_vec(vec![0, 1, 2, 3])
}

/// 2D quadrilateral element parameterized by its number of nodes.
pub struct QuadrilateralElement {
    nnodes: usize,
}

impl QuadrilateralElement {
    #[verifier::type_invariant]
    spec fn supported(self) -> bool {
        quadrilateral_nnodes_supported(self.nnodes)
    }

    /// The number of nodes of this element.
    pub closed spec fn spec_nnodes(self) -> usize {
        self.nnodes
    }

    /// An element with `nnodes` nodes; only 4, 8 and 9 are supported.
    pub fn new(nnodes: usize) -> (e: Self)
        requires
            quadrilateral_nnodes_supported(nnodes),
        ensures
            e.spec_nnodes() == nnodes,
    {
        Self { nnodes }
    }

    /// Number of shape functions, one per node.
    pub fn nfunctions(&self) -> (n: usize)
        ensures
            n == self.spec_nnodes(),
            quadrilateral_nnodes_supported(n),
    {
        proof { use_type_invariant(self); }
        self.nnodes
    }

    /// Polynomial degree: linear with 4 nodes, quadratic with 8 or 9.
    pub fn degree(&self) -> (d: ElementDegree)
        ensures
            d == (if self.spec_nnodes() == 4 { ElementDegree::Linear } else { ElementDegree::Quadratic }),
    {
        proof { use_type_invariant(self); }
        if self.nnodes == 4 {
            ElementDegree::Linear
        } else {
            ElementDegree::Quadratic
        }
    }

    /// Standard MPM shape functions.
    pub fn shapefn_type(&self) -> (t: ShapefnType)
        ensures
            t == ShapefnType::NormalMpm,
    {
        ShapefnType::NormalMpm
    }

    /// Node indices of the four sides, one row per side.
    pub fn sides_indices(&self) -> (m: IndexMatrix)
        ensures
            matrix_rows(m) == quadrilateral_sides(),
    {
        quadrilateral_side_table()
    }

    /// Node indices of the four corners.
    pub fn corner_indices(&self) -> (v: IndexVector)
        ensures
            vector_entries(v) == seq![0i32, 1, 2, 3],
    {
        quadrilateral_corners()
    }

    /// Node triples for the point-in-element test, one row per side.
    pub fn inhedron_indices(&self) -> (m: IndexMatrix)
        ensures
            matrix_rows(m) == quadrilateral_inhedron(),
    {
        quadrilateral_inhedron_table()
    }

    /// Node indices of face `face_id`; the four faces are the sides.
    pub fn face_indices(&self, face_id: usize) -> (v: IndexVector)
        requires
            face_id < 4,
        ensures
            vector_entries(v) == quadrilateral_sides()[face_id as int],
    {
        quadrilateral_face(face_id)
    }

    /// Number of faces.
    pub fn nfaces(&self) -> (n: usize)
        ensures
            n == 4,
    {
        4
    }

    /// The quadrature rule with `nquadratures` points.
    pub fn quadrature(&self, nquadratures: usize) -> (q: QuadrilateralQuadrature)
        requires
            quadrilateral_npoints_supported(nquadratures),
        ensures
            q.spec_npoints() == nquadratures,
    {
        QuadrilateralQuadrature::new(nquadratures)
    }

    /// Natural coordinates can be computed in closed form only for the
    /// 4-node element.
    pub fn isvalid_natural_coordinates_analytical(&self) -> (b: bool)
        ensures
            b == (self.spec_nnodes() == 4),
    {
        self.nnodes == 4
    }
}

} // verus!
