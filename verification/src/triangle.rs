//! 2D triangle element with 3 or 6 nodes: its index tables.

use vstd::prelude::*;
use crate::quadrature::{TriangleQuadrature, triangle_npoints_supported};
use crate::table::{IndexMatrix, IndexVector, matrix_rows, vector_entries};
use crate::types::{ElementDegree, ShapefnType};

verus! {

/// Node counts a triangle element supports.
pub open spec fn triangle_nnodes_supported(n: usize) -> bool {
    n == 3 || n == 6
}

/// Node pairs on the three sides of a triangle.
pub open spec fn triangle_sides() -> Seq<Seq<i32>> {
    seq![seq![0i32, 1], seq![1i32, 2], seq![2i32, 0]]
}

/// Node triples used to test whether a point lies inside a triangle.
pub open spec fn triangle_inhedron() -> Seq<Seq<i32>> {
    seq![seq![1i32, 0, 2], seq![2i32, 1, 0], seq![0i32, 2, 1]]
}

/// 2D triangle element.
pub struct TriangleElement {
    nnodes: usize,
}

impl TriangleElement {
    #[verifier::type_invariant]
    spec fn supported(self) -> bool {
        triangle_nnodes_supported(self.nnodes)
    }

    /// The number of nodes of this element.
    pub closed spec fn spec_nnodes(self) -> usize {
        self.nnodes
    }

    /// An element with `nnodes` nodes; only 3 and 6 are supported.
    pub fn new(nnodes: usize) -> (e: Self)
        requires
            triangle_nnodes_supported(nnodes),
        ensures
            e.spec_nnodes() == nnodes,
    {
        Self { nnodes }
    }

    /// Number of shape functions, one per node.
    pub fn nfunctions(&self) -> (n: usize)
        ensures
            n == self.spec_nnodes(),
            triangle_nnodes_supported(n),
    {
        proof { use_type_invariant(self); }
        self.nnodes
    }

    /// Polynomial degree: linear with 3 nodes, quadratic with 6.
    pub fn degree(&self) -> (d: ElementDegree)
        ensures
            d == (if self.spec_nnodes() == 3 { ElementDegree::Linear } else { ElementDegree::Quadratic }),
    {
        if self.nnodes == 3 {
            ElementDegree::Linear
        } else {
            ElementDegree::Quadratic
        }
    }

    /// Standard MPM shape functions.
    pub fn shapefn_type(&self) -> (t: ShapefnType)
        ensures
            t == ShapefnType::NormalMpm,
    {
        ShapefnType::NormalMpm
    }

    /// Node indices of the three sides, one row per side.
    pub fn sides_indices(&self) -> (m: IndexMatrix)
        ensures
            matrix_rows(m) == triangle_sides(),
    {
        let m = IndexMatrix::from_row_slice(3, 2, &[0, 1, 1, 2, 2, 0]);
        assert(matrix_rows(m) =~~= triangle_sides());
        m
    }

    /// Node indices of the three corners.
    pub fn corner_indices(&self) -> (v: IndexVector)
        ensures
            vector_entries(v) == seq![0i32, 1, 2],
    {
        IndexVector::from_vec(vec![0, 1, 2])
    }

    /// Node triples for the point-in-element test.
    pub fn inhedron_indices(&self) -> (m: IndexMatrix)
        ensures
            matrix_rows(m) == triangle_inhedron(),
    {
        let m = IndexMatrix::from_row_slice(3, 3, &[1, 0, 2, 2, 1, 0, 0, 2, 1]);
        assert(matrix_rows(m) =~~= triangle_inhedron());
        m
    }

    /// Node indices of face `face_id`; the three faces are the sides.
    pub fn face_indices(&self, face_id: usize) -> (v: IndexVector)
        requires
            face_id < 3,
        ensures
            vector_entries(v) == triangle_sides()[face_id as int],
    {
        let v = if face_id == 0 {
            vec![0, 1]
        } else if face_id == 1 {
            vec![1, 2]
        } else {
            vec![2, 0]
        };
        proof { assert(v@ =~= triangle_sides()[face_id as int]); }
        IndexVector::from_vec(v)
    }

    /// Number of faces.
    pub fn nfaces(&self) -> (n: usize)
        ensures
            n == 3,
    {
        3
    }

    /// The quadrature rule with `nquadratures` points.
    pub fn quadrature(&self, nquadratures: usize) -> (q: TriangleQuadrature)
        requires
            triangle_npoints_supported(nquadratures),
        ensures
            q.spec_npoints() == nquadratures,
    {
        TriangleQuadrature::new(nquadratures)
    }

    /// Natural coordinates can be computed in closed form only for the
    /// 3-node element.
    pub fn isvalid_natural_coordinates_analytical(&self) -> (b: bool)
        ensures
            b == (self.spec_nnodes() == 3),
    {
        self.nnodes == 3
    }
}

} // verus!
