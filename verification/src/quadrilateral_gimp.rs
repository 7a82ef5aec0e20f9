//! 2D quadrilateral GIMP element (16 nodes): its index tables.
//!
//! The 16 nodes of a GIMP element are the 4x4 grid formed by the parent
//! cell and its neighbours; its sides, corners and faces are those of the
//! parent quadrilateral.

use vstd::prelude::*;
use crate::quadrature::{QuadrilateralQuadrature, quadrilateral_npoints_supported};
use crate::quadrilateral::{
    quadrilateral_corners, quadrilateral_face, quadrilateral_inhedron,
    quadrilateral_inhedron_table, quadrilateral_side_table, quadrilateral_sides,
};
use crate::table::{IndexMatrix, IndexVector, matrix_rows, vector_entries};
use crate::types::{ElementDegree, ShapefnType};

verus! {

/// 2D GIMP (Generalized Interpolation Material Point) element.
pub struct QuadrilateralGimpElement;

impl QuadrilateralGimpElement {
    /// The GIMP quadrilateral.
    pub fn new() -> (e: Self) {
        Self
    }

    /// Number of shape functions: the 4x4 node grid.
    pub fn nfunctions(&self) -> (n: usize)
        ensures
            n == 16,
    {
        16
    }

    /// GIMP shape functions are linear.
    pub fn degree(&self) -> (d: ElementDegree)
        ensures
            d == ElementDegree::Linear,
    {
        ElementDegree::Linear
    }

    /// GIMP shape functions.
    pub fn shapefn_type(&self) -> (t: ShapefnType)
        ensures
            t == ShapefnType::Gimp,
    {
        ShapefnType::Gimp
    }

    /// Node indices of the four sides of the parent quadrilateral.
    pub fn sides_indices(&self) -> (m: IndexMatrix)
        ensures
            matrix_rows(m) == quadrilateral_sides(),
    {
        quadrilateral_side_table()
    }

    /// Node indices of the four corners of the parent quadrilateral.
    pub fn corner_indices(&self) -> (v: IndexVector)
        ensures
            vector_entries(v) == seq![0i32, 1, 2, 3],
    {
        quadrilateral_corners()
    }

    /// Node triples for the point-in-element test.
    pub fn inhedron_indices(&self) -> (m: IndexMatrix)
        ensures
            matrix_rows(m) == quadrilateral_inhedron(),
    {
        quadrilateral_inhedron_table()
    }

    /// Node indices of face `face_id` of the parent quadrilateral.
    pub fn face_indices(&self, face_id: usize) -> (v: IndexVector)
        requires
            face_id < 4,
        ensures
            vector_entries(v) == quadrilateral_sides()[face_id as int],
    {
        quadrilateral_face(face_id)
    }

    /// Number of faces.
    pub fn nfaces(&self) -> (n: usize)
        ensures
            n == 4,
    {
        4
    }

    /// The quadrature rule with `nquadratures` points.
    pub fn quadrature(&self, nquadratures: usize) -> (q: QuadrilateralQuadrature)
        requires
            quadrilateral_npoints_supported(nquadratures),
        ensures
            q.spec_npoints() == nquadratures,
    {
        QuadrilateralQuadrature::new(nquadratures)
    }

    /// Natural coordinates have no closed form for a GIMP element.
    pub fn isvalid_natural_coordinates_analytical(&self) -> (b: bool)
        ensures
            !b,
    {
        false
    }
}

} // verus!
