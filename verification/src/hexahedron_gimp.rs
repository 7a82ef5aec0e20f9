//! 3D hexahedron GIMP element (64 nodes): its index tables.
//!
//! The 64 nodes form the 4x4x4 grid of the parent cell and its
//! neighbours; its edges, corners and faces are those of the parent
//! hexahedron.

use vstd::prelude::*;
use crate::hexahedron::{
    hexahedron_corners, hexahedron_edge_table, hexahedron_face, hexahedron_face_table,
    hexahedron_faces, hexahedron_sides,
};
use crate::quadrature::{HexahedronQuadrature, hexahedron_npoints_supported};
use crate::table::{IndexMatrix, IndexVector, matrix_rows, vector_entries};
use crate::types::{ElementDegree, ShapefnType};

verus! {

/// 3D GIMP hexahedron element with 64 nodes.
pub struct HexahedronGimpElement;

impl HexahedronGimpElement {
    /// The GIMP hexahedron.
    pub fn new() -> (e: Self) {
        Self
    }

    /// Number of shape functions: the 4x4x4 node grid.
    pub fn nfunctions(&self) -> (n: usize)
        ensures
            n == 64,
    {
        64
    }

    /// GIMP shape functions are linear.
    pub fn degree(&self) -> (d: ElementDegree)
        ensures
            d == ElementDegree::Linear,
    {
        ElementDegree::Linear
    }

    /// GIMP shape functions.
    pub fn shapefn_type(&self) -> (t: ShapefnType)
        ensures
            t == ShapefnType::Gimp,
    {
        ShapefnType::Gimp
    }

    /// Node indices of the twelve edges of the parent hexahedron.
    pub fn sides_indices(&self) -> (m: IndexMatrix)
        ensures
            matrix_rows(m) == hexahedron_sides(),
    {
        hexahedron_edge_table()
    }

    /// Node indices of the eight corners of the parent hexahedron.
    pub fn corner_indices(&self) -> (v: IndexVector)
        ensures
            vector_entries(v) == seq![0i32, 1, 2, 3, 4, 5, 6, 7],
    {
        hexahedron_corners()
    }

    /// Node quadruples for the point-in-element test.
    pub fn inhedron_indices(&self) -> (m: IndexMatrix)
        ensures
            matrix_rows(m) == hexahedron_faces(),
    {
        hexahedron_face_table()
    }

    /// Corner node indices of face `face_id` of the parent hexahedron.
    pub fn face_indices(&self, face_id: usize) -> (v: IndexVector)
        requires
            face_id < 6,
        ensures
            vector_entries(v) == hexahedron_faces()[face_id as int],
    {
        hexahedron_face(face_id)
    }

    /// Number of faces.
    pub fn nfaces(&self) -> (n: usize)
        ensures
            n == 6,
    {
        6
    }

    /// The quadrature rule with `nquadratures` points.
    pub fn quadrature(&self, nquadratures: usize) -> (q: HexahedronQuadrature)
        requires
            hexahedron_npoints_supported(nquadratures),
        ensures
            q.spec_npoints() == nquadratures,
    {
        HexahedronQuadrature::new(nquadratures)
    }

    /// Natural coordinates have no closed form for a GIMP element.
    pub fn isvalid_natural_coordinates_analytical(&self) -> (b: bool)
        ensures
            !b,
    {
        false
    }
}

} // verus!
