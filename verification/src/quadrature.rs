//! Gauss quadrature rules: which numbers of integration points each
//! reference element supports.

use vstd::prelude::*;

verus! {

/// Numbers of points a quadrilateral quadrature rule supports (1, 2x2, 3x3, 4x4).
pub open spec fn quadrilateral_npoints_supported(n: usize) -> bool {
    n == 1 || n == 4 || n == 9 || n == 16
}

/// Numbers of points a triangle quadrature rule supports.
pub open spec fn triangle_npoints_supported(n: usize) -> bool {
    n == 1 || n == 3
}

/// Numbers of points a hexahedron quadrature rule supports (1, 2^3, 3^3, 4^3).
pub open spec fn hexahedron_npoints_supported(n: usize) -> bool {
    n == 1 || n == 8 || n == 27 || n == 64
}

/// 2D quadrilateral quadrature rule.
pub struct QuadrilateralQuadrature {
    nquadratures: usize,
}

impl QuadrilateralQuadrature {
    #[verifier::type_invariant]
    spec fn supported(self) -> bool {
        quadrilateral_npoints_supported(self.nquadratures)
    }

    /// The number of points of this rule.
    pub closed spec fn spec_npoints(self) -> usize {
        self.nquadratures
    }

    /// A rule with `nquadratures` points; only 1, 4, 9 and 16 are supported.
    pub fn new(nquadratures: usize) -> (q: Self)
        requires
            quadrilateral_npoints_supported(nquadratures),
        ensures
            q.spec_npoints() == nquadratures,
    {
        Self { nquadratures }
    }

    /// The number of quadrature points.
    pub fn npoints(&self) -> (n: usize)
        ensures
            n == self.spec_npoints(),
            quadrilateral_npoints_supported(n),
    {
        proof { use_type_invariant(self); }
        self.nquadratures
    }
}

/// 2D triangle quadrature rule.
pub struct TriangleQuadrature {
    nquadratures: usize,
}

impl TriangleQuadrature {
    #[verifier::type_invariant]
    spec fn supported(self) -> bool {
        triangle_npoints_supported(self.nquadratures)
    }

    /// The number of points of this rule.
    pub closed spec fn spec_npoints(self) -> usize {
        self.nquadratures
    }

    /// A rule with `nquadratures` points; only 1 and 3 are supported.
    pub fn new(nquadratures: usize) -> (q: Self)
        requires
            triangle_npoints_supported(nquadratures),
        ensures
            q.spec_npoints() == nquadratures,
    {
        Self { nquadratures }
    }

    /// The number of quadrature points.
    pub fn npoints(&self) -> (n: usize)
        ensures
            n == self.spec_npoints(),
            triangle_npoints_supported(n),
    {
        proof { use_type_invariant(self); }
        self.nquadratures
    }
}

/// 3D hexahedron quadrature rule.
pub struct HexahedronQuadrature {
    nquadratures: usize,
}

impl HexahedronQuadrature {
    #[verifier::type_invariant]
    spec fn supported(self) -> bool {
        hexahedron_npoints_supported(self.nquadratures)
    }

    /// The number of points of this rule.
    pub closed spec fn spec_npoints(self) -> usize {
        self.nquadratures
    }

    /// A rule with `nquadratures` points; only 1, 8, 27 and 64 are supported.
    pub fn new(nquadratures: usize) -> (q: Self)
        requires
            hexahedron_npoints_supported(nquadratures),
        ensures
            q.spec_npoints() == nquadratures,
    {
        Self { nquadratures }
    }

    /// The number of quadrature points.
    pub fn npoints(&self) -> (n: usize)
        ensures
            n == self.spec_npoints(),
            hexahedron_npoints_supported(n),
    {
        proof { use_type_invariant(self); }
        self.nquadratures
    }
}

} // verus!
