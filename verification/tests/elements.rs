use mpm::hexahedron::HexahedronElement;
use mpm::hexahedron_gimp::HexahedronGimpElement;
use mpm::quadrature::{HexahedronQuadrature, QuadrilateralQuadrature, TriangleQuadrature};
use mpm::quadrilateral::QuadrilateralElement;
use mpm::quadrilateral_gimp::QuadrilateralGimpElement;
use mpm::table::{IndexMatrix, IndexVector};
use mpm::triangle::TriangleElement;
use mpm::types::{ElementDegree, ShapefnType};

fn rows(m: &IndexMatrix) -> Vec<Vec<i32>> {
    let mut out = Vec::new();
    for i in 0..m.nrows() {
        let mut row = Vec::new();
        for j in 0..m.ncols() {
            row.push(m.get(i, j));
        }
        out.push(row);
    }
    out
}

fn entries(v: &IndexVector) -> Vec<i32> {
    (0..v.len()).map(|i| v.get(i)).collect()
}

#[test]
fn quadrilateral_tables() {
    let e = QuadrilateralElement::new(4);
    assert_eq!(e.nfunctions(), 4);
    assert_eq!(e.degree(), ElementDegree::Linear);
    assert_eq!(e.shapefn_type(), ShapefnType::NormalMpm);
    assert_eq!(rows(&e.sides_indices()), vec![vec![0, 1], vec![1, 2], vec![2, 3], vec![3, 0]]);
    assert_eq!(entries(&e.corner_indices()), vec![0, 1, 2, 3]);
    assert_eq!(
        rows(&e.inhedron_indices()),
        vec![vec![1, 0, 3], vec![2, 1, 0], vec![3, 2, 1], vec![0, 3, 2]]
    );
    assert_eq!(entries(&e.face_indices(3)), vec![3, 0]);
    assert_eq!(e.nfaces(), 4);
    assert!(e.isvalid_natural_coordinates_analytical());
    assert_eq!(e.quadrature(9).npoints(), 9);
}

#[test]
fn quadratic_quadrilaterals() {
    let e8 = QuadrilateralElement::new(8);
    let e9 = QuadrilateralElement::new(9);
    assert_eq!(e8.degree(), ElementDegree::Quadratic);
    assert_eq!(e9.degree(), ElementDegree::Quadratic);
    assert_eq!(e9.nfunctions(), 9);
    assert!(!e8.isvalid_natural_coordinates_analytical());
    assert!(!e9.isvalid_natural_coordinates_analytical());
}

#[test]
fn triangle_tables() {
    let e = TriangleElement::new(3);
    assert_eq!(e.nfunctions(), 3);
    assert_eq!(e.degree(), ElementDegree::Linear);
    assert_eq!(rows(&e.sides_indices()), vec![vec![0, 1], vec![1, 2], vec![2, 0]]);
    assert_eq!(entries(&e.corner_indices()), vec![0, 1, 2]);
    assert_eq!(rows(&e.inhedron_indices()), vec![vec![1, 0, 2], vec![2, 1, 0], vec![0, 2, 1]]);
    assert_eq!(entries(&e.face_indices(2)), vec![2, 0]);
    assert_eq!(e.nfaces(), 3);
    assert!(e.isvalid_natural_coordinates_analytical());
    assert_eq!(e.quadrature(3).npoints(), 3);
    let e6 = TriangleElement::new(6);
    assert_eq!(e6.degree(), ElementDegree::Quadratic);
    assert!(!e6.isvalid_natural_coordinates_analytical());
}

#[test]
fn hexahedron_tables() {
    let e = HexahedronElement::new(8);
    assert_eq!(e.nfunctions(), 8);
    assert_eq!(e.degree(), ElementDegree::Linear);
    assert_eq!(HexahedronElement::new(20).degree(), ElementDegree::Quadratic);
    let sides = rows(&e.sides_indices());
    assert_eq!(sides.len(), 12);
    assert_eq!(sides[8], vec![0, 4]);
    assert_eq!(sides[11], vec![3, 7]);
    assert_eq!(entries(&e.corner_indices()), vec![0, 1, 2, 3, 4, 5, 6, 7]);
    let faces = rows(&e.inhedron_indices());
    assert_eq!(faces[0], vec![0, 3, 2, 1]);
    assert_eq!(faces[5], vec![3, 0, 4, 7]);
    for f in 0..6 {
        assert_eq!(entries(&e.face_indices(f)), faces[f]);
    }
    assert_eq!(e.nfaces(), 6);
    assert!(!e.isvalid_natural_coordinates_analytical());
    assert_eq!(e.quadrature(27).npoints(), 27);
}

#[test]
fn gimp_elements() {
    let q = QuadrilateralGimpElement::new();
    assert_eq!(q.nfunctions(), 16);
    assert_eq!(q.degree(), ElementDegree::Linear);
    assert_eq!(q.shapefn_type(), ShapefnType::Gimp);
    assert_eq!(rows(&q.sides_indices()), vec![vec![0, 1], vec![1, 2], vec![2, 3], vec![3, 0]]);
    assert_eq!(entries(&q.face_indices(1)), vec![1, 2]);
    assert!(!q.isvalid_natural_coordinates_analytical());
    assert_eq!(q.quadrature(16).npoints(), 16);
    let h = HexahedronGimpElement::new();
    assert_eq!(h.nfunctions(), 64);
    assert_eq!(h.shapefn_type(), ShapefnType::Gimp);
    assert_eq!(h.nfaces(), 6);
    assert_eq!(entries(&h.face_indices(4)), vec![2, 3, 7, 6]);
    assert_eq!(h.quadrature(64).npoints(), 64);
}

#[test]
fn quadrature_point_counts() {
    for n in [1, 4, 9, 16] {
        assert_eq!(QuadrilateralQuadrature::new(n).npoints(), n);
    }
    for n in [1, 3] {
        assert_eq!(TriangleQuadrature::new(n).npoints(), n);
    }
    for n in [1, 8, 27, 64] {
        assert_eq!(HexahedronQuadrature::new(n).npoints(), n);
    }
}

#[test]
fn index_matrix_from_rows() {
    let m = IndexMatrix::from_row_slice(2, 3, &[0, 1, 2, 3, 4, 5]);
    assert_eq!(m.nrows(), 2);
    assert_eq!(m.ncols(), 3);
    assert_eq!(m.get(1, 0), 3);
    assert_eq!(m.get(1, 2), 5);
    let v = IndexVector::from_vec(vec![7, 8]);
    assert_eq!(v.len(), 2);
    assert_eq!(v.get(1), 8);
}
