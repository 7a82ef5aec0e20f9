//! Integer index tables held in nalgebra's dynamically sized matrices.

use vstd::prelude::*;

verus! {

/// A dynamically sized integer matrix (`nalgebra::DMatrix<i32>`), such as
/// the table of node indices on each side of an element.
#[verifier::external_body]
pub struct IndexMatrix {
    matrix: nalgebra::DMatrix<i32>,
}

/// A dynamically sized integer column vector (`nalgebra::DVector<i32>`),
/// such as the list of corner node indices of an element.
#[verifier::external_body]
pub struct IndexVector {
    vector: nalgebra::DVector<i32>,
}

/// The rows of an index matrix, each row read from left to right.
pub uninterp spec fn matrix_rows(m: IndexMatrix) -> Seq<Seq<i32>>;

/// The entries of an index vector, in order.
pub uninterp spec fn vector_entries(v: IndexVector) -> Seq<i32>;

/// Whether `rows` is the row-major reading of `data` with `ncols` columns.
pub open spec fn rows_of(rows: Seq<Seq<i32>>, nrows: nat, ncols: nat, data: Seq<i32>) -> bool {
    &&& rows.len() == nrows
    &&& forall|i: int| 0 <= i < nrows ==> #[trigger] rows[i].len() == ncols
    &&& forall|i: int, j: int|
        0 <= i < nrows && 0 <= j < ncols ==> #[trigger] rows[i][j] == data[i * ncols + j]
}

/// Calls `nalgebra::DMatrix::from_row_slice`, which fills row `i`, column
/// `j` with `data[i * ncols + j]` and panics unless
/// `data.len() == nrows * ncols`.
#[verifier::external_body]
fn dmatrix_from_row_slice(nrows: usize, ncols: usize, data: &[i32]) -> (m: IndexMatrix)
    requires
        data@.len() == nrows * ncols,
    ensures
        rows_of(matrix_rows(m), nrows as nat, ncols as nat, data@),
{
    IndexMatrix { matrix: nalgebra::DMatrix::from_row_slice(nrows, ncols, data) }
}

/// Calls `nalgebra::Matrix::nrows`, the number of rows.
#[verifier::external_body]
fn dmatrix_nrows(m: &IndexMatrix) -> (n: usize)
    ensures
        n == matrix_rows(*m).len(),
{
    m.matrix.nrows()
}

/// Calls `nalgebra::Matrix::ncols`, the number of columns, which every row
/// has.
#[verifier::external_body]
fn dmatrix_ncols(m: &IndexMatrix) -> (n: usize)
    requires
        matrix_rows(*m).len() > 0,
    ensures
        n == matrix_rows(*m)[0].len(),
{
    m.matrix.ncols()
}

/// Reads entry `(i, j)` by `nalgebra`'s `Index<(usize, usize)>`, which
/// panics out of bounds.
#[verifier::external_body]
fn dmatrix_index(m: &IndexMatrix, i: usize, j: usize) -> (x: i32)
    requires
        i < matrix_rows(*m).len(),
        j < matrix_rows(*m)[i as int].len(),
    ensures
        x == matrix_rows(*m)[i as int][j as int],
{
    m.matrix[(i, j)]
}

/// Calls `nalgebra::DVector::from_vec`, which keeps the entries of `data`
/// in order.
#[verifier::external_body]
fn dvector_from_vec(data: Vec<i32>) -> (v: IndexVector)
    ensures
        vector_entries(v) == data@,
{
    IndexVector { vector: nalgebra::DVector::from_vec(data) }
}

/// Calls `nalgebra::Matrix::len`, the number of entries of the vector.
#[verifier::external_body]
fn dvector_len(v: &IndexVector) -> (n: usize)
    ensures
        n == vector_entries(*v).len(),
{
    v.vector.len()
}

/// Reads entry `i` by `nalgebra`'s `Index<usize>`, which panics out of
/// bounds.
#[verifier::external_body]
fn dvector_index(v: &IndexVector, i: usize) -> (x: i32)
    requires
        i < vector_entries(*v).len(),
    ensures
        x == vector_entries(*v)[i as int],
{
    v.vector[i]
}

impl IndexMatrix {
    /// Builds a matrix of `nrows` rows and `ncols` columns from `data` read
    /// row by row.
    pub fn from_row_slice(nrows: usize, ncols: usize, data: &[i32]) -> (m: IndexMatrix)
        requires
            data@.len() == nrows * ncols,
        ensures
            rows_of(matrix_rows(m), nrows as nat, ncols as nat, data@),
    {
        dmatrix_from_row_slice(nrows, ncols, data)
    }

    /// The number of rows.
    pub fn nrows(&self) -> (n: usize)
        ensures
            n == matrix_rows(*self).len(),
    {
        dmatrix_nrows(self)
    }

    /// The number of columns of a matrix with at least one row.
    pub fn ncols(&self) -> (n: usize)
        requires
            matrix_rows(*self).len() > 0,
        ensures
            n == matrix_rows(*self)[0].len(),
    {
        dmatrix_ncols(self)
    }

    /// The entry in row `i`, column `j`.
    pub fn get(&self, i: usize, j: usize) -> (x: i32)
        requires
            i < matrix_rows(*self).len(),
            j < matrix_rows(*self)[i as int].len(),
        ensures
            x == matrix_rows(*self)[i as int][j as int],
    {
        dmatrix_index(self, i, j)
    }
}

impl IndexVector {
    /// Builds a vector holding the entries of `data` in order.
    pub fn from_vec(data: Vec<i32>) -> (v: IndexVector)
        ensures
            vector_entries(v) == data@,
    {
        dvector_from_vec(data)
    }

    /// The number of entries.
    pub fn len(&self) -> (n: usize)
        ensures
            n == vector_entries(*self).len(),
    {
        dvector_len(self)
    }

    /// The entry at position `i`.
    pub fn get(&self, i: usize) -> (x: i32)
        requires
            i < vector_entries(*self).len(),
        ensures
            x == vector_entries(*self)[i as int],
    {
        dvector_index(self, i)
    }
}

} // verus!
