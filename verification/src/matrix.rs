//! The mathematical model shared by both graph variants: a square matrix as a
//! sequence of rows, together with the laws of writing single cells.

use vstd::prelude::*;

verus! {

/// A square matrix of side `n` whose cells all hold `v`.
pub open spec fn uniform_matrix<T>(n: nat, v: T) -> Seq<Seq<T>> {
    Seq::new(n, |i: int| Seq::new(n, |j: int| v))
}

/// Whether `m` is a square matrix of side `n`.
pub open spec fn is_square<T>(m: Seq<Seq<T>>, n: nat) -> bool {
    &&& m.len() == n
    &&& forall|i: int| 0 <= i < m.len() ==> (#[trigger] m[i]).len() == n
}

/// The matrix `m` with the cell at row `i`, column `j` replaced by `v`.
pub open spec fn set_cell<T>(m: Seq<Seq<T>>, i: int, j: int, v: T) -> Seq<Seq<T>> {
    m.update(i, m[i].update(j, v))
}

/// The column of `m` at index `j`: its `i`th element is the cell at row `i`,
/// column `j`.
pub open spec fn column<T>(m: Seq<Seq<T>>, j: int) -> Seq<T> {
    Seq::new(m.len(), |i: int| m[i][j])
}

/// Writing a cell keeps the matrix square.
pub proof fn lemma_set_cell_square<T>(m: Seq<Seq<T>>, n: nat, i: int, j: int, v: T)
    requires
        is_square(m, n),
        0 <= i < n,
        0 <= j < n,
    ensures
        is_square(set_cell(m, i, j, v), n),
{
}

/// Law: writing the cell at (i, j) sets exactly that cell; every other cell
/// keeps the value it had before.
pub proof fn lemma_set_cell_reads<T>(m: Seq<Seq<T>>, n: nat, i: int, j: int, v: T, u: int, w: int)
    requires
        is_square(m, n),
        0 <= i < n,
        0 <= j < n,
        0 <= u < n,
        0 <= w < n,
    ensures
        set_cell(m, i, j, v)[i][j] == v,
        u != i || w != j ==> set_cell(m, i, j, v)[u][w] == m[u][w],
{
}

/// Law: a symmetric write stores the value at both (i, j) and (j, i).
pub proof fn lemma_set_cell_pair_reads<T>(m: Seq<Seq<T>>, n: nat, i: int, j: int, v: T)
    requires
        is_square(m, n),
        0 <= i < n,
        0 <= j < n,
    ensures
        set_cell(set_cell(m, i, j, v), j, i, v)[i][j] == v,
        set_cell(set_cell(m, i, j, v), j, i, v)[j][i] == v,
{
    lemma_set_cell_square(m, n, i, j, v);
    lemma_set_cell_reads(set_cell(m, i, j, v), n, j, i, v, i, j);
}

/// Law: a second write to the same cell overwrites the first entirely; the
/// intermediate value leaves no trace.
pub proof fn lemma_set_cell_overwrite<T>(m: Seq<Seq<T>>, i: int, j: int, a: T, b: T)
    requires
        0 <= i < m.len(),
        0 <= j < m[i].len(),
    ensures
        set_cell(set_cell(m, i, j, a), i, j, b) == set_cell(m, i, j, b),
{
    let m1 = set_cell(m, i, j, a);
    assert(m1[i].update(j, b) =~= m[i].update(j, b));
    assert(set_cell(m1, i, j, b) =~~= set_cell(m, i, j, b));
}

/// Law: writing the same value to the same cell twice leaves the matrix
/// exactly as one write does.
pub proof fn lemma_set_cell_idempotent<T>(m: Seq<Seq<T>>, i: int, j: int, v: T)
    requires
        0 <= i < m.len(),
        0 <= j < m[i].len(),
    ensures
        set_cell(set_cell(m, i, j, v), i, j, v) == set_cell(m, i, j, v),
{
    lemma_set_cell_overwrite(m, i, j, v, v);
}

/// The flat, row-major position of the cell (i, j) lies inside an n-by-n
/// backing store.
pub proof fn lemma_flat_index_bound(i: int, j: int, n: int)
    by (nonlinear_arith)
    requires
        0 <= i < n,
        0 <= j < n,
    ensures
        0 <= i * n + j < n * n,
{
}

/// Distinct cells of a square matrix have distinct flat, row-major positions.
pub proof fn lemma_flat_index_injective(i: int, j: int, u: int, w: int, n: int)
    by (nonlinear_arith)
    requires
        0 <= i < n,
        0 <= j < n,
        0 <= u < n,
        0 <= w < n,
        i * n + j == u * n + w,
    ensures
        i == u,
        j == w,
{
}

/// With at least one vertex, the self-loop-free edge bound n * (n - 1) fits
/// under the full cell count n * n.
pub proof fn lemma_max_edges_bound(n: int)
    by (nonlinear_arith)
    requires
        n >= 1,
    ensures
        0 <= n * (n - 1) < n * n,
{
}

} // verus!
