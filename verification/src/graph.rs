//! The unweighted graph: a fixed-capacity adjacency matrix of presence flags.

use vstd::prelude::*;

use crate::matrix::column;
use crate::matrix::is_square;
use crate::matrix::lemma_flat_index_bound;
use crate::matrix::lemma_flat_index_injective;
use crate::matrix::lemma_max_edges_bound;
use crate::matrix::lemma_set_cell_reads;
use crate::matrix::lemma_set_cell_square;
use crate::matrix::set_cell;
use crate::matrix::uniform_matrix;

verus! {

/// The single failure of the checked operations: an index that is not a
/// vertex, that is, one at or above the capacity of the graph.
#[derive(Clone, Copy, Debug, PartialEq, Eq)]
pub enum GraphError {
    IndexOutOfRange,
}

/// How many cells of one row hold `true`.
pub open spec fn row_true_count(row: Seq<bool>) -> int
    decreases row.len(),
{
    if row.len() == 0 {
        0
    } else {
        row_true_count(row.drop_last()) + if row.last() {
            1int
        } else {
            0int
        }
    }
}

/// How many cells of the whole matrix hold `true`.
pub open spec fn matrix_true_count(m: Seq<Seq<bool>>) -> int
    decreases m.len(),
{
    if m.len() == 0 {
        0
    } else {
        matrix_true_count(m.drop_last()) + row_true_count(m.last())
    }
}

/// Appending a cell to a row raises its count exactly when the cell holds
/// `true`.
pub proof fn lemma_row_true_count_push(row: Seq<bool>, x: bool)
    ensures
        row_true_count(row.push(x)) == row_true_count(row) + if x {
            1int
        } else {
            0int
        },
{
    assert(row.push(x).drop_last() =~= row);
}

/// Appending a row to a matrix adds that row's count.
pub proof fn lemma_matrix_true_count_push(m: Seq<Seq<bool>>, row: Seq<bool>)
    ensures
        matrix_true_count(m.push(row)) == matrix_true_count(m) + row_true_count(row),
{
    assert(m.push(row).drop_last() =~= m);
}

/// A row with no `true` cell counts zero.
pub proof fn lemma_row_true_count_zero(row: Seq<bool>)
    requires
        forall|k: int| 0 <= k < row.len() ==> !(#[trigger] row[k]),
    ensures
        row_true_count(row) == 0,
    decreases row.len(),
{
    if row.len() > 0 {
        lemma_row_true_count_zero(row.drop_last());
    }
}

/// A matrix with no `true` cell counts zero.
pub proof fn lemma_matrix_true_count_zero(m: Seq<Seq<bool>>)
    requires
        forall|i: int, j: int| 0 <= i < m.len() && 0 <= j < m[i].len() ==> !(#[trigger] m[i][j]),
    ensures
        matrix_true_count(m) == 0,
    decreases m.len(),
{
    if m.len() > 0 {
        lemma_matrix_true_count_zero(m.drop_last());
        lemma_row_true_count_zero(m.last());
    }
}

/// Law: a cleared graph has no edge anywhere and an edge count of zero.
pub proof fn lemma_cleared_count(n: nat)
    ensures
        matrix_true_count(uniform_matrix(n, false)) == 0,
        forall|i: int, j: int|
            0 <= i < n && 0 <= j < n ==> !(#[trigger] uniform_matrix(n, false)[i][j]),
{
    let m = uniform_matrix(n, false);
    assert forall|i: int, j: int|
        0 <= i < m.len() && 0 <= j < m[i].len() implies !(#[trigger] m[i][j]) by {}
    lemma_matrix_true_count_zero(m);
}

/// Law: removing a directed edge right after adding it leaves that pair
/// without an edge.
pub proof fn lemma_remove_restores_absent(m: Seq<Seq<bool>>, n: nat, i: int, j: int)
    requires
        is_square(m, n),
        0 <= i < n,
        0 <= j < n,
    ensures
        !set_cell(set_cell(m, i, j, true), i, j, false)[i][j],
{
    lemma_set_cell_square(m, n, i, j, true);
    lemma_set_cell_reads(set_cell(m, i, j, true), n, i, j, false, i, j);
}

/// Law: removing an undirected edge right after adding it leaves both
/// directions without an edge.
pub proof fn lemma_remove_undirected_restores_absent(m: Seq<Seq<bool>>, n: nat, i: int, j: int)
    requires
        is_square(m, n),
        0 <= i < n,
        0 <= j < n,
    ensures
        !set_cell(
            set_cell(set_cell(set_cell(m, i, j, true), j, i, true), i, j, false),
            j,
            i,
            false,
        )[i][j],
        !set_cell(
            set_cell(set_cell(set_cell(m, i, j, true), j, i, true), i, j, false),
            j,
            i,
            false,
        )[j][i],
{
    let m1 = set_cell(m, i, j, true);
    lemma_set_cell_square(m, n, i, j, true);
    let m2 = set_cell(m1, j, i, true);
    lemma_set_cell_square(m1, n, j, i, true);
    let m3 = set_cell(m2, i, j, false);
    lemma_set_cell_square(m2, n, i, j, false);
    lemma_set_cell_reads(m2, n, i, j, false, i, j);
    lemma_set_cell_reads(m3, n, j, i, false, i, j);
}

/// A directed graph over the fixed vertex set 0 .. SIZE, stored as a square
/// adjacency matrix of presence flags in one row-major vector.
pub struct Graph<const SIZE: usize> {
    data: Vec<bool>,
}

impl<const SIZE: usize> View for Graph<SIZE> {
    type V = Seq<Seq<bool>>;

    /// The abstract state: a SIZE-by-SIZE matrix of rows, whose cell (i, j)
    /// holds whether the directed edge from i to j is present.
    closed spec fn view(&self) -> Seq<Seq<bool>> {
        Seq::new(
            SIZE as nat,
            |i: int| Seq::new(SIZE as nat, |j: int| self.data@[i * (SIZE as int) + j]),
        )
    }
}

impl<const SIZE: usize> Graph<SIZE> {
    /// There is at least one vertex and the backing vector holds exactly
    /// SIZE * SIZE cells.
    pub closed spec fn wf(&self) -> bool {
        &&& SIZE >= 1
        &&& self.data@.len() == (SIZE as int) * (SIZE as int)
        &&& (SIZE as int) * (SIZE as int) <= usize::MAX as int
    }

    /// Creates a graph with no edges.
    pub fn new() -> (graph: Graph<SIZE>)
        requires
            1 <= SIZE,
            (SIZE as int) * (SIZE as int) <= usize::MAX as int,
        ensures
            graph.wf(),
            graph@ == uniform_matrix(SIZE as nat, false),
    {
        let cells: usize = SIZE * SIZE;
        let mut data: Vec<bool> = Vec::new();
        while data.len() < cells
            invariant
                data@.len() <= cells as int,
                forall|k: int| 0 <= k < data@.len() ==> !(#[trigger] data@[k]),
            decreases cells - data@.len(),
        {
            data.push(false);
        }
        let graph = Graph { data };
        proof {
            assert forall|i: int, j: int|
                0 <= i < SIZE && 0 <= j < SIZE implies #[trigger] graph@[i][j] == false by {
                lemma_flat_index_bound(i, j, SIZE as int);
            }
            assert(graph@ =~~= uniform_matrix(SIZE as nat, false));
        }
        graph
    }

    /// Writes one cell of the matrix.
    fn set_edge_cell(&mut self, i: usize, j: usize, value: bool)
        requires
            old(self).wf(),
            i < SIZE,
            j < SIZE,
        ensures
            final(self).wf(),
            final(self)@ == set_cell(old(self)@, i as int, j as int, value),
    {
        proof {
            lemma_flat_index_bound(i as int, j as int, SIZE as int);
        }
        let position: usize = i * SIZE + j;
        self.data[position] = value;
        proof {
            assert forall|u: int, w: int|
                0 <= u < SIZE && 0 <= w < SIZE implies #[trigger] self@[u][w] == set_cell(
                old(self)@,
                i as int,
                j as int,
                value,
            )[u][w] by {
                lemma_flat_index_bound(u, w, SIZE as int);
                if u * (SIZE as int) + w == i * (SIZE as int) + j {
                    lemma_flat_index_injective(u, w, i as int, j as int, SIZE as int);
                }
            }
            assert(self@ =~~= set_cell(old(self)@, i as int, j as int, value));
        }
    }

    /// Adds the directed edge from `i` to `j`; adding an edge that is already
    /// present changes nothing.
    pub fn add_edge(&mut self, i: usize, j: usize)
        requires
            old(self).wf(),
            i < SIZE,
            j < SIZE,
        ensures
            final(self).wf(),
            final(self)@ == set_cell(old(self)@, i as int, j as int, true),
    {
        self.set_edge_cell(i, j, true);
    }

    /// Adds the undirected edge between `i` and `j`: both directions become
    /// present.
    pub fn add_edge_undirected(&mut self, i: usize, j: usize)
        requires
            old(self).wf(),
            i < SIZE,
            j < SIZE,
        ensures
            final(self).wf(),
            final(self)@ == set_cell(
                set_cell(old(self)@, i as int, j as int, true),
                j as int,
                i as int,
                true,
            ),
    {
        self.set_edge_cell(i, j, true);
        self.set_edge_cell(j, i, true);
    }

    /// Removes the directed edge from `i` to `j`; removing an absent edge
    /// changes nothing.
    pub fn remove_edge(&mut self, i: usize, j: usize)
        requires
            old(self).wf(),
            i < SIZE,
            j < SIZE,
        ensures
            final(self).wf(),
            final(self)@ == set_cell(old(self)@, i as int, j as int, false),
    {
        self.set_edge_cell(i, j, false);
    }

    /// Removes the undirected edge between `i` and `j`: both directions
    /// become absent.
    pub fn remove_edge_undirected(&mut self, i: usize, j: usize)
        requires
            old(self).wf(),
            i < SIZE,
            j < SIZE,
        ensures
            final(self).wf(),
            final(self)@ == set_cell(
                set_cell(old(self)@, i as int, j as int, false),
                j as int,
                i as int,
                false,
            ),
    {
        self.set_edge_cell(i, j, false);
        self.set_edge_cell(j, i, false);
    }

    /// Whether the directed edge from `i` to `j` is present.
    pub fn has_edge(&self, i: usize, j: usize) -> (present: bool)
        requires
            self.wf(),
            i < SIZE,
            j < SIZE,
        ensures
            present == self@[i as int][j as int],
    {
        proof {
            lemma_flat_index_bound(i as int, j as int, SIZE as int);
        }
        let position: usize = i * SIZE + j;
        self.data[position]
    }

    /// The row of `vertex`: its element i answers whether the directed edge
    /// from `vertex` to i is present.
    pub fn get_edges(&self, vertex: usize) -> (row: Vec<bool>)
        requires
            self.wf(),
            vertex < SIZE,
        ensures
            row@ == self@[vertex as int],
            row@.len() == SIZE,
    {
        let mut row: Vec<bool> = Vec::new();
        let mut neighbor: usize = 0;
        while neighbor < SIZE
            invariant
                self.wf(),
                vertex < SIZE,
                neighbor <= SIZE,
                row@.len() == neighbor as int,
                forall|k: int|
                    0 <= k < neighbor as int ==> #[trigger] row@[k] == self@[vertex as int][k],
            decreases SIZE - neighbor,
        {
            row.push(self.has_edge(vertex, neighbor));
            neighbor += 1;
        }
        proof {
            assert(row@ =~= self@[vertex as int]);
        }
        row
    }

    /// The column of `vertex`: its element i answers whether the directed
    /// edge from i to `vertex` is present.
    pub fn get_inverse_edges(&self, vertex: usize) -> (inverse: Vec<bool>)
        requires
            self.wf(),
            vertex < SIZE,
        ensures
            inverse@ == column(self@, vertex as int),
            inverse@.len() == SIZE,
            forall|u: int| 0 <= u < SIZE ==> #[trigger] inverse@[u] == self@[u][vertex as int],
    {
        let mut inverse: Vec<bool> = Vec::new();
        let mut source: usize = 0;
        while source < SIZE
            invariant
                self.wf(),
                vertex < SIZE,
                source <= SIZE,
                inverse@.len() == source as int,
                forall|u: int|
                    0 <= u < source as int ==> #[trigger] inverse@[u] == self@[u][vertex as int],
            decreases SIZE - source,
        {
            inverse.push(self.has_edge(source, vertex));
            source += 1;
        }
        proof {
            assert(inverse@ =~= column(self@, vertex as int));
        }
        inverse
    }

    /// The greatest number of directed edges between distinct vertices:
    /// SIZE * (SIZE - 1). Self-loops are left out of this bound, though they
    /// can be stored and queried.
    pub fn max_number_of_edges(&self) -> (bound: usize)
        requires
            self.wf(),
        ensures
            bound as int == (SIZE as int) * (SIZE as int - 1),
    {
        proof {
            lemma_max_edges_bound(SIZE as int);
        }
        SIZE * (SIZE - 1)
    }

    /// How many edges are present, counted over every cell of the matrix.
    /// Self-loops are counted here even though `max_number_of_edges` leaves
    /// them out; the density of the graph — this count divided by that bound
    /// — therefore treats self-loops asymmetrically, on purpose.
    pub fn edge_count(&self) -> (count: usize)
        requires
            self.wf(),
        ensures
            count as int == matrix_true_count(self@),
    {
        let mut count: usize = 0;
        let mut i: usize = 0;
        while i < SIZE
            invariant
                self.wf(),
                i <= SIZE,
                count as int == matrix_true_count(self@.take(i as int)),
                count as int <= (i as int) * (SIZE as int),
            decreases SIZE - i,
        {
            let mut j: usize = 0;
            while j < SIZE
                invariant
                    self.wf(),
                    i < SIZE,
                    j <= SIZE,
                    count as int == matrix_true_count(self@.take(i as int)) + row_true_count(
                        self@[i as int].take(j as int),
                    ),
                    count as int <= (i as int) * (SIZE as int) + j as int,
                decreases SIZE - j,
            {
                proof {
                    lemma_flat_index_bound(i as int, j as int, SIZE as int);
                }
                let present: bool = self.has_edge(i, j);
                if present {
                    count += 1;
                }
                proof {
                    assert(self@[i as int].take(j as int + 1) =~= self@[i as int].take(
                        j as int,
                    ).push(self@[i as int][j as int]));
                    lemma_row_true_count_push(
                        self@[i as int].take(j as int),
                        self@[i as int][j as int],
                    );
                }
                j += 1;
            }
            proof {
                assert(self@[i as int].take(SIZE as int) =~= self@[i as int]);
                assert(self@.take(i as int + 1) =~= self@.take(i as int).push(self@[i as int]));
                lemma_matrix_true_count_push(self@.take(i as int), self@[i as int]);
                assert((i as int + 1) * (SIZE as int) == i as int * (SIZE as int) + (
                SIZE as int)) by (nonlinear_arith);
            }
            i += 1;
        }
        proof {
            assert(self@.take(SIZE as int) =~= self@);
        }
        count
    }

    /// Removes every edge; the capacity stays SIZE.
    pub fn clear(&mut self)
        requires
            old(self).wf(),
        ensures
            final(self).wf(),
            final(self)@ == uniform_matrix(SIZE as nat, false),
    {
        let cells: usize = self.data.len();
        let mut k: usize = 0;
        while k < cells
            invariant
                self.data@.len() == cells as int,
                k <= cells,
                forall|t: int| 0 <= t < k as int ==> !(#[trigger] self.data@[t]),
            decreases cells - k,
        {
            self.data[k] = false;
            k += 1;
        }
        proof {
            assert forall|i: int, j: int|
                0 <= i < SIZE && 0 <= j < SIZE implies #[trigger] self@[i][j] == false by {
                lemma_flat_index_bound(i, j, SIZE as int);
            }
            assert(self@ =~~= uniform_matrix(SIZE as nat, false));
        }
    }

    /// Checked form of `add_edge`: an index at or above SIZE is refused with
    /// `IndexOutOfRange` and the graph stays as it was.
    pub fn try_add_edge(&mut self, i: usize, j: usize) -> (outcome: Result<(), GraphError>)
        requires
            old(self).wf(),
        ensures
            final(self).wf(),
            i < SIZE && j < SIZE ==> outcome == Ok::<(), GraphError>(()) && final(self)@
                == set_cell(old(self)@, i as int, j as int, true),
            !(i < SIZE && j < SIZE) ==> outcome == Err::<(), GraphError>(
                GraphError::IndexOutOfRange,
            ) && final(self)@ == old(self)@,
    {
        if i < SIZE && j < SIZE {
            self.add_edge(i, j);
            Ok(())
        } else {
            Err(GraphError::IndexOutOfRange)
        }
    }

    /// Checked form of `add_edge_undirected`.
    pub fn try_add_edge_undirected(&mut self, i: usize, j: usize) -> (outcome: Result<
        (),
        GraphError,
    >)
        requires
            old(self).wf(),
        ensures
            final(self).wf(),
            i < SIZE && j < SIZE ==> outcome == Ok::<(), GraphError>(()) && final(self)@
                == set_cell(
                set_cell(old(self)@, i as int, j as int, true),
                j as int,
                i as int,
                true,
            ),
            !(i < SIZE && j < SIZE) ==> outcome == Err::<(), GraphError>(
                GraphError::IndexOutOfRange,
            ) && final(self)@ == old(self)@,
    {
        if i < SIZE && j < SIZE {
            self.add_edge_undirected(i, j);
            Ok(())
        } else {
            Err(GraphError::IndexOutOfRange)
        }
    }

    /// Checked form of `remove_edge`.
    pub fn try_remove_edge(&mut self, i: usize, j: usize) -> (outcome: Result<(), GraphError>)
        requires
            old(self).wf(),
        ensures
            final(self).wf(),
            i < SIZE && j < SIZE ==> outcome == Ok::<(), GraphError>(()) && final(self)@
                == set_cell(old(self)@, i as int, j as int, false),
            !(i < SIZE && j < SIZE) ==> outcome == Err::<(), GraphError>(
                GraphError::IndexOutOfRange,
            ) && final(self)@ == old(self)@,
    {
        if i < SIZE && j < SIZE {
            self.remove_edge(i, j);
            Ok(())
        } else {
            Err(GraphError::IndexOutOfRange)
        }
    }

    /// Checked form of `remove_edge_undirected`.
    pub fn try_remove_edge_undirected(&mut self, i: usize, j: usize) -> (outcome: Result<
        (),
        GraphError,
    >)
        requires
            old(self).wf(),
        ensures
            final(self).wf(),
            i < SIZE && j < SIZE ==> outcome == Ok::<(), GraphError>(()) && final(self)@
                == set_cell(
                set_cell(old(self)@, i as int, j as int, false),
                j as int,
                i as int,
                false,
            ),
            !(i < SIZE && j < SIZE) ==> outcome == Err::<(), GraphError>(
                GraphError::IndexOutOfRange,
            ) && final(self)@ == old(self)@,
    {
        if i < SIZE && j < SIZE {
            self.remove_edge_undirected(i, j);
            Ok(())
        } else {
            Err(GraphError::IndexOutOfRange)
        }
    }

    /// Checked form of `has_edge`.
    pub fn try_has_edge(&self, i: usize, j: usize) -> (outcome: Result<bool, GraphError>)
        requires
            self.wf(),
        ensures
            i < SIZE && j < SIZE ==> outcome == Ok::<bool, GraphError>(
                self@[i as int][j as int],
            ),
            !(i < SIZE && j < SIZE) ==> outcome == Err::<bool, GraphError>(
                GraphError::IndexOutOfRange,
            ),
    {
        if i < SIZE && j < SIZE {
            Ok(self.has_edge(i, j))
        } else {
            Err(GraphError::IndexOutOfRange)
        }
    }

    /// Checked form of `get_edges`.
    pub fn try_get_edges(&self, vertex: usize) -> (outcome: Result<Vec<bool>, GraphError>)
        requires
            self.wf(),
        ensures
            vertex < SIZE ==> (outcome matches Ok(row) && row@ == self@[vertex as int]),
            vertex >= SIZE ==> outcome == Err::<Vec<bool>, GraphError>(
                GraphError::IndexOutOfRange,
            ),
    {
        if vertex < SIZE {
            Ok(self.get_edges(vertex))
        } else {
            Err(GraphError::IndexOutOfRange)
        }
    }

    /// Checked form of `get_inverse_edges`.
    pub fn try_get_inverse_edges(&self, vertex: usize) -> (outcome: Result<
        Vec<bool>,
        GraphError,
    >)
        requires
            self.wf(),
        ensures
            vertex < SIZE ==> (outcome matches Ok(inverse) && inverse@ == column(
                self@,
                vertex as int,
            )),
            vertex >= SIZE ==> outcome == Err::<Vec<bool>, GraphError>(
                GraphError::IndexOutOfRange,
            ),
    {
        if vertex < SIZE {
            Ok(self.get_inverse_edges(vertex))
        } else {
            Err(GraphError::IndexOutOfRange)
        }
    }
}

} // verus!
