//! The weighted graph: a fixed-capacity adjacency matrix of optional weights.
//!
//! A cell holding `Some(w)` means the edge is present with weight `w`; `None`
//! means no edge. A present weight may be any value of the weight type —
//! presence, not the weight, is what `has_edge` reports.

use vstd::prelude::*;

use crate::graph::GraphError;
use crate::matrix::column;
use crate::matrix::is_square;
use crate::matrix::lemma_flat_index_bound;
use crate::matrix::lemma_flat_index_injective;
use crate::matrix::lemma_max_edges_bound;
use crate::matrix::lemma_set_cell_reads;
use crate::matrix::lemma_set_cell_square;
use crate::matrix::set_cell;
use crate::matrix::uniform_matrix;

verus! {

/// How many cells of one row hold a weight.
pub open spec fn row_present_count<W>(row: Seq<Option<W>>) -> int
    decreases row.len(),
{
    if row.len() == 0 {
        0
    } else {
        row_present_count(row.drop_last()) + if row.last() is Some {
            1int
        } else {
            0int
        }
    }
}

/// How many cells of the whole matrix hold a weight.
pub open spec fn matrix_present_count<W>(m: Seq<Seq<Option<W>>>) -> int
    decreases m.len(),
{
    if m.len() == 0 {
        0
    } else {
        matrix_present_count(m.drop_last()) + row_present_count(m.last())
    }
}

/// Appending a cell to a row raises its count exactly when the cell holds a
/// weight.
pub proof fn lemma_row_present_count_push<W>(row: Seq<Option<W>>, x: Option<W>)
    ensures
        row_present_count(row.push(x)) == row_present_count(row) + if x is Some {
            1int
        } else {
            0int
        },
{
    assert(row.push(x).drop_last() =~= row);
}

/// Appending a row to a matrix adds that row's count.
pub proof fn lemma_matrix_present_count_push<W>(m: Seq<Seq<Option<W>>>, row: Seq<Option<W>>)
    ensures
        matrix_present_count(m.push(row)) == matrix_present_count(m) + row_present_count(row),
{
    assert(m.push(row).drop_last() =~= m);
}

/// A row with no weight counts zero.
pub proof fn lemma_row_present_count_zero<W>(row: Seq<Option<W>>)
    requires
        forall|k: int| 0 <= k < row.len() ==> (#[trigger] row[k]) is None,
    ensures
        row_present_count(row) == 0,
    decreases row.len(),
{
    if row.len() > 0 {
        lemma_row_present_count_zero(row.drop_last());
    }
}

/// A matrix with no weight counts zero.
pub proof fn lemma_matrix_present_count_zero<W>(m: Seq<Seq<Option<W>>>)
    requires
        forall|i: int, j: int|
            0 <= i < m.len() && 0 <= j < m[i].len() ==> (#[trigger] m[i][j]) is None,
    ensures
        matrix_present_count(m) == 0,
    decreases m.len(),
{
    if m.len() > 0 {
        lemma_matrix_present_count_zero(m.drop_last());
        lemma_row_present_count_zero(m.last());
    }
}

/// Law: a cleared weighted graph has no edge anywhere and an edge count of
/// zero.
pub proof fn lemma_cleared_weight_count<W>(n: nat)
    ensures
        matrix_present_count(uniform_matrix(n, Option::<W>::None)) == 0,
        forall|i: int, j: int|
            0 <= i < n && 0 <= j < n ==> (#[trigger] uniform_matrix(
                n,
                Option::<W>::None,
            )[i][j]) is None,
{
    let m = uniform_matrix(n, Option::<W>::None);
    assert forall|i: int, j: int|
        0 <= i < m.len() && 0 <= j < m[i].len() implies (#[trigger] m[i][j]) is None by {}
    lemma_matrix_present_count_zero(m);
}

/// Law: removing a weighted edge right after adding it leaves that pair
/// without an edge, whatever the weight was.
pub proof fn lemma_remove_restores_absent_weight<W>(
    m: Seq<Seq<Option<W>>>,
    n: nat,
    i: int,
    j: int,
    w: W,
)
    requires
        is_square(m, n),
        0 <= i < n,
        0 <= j < n,
    ensures
        set_cell(set_cell(m, i, j, Some(w)), i, j, Option::<W>::None)[i][j] is None,
{
    lemma_set_cell_square(m, n, i, j, Some(w));
    lemma_set_cell_reads(set_cell(m, i, j, Some(w)), n, i, j, Option::<W>::None, i, j);
}

/// Law: removing an undirected weighted edge right after adding it leaves
/// both directions without an edge.
pub proof fn lemma_remove_undirected_restores_absent_weight<W>(
    m: Seq<Seq<Option<W>>>,
    n: nat,
    i: int,
    j: int,
    w: W,
)
    requires
        is_square(m, n),
        0 <= i < n,
        0 <= j < n,
    ensures
        set_cell(
            set_cell(
                set_cell(set_cell(m, i, j, Some(w)), j, i, Some(w)),
                i,
                j,
                Option::<W>::None,
            ),
            j,
            i,
            Option::<W>::None,
        )[i][j] is None,
        set_cell(
            set_cell(
                set_cell(set_cell(m, i, j, Some(w)), j, i, Some(w)),
                i,
                j,
                Option::<W>::None,
            ),
            j,
            i,
            Option::<W>::None,
        )[j][i] is None,
{
    let m1 = set_cell(m, i, j, Some(w));
    lemma_set_cell_square(m, n, i, j, Some(w));
    let m2 = set_cell(m1, j, i, Some(w));
    lemma_set_cell_square(m1, n, j, i, Some(w));
    let m3 = set_cell(m2, i, j, Option::<W>::None);
    lemma_set_cell_square(m2, n, i, j, Option::<W>::None);
    lemma_set_cell_reads(m2, n, i, j, Option::<W>::None, i, j);
    lemma_set_cell_reads(m3, n, j, i, Option::<W>::None, i, j);
}

/// A directed graph over the fixed vertex set 0 .. SIZE whose edges carry a
/// weight, stored as a square matrix of optional weights in one row-major
/// vector.
pub struct WeightedGraph<const SIZE: usize, W> {
    data: Vec<Option<W>>,
}

impl<const SIZE: usize, W> View for WeightedGraph<SIZE, W> {
    type V = Seq<Seq<Option<W>>>;

    /// The abstract state: a SIZE-by-SIZE matrix of rows, whose cell (i, j)
    /// holds the weight of the directed edge from i to j, or `None` when
    /// that edge is absent.
    closed spec fn view(&self) -> Seq<Seq<Option<W>>> {
        Seq::new(
            SIZE as nat,
            |i: int| Seq::new(SIZE as nat, |j: int| self.data@[i * (SIZE as int) + j]),
        )
    }
}

impl<const SIZE: usize, W: Copy> WeightedGraph<SIZE, W> {
    /// There is at least one vertex and the backing vector holds exactly
    /// SIZE * SIZE cells.
    pub closed spec fn wf(&self) -> bool {
        &&& SIZE >= 1
        &&& self.data@.len() == (SIZE as int) * (SIZE as int)
        &&& (SIZE as int) * (SIZE as int) <= usize::MAX as int
    }

    /// Creates a weighted graph with no edges.
    pub fn new() -> (graph: WeightedGraph<SIZE, W>)
        requires
            1 <= SIZE,
            (SIZE as int) * (SIZE as int) <= usize::MAX as int,
        ensures
            graph.wf(),
            graph@ == uniform_matrix(SIZE as nat, Option::<W>::None),
    {
        let cells: usize = SIZE * SIZE;
        let mut data: Vec<Option<W>> = Vec::new();
        while data.len() < cells
            invariant
                data@.len() <= cells as int,
                forall|k: int| 0 <= k < data@.len() ==> (#[trigger] data@[k]) is None,
            decreases cells - data@.len(),
        {
            data.push(None);
        }
        let graph = WeightedGraph { data };
        proof {
            assert forall|i: int, j: int|
                0 <= i < SIZE && 0 <= j < SIZE implies (#[trigger] graph@[i][j]) is None by {
                lemma_flat_index_bound(i, j, SIZE as int);
            }
            assert(graph@ =~~= uniform_matrix(SIZE as nat, Option::<W>::None));
        }
        graph
    }

    /// Writes one cell of the matrix.
    fn set_edge_cell(&mut self, i: usize, j: usize, value: Option<W>)
        requires
            old(self).wf(),
            i < SIZE,
            j < SIZE,
        ensures
            final(self).wf(),
            final(self)@ == set_cell(old(self)@, i as int, j as int, value),
    {
        proof {
            lemma_flat_index_bound(i as int, j as int, SIZE as int);
        }
        let position: usize = i * SIZE + j;
        self.data[position] = value;
        proof {
            assert forall|u: int, w: int|
                0 <= u < SIZE && 0 <= w < SIZE implies #[trigger] self@[u][w] == set_cell(
                old(self)@,
                i as int,
                j as int,
                value,
            )[u][w] by {
                lemma_flat_index_bound(u, w, SIZE as int);
                if u * (SIZE as int) + w == i * (SIZE as int) + j {
                    lemma_flat_index_injective(u, w, i as int, j as int, SIZE as int);
                }
            }
            assert(self@ =~~= set_cell(old(self)@, i as int, j as int, value));
        }
    }

    /// Adds the directed edge from `i` to `j` with weight `weight`,
    /// overwriting any weight the edge had before.
    pub fn add_edge(&mut self, i: usize, j: usize, weight: W)
        requires
            old(self).wf(),
            i < SIZE,
            j < SIZE,
        ensures
            final(self).wf(),
            final(self)@ == set_cell(old(self)@, i as int, j as int, Some(weight)),
    {
        self.set_edge_cell(i, j, Some(weight));
    }

    /// Adds the undirected edge between `i` and `j`: both directions get the
    /// same weight.
    pub fn add_edge_undirected(&mut self, i: usize, j: usize, weight: W)
        requires
            old(self).wf(),
            i < SIZE,
            j < SIZE,
        ensures
            final(self).wf(),
            final(self)@ == set_cell(
                set_cell(old(self)@, i as int, j as int, Some(weight)),
                j as int,
                i as int,
                Some(weight),
            ),
    {
        self.set_edge_cell(i, j, Some(weight));
        self.set_edge_cell(j, i, Some(weight));
    }

    /// Removes the directed edge from `i` to `j`; removing an absent edge
    /// changes nothing.
    pub fn remove_edge(&mut self, i: usize, j: usize)
        requires
            old(self).wf(),
            i < SIZE,
            j < SIZE,
        ensures
            final(self).wf(),
            final(self)@ == set_cell(old(self)@, i as int, j as int, Option::<W>::None),
    {
        self.set_edge_cell(i, j, None);
    }

    /// Removes the undirected edge between `i` and `j`: both directions
    /// become absent.
    pub fn remove_edge_undirected(&mut self, i: usize, j: usize)
        requires
            old(self).wf(),
            i < SIZE,
            j < SIZE,
        ensures
            final(self).wf(),
            final(self)@ == set_cell(
                set_cell(old(self)@, i as int, j as int, Option::<W>::None),
                j as int,
                i as int,
                Option::<W>::None,
            ),
    {
        self.set_edge_cell(i, j, None);
        self.set_edge_cell(j, i, None);
    }

    /// The weight of the directed edge from `i` to `j`, or `None` when that
    /// edge is absent. A weight of zero is a present weight, distinct from
    /// absence.
    pub fn get_edge(&self, i: usize, j: usize) -> (weight: Option<W>)
        requires
            self.wf(),
            i < SIZE,
            j < SIZE,
        ensures
            weight == self@[i as int][j as int],
    {
        proof {
            lemma_flat_index_bound(i as int, j as int, SIZE as int);
        }
        let position: usize = i * SIZE + j;
        self.data[position]
    }

    /// Whether the directed edge from `i` to `j` is present; the weight
    /// itself plays no part in this answer.
    pub fn has_edge(&self, i: usize, j: usize) -> (present: bool)
        requires
            self.wf(),
            i < SIZE,
            j < SIZE,
        ensures
            present == (self@[i as int][j as int] is Some),
    {
        proof {
            lemma_flat_index_bound(i as int, j as int, SIZE as int);
        }
        let position: usize = i * SIZE + j;
        self.data[position].is_some()
    }

    /// The row of `vertex`: its element i is the optional weight of the
    /// directed edge from `vertex` to i.
    pub fn get_edges(&self, vertex: usize) -> (row: Vec<Option<W>>)
        requires
            self.wf(),
            vertex < SIZE,
        ensures
            row@ == self@[vertex as int],
            row@.len() == SIZE,
    {
        let mut row: Vec<Option<W>> = Vec::new();
        let mut neighbor: usize = 0;
        while neighbor < SIZE
            invariant
                self.wf(),
                vertex < SIZE,
                neighbor <= SIZE,
                row@.len() == neighbor as int,
                forall|k: int|
                    0 <= k < neighbor as int ==> #[trigger] row@[k] == self@[vertex as int][k],
            decreases SIZE - neighbor,
        {
            row.push(self.get_edge(vertex, neighbor));
            neighbor += 1;
        }
        proof {
            assert(row@ =~= self@[vertex as int]);
        }
        row
    }

    /// The column of `vertex`: its element i is the optional weight of the
    /// directed edge from i to `vertex`.
    pub fn get_inverse_edges(&self, vertex: usize) -> (inverse: Vec<Option<W>>)
        requires
            self.wf(),
            vertex < SIZE,
        ensures
            inverse@ == column(self@, vertex as int),
            inverse@.len() == SIZE,
            forall|u: int| 0 <= u < SIZE ==> #[trigger] inverse@[u] == self@[u][vertex as int],
    {
        let mut inverse: Vec<Option<W>> = Vec::new();
        let mut source: usize = 0;
        while source < SIZE
            invariant
                self.wf(),
                vertex < SIZE,
                source <= SIZE,
                inverse@.len() == source as int,
                forall|u: int|
                    0 <= u < source as int ==> #[trigger] inverse@[u] == self@[u][vertex as int],
            decreases SIZE - source,
        {
            inverse.push(self.get_edge(source, vertex));
            source += 1;
        }
        proof {
            assert(inverse@ =~= column(self@, vertex as int));
        }
        inverse
    }

    /// The greatest number of directed edges between distinct vertices:
    /// SIZE * (SIZE - 1). Self-loops are left out of this bound, though they
    /// can be stored and queried.
    pub fn max_number_of_edges(&self) -> (bound: usize)
        requires
            self.wf(),
        ensures
            bound as int == (SIZE as int) * (SIZE as int - 1),
    {
        proof {
            lemma_max_edges_bound(SIZE as int);
        }
        SIZE * (SIZE - 1)
    }

    /// How many edges are present, counted over every cell of the matrix.
    /// Self-loops are counted here even though `max_number_of_edges` leaves
    /// them out; the density of the graph — this count divided by that bound
    /// — therefore treats self-loops asymmetrically, on purpose.
    pub fn edge_count(&self) -> (count: usize)
        requires
            self.wf(),
        ensures
            count as int == matrix_present_count(self@),
    {
        let mut count: usize = 0;
        let mut i: usize = 0;
        while i < SIZE
            invariant
                self.wf(),
                i <= SIZE,
                count as int == matrix_present_count(self@.take(i as int)),
                count as int <= (i as int) * (SIZE as int),
            decreases SIZE - i,
        {
            let mut j: usize = 0;
            while j < SIZE
                invariant
                    self.wf(),
                    i < SIZE,
                    j <= SIZE,
                    count as int == matrix_present_count(self@.take(i as int))
                        + row_present_count(self@[i as int].take(j as int)),
                    count as int <= (i as int) * (SIZE as int) + j as int,
                decreases SIZE - j,
            {
                proof {
                    lemma_flat_index_bound(i as int, j as int, SIZE as int);
                }
                let present: bool = self.has_edge(i, j);
                if present {
                    count += 1;
                }
                proof {
                    assert(self@[i as int].take(j as int + 1) =~= self@[i as int].take(
                        j as int,
                    ).push(self@[i as int][j as int]));
                    lemma_row_present_count_push(
                        self@[i as int].take(j as int),
                        self@[i as int][j as int],
                    );
                }
                j += 1;
            }
            proof {
                assert(self@[i as int].take(SIZE as int) =~= self@[i as int]);
                assert(self@.take(i as int + 1) =~= self@.take(i as int).push(self@[i as int]));
                lemma_matrix_present_count_push(self@.take(i as int), self@[i as int]);
                assert((i as int + 1) * (SIZE as int) == i as int * (SIZE as int) + (
                SIZE as int)) by (nonlinear_arith);
            }
            i += 1;
        }
        proof {
            assert(self@.take(SIZE as int) =~= self@);
        }
        count
    }

    /// Removes every edge; the capacity stays SIZE.
    pub fn clear(&mut self)
        requires
            old(self).wf(),
        ensures
            final(self).wf(),
            final(self)@ == uniform_matrix(SIZE as nat, Option::<W>::None),
    {
        let cells: usize = self.data.len();
        let mut k: usize = 0;
        while k < cells
            invariant
                self.data@.len() == cells as int,
                k <= cells,
                forall|t: int| 0 <= t < k as int ==> (#[trigger] self.data@[t]) is None,
            decreases cells - k,
        {
            self.data[k] = None;
            k += 1;
        }
        proof {
            assert forall|i: int, j: int|
                0 <= i < SIZE && 0 <= j < SIZE implies (#[trigger] self@[i][j]) is None by {
                lemma_flat_index_bound(i, j, SIZE as int);
            }
            assert(self@ =~~= uniform_matrix(SIZE as nat, Option::<W>::None));
        }
    }

    /// Checked form of `add_edge`: an index at or above SIZE is refused with
    /// `IndexOutOfRange` and the graph stays as it was.
    pub fn try_add_edge(&mut self, i: usize, j: usize, weight: W) -> (outcome: Result<
        (),
        GraphError,
    >)
        requires
            old(self).wf(),
        ensures
            final(self).wf(),
            i < SIZE && j < SIZE ==> outcome == Ok::<(), GraphError>(()) && final(self)@
                == set_cell(old(self)@, i as int, j as int, Some(weight)),
            !(i < SIZE && j < SIZE) ==> outcome == Err::<(), GraphError>(
                GraphError::IndexOutOfRange,
            ) && final(self)@ == old(self)@,
    {
        if i < SIZE && j < SIZE {
            self.add_edge(i, j, weight);
            Ok(())
        } else {
            Err(GraphError::IndexOutOfRange)
        }
    }

    /// Checked form of `add_edge_undirected`.
    pub fn try_add_edge_undirected(&mut self, i: usize, j: usize, weight: W) -> (outcome: Result<
        (),
        GraphError,
    >)
        requires
            old(self).wf(),
        ensures
            final(self).wf(),
            i < SIZE && j < SIZE ==> outcome == Ok::<(), GraphError>(()) && final(self)@
                == set_cell(
                set_cell(old(self)@, i as int, j as int, Some(weight)),
                j as int,
                i as int,
                Some(weight),
            ),
            !(i < SIZE && j < SIZE) ==> outcome == Err::<(), GraphError>(
                GraphError::IndexOutOfRange,
            ) && final(self)@ == old(self)@,
    {
        if i < SIZE && j < SIZE {
            self.add_edge_undirected(i, j, weight);
            Ok(())
        } else {
            Err(GraphError::IndexOutOfRange)
        }
    }

    /// Checked form of `remove_edge`.
    pub fn try_remove_edge(&mut self, i: usize, j: usize) -> (outcome: Result<(), GraphError>)
        requires
            old(self).wf(),
        ensures
            final(self).wf(),
            i < SIZE && j < SIZE ==> outcome == Ok::<(), GraphError>(()) && final(self)@
                == set_cell(old(self)@, i as int, j as int, Option::<W>::None),
            !(i < SIZE && j < SIZE) ==> outcome == Err::<(), GraphError>(
                GraphError::IndexOutOfRange,
            ) && final(self)@ == old(self)@,
    {
        if i < SIZE && j < SIZE {
            self.remove_edge(i, j);
            Ok(())
        } else {
            Err(GraphError::IndexOutOfRange)
        }
    }

    /// Checked form of `remove_edge_undirected`.
    pub fn try_remove_edge_undirected(&mut self, i: usize, j: usize) -> (outcome: Result<
        (),
        GraphError,
    >)
        requires
            old(self).wf(),
        ensures
            final(self).wf(),
            i < SIZE && j < SIZE ==> outcome == Ok::<(), GraphError>(()) && final(self)@
                == set_cell(
                set_cell(old(self)@, i as int, j as int, Option::<W>::None),
                j as int,
                i as int,
                Option::<W>::None,
            ),
            !(i < SIZE && j < SIZE) ==> outcome == Err::<(), GraphError>(
                GraphError::IndexOutOfRange,
            ) && final(self)@ == old(self)@,
    {
        if i < SIZE && j < SIZE {
            self.remove_edge_undirected(i, j);
            Ok(())
        } else {
            Err(GraphError::IndexOutOfRange)
        }
    }

    /// Checked form of `get_edge`.
    pub fn try_get_edge(&self, i: usize, j: usize) -> (outcome: Result<Option<W>, GraphError>)
        requires
            self.wf(),
        ensures
            i < SIZE && j < SIZE ==> outcome == Ok::<Option<W>, GraphError>(
                self@[i as int][j as int],
            ),
            !(i < SIZE && j < SIZE) ==> outcome == Err::<Option<W>, GraphError>(
                GraphError::IndexOutOfRange,
            ),
    {
        if i < SIZE && j < SIZE {
            Ok(self.get_edge(i, j))
        } else {
            Err(GraphError::IndexOutOfRange)
        }
    }

    /// Checked form of `has_edge`.
    pub fn try_has_edge(&self, i: usize, j: usize) -> (outcome: Result<bool, GraphError>)
        requires
            self.wf(),
        ensures
            i < SIZE && j < SIZE ==> outcome == Ok::<bool, GraphError>(
                self@[i as int][j as int] is Some,
            ),
            !(i < SIZE && j < SIZE) ==> outcome == Err::<bool, GraphError>(
                GraphError::IndexOutOfRange,
            ),
    {
        if i < SIZE && j < SIZE {
            Ok(self.has_edge(i, j))
        } else {
            Err(GraphError::IndexOutOfRange)
        }
    }

    /// Checked form of `get_edges`.
    pub fn try_get_edges(&self, vertex: usize) -> (outcome: Result<Vec<Option<W>>, GraphError>)
        requires
            self.wf(),
        ensures
            vertex < SIZE ==> (outcome matches Ok(row) && row@ == self@[vertex as int]),
            vertex >= SIZE ==> outcome == Err::<Vec<Option<W>>, GraphError>(
                GraphError::IndexOutOfRange,
            ),
    {
        if vertex < SIZE {
            Ok(self.get_edges(vertex))
        } else {
            Err(GraphError::IndexOutOfRange)
        }
    }

    /// Checked form of `get_inverse_edges`.
    pub fn try_get_inverse_edges(&self, vertex: usize) -> (outcome: Result<
        Vec<Option<W>>,
        GraphError,
    >)
        requires
            self.wf(),
        ensures
            vertex < SIZE ==> (outcome matches Ok(inverse) && inverse@ == column(
                self@,
                vertex as int,
            )),
            vertex >= SIZE ==> outcome == Err::<Vec<Option<W>>, GraphError>(
                GraphError::IndexOutOfRange,
            ),
    {
        if vertex < SIZE {
            Ok(self.get_inverse_edges(vertex))
        } else {
            Err(GraphError::IndexOutOfRange)
        }
    }
}

} // verus!
