//! The results of a deck matrix: wins and matches for each pairing of a row
//! deck (first player) and a column deck (second player), and their totals.
use vstd::prelude::*;

verus! {

/// The wins of the counted player and the matches of one pairing.
#[derive(Clone, Copy, PartialEq, Eq, Debug, Structural)]
pub struct Cell {
    pub row: usize,
    pub col: usize,
    pub wins: usize,
    pub total: usize,
}

/// The recorded pairings; a later record of a pairing replaces an earlier one.
pub struct ResultTable {
    pub cells: Vec<Cell>,
}

/// The wins and matches last recorded for a pairing.
pub open spec fn lookup(cells: Seq<Cell>, row: int, col: int) -> Option<(int, int)>
    decreases cells.len(),
{
    if cells.len() == 0 {
        None
    } else if cells.last().row == row && cells.last().col == col {
        Some((cells.last().wins as int, cells.last().total as int))
    } else {
        lookup(cells.drop_last(), row, col)
    }
}

/// The wins and matches of a row over the columns `0..n` (pairings never
/// recorded count for nothing).
pub open spec fn row_sum(cells: Seq<Cell>, row: int, n: int) -> (int, int)
    decreases n,
{
    if n <= 0 {
        (0, 0)
    } else {
        let before = row_sum(cells, row, n - 1);
        match lookup(cells, row, n - 1) {
            Some((w, t)) => (before.0 + w, before.1 + t),
            None => before,
        }
    }
}

/// The wins and matches of the pairings of each deck with itself, over the
/// decks `0..n`.
pub open spec fn diagonal_sum(cells: Seq<Cell>, n: int) -> (int, int)
    decreases n,
{
    if n <= 0 {
        (0, 0)
    } else {
        let before = diagonal_sum(cells, n - 1);
        match lookup(cells, n - 1, n - 1) {
            Some((w, t)) => (before.0 + w, before.1 + t),
            None => before,
        }
    }
}

impl ResultTable {
    /// Every pairing has no more wins than matches.
    pub open spec fn wf(&self) -> bool {
        forall|k: int| 0 <= k < self.cells@.len() ==> #[trigger] self.cells@[k].wins <= self.cells@[k].total
    }

    pub fn new() -> (r: ResultTable)
        ensures
            r.cells@.len() == 0,
            r.wf(),
    {
        ResultTable { cells: Vec::new() }
    }

    /// Records the result of a pairing.
    pub fn insert(&mut self, row: usize, col: usize, wins: usize, total: usize)
        ensures
            final(self).cells@ == old(self).cells@.push(Cell { row, col, wins, total }),
            old(self).wf() && wins <= total ==> final(self).wf(),
    {
        self.cells.push(Cell { row, col, wins, total });
    }

    /// The wins and matches last recorded for a pairing.
    pub fn get(&self, row: usize, col: usize) -> (r: Option<(usize, usize)>)
        ensures
            r matches Some(p) ==> lookup(self.cells@, row as int, col as int) == Some((p.0 as int, p.1 as int)),
            r is None <==> lookup(self.cells@, row as int, col as int) is None,
            self.wf() && r is Some ==> r.unwrap().0 <= r.unwrap().1,
    {
        proof {
            lemma_lookup_bounds(self.cells@, row as int, col as int);
        }
        let mut k: usize = self.cells.len();
        assert(self.cells@.take(k as int) =~= self.cells@);
        while k > 0
            invariant
                k <= self.cells@.len(),
                lookup(self.cells@, row as int, col as int) == lookup(self.cells@.take(k as int), row as int, col as int),
            decreases k,
        {
            let c = self.cells[k - 1];
            assert(self.cells@.take(k as int).drop_last() =~= self.cells@.take(k - 1));
            if c.row == row && c.col == col {
                return Some((c.wins, c.total));
            }
            k = k - 1;
        }
        None
    }

    /// The wins and matches of row `row` over the columns `0..n`; `None` when
    /// a total does not fit in `usize`.
    pub fn row_totals(&self, row: usize, n: usize) -> (r: Option<(usize, usize)>)
        ensures
            r is None <==> (row_sum(self.cells@, row as int, n as int).0 > usize::MAX
                || row_sum(self.cells@, row as int, n as int).1 > usize::MAX),
            r matches Some(p) ==> p.0 == row_sum(self.cells@, row as int, n as int).0
                && p.1 == row_sum(self.cells@, row as int, n as int).1,
    {
        let mut wins: usize = 0;
        let mut total: usize = 0;
        let mut j: usize = 0;
        while j < n
            invariant
                j <= n,
                wins == row_sum(self.cells@, row as int, j as int).0,
                total == row_sum(self.cells@, row as int, j as int).1,
            decreases n - j,
        {
            proof {
                lemma_row_sum_grows(self.cells@, row as int, j + 1, n as int);
            }
            if let Some((w, t)) = self.get(row, j) {
                match (wins.checked_add(w), total.checked_add(t)) {
                    (Some(w2), Some(t2)) => {
                        wins = w2;
                        total = t2;
                    },
                    _ => {
                        return None;
                    },
                }
            }
            j = j + 1;
        }
        Some((wins, total))
    }

    /// The wins and matches of the pairings of each of the decks `0..n` with
    /// itself; `None` when a total does not fit in `usize`.
    pub fn diagonal_totals(&self, n: usize) -> (r: Option<(usize, usize)>)
        ensures
            r is None <==> (diagonal_sum(self.cells@, n as int).0 > usize::MAX
                || diagonal_sum(self.cells@, n as int).1 > usize::MAX),
            r matches Some(p) ==> p.0 == diagonal_sum(self.cells@, n as int).0
                && p.1 == diagonal_sum(self.cells@, n as int).1,
            self.wf() && r is Some ==> r.unwrap().0 <= r.unwrap().1,
    {
        let mut wins: usize = 0;
        let mut total: usize = 0;
        let mut j: usize = 0;
        while j < n
            invariant
                j <= n,
                wins == diagonal_sum(self.cells@, j as int).0,
                total == diagonal_sum(self.cells@, j as int).1,
                self.wf() ==> wins <= total,
            decreases n - j,
        {
            proof {
                lemma_diagonal_sum_grows(self.cells@, j + 1, n as int);
                lemma_lookup_bounds(self.cells@, j as int, j as int);
            }
            if let Some((w, t)) = self.get(j, j) {
                match (wins.checked_add(w), total.checked_add(t)) {
                    (Some(w2), Some(t2)) => {
                        wins = w2;
                        total = t2;
                    },
                    _ => {
                        return None;
                    },
                }
            }
            j = j + 1;
        }
        Some((wins, total))
    }
}

/// What a lookup finds is never negative, and within a well-formed table
/// never more wins than matches.
pub proof fn lemma_lookup_bounds(cells: Seq<Cell>, row: int, col: int)
    ensures
        lookup(cells, row, col) matches Some(p) ==> 0 <= p.0 && 0 <= p.1,
        (forall|k: int| 0 <= k < cells.len() ==> #[trigger] cells[k].wins <= cells[k].total)
            ==> (lookup(cells, row, col) matches Some(p) ==> p.0 <= p.1),
    decreases cells.len(),
{
    if cells.len() > 0 {
        lemma_lookup_bounds(cells.drop_last(), row, col);
        if forall|k: int| 0 <= k < cells.len() ==> #[trigger] cells[k].wins <= cells[k].total {
            assert forall|k: int| 0 <= k < cells.drop_last().len() implies #[trigger] cells.drop_last()[k].wins <= cells.drop_last()[k].total by {
                assert(cells.drop_last()[k] == cells[k]);
            }
            assert(cells.last() == cells[cells.len() - 1]);
        }
    }
}

/// Row sums only grow with more columns.
pub proof fn lemma_row_sum_grows(cells: Seq<Cell>, row: int, a: int, b: int)
    requires
        0 <= a <= b,
    ensures
        0 <= row_sum(cells, row, a).0 <= row_sum(cells, row, b).0,
        0 <= row_sum(cells, row, a).1 <= row_sum(cells, row, b).1,
    decreases b,
{
    if b > 0 {
        lemma_lookup_bounds(cells, row, b - 1);
    }
    if b > a {
        lemma_row_sum_grows(cells, row, a, b - 1);
    } else if a > 0 {
        lemma_row_sum_grows(cells, row, a - 1, a - 1);
    }
}

/// Diagonal sums only grow with more decks.
pub proof fn lemma_diagonal_sum_grows(cells: Seq<Cell>, a: int, b: int)
    requires
        0 <= a <= b,
    ensures
        0 <= diagonal_sum(cells, a).0 <= diagonal_sum(cells, b).0,
        0 <= diagonal_sum(cells, a).1 <= diagonal_sum(cells, b).1,
    decreases b,
{
    if b > 0 {
        lemma_lookup_bounds(cells, b - 1, b - 1);
    }
    if b > a {
        lemma_diagonal_sum_grows(cells, a, b - 1);
    } else if a > 0 {
        lemma_diagonal_sum_grows(cells, a - 1, a - 1);
    }
}

} // verus!
