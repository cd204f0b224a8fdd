//! The occupancy grid of settled cells.
use vstd::prelude::*;

verus! {

/// Columns of the visible field.
pub const WIDTH: usize = 10;

/// Rows of the visible field; row 0 is the floor.
pub const HEIGHT: usize = 18;

/// Rows of the backing grid: the visible field plus room for a piece that
/// settles while part of it is still above the visible top.
pub const BOARD_ROWS: usize = HEIGHT + 3;

/// Whether `(x, y)` lies within the backing grid.
pub open spec fn in_grid(x: int, y: int) -> bool {
    0 <= x < WIDTH as int && 0 <= y < BOARD_ROWS as int
}

/// Where cell `(x, y)` is kept in the row-major storage.
pub open spec fn cell_index(x: int, y: int) -> int {
    y * WIDTH as int + x
}

proof fn lemma_cell_index(x: int, y: int)
    requires
        in_grid(x, y),
    ensures
        0 <= cell_index(x, y) < WIDTH as int * BOARD_ROWS as int,
        forall|x2: int, y2: int|
            in_grid(x2, y2) && #[trigger] cell_index(x2, y2) == cell_index(x, y) ==> x2 == x && y2
                == y,
{
    assert(0 <= y * 10 + x < 210) by (nonlinear_arith)
        requires
            0 <= x < 10,
            0 <= y < 21,
    ;
    assert forall|x2: int, y2: int|
        in_grid(x2, y2) && #[trigger] cell_index(x2, y2) == cell_index(x, y) implies x2 == x && y2
        == y by {
        assert(y2 * 10 + x2 == y * 10 + x && 0 <= x < 10 && 0 <= x2 < 10 ==> y2 == y && x2 == x)
            by (nonlinear_arith);
    }
}

/// The settled cells of the grid.
pub struct Board {
    cells: Vec<bool>,
}

impl View for Board {
    type V = Set<(int, int)>;

    /// The positions of the occupied cells.
    closed spec fn view(&self) -> Set<(int, int)> {
        Set::new(|p: (int, int)| in_grid(p.0, p.1) && self.cells@[cell_index(p.0, p.1)])
    }
}

impl Board {
    /// The storage holds one entry for each cell of the grid.
    pub closed spec fn wf(&self) -> bool {
        self.cells@.len() == WIDTH * BOARD_ROWS
    }

    /// An empty grid.
    pub fn new() -> (r: Board)
        ensures
            r.wf(),
            r@ == Set::<(int, int)>::empty(),
    {
        let mut cells: Vec<bool> = Vec::new();
        let n: usize = WIDTH * BOARD_ROWS;
        let mut i: usize = 0;
        while i < n
            invariant
                n == WIDTH * BOARD_ROWS,
                i <= n,
                cells@.len() == i,
                forall|j: int| 0 <= j < i ==> !#[trigger] cells@[j],
            decreases n - i,
        {
            cells.push(false);
            i = i + 1;
        }
        let r = Board { cells };
        assert forall|p: (int, int)| !r@.contains(p) by {
            if in_grid(p.0, p.1) {
                lemma_cell_index(p.0, p.1);
            }
        }
        assert(r@ =~= Set::<(int, int)>::empty());
        r
    }

    /// Whether the cell at `(x, y)` is settled.
    pub fn is_occupied(&self, x: usize, y: usize) -> (r: bool)
        requires
            self.wf(),
            x < WIDTH,
            y < BOARD_ROWS,
        ensures
            r == self@.contains((x as int, y as int)),
    {
        proof {
            lemma_cell_index(x as int, y as int);
        }
        self.cells[y * WIDTH + x]
    }

    /// Marks the cell at `(x, y)` as settled; a settled cell stays as it is.
    pub fn lock(&mut self, x: usize, y: usize)
        requires
            old(self).wf(),
            x < WIDTH,
            y < BOARD_ROWS,
        ensures
            final(self).wf(),
            final(self)@ == old(self)@.insert((x as int, y as int)),
    {
        proof {
            lemma_cell_index(x as int, y as int);
        }
        self.cells.set(y * WIDTH + x, true);
        proof {
            assert forall|p: (int, int)|
                self@.contains(p) == old(self)@.insert((x as int, y as int)).contains(p) by {
                if in_grid(p.0, p.1) {
                    lemma_cell_index(p.0, p.1);
                }
            }
            assert(self@ =~= old(self)@.insert((x as int, y as int)));
        }
    }

}

/// Settling a cell that is already settled leaves the board as it was.
pub proof fn lemma_lock_idempotent(b: Board, x: int, y: int)
    requires
        b@.contains((x, y)),
    ensures
        b@.insert((x, y)) == b@,
{
    assert(b@.insert((x, y)) =~= b@);
}

} // verus!
