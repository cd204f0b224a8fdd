//! The falling piece: four cells of one shape, and the rules that say when
//! it may fall or shift over a board.
use vstd::prelude::*;

use crate::board::{in_grid, Board, HEIGHT, WIDTH};
use crate::catalog::{lemma_offsets_bounded, shape_offsets, ShapeKind};

verus! {

/// A cell position: `x` counts columns from the left, `y` rows from the floor.
#[derive(Clone, Copy, Debug, PartialEq, Eq, Structural)]
pub struct Position {
    pub x: i32,
    pub y: i32,
}

/// Whether `p` lies within the visible field.
pub open spec fn in_field(p: Position) -> bool {
    0 <= p.x < WIDTH as int && 0 <= p.y < HEIGHT as int
}

/// A cell is blocked below when it is in the visible field and stands on
/// the floor or on a settled cell. Cells outside the field never block.
pub open spec fn blocked_below(occupied: Set<(int, int)>, p: Position) -> bool {
    in_field(p) && (p.y == 0 || occupied.contains((p.x as int, p.y - 1)))
}

/// Whether some cell of `cells` is blocked below.
pub open spec fn any_blocked(occupied: Set<(int, int)>, cells: Seq<Position>) -> bool {
    exists|i: int| 0 <= i < cells.len() && blocked_below(occupied, #[trigger] cells[i])
}

/// A cell may shift one column left when it is not in the leftmost column and
/// the cell beside it is free or lies above the visible field.
pub open spec fn left_clear(occupied: Set<(int, int)>, p: Position) -> bool {
    p.x > 0 && (p.y >= HEIGHT as int || !occupied.contains((p.x - 1, p.y as int)))
}

/// A cell may shift one column right when it is not in the rightmost column
/// and the cell beside it is free or lies above the visible field.
pub open spec fn right_clear(occupied: Set<(int, int)>, p: Position) -> bool {
    p.x < WIDTH as int - 1 && (p.y >= HEIGHT as int || !occupied.contains((p.x + 1, p.y as int)))
}

/// Whether every cell of `cells` may shift left.
pub open spec fn all_left_clear(occupied: Set<(int, int)>, cells: Seq<Position>) -> bool {
    forall|i: int| 0 <= i < cells.len() ==> left_clear(occupied, #[trigger] cells[i])
}

/// Whether every cell of `cells` may shift right.
pub open spec fn all_right_clear(occupied: Set<(int, int)>, cells: Seq<Position>) -> bool {
    forall|i: int| 0 <= i < cells.len() ==> right_clear(occupied, #[trigger] cells[i])
}

/// `cells`, each moved by `dx` columns and `dy` rows.
pub open spec fn translate(cells: Seq<Position>, dx: int, dy: int) -> Seq<Position> {
    Seq::new(
        cells.len(),
        |i: int| Position { x: (cells[i].x + dx) as i32, y: (cells[i].y + dy) as i32 },
    )
}

/// The cells of a `kind` piece whose pivot stands at `(x, y)`.
pub open spec fn placed(kind: ShapeKind, x: int, y: int) -> Seq<Position> {
    Seq::new(
        4,
        |i: int|
            Position {
                x: (x + shape_offsets(kind)[i].0) as i32,
                y: (y + shape_offsets(kind)[i].1) as i32,
            },
    )
}

/// Whether every cell of `cells` lies within the backing grid.
pub open spec fn within_grid(cells: Seq<Position>) -> bool {
    forall|i: int| 0 <= i < cells.len() ==> in_grid(#[trigger] cells[i].x as int, cells[i].y as int)
}

/// A piece that no cell holds back falls within the grid.
pub proof fn lemma_fall_within_grid(occupied: Set<(int, int)>, cells: Seq<Position>)
    requires
        within_grid(cells),
        !any_blocked(occupied, cells),
    ensures
        within_grid(translate(cells, 0, -1)),
{
    assert forall|i: int| 0 <= i < cells.len() implies in_grid(
        #[trigger] translate(cells, 0, -1)[i].x as int,
        translate(cells, 0, -1)[i].y as int,
    ) by {
        assert(in_grid(cells[i].x as int, cells[i].y as int));
        assert(!blocked_below(occupied, cells[i]));
    }
}

/// A piece whose cells may all shift left stays within the grid.
pub proof fn lemma_left_within_grid(occupied: Set<(int, int)>, cells: Seq<Position>)
    requires
        within_grid(cells),
        all_left_clear(occupied, cells),
    ensures
        within_grid(translate(cells, -1, 0)),
{
    assert forall|i: int| 0 <= i < cells.len() implies in_grid(
        #[trigger] translate(cells, -1, 0)[i].x as int,
        translate(cells, -1, 0)[i].y as int,
    ) by {
        assert(in_grid(cells[i].x as int, cells[i].y as int));
        assert(left_clear(occupied, cells[i]));
    }
}

/// A piece whose cells may all shift right stays within the grid.
pub proof fn lemma_right_within_grid(occupied: Set<(int, int)>, cells: Seq<Position>)
    requires
        within_grid(cells),
        all_right_clear(occupied, cells),
    ensures
        within_grid(translate(cells, 1, 0)),
{
    assert forall|i: int| 0 <= i < cells.len() implies in_grid(
        #[trigger] translate(cells, 1, 0)[i].x as int,
        translate(cells, 1, 0)[i].y as int,
    ) by {
        assert(in_grid(cells[i].x as int, cells[i].y as int));
        assert(right_clear(occupied, cells[i]));
    }
}

/// The abstract state of a piece.
pub struct PieceView {
    pub kind: ShapeKind,
    pub cells: Seq<Position>,
}

/// A piece: its shape and the positions of its four cells.
pub struct Piece {
    kind: ShapeKind,
    cells: Vec<Position>,
}

impl View for Piece {
    type V = PieceView;

    closed spec fn view(&self) -> PieceView {
        PieceView { kind: self.kind, cells: self.cells@ }
    }
}

impl Piece {
    /// A piece has four cells, all within the backing grid.
    pub open spec fn wf(&self) -> bool {
        self@.cells.len() == 4 && within_grid(self@.cells)
    }

    /// A `kind` piece with its pivot at `(x, y)`.
    pub fn spawn_at(kind: ShapeKind, x: i32, y: i32) -> (r: Piece)
        requires
            within_grid(placed(kind, x as int, y as int)),
        ensures
            r.wf(),
            r@.kind == kind,
            r@.cells == placed(kind, x as int, y as int),
    {
        let offsets = kind.offsets();
        let ghost target = placed(kind, x as int, y as int);
        let mut cells: Vec<Position> = Vec::new();
        let mut i: usize = 0;
        while i < 4
            invariant
                i <= 4,
                offsets@ == shape_offsets(kind),
                target == placed(kind, x as int, y as int),
                within_grid(target),
                cells@ == target.take(i as int),
            decreases 4 - i,
        {
            proof {
                lemma_offsets_bounded(kind);
                assert(in_grid(target[0].x as int, target[0].y as int));
                assert(in_grid(target[i as int].x as int, target[i as int].y as int));
            }
            let (dx, dy) = offsets[i];
            cells.push(Position { x: x + dx, y: y + dy });
            i = i + 1;
            assert(cells@ =~= target.take(i as int));
        }
        assert(cells@ =~= target);
        Piece { kind, cells }
    }

    /// The shape of this piece.
    pub fn kind(&self) -> (r: ShapeKind)
        ensures
            r == self@.kind,
    {
        self.kind
    }

    /// The positions of this piece's cells.
    pub fn cells(&self) -> (r: &Vec<Position>)
        ensures
            r@ == self@.cells,
    {
        &self.cells
    }

    /// Whether some cell of this piece is blocked below on `board`.
    pub fn is_blocked(&self, board: &Board) -> (r: bool)
        requires
            self.wf(),
            board.wf(),
        ensures
            r == any_blocked(board@, self@.cells),
    {
        let mut i: usize = 0;
        while i < 4
            invariant
                self.wf(),
                board.wf(),
                i <= 4,
                forall|j: int| 0 <= j < i ==> !blocked_below(board@, #[trigger] self.cells@[j]),
            decreases 4 - i,
        {
            let p = self.cells[i];
            if 0 <= p.x && p.x < WIDTH as i32 && 0 <= p.y && p.y < HEIGHT as i32 {
                if p.y == 0 || board.is_occupied(p.x as usize, (p.y - 1) as usize) {
                    assert(blocked_below(board@, self.cells@[i as int]));
                    return true;
                }
            }
            i = i + 1;
        }
        false
    }

    /// Whether every cell of this piece may shift one column left on `board`.
    pub fn can_move_left(&self, board: &Board) -> (r: bool)
        requires
            self.wf(),
            board.wf(),
        ensures
            r == all_left_clear(board@, self@.cells),
    {
        let mut i: usize = 0;
        while i < 4
            invariant
                self.wf(),
                board.wf(),
                i <= 4,
                forall|j: int| 0 <= j < i ==> left_clear(board@, #[trigger] self.cells@[j]),
            decreases 4 - i,
        {
            let p = self.cells[i];
            assert(in_grid(self.cells@[i as int].x as int, self.cells@[i as int].y as int));
            if p.x == 0 {
                return false;
            }
            if p.y < HEIGHT as i32 && board.is_occupied((p.x - 1) as usize, p.y as usize) {
                return false;
            }
            i = i + 1;
        }
        true
    }

    /// Whether every cell of this piece may shift one column right on `board`.
    pub fn can_move_right(&self, board: &Board) -> (r: bool)
        requires
            self.wf(),
            board.wf(),
        ensures
            r == all_right_clear(board@, self@.cells),
    {
        let mut i: usize = 0;
        while i < 4
            invariant
                self.wf(),
                board.wf(),
                i <= 4,
                forall|j: int| 0 <= j < i ==> right_clear(board@, #[trigger] self.cells@[j]),
            decreases 4 - i,
        {
            let p = self.cells[i];
            assert(in_grid(self.cells@[i as int].x as int, self.cells@[i as int].y as int));
            if p.x == WIDTH as i32 - 1 {
                return false;
            }
            if p.y < HEIGHT as i32 && board.is_occupied((p.x + 1) as usize, p.y as usize) {
                return false;
            }
            i = i + 1;
        }
        true
    }

    /// Moves every cell by `dx` columns and `dy` rows.
    pub fn translate(&mut self, dx: i32, dy: i32)
        requires
            old(self).wf(),
            -1 <= dx <= 1,
            -1 <= dy <= 0,
            within_grid(translate(old(self)@.cells, dx as int, dy as int)),
        ensures
            final(self).wf(),
            final(self)@.kind == old(self)@.kind,
            final(self)@.cells == translate(old(self)@.cells, dx as int, dy as int),
    {
        let ghost target = translate(old(self)@.cells, dx as int, dy as int);
        let mut i: usize = 0;
        while i < 4
            invariant
                i <= 4,
                -1 <= dx <= 1,
                -1 <= dy <= 0,
                self.kind == old(self).kind,
                self.cells@.len() == 4,
                old(self).wf(),
                target == translate(old(self)@.cells, dx as int, dy as int),
                within_grid(target),
                forall|j: int| 0 <= j < i ==> self.cells@[j] == #[trigger] target[j],
                forall|j: int| i <= j < 4 ==> self.cells@[j] == #[trigger] old(self).cells@[j],
            decreases 4 - i,
        {
            let p = self.cells[i];
            assert(p == old(self).cells@[i as int]);
            assert(in_grid(target[i as int].x as int, target[i as int].y as int));
            assert(in_grid(old(self).cells@[i as int].x as int, old(self).cells@[i as int].y as int));
            self.cells.set(i, Position { x: p.x + dx, y: p.y + dy });
            i = i + 1;
        }
        assert(self.cells@ =~= target);
    }
}

} // verus!
