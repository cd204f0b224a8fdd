//! The simulation context: the board, the falling piece, the spawn request
//! and the two interval timers, with the steps that advance them.
use vstd::prelude::*;

use crate::board::{in_grid, Board, HEIGHT, WIDTH};
use crate::catalog::{lemma_offsets_bounded, shape_color, shape_offsets, Color, ShapeKind};
use crate::piece::{
    all_left_clear, all_right_clear, any_blocked, left_clear, lemma_fall_within_grid,
    lemma_left_within_grid, lemma_right_within_grid, placed, right_clear, translate, within_grid,
    Piece, PieceView, Position,
};
use crate::timer::{IntervalTimer, TimerView};

verus! {

/// Milliseconds between two gravity steps.
pub const GRAVITY_PERIOD_MS: u64 = 400;

/// Milliseconds between two polls of the held movement keys.
pub const INPUT_PERIOD_MS: u64 = 50;

/// A settled cell: where it is and the color of the piece it came from.
#[derive(Clone, Copy, Debug, PartialEq, Eq, Structural)]
pub struct Block {
    pub pos: Position,
    pub color: Color,
}

/// A cell as a renderer sees it: its position, its color, and whether it
/// belongs to the falling piece.
#[derive(Clone, Copy, Debug, PartialEq, Eq, Structural)]
pub struct CellState {
    pub pos: Position,
    pub color: Color,
    pub free: bool,
}

/// A position as a pair of integers.
pub open spec fn point(p: Position) -> (int, int) {
    (p.x as int, p.y as int)
}

/// The positions taken by `cells`.
pub open spec fn positions(cells: Seq<Position>) -> Set<(int, int)> {
    Set::new(|q: (int, int)| exists|i: int| 0 <= i < cells.len() && #[trigger] point(cells[i]) == q)
}

/// The positions taken by settled cells.
pub open spec fn settled_positions(s: Seq<Block>) -> Set<(int, int)> {
    Set::new(|q: (int, int)| exists|i: int| 0 <= i < s.len() && #[trigger] point(s[i].pos) == q)
}

/// `cells` settled with the given color.
pub open spec fn blocks_of(cells: Seq<Position>, color: Color) -> Seq<Block> {
    Seq::new(cells.len(), |i: int| Block { pos: cells[i], color })
}

/// The pivot of a newly spawned piece: the middle column, at the top of the
/// visible field.
pub open spec fn spawn_x() -> int {
    WIDTH as int / 2
}

/// The row of a newly spawned piece's pivot.
pub open spec fn spawn_y() -> int {
    HEIGHT as int
}

/// Every cell as a renderer sees it: the settled cells in the order they
/// settled, then the cells of the falling piece.
pub open spec fn render(g: GameView) -> Seq<CellState> {
    let fixed = Seq::new(
        g.settled.len(),
        |i: int| CellState { pos: g.settled[i].pos, color: g.settled[i].color, free: false },
    );
    match g.active {
        Some(p) => fixed + Seq::new(
            p.cells.len(),
            |i: int| CellState { pos: p.cells[i], color: shape_color(p.kind), free: true },
        ),
        None => fixed,
    }
}

/// The abstract state of a game.
pub struct GameView {
    pub occupied: Set<(int, int)>,
    pub settled: Seq<Block>,
    pub active: Option<PieceView>,
    pub spawn_pending: bool,
    pub gravity: TimerView,
    pub input: TimerView,
}

impl GameView {
    /// Whether a gravity step settles the falling piece.
    pub open spec fn locks(self) -> bool {
        match self.active {
            Some(p) => any_blocked(self.occupied, p.cells),
            None => false,
        }
    }

    /// The state after one gravity step: with no falling piece nothing
    /// changes; a piece with a blocked cell settles and a spawn is requested;
    /// otherwise the whole piece falls one row.
    pub open spec fn after_gravity(self) -> GameView {
        match self.active {
            None => self,
            Some(p) => if any_blocked(self.occupied, p.cells) {
                GameView {
                    occupied: self.occupied.union(positions(p.cells)),
                    settled: self.settled + blocks_of(p.cells, shape_color(p.kind)),
                    active: None,
                    spawn_pending: true,
                    ..self
                }
            } else {
                GameView {
                    active: Some(PieceView { kind: p.kind, cells: translate(p.cells, 0, -1) }),
                    ..self
                }
            },
        }
    }

    /// The state after an attempt to shift the piece one column left: all
    /// cells move, or none does.
    pub open spec fn after_left(self) -> GameView {
        match self.active {
            Some(p) => if all_left_clear(self.occupied, p.cells) {
                GameView {
                    active: Some(PieceView { kind: p.kind, cells: translate(p.cells, -1, 0) }),
                    ..self
                }
            } else {
                self
            },
            None => self,
        }
    }

    /// The state after an attempt to shift the piece one column right.
    pub open spec fn after_right(self) -> GameView {
        match self.active {
            Some(p) => if all_right_clear(self.occupied, p.cells) {
                GameView {
                    active: Some(PieceView { kind: p.kind, cells: translate(p.cells, 1, 0) }),
                    ..self
                }
            } else {
                self
            },
            None => self,
        }
    }

    /// The state after one input poll: left first, then right against the
    /// state that left produced.
    pub open spec fn after_input(self, left: bool, right: bool) -> GameView {
        let s = if left {
            self.after_left()
        } else {
            self
        };
        if right {
            s.after_right()
        } else {
            s
        }
    }

    /// Whether a spawn would take place: one is requested and no piece falls.
    pub open spec fn spawn_due(self) -> bool {
        self.spawn_pending && self.active is None
    }

    /// The state with a new `kind` piece at `(x, y)` and the request served.
    pub open spec fn placed_at(self, kind: ShapeKind, x: int, y: int) -> GameView {
        GameView {
            active: Some(PieceView { kind, cells: placed(kind, x, y) }),
            spawn_pending: false,
            ..self
        }
    }

    /// The state after serving a pending spawn request with a `kind` piece.
    pub open spec fn after_spawn(self, kind: ShapeKind) -> GameView {
        if self.spawn_due() {
            self.placed_at(kind, spawn_x(), spawn_y())
        } else {
            self
        }
    }

    /// The state after `delta` milliseconds of the gravity timer.
    pub open spec fn after_gravity_tick(self, delta: nat) -> GameView {
        let s = GameView { gravity: self.gravity.advanced(delta), ..self };
        if self.gravity.fires(delta) {
            s.after_gravity()
        } else {
            s
        }
    }

    /// The state after `delta` milliseconds of the input timer with the
    /// given keys held.
    pub open spec fn after_input_tick(self, delta: nat, left: bool, right: bool) -> GameView {
        let s = GameView { input: self.input.advanced(delta), ..self };
        if self.input.fires(delta) {
            s.after_input(left, right)
        } else {
            s
        }
    }
}

/// Settled positions grow by the positions of the cells that settle.
proof fn lemma_settle_positions(s: Seq<Block>, cells: Seq<Position>, color: Color)
    ensures
        settled_positions(s + blocks_of(cells, color)) == settled_positions(s).union(
            positions(cells),
        ),
{
    let t = s + blocks_of(cells, color);
    assert forall|q: (int, int)|
        settled_positions(t).contains(q) implies settled_positions(s).union(
        positions(cells),
    ).contains(q) by {
        let i = choose|i: int| 0 <= i < t.len() && #[trigger] point(t[i].pos) == q;
        if i < s.len() {
            assert(point(s[i].pos) == q);
        } else {
            assert(point(cells[i - s.len()]) == q);
        }
    }
    assert forall|q: (int, int)|
        settled_positions(s).union(positions(cells)).contains(q) implies settled_positions(
        t,
    ).contains(q) by {
        if settled_positions(s).contains(q) {
            let i = choose|i: int| 0 <= i < s.len() && #[trigger] point(s[i].pos) == q;
            assert(point(t[i].pos) == q);
        } else {
            let i = choose|i: int| 0 <= i < cells.len() && #[trigger] point(cells[i]) == q;
            assert(point(t[s.len() + i].pos) == q);
        }
    }
    assert(settled_positions(t) =~= settled_positions(s).union(positions(cells)));
}

/// Writes every cell of `piece` into `board` and records it as settled.
fn settle(board: &mut Board, settled: &mut Vec<Block>, piece: &Piece)
    requires
        old(board).wf(),
        piece.wf(),
    ensures
        final(board).wf(),
        final(board)@ == old(board)@.union(positions(piece@.cells)),
        final(settled)@ == old(settled)@ + blocks_of(piece@.cells, shape_color(piece@.kind)),
{
    let color = piece.kind().color();
    let cells = piece.cells();
    let ghost c = piece@.cells;
    let mut i: usize = 0;
    while i < 4
        invariant
            i <= 4,
            piece.wf(),
            cells@ == c,
            c == piece@.cells,
            c.len() == 4,
            within_grid(c),
            color == shape_color(piece@.kind),
            board.wf(),
            board@ == old(board)@.union(positions(c.take(i as int))),
            settled@ == old(settled)@ + blocks_of(c.take(i as int), color),
        decreases 4 - i,
    {
        let p = cells[i];
        assert(in_grid(c[i as int].x as int, c[i as int].y as int));
        board.lock(p.x as usize, p.y as usize);
        settled.push(Block { pos: p, color });
        proof {
            let prev = c.take(i as int);
            let next = c.take(i as int + 1);
            assert(next == prev.push(p));
            assert forall|q: (int, int)| positions(next).contains(q) == positions(prev).insert(
                point(p),
            ).contains(q) by {
                if positions(next).contains(q) {
                    let j = choose|j: int| 0 <= j < next.len() && #[trigger] point(next[j]) == q;
                    if j < prev.len() {
                        assert(point(prev[j]) == q);
                    }
                }
                if positions(prev).contains(q) {
                    let j = choose|j: int| 0 <= j < prev.len() && #[trigger] point(prev[j]) == q;
                    assert(point(next[j]) == q);
                }
                if q == point(p) {
                    assert(point(next[i as int]) == q);
                }
            }
            assert(positions(next) =~= positions(prev).insert(point(p)));
            assert(board@ =~= old(board)@.union(positions(next)));
            assert(blocks_of(next, color) =~= blocks_of(prev, color).push(Block { pos: p, color }));
            assert(settled@ =~= old(settled)@ + blocks_of(next, color));
        }
        i = i + 1;
    }
    assert(c.take(4) =~= c);
}

/// A running game.
pub struct Game {
    board: Board,
    settled: Vec<Block>,
    active: Option<Piece>,
    spawn_pending: bool,
    gravity_timer: IntervalTimer,
    input_timer: IntervalTimer,
}

impl View for Game {
    type V = GameView;

    closed spec fn view(&self) -> GameView {
        GameView {
            occupied: self.board@,
            settled: self.settled@,
            active: match self.active {
                Some(p) => Some(p@),
                None => None,
            },
            spawn_pending: self.spawn_pending,
            gravity: self.gravity_timer@,
            input: self.input_timer@,
        }
    }
}

impl Game {
    /// The board holds exactly the settled cells, the falling piece (if any)
    /// is well formed, and both timers are well formed.
    pub closed spec fn wf(&self) -> bool {
        &&& self.board.wf()
        &&& self.board@ == settled_positions(self.settled@)
        &&& self.gravity_timer.wf()
        &&& self.input_timer.wf()
        &&& match self.active {
            Some(p) => p.wf(),
            None => true,
        }
    }

    /// A game on an empty board with no falling piece and one spawn request.
    pub fn new() -> (r: Game)
        ensures
            r.wf(),
            r@.occupied == Set::<(int, int)>::empty(),
            r@.settled == Seq::<Block>::empty(),
            r@.active is None,
            r@.spawn_pending,
            r@.gravity == (TimerView { period: GRAVITY_PERIOD_MS as nat, elapsed: 0 }),
            r@.input == (TimerView { period: INPUT_PERIOD_MS as nat, elapsed: 0 }),
    {
        let r = Game {
            board: Board::new(),
            settled: Vec::new(),
            active: None,
            spawn_pending: true,
            gravity_timer: IntervalTimer::new(GRAVITY_PERIOD_MS),
            input_timer: IntervalTimer::new(INPUT_PERIOD_MS),
        };
        assert(settled_positions(r.settled@) =~= Set::<(int, int)>::empty());
        r
    }

    /// One gravity step. Returns whether the falling piece settled.
    pub fn gravity_step(&mut self) -> (locked: bool)
        requires
            old(self).wf(),
        ensures
            final(self).wf(),
            final(self)@ == old(self)@.after_gravity(),
            locked == old(self)@.locks(),
    {
        let blocked = match &self.active {
            Some(p) => p.is_blocked(&self.board),
            None => {
                return false;
            },
        };
        if blocked {
            match &self.active {
                Some(p) => {
                    proof {
                        lemma_settle_positions(
                            self.settled@,
                            p@.cells,
                            shape_color(p@.kind),
                        );
                    }
                    settle(&mut self.board, &mut self.settled, p);
                },
                None => {},
            }
            self.active = None;
            self.spawn_pending = true;
            assert(self@ == old(self)@.after_gravity());
            true
        } else {
            match &mut self.active {
                Some(p) => {
                    proof {
                        lemma_fall_within_grid(self.board@, p@.cells);
                    }
                    p.translate(0, -1);
                },
                None => {},
            }
            false
        }
    }
}

impl Game {
    /// Shifts the falling piece one column left if every cell may move;
    /// otherwise no cell moves. Returns whether it moved.
    pub fn move_left(&mut self) -> (moved: bool)
        requires
            old(self).wf(),
        ensures
            final(self).wf(),
            final(self)@ == old(self)@.after_left(),
            moved == (old(self)@.active is Some && all_left_clear(
                old(self)@.occupied,
                old(self)@.active->0.cells,
            )),
    {
        match &mut self.active {
            Some(p) => {
                if p.can_move_left(&self.board) {
                    proof {
                        lemma_left_within_grid(self.board@, p@.cells);
                    }
                    p.translate(-1, 0);
                    true
                } else {
                    false
                }
            },
            None => false,
        }
    }

    /// Shifts the falling piece one column right if every cell may move;
    /// otherwise no cell moves. Returns whether it moved.
    pub fn move_right(&mut self) -> (moved: bool)
        requires
            old(self).wf(),
        ensures
            final(self).wf(),
            final(self)@ == old(self)@.after_right(),
            moved == (old(self)@.active is Some && all_right_clear(
                old(self)@.occupied,
                old(self)@.active->0.cells,
            )),
    {
        match &mut self.active {
            Some(p) => {
                if p.can_move_right(&self.board) {
                    proof {
                        lemma_right_within_grid(self.board@, p@.cells);
                    }
                    p.translate(1, 0);
                    true
                } else {
                    false
                }
            },
            None => false,
        }
    }

    /// One input poll with the given keys held: left first, then right.
    pub fn horizontal_step(&mut self, left: bool, right: bool)
        requires
            old(self).wf(),
        ensures
            final(self).wf(),
            final(self)@ == old(self)@.after_input(left, right),
    {
        if left {
            self.move_left();
        }
        if right {
            self.move_right();
        }
    }

    /// Places a new `kind` piece with its pivot at `(x, y)` and serves any
    /// spawn request. Does nothing while a piece is falling. Returns whether
    /// the piece was placed.
    pub fn spawn_at(&mut self, kind: ShapeKind, x: i32, y: i32) -> (spawned: bool)
        requires
            old(self).wf(),
            within_grid(placed(kind, x as int, y as int)),
        ensures
            final(self).wf(),
            spawned == (old(self)@.active is None),
            spawned ==> final(self)@ == old(self)@.placed_at(kind, x as int, y as int),
            !spawned ==> final(self)@ == old(self)@,
    {
        if self.active.is_some() {
            return false;
        }
        self.active = Some(Piece::spawn_at(kind, x, y));
        self.spawn_pending = false;
        true
    }

    /// Serves a pending spawn request with a `kind` piece at the spawn
    /// point; a request made while a piece falls waits. Returns whether a
    /// piece was spawned.
    pub fn spawn_piece(&mut self, kind: ShapeKind) -> (spawned: bool)
        requires
            old(self).wf(),
        ensures
            final(self).wf(),
            final(self)@ == old(self)@.after_spawn(kind),
            spawned == old(self)@.spawn_due(),
    {
        if !self.spawn_pending || self.active.is_some() {
            return false;
        }
        proof {
            lemma_offsets_bounded(kind);
            let c = placed(kind, spawn_x(), spawn_y());
            assert forall|i: int| 0 <= i < c.len() implies in_grid(
                #[trigger] c[i].x as int,
                c[i].y as int,
            ) by {
                assert(-1 <= shape_offsets(kind)[i].0 <= 1);
            }
        }
        self.spawn_at(kind, (WIDTH / 2) as i32, HEIGHT as i32)
    }

    /// Serves a pending spawn request with a shape drawn at random.
    pub fn spawn_random(&mut self) -> (spawned: bool)
        requires
            old(self).wf(),
        ensures
            final(self).wf(),
            spawned == old(self)@.spawn_due(),
            spawned ==> final(self)@ == old(self)@.after_spawn(final(self)@.active->0.kind),
            !spawned ==> final(self)@ == old(self)@,
    {
        if !self.spawn_pending || self.active.is_some() {
            return false;
        }
        let kind = ShapeKind::choose_random();
        self.spawn_piece(kind)
    }

    /// Raises a spawn request; requests that are already pending collapse
    /// into one.
    pub fn request_spawn(&mut self)
        requires
            old(self).wf(),
        ensures
            final(self).wf(),
            final(self)@ == (GameView { spawn_pending: true, ..old(self)@ }),
    {
        self.spawn_pending = true;
    }

    /// Advances the gravity timer by `delta` milliseconds and takes one
    /// gravity step if an interval completed. Returns whether it did.
    pub fn tick_gravity(&mut self, delta: u64) -> (fired: bool)
        requires
            old(self).wf(),
        ensures
            final(self).wf(),
            final(self)@ == old(self)@.after_gravity_tick(delta as nat),
            fired == old(self)@.gravity.fires(delta as nat),
    {
        let fired = self.gravity_timer.tick(delta);
        if fired {
            self.gravity_step();
        }
        fired
    }

    /// Advances the input timer by `delta` milliseconds and, if an interval
    /// completed, shifts the piece as the held keys say. Returns whether the
    /// keys were polled.
    pub fn tick_input(&mut self, delta: u64, left: bool, right: bool) -> (fired: bool)
        requires
            old(self).wf(),
        ensures
            final(self).wf(),
            final(self)@ == old(self)@.after_input_tick(delta as nat, left, right),
            fired == old(self)@.input.fires(delta as nat),
    {
        let fired = self.input_timer.tick(delta);
        if fired {
            self.horizontal_step(left, right);
        }
        fired
    }
}

impl Game {
    /// Every cell as a renderer sees it: the settled cells in the order they
    /// settled, then the cells of the falling piece.
    pub fn cell_states(&self) -> (r: Vec<CellState>)
        requires
            self.wf(),
        ensures
            r@ == render(self@),
    {
        let mut r: Vec<CellState> = Vec::new();
        let mut i: usize = 0;
        while i < self.settled.len()
            invariant
                i <= self.settled@.len(),
                r@ == render(GameView { active: None, settled: self@.settled.take(i as int), ..self@ }),
            decreases self.settled@.len() - i,
        {
            let b = self.settled[i];
            r.push(CellState { pos: b.pos, color: b.color, free: false });
            i = i + 1;
            assert(r@ =~= render(GameView { active: None, settled: self@.settled.take(i as int), ..self@ }));
        }
        assert(self@.settled.take(i as int) =~= self@.settled);
        let ghost fixed = r@;
        match &self.active {
            Some(p) => {
                let color = p.kind().color();
                let cells = p.cells();
                let mut j: usize = 0;
                while j < cells.len()
                    invariant
                        j <= cells@.len(),
                        cells@ == p@.cells,
                        color == shape_color(p@.kind),
                        r@ == fixed + Seq::new(
                            j as nat,
                            |k: int| CellState { pos: cells@[k], color, free: true },
                        ),
                    decreases cells@.len() - j,
                {
                    r.push(CellState { pos: cells[j], color, free: true });
                    j = j + 1;
                    assert(r@ =~= fixed + Seq::new(
                        j as nat,
                        |k: int| CellState { pos: cells@[k], color, free: true },
                    ));
                }
                assert(r@ =~= render(self@));
            },
            None => {},
        }
        r
    }

    /// The settled cells.
    pub fn board(&self) -> (r: &Board)
        requires
            self.wf(),
        ensures
            r.wf(),
            r@ == self@.occupied,
    {
        &self.board
    }

    /// The settled cells with their colors, in the order they settled.
    pub fn settled(&self) -> (r: &Vec<Block>)
        ensures
            r@ == self@.settled,
    {
        &self.settled
    }

    /// The falling piece, if any.
    pub fn active_piece(&self) -> (r: Option<&Piece>)
        ensures
            match r {
                Some(p) => self@.active == Some(p@),
                None => self@.active is None,
            },
    {
        match &self.active {
            Some(p) => Some(p),
            None => None,
        }
    }

    /// Whether a spawn request is pending.
    pub fn spawn_pending(&self) -> (r: bool)
        ensures
            r == self@.spawn_pending,
    {
        self.spawn_pending
    }
}

/// A spawn serves the request with one piece of four cells, all of the
/// shape's color, whose offsets from the spawn point are the shape's offsets.
pub proof fn lemma_spawn_places_catalog_shape(g: GameView, kind: ShapeKind)
    requires
        g.spawn_due(),
    ensures
        g.after_spawn(kind).active is Some,
        g.after_spawn(kind).active->0.kind == kind,
        g.after_spawn(kind).active->0.cells.len() == 4,
        forall|i: int|
            0 <= i < 4 ==> (#[trigger] g.after_spawn(kind).active->0.cells[i]).x - spawn_x()
                == shape_offsets(kind)[i].0 && g.after_spawn(kind).active->0.cells[i].y
                - spawn_y() == shape_offsets(kind)[i].1,
        forall|i: int|
            0 <= i < 4 ==> #[trigger] render(g.after_spawn(kind))[g.settled.len() + i]
                == (CellState {
                pos: g.after_spawn(kind).active->0.cells[i],
                color: shape_color(kind),
                free: true,
            }),
        !g.after_spawn(kind).spawn_pending,
{
    lemma_offsets_bounded(kind);
}

/// A gravity step that does not settle the piece moves every cell down one
/// row and keeps its column; the board is untouched.
pub proof fn lemma_gravity_moves_whole_piece(g: GameView)
    requires
        g.active is Some,
        within_grid(g.active->0.cells),
        !g.locks(),
    ensures
        g.after_gravity().active is Some,
        g.after_gravity().active->0.kind == g.active->0.kind,
        g.after_gravity().active->0.cells.len() == g.active->0.cells.len(),
        forall|i: int|
            0 <= i < g.active->0.cells.len() ==> (#[trigger] g.after_gravity().active->0.cells[i]).x
                == g.active->0.cells[i].x && g.after_gravity().active->0.cells[i].y
                == g.active->0.cells[i].y - 1,
        g.after_gravity().occupied == g.occupied,
        g.after_gravity().settled == g.settled,
        g.after_gravity().spawn_pending == g.spawn_pending,
{
    lemma_fall_within_grid(g.occupied, g.active->0.cells);
    let c = g.active->0.cells;
    assert forall|i: int| 0 <= i < c.len() implies (#[trigger] translate(c, 0, -1)[i]).y == c[i].y
        - 1 by {
        assert(in_grid(c[i].x as int, c[i].y as int));
        assert(in_grid(translate(c, 0, -1)[i].x as int, translate(c, 0, -1)[i].y as int));
    }
}

/// Once a cell of the falling piece is blocked below, a gravity step settles
/// every cell: none stays free, the board holds each cell's position, the
/// cells are recorded with the shape's color, and a spawn is requested.
pub proof fn lemma_gravity_settles_whole_piece(g: GameView)
    requires
        g.locks(),
    ensures
        g.after_gravity().active is None,
        forall|i: int|
            0 <= i < g.active->0.cells.len() ==> g.after_gravity().occupied.contains(
                point(#[trigger] g.active->0.cells[i]),
            ),
        g.after_gravity().settled == g.settled + blocks_of(
            g.active->0.cells,
            shape_color(g.active->0.kind),
        ),
        g.after_gravity().spawn_pending,
{
    let c = g.active->0.cells;
    assert forall|i: int| 0 <= i < c.len() implies g.after_gravity().occupied.contains(
        point(#[trigger] c[i]),
    ) by {
        assert(positions(c).contains(point(c[i])));
    }
}

/// A horizontal shift moves every cell of the piece one column, or none.
pub proof fn lemma_shift_all_or_none(g: GameView)
    requires
        g.active is Some,
        within_grid(g.active->0.cells),
    ensures
        g.after_left() == g || forall|i: int|
            0 <= i < g.active->0.cells.len() ==> (#[trigger] g.after_left().active->0.cells[i]).x
                == g.active->0.cells[i].x - 1 && g.after_left().active->0.cells[i].y
                == g.active->0.cells[i].y,
        g.after_right() == g || forall|i: int|
            0 <= i < g.active->0.cells.len() ==> (#[trigger] g.after_right().active->0.cells[i]).x
                == g.active->0.cells[i].x + 1 && g.after_right().active->0.cells[i].y
                == g.active->0.cells[i].y,
        g.after_left().active->0.cells.len() == g.active->0.cells.len(),
        g.after_right().active->0.cells.len() == g.active->0.cells.len(),
        (exists|i: int|
            0 <= i < g.active->0.cells.len() && !left_clear(g.occupied, #[trigger] g.active->0.cells[i]))
            ==> g.after_left() == g,
        (exists|i: int|
            0 <= i < g.active->0.cells.len() && !right_clear(g.occupied, #[trigger] g.active->0.cells[i]))
            ==> g.after_right() == g,
{
    let c = g.active->0.cells;
    if all_left_clear(g.occupied, c) {
        lemma_left_within_grid(g.occupied, c);
        assert forall|i: int| 0 <= i < c.len() implies (#[trigger] translate(c, -1, 0)[i]).x
            == c[i].x - 1 by {
            assert(in_grid(c[i].x as int, c[i].y as int));
            assert(in_grid(translate(c, -1, 0)[i].x as int, translate(c, -1, 0)[i].y as int));
        }
    }
    if all_right_clear(g.occupied, c) {
        lemma_right_within_grid(g.occupied, c);
        assert forall|i: int| 0 <= i < c.len() implies (#[trigger] translate(c, 1, 0)[i]).x
            == c[i].x + 1 by {
            assert(in_grid(c[i].x as int, c[i].y as int));
            assert(in_grid(translate(c, 1, 0)[i].x as int, translate(c, 1, 0)[i].y as int));
        }
    }
}

/// A piece with a cell in the leftmost column cannot shift left, and one
/// with a cell in the rightmost column cannot shift right, whatever its shape.
pub proof fn lemma_walls_reject_shift(g: GameView, i: int)
    requires
        g.active is Some,
        0 <= i < g.active->0.cells.len(),
    ensures
        g.active->0.cells[i].x == 0 ==> g.after_left() == g,
        g.active->0.cells[i].x == WIDTH as int - 1 ==> g.after_right() == g,
{
    assert(g.active->0.cells[i].x == 0 ==> !left_clear(g.occupied, g.active->0.cells[i]));
    assert(g.active->0.cells[i].x == WIDTH as int - 1 ==> !right_clear(g.occupied, g.active->0.cells[i]));
}

} // verus!
