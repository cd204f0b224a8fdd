use blockfall::{
    Board, CellState, Color, Game, IntervalTimer, Position, ShapeKind, BOARD_ROWS, HEIGHT,
    SHAPE_COUNT, WIDTH,
};

const ALL_KINDS: [ShapeKind; 7] = [
    ShapeKind::I,
    ShapeKind::L,
    ShapeKind::J,
    ShapeKind::Z,
    ShapeKind::S,
    ShapeKind::O,
    ShapeKind::T,
];

fn free_cells(g: &Game) -> Vec<Position> {
    g.active_piece().expect("a piece is falling").cells().clone()
}

fn pos(x: i32, y: i32) -> Position {
    Position { x, y }
}

fn occupied_count(g: &Game) -> usize {
    let mut n = 0;
    for y in 0..BOARD_ROWS {
        for x in 0..WIDTH {
            if g.board().is_occupied(x, y) {
                n += 1;
            }
        }
    }
    n
}

#[test]
fn spawned_piece_has_four_cells_of_one_catalog_shape() {
    for kind in ALL_KINDS {
        let mut g = Game::new();
        assert!(g.spawn_pending());
        assert!(g.spawn_piece(kind));
        assert!(!g.spawn_pending());
        let cells = free_cells(&g);
        assert_eq!(cells.len(), 4);
        let offsets = kind.offsets();
        for (c, (dx, dy)) in cells.iter().zip(offsets.iter()) {
            assert_eq!(c.x - (WIDTH as i32 / 2), *dx);
            assert_eq!(c.y - HEIGHT as i32, *dy);
        }
        let states = g.cell_states();
        assert_eq!(states.len(), 4);
        assert!(states.iter().all(|s| s.free && s.color == kind.color()));
    }
}

#[test]
fn catalog_shapes_have_distinct_offsets() {
    for a in ALL_KINDS {
        for b in ALL_KINDS {
            let mut oa = a.offsets();
            let mut ob = b.offsets();
            oa.sort();
            ob.sort();
            assert_eq!(a == b, oa == ob);
        }
    }
}

#[test]
fn gravity_moves_every_cell_down_one_row() {
    let mut g = Game::new();
    g.spawn_piece(ShapeKind::T);
    let before = free_cells(&g);
    assert!(!g.gravity_step());
    let after = free_cells(&g);
    for (b, a) in before.iter().zip(after.iter()) {
        assert_eq!(a.x, b.x);
        assert_eq!(a.y, b.y - 1);
    }
    assert_eq!(occupied_count(&g), 0);
}

#[test]
fn blocked_cell_settles_the_whole_piece() {
    let mut g = Game::new();
    // an O on the floor in columns 0 and 1
    assert!(g.spawn_at(ShapeKind::O, 0, 0));
    assert!(g.gravity_step());
    // an L whose pivot comes to rest on the O, its right end overhanging
    assert!(g.spawn_at(ShapeKind::L, 1, 5));
    assert!(!g.gravity_step());
    assert!(!g.gravity_step());
    assert!(!g.gravity_step());
    assert!(g.gravity_step());
    assert!(g.active_piece().is_none());
    assert!(g.spawn_pending());
    assert!(!g.board().is_occupied(2, 1));
    for (x, y) in [(1, 2), (2, 2), (0, 2), (2, 3)] {
        assert!(g.board().is_occupied(x as usize, y as usize));
    }
    assert_eq!(g.settled().len(), 8);
    assert!(g.settled()[4..].iter().all(|b| b.color == ShapeKind::L.color()));
}

#[test]
fn lock_requests_a_single_next_spawn() {
    let mut g = Game::new();
    g.spawn_at(ShapeKind::O, 4, 0);
    assert!(g.gravity_step());
    g.request_spawn();
    assert!(g.spawn_pending());
    assert!(g.spawn_piece(ShapeKind::I));
    assert!(!g.spawn_piece(ShapeKind::T));
    assert_eq!(g.active_piece().unwrap().kind(), ShapeKind::I);
}

#[test]
fn spawn_request_waits_while_a_piece_falls() {
    let mut g = Game::new();
    assert!(g.spawn_piece(ShapeKind::S));
    g.request_spawn();
    assert!(!g.spawn_piece(ShapeKind::T));
    assert!(!g.spawn_random());
    assert!(g.spawn_pending());
    assert_eq!(g.active_piece().unwrap().kind(), ShapeKind::S);
    assert!(!g.spawn_at(ShapeKind::O, 0, 0));
}

#[test]
fn shift_with_one_blocked_cell_moves_nothing() {
    let mut g = Game::new();
    assert!(g.spawn_at(ShapeKind::O, 0, 0));
    assert!(g.gravity_step());
    // cells (2,2), (2,1), (2,3), (2,4): only (2,1) has a settled cell to its left
    assert!(g.spawn_at(ShapeKind::I, 2, 2));
    let before = free_cells(&g);
    assert!(!g.move_left());
    assert_eq!(free_cells(&g), before);
    assert!(g.move_right());
    let after = free_cells(&g);
    for (b, a) in before.iter().zip(after.iter()) {
        assert_eq!(a.x, b.x + 1);
        assert_eq!(a.y, b.y);
    }
}

#[test]
fn walls_reject_shifts_for_every_shape() {
    for kind in ALL_KINDS {
        let mut g = Game::new();
        g.spawn_piece(kind);
        while g.move_left() {}
        let cells = free_cells(&g);
        assert_eq!(cells.iter().map(|c| c.x).min(), Some(0));
        assert!(!g.move_left());
        assert_eq!(free_cells(&g), cells);
        while g.move_right() {}
        let cells = free_cells(&g);
        assert_eq!(cells.iter().map(|c| c.x).max(), Some(WIDTH as i32 - 1));
        assert!(!g.move_right());
        assert_eq!(free_cells(&g), cells);
    }
}

#[test]
fn left_then_right_in_one_poll() {
    let mut g = Game::new();
    g.spawn_piece(ShapeKind::T);
    let before = free_cells(&g);
    g.horizontal_step(true, true);
    assert_eq!(free_cells(&g), before);
    g.horizontal_step(true, false);
    assert_eq!(free_cells(&g)[0].x, before[0].x - 1);
}

#[test]
fn locking_a_settled_cell_again_changes_nothing() {
    let mut b = Board::new();
    assert!(!b.is_occupied(3, 4));
    b.lock(3, 4);
    assert!(b.is_occupied(3, 4));
    b.lock(3, 4);
    assert!(b.is_occupied(3, 4));
    let mut n = 0;
    for y in 0..BOARD_ROWS {
        for x in 0..WIDTH {
            if b.is_occupied(x, y) {
                n += 1;
            }
        }
    }
    assert_eq!(n, 1);
}

#[test]
fn o_piece_on_the_floor_locks_on_first_tick() {
    let mut g = Game::new();
    assert!(g.spawn_at(ShapeKind::O, 0, 0));
    assert!(g.gravity_step());
    assert!(g.active_piece().is_none());
    for (x, y) in [(0, 0), (1, 0), (0, 1), (1, 1)] {
        assert!(g.board().is_occupied(x, y));
    }
    assert_eq!(occupied_count(&g), 4);
    assert!(g.spawn_pending());
}

#[test]
fn i_piece_from_the_top_rests_on_the_floor_after_eighteen_ticks() {
    let mut g = Game::new();
    assert!(g.spawn_piece(ShapeKind::I));
    for _ in 0..17 {
        assert!(!g.gravity_step());
        assert_eq!(occupied_count(&g), 0);
    }
    let cells = free_cells(&g);
    assert_eq!(cells.iter().map(|c| c.y).min(), Some(0));
    assert!(g.gravity_step());
    assert_eq!(occupied_count(&g), 4);
    for y in 0..4 {
        assert!(g.board().is_occupied(WIDTH / 2, y));
    }
}

#[test]
fn gravity_tick_fires_once_per_completed_interval() {
    let mut g = Game::new();
    g.spawn_piece(ShapeKind::O);
    let y0 = free_cells(&g)[0].y;
    assert!(!g.tick_gravity(399));
    assert_eq!(free_cells(&g)[0].y, y0);
    assert!(g.tick_gravity(1));
    assert_eq!(free_cells(&g)[0].y, y0 - 1);
    assert!(g.tick_gravity(1000));
    assert_eq!(free_cells(&g)[0].y, y0 - 2);
}

#[test]
fn input_tick_polls_held_keys() {
    let mut g = Game::new();
    g.spawn_piece(ShapeKind::O);
    let x0 = free_cells(&g)[0].x;
    assert!(!g.tick_input(49, true, false));
    assert_eq!(free_cells(&g)[0].x, x0);
    assert!(g.tick_input(1, true, false));
    assert_eq!(free_cells(&g)[0].x, x0 - 1);
    assert!(g.tick_input(50, false, true));
    assert_eq!(free_cells(&g)[0].x, x0);
}

#[test]
fn timer_carries_leftover_time() {
    let mut t = IntervalTimer::new(400);
    assert!(!t.tick(150));
    assert_eq!(t.elapsed(), 150);
    assert!(t.tick(300));
    assert_eq!(t.elapsed(), 50);
    assert!(t.tick(1250));
    assert_eq!(t.elapsed(), 100);
    assert!(t.tick(u64::MAX));
    assert_eq!(t.elapsed(), ((100u128 + u64::MAX as u128) % 400) as u64);
    assert_eq!(t.period(), 400);
}

#[test]
fn pick_takes_the_word_modulo_the_catalog_size() {
    assert_eq!(SHAPE_COUNT, 7);
    for (i, kind) in ALL_KINDS.iter().enumerate() {
        assert_eq!(ShapeKind::from_index(i), *kind);
        assert_eq!(ShapeKind::pick(i + 7), *kind);
    }
    assert_eq!(ShapeKind::pick(usize::MAX), ALL_KINDS[usize::MAX % 7]);
}

#[test]
fn random_spawn_serves_the_first_request() {
    let mut g = Game::new();
    assert!(g.spawn_random());
    let kind = g.active_piece().unwrap().kind();
    assert!(ALL_KINDS.contains(&kind));
    assert_eq!(free_cells(&g).len(), 4);
}

#[test]
fn shape_colors_match_the_catalog() {
    assert_eq!(ShapeKind::I.color(), Color { r: 0x84, g: 0xCD, b: 0xEE });
    assert_eq!(ShapeKind::O.color(), Color { r: 0xF9, g: 0xE9, b: 0x09 });
    assert_eq!(ShapeKind::T.color(), Color { r: 0x9C, g: 0x0F, b: 0xBF });
}

#[test]
fn cell_states_list_settled_then_free_cells() {
    let mut g = Game::new();
    g.spawn_at(ShapeKind::O, 0, 0);
    g.gravity_step();
    g.spawn_at(ShapeKind::I, 5, 5);
    let states = g.cell_states();
    assert_eq!(states.len(), 8);
    assert_eq!(
        states[0],
        CellState { pos: pos(0, 0), color: ShapeKind::O.color(), free: false }
    );
    assert_eq!(
        states[5],
        CellState { pos: pos(5, 4), color: ShapeKind::I.color(), free: true }
    );
}
