use tetris_bot_rust::board::{TetrisBoard, BOARD_HEIGHT, BOARD_WIDTH};
use tetris_bot_rust::commands::{calculate_input_commands, get_actual_position_after_rotation, Action, InputCommand};
use tetris_bot_rust::eval::{
    count_complete_lines, count_holes, evaluate_board, evaluate_board_detailed, get_aggregate_height, get_bumpiness,
    get_column_heights, Weights,
};
use tetris_bot_rust::piece::{
    get_piece_height, get_piece_id, get_piece_shape, get_piece_width, get_rotation_count, get_spawn_position, PieceKind,
};
use tetris_bot_rust::search::{
    calculate_best_move, calculate_best_move_debug, calculate_best_move_lookahead, enumerate_candidates,
    evaluate_placement, select_best, Move,
};
use tetris_bot_rust::session::GameSession;

const ALL: [PieceKind; 7] = [
    PieceKind::I,
    PieceKind::O,
    PieceKind::T,
    PieceKind::S,
    PieceKind::Z,
    PieceKind::J,
    PieceKind::L,
];

fn board_from_rows(rows: &[(usize, [i32; 10])]) -> TetrisBoard {
    let mut board = TetrisBoard::new();
    for (y, row) in rows {
        board.grid[*y] = row.to_vec();
    }
    board
}

#[test]
fn every_shape_has_four_cells() {
    for k in ALL {
        for rotation in 0..8u8 {
            let shape = get_piece_shape(k, rotation);
            let cells: usize = shape.iter().map(|r| r.iter().filter(|&&c| c != 0).count()).sum();
            assert_eq!(cells, 4, "{:?} rotation {}", k, rotation);
            assert!(shape.iter().all(|r| r.len() == shape[0].len()));
        }
    }
}

#[test]
fn rotation_is_reduced_by_the_number_of_shapes() {
    assert_eq!(get_piece_shape(PieceKind::I, 0), get_piece_shape(PieceKind::I, 2));
    assert_eq!(get_piece_shape(PieceKind::S, 1), get_piece_shape(PieceKind::S, 3));
    assert_eq!(get_piece_shape(PieceKind::T, 1), get_piece_shape(PieceKind::T, 5));
    for r in 0..4u8 {
        assert_eq!(get_piece_shape(PieceKind::O, r), vec![vec![1, 1], vec![1, 1]]);
    }
    assert_eq!(get_piece_shape(PieceKind::I, 1), vec![vec![1], vec![1], vec![1], vec![1]]);
    assert_eq!(get_piece_shape(PieceKind::L, 3), vec![vec![1, 1], vec![0, 1], vec![0, 1]]);
    assert_eq!(get_rotation_count(PieceKind::I), 2);
    assert_eq!(get_rotation_count(PieceKind::O), 1);
    assert_eq!(get_rotation_count(PieceKind::J), 4);
}

#[test]
fn catalog_identity_and_dimensions() {
    let ids: Vec<i32> = ALL.iter().map(|&k| get_piece_id(k)).collect();
    assert_eq!(ids, vec![1, 2, 3, 4, 5, 6, 7]);
    assert_eq!(get_piece_width(PieceKind::I, 0), 4);
    assert_eq!(get_piece_height(PieceKind::I, 0), 1);
    assert_eq!(get_piece_width(PieceKind::I, 1), 1);
    assert_eq!(get_piece_height(PieceKind::I, 1), 4);
    assert_eq!(get_piece_width(PieceKind::T, 1), 2);
    assert_eq!(get_piece_height(PieceKind::T, 1), 3);
    assert_eq!(get_spawn_position(PieceKind::O), (4, 0));
    assert_eq!(get_spawn_position(PieceKind::Z), (3, 0));
}

#[test]
fn names_parse_and_unknown_names_are_rejected() {
    for k in ALL {
        assert_eq!(PieceKind::from_name(k.name()), Some(k));
    }
    assert_eq!(PieceKind::from_name("T"), Some(PieceKind::T));
    assert_eq!(PieceKind::from_name("X"), None);
    assert_eq!(PieceKind::from_name(""), None);
    assert_eq!(PieceKind::from_name("II"), None);
    assert_eq!(PieceKind::from_name("i"), None);
}

#[test]
fn is_valid_rejects_out_of_bounds_and_overlap() {
    let board = TetrisBoard::new();
    assert!(board.is_valid_position(PieceKind::I, 6, 0, 0));
    assert!(!board.is_valid_position(PieceKind::I, 7, 0, 0));
    assert!(!board.is_valid_position(PieceKind::I, -1, 0, 0));
    assert!(board.is_valid_position(PieceKind::I, 0, 16, 1));
    assert!(!board.is_valid_position(PieceKind::I, 0, 17, 1));
    assert!(!board.is_valid_position(PieceKind::O, 0, -1, 0));
    assert!(!board.is_valid_position(PieceKind::O, 9, 0, 0));
    assert!(board.is_valid_position(PieceKind::O, 8, 18, 0));
    // The empty corner of a T does not need to be inside the board.
    assert!(board.is_valid_position(PieceKind::T, 0, 18, 0));
    let mut filled = TetrisBoard::new();
    filled.grid[19][4] = 3;
    assert!(!filled.is_valid_position(PieceKind::O, 3, 18, 0));
    assert!(!filled.is_valid_position(PieceKind::O, 4, 18, 0));
    assert!(filled.is_valid_position(PieceKind::O, 5, 18, 0));
    assert!(filled.is_valid_position(PieceKind::O, 4, 17, 0));
}

#[test]
fn drop_row_of_o_on_empty_board() {
    let board = TetrisBoard::new();
    assert_eq!(board.get_drop_position(PieceKind::O, 0, 0), 18);
    assert_eq!(board.get_drop_position(PieceKind::I, 0, 0), 19);
    assert_eq!(board.get_drop_position(PieceKind::I, 0, 1), 16);
    assert_eq!(board.get_drop_position(PieceKind::T, 3, 0), 18);
}

#[test]
fn drop_row_stops_on_the_stack() {
    let mut board = TetrisBoard::new();
    board.grid[10][1] = 5;
    assert_eq!(board.get_drop_position(PieceKind::O, 0, 0), 8);
    assert_eq!(board.get_drop_position(PieceKind::O, 2, 0), 18);
    // Not fitting at the top row gives row 0.
    board.grid[0][5] = 5;
    assert_eq!(board.get_drop_position(PieceKind::O, 4, 0), 0);
    assert_eq!(board.get_drop_position(PieceKind::O, 12, 0), 0);
}

#[test]
fn clear_lines_removes_a_single_full_row() {
    let mut board = board_from_rows(&[(19, [1; 10]), (18, [2, 0, 0, 0, 0, 0, 0, 0, 0, 3])]);
    assert_eq!(board.clear_lines(), 1);
    assert_eq!(board.grid.len(), BOARD_HEIGHT);
    assert_eq!(board.grid[0], vec![0; BOARD_WIDTH]);
    assert_eq!(board.grid[19], vec![2, 0, 0, 0, 0, 0, 0, 0, 0, 3]);
    assert!(board.grid[..19].iter().all(|r| r.iter().all(|&c| c == 0)));
    assert_eq!(board.clear_lines(), 0);
    assert_eq!(board.grid[19], vec![2, 0, 0, 0, 0, 0, 0, 0, 0, 3]);
}

#[test]
fn clear_lines_keeps_order_of_remaining_rows() {
    let mut board = board_from_rows(&[
        (19, [1; 10]),
        (18, [4, 0, 0, 0, 0, 0, 0, 0, 0, 0]),
        (17, [7; 10]),
        (16, [0, 6, 0, 0, 0, 0, 0, 0, 0, 0]),
    ]);
    assert_eq!(board.clear_lines(), 2);
    assert_eq!(board.grid[19], vec![4, 0, 0, 0, 0, 0, 0, 0, 0, 0]);
    assert_eq!(board.grid[18], vec![0, 6, 0, 0, 0, 0, 0, 0, 0, 0]);
    assert_eq!(board.grid[0], vec![0; 10]);
    assert_eq!(board.grid[1], vec![0; 10]);
    assert_eq!(board.grid.len(), 20);
}

#[test]
fn place_piece_stamps_tags_and_clears() {
    let mut board = TetrisBoard::new();
    assert!(board.place_piece(PieceKind::T, 0, 18, 0));
    assert_eq!(board.grid[18][..3].to_vec(), vec![0, 3, 0]);
    assert_eq!(board.grid[19][..3].to_vec(), vec![3, 3, 3]);
    // Overlap fails and leaves the board alone.
    let before = board.grid.clone();
    assert!(!board.place_piece(PieceKind::O, 0, 18, 0));
    assert_eq!(board.grid, before);
    // Completing the bottom row clears it.
    let mut board = board_from_rows(&[(19, [1, 1, 1, 1, 1, 1, 0, 0, 0, 0])]);
    assert!(board.place_piece(PieceKind::I, 6, 19, 0));
    assert!(board.grid.iter().all(|r| r.iter().all(|&c| c == 0)));
}

#[test]
fn board_with_piece_marks_the_falling_piece() {
    let mut board = TetrisBoard::new();
    board.grid[19][0] = 1;
    let shown = board.board_with_piece(PieceKind::O, 8, 0, 0);
    assert_eq!(shown[0][8], 12);
    assert_eq!(shown[1][9], 12);
    assert_eq!(shown[19][0], 1);
    assert_eq!(board.grid[0][8], 0);
    // Cells outside the grid are left out.
    let clipped = board.board_with_piece(PieceKind::I, 8, 0, 0);
    assert_eq!(clipped[0][8..].to_vec(), vec![11, 11]);
}

#[test]
fn metrics_on_a_rough_board() {
    // Column heights: col 0 = 3, col 1 = 1, col 2 = 2 with a hole at row 19.
    let board = board_from_rows(&[
        (17, [1, 0, 0, 0, 0, 0, 0, 0, 0, 0]),
        (18, [1, 0, 2, 0, 0, 0, 0, 0, 0, 0]),
        (19, [1, 5, 0, 0, 0, 0, 0, 0, 0, 0]),
    ]);
    assert_eq!(get_column_heights(&board), vec![3, 1, 2, 0, 0, 0, 0, 0, 0, 0]);
    assert_eq!(get_aggregate_height(&board), 6);
    assert_eq!(count_holes(&board), 1);
    assert_eq!(get_bumpiness(&board), 2 + 1 + 2);
    assert_eq!(count_complete_lines(&board), 0);
    let w = Weights::reference();
    let expected = 6 * -51000 + 1 * -35000 + 5 * -18000;
    assert_eq!(evaluate_board(&board, &w), expected);
    let detail = evaluate_board_detailed(&board, &w);
    assert_eq!((detail.lines, detail.holes, detail.bumpiness, detail.aggregate_height), (0, 1, 5, 6));
    assert_eq!(detail.total, expected);
}

#[test]
fn complete_lines_are_counted_and_rewarded() {
    let board = board_from_rows(&[(19, [1; 10]), (18, [2; 10])]);
    assert_eq!(count_complete_lines(&board), 2);
    assert_eq!(get_aggregate_height(&board), 20);
    let w = Weights::reference();
    assert_eq!(evaluate_board(&board, &w), 2 * 760666 - 20 * 51000);
    let custom = Weights { line_clear: 1000, hole: 0, bumpiness: 0, height: 0 };
    assert_eq!(evaluate_board(&board, &custom), 2000);
}

#[test]
fn o_pieces_along_the_floor() {
    let w = Weights::reference();
    let mut board = TetrisBoard::new();
    let mut last_height_part = 0i64;
    for (n, x) in [0, 2, 4, 6].iter().enumerate() {
        let y = board.get_drop_position(PieceKind::O, *x, 0);
        assert_eq!(y, 18);
        assert!(board.place_piece(PieceKind::O, *x, y, 0));
        let d = evaluate_board_detailed(&board, &w);
        assert_eq!(d.holes, 0);
        assert_eq!(d.lines, 0);
        assert_eq!(d.aggregate_height, 4 * (n as u32 + 1));
        let height_part = d.aggregate_height as i64 * w.height as i64;
        assert!(height_part <= last_height_part);
        last_height_part = height_part;
    }
    // The fifth piece completes two rows, which are cleared.
    assert!(board.place_piece(PieceKind::O, 8, 18, 0));
    let d = evaluate_board_detailed(&board, &w);
    assert_eq!((d.lines, d.holes, d.bumpiness, d.aggregate_height, d.total), (0, 0, 0, 0, 0));
}

#[test]
fn best_placement_exists_on_empty_board() {
    let board = TetrisBoard::new();
    let w = Weights::reference();
    for k in ALL {
        let m = calculate_best_move(&board, Some(k), &w).expect("a placement");
        assert_eq!(m.piece, k);
        assert!(board.is_valid_position(k, m.x, m.y, m.rotation));
    }
    assert_eq!(calculate_best_move(&board, None, &w), None);
}

#[test]
fn best_i_placement_on_empty_board() {
    let board = TetrisBoard::new();
    let w = Weights::reference();
    let m = calculate_best_move(&board, Some(PieceKind::I), &w).unwrap();
    assert_eq!(m, Move::new(PieceKind::I, 0, 19, 0, -222000));
    let cands = enumerate_candidates(&board, PieceKind::I, &w);
    assert_eq!(cands.len(), 7 + 10);
    let mut best = i64::MIN;
    for rotation in 0..2u8 {
        for x in 0..10 {
            if board.is_valid_position(PieceKind::I, x, 0, rotation) {
                let y = board.get_drop_position(PieceKind::I, x, rotation);
                let (_, s) = evaluate_placement(&board, PieceKind::I, x, y, rotation, &w);
                best = best.max(s);
            }
        }
    }
    assert_eq!(m.score, best);
    let commands = calculate_input_commands(PieceKind::I, &m);
    assert_eq!(commands.last(), Some(&InputCommand::new(Action::Drop, 1)));
    assert_eq!(commands.iter().filter(|c| c.action == Action::Drop).count(), 1);
    assert_eq!(commands, vec![InputCommand::new(Action::Left, 3), InputCommand::new(Action::Drop, 1)]);
}

#[test]
fn best_placement_is_valid_where_computed() {
    let board = board_from_rows(&[
        (19, [1, 1, 1, 0, 1, 1, 1, 1, 0, 1]),
        (18, [0, 1, 1, 0, 0, 1, 1, 0, 0, 0]),
        (17, [0, 0, 1, 0, 0, 0, 0, 0, 0, 0]),
    ]);
    let w = Weights::reference();
    for k in ALL {
        let m = calculate_best_move(&board, Some(k), &w).unwrap();
        assert!(board.is_valid_position(k, m.x, m.y, m.rotation));
        assert_eq!(m.y, board.get_drop_position(k, m.x, m.rotation));
    }
}

#[test]
fn ties_keep_the_first_found() {
    let a = Move::new(PieceKind::T, 0, 18, 0, -5);
    let b = Move::new(PieceKind::T, 1, 18, 0, 7);
    let c = Move::new(PieceKind::T, 2, 18, 0, 7);
    assert_eq!(select_best(&vec![a, b, c]), Some(b));
    assert_eq!(select_best(&vec![]), None);
    // The I piece has two equal-scoring ends; the left one comes first.
    let board = TetrisBoard::new();
    let (best, seen) = calculate_best_move_debug(&board, PieceKind::I, &Weights::reference());
    assert_eq!(best.unwrap().x, 0);
    assert_eq!(seen[6].score, seen[0].score);
    assert_eq!(seen.len(), 17);
}

#[test]
fn a_full_column_leaves_no_placement() {
    let mut board = TetrisBoard::new();
    for y in 0..20 {
        board.grid[y] = vec![1, 1, 1, 1, 1, 0, 1, 1, 1, 1];
    }
    let w = Weights::reference();
    for k in [PieceKind::O, PieceKind::T, PieceKind::S, PieceKind::Z, PieceKind::J, PieceKind::L] {
        assert_eq!(calculate_best_move(&board, Some(k), &w), None);
    }
    let m = calculate_best_move(&board, Some(PieceKind::I), &w).unwrap();
    assert_eq!((m.x, m.rotation), (5, 1));
}

#[test]
fn lookahead_scores_by_the_best_answer() {
    let board = board_from_rows(&[(19, [1, 1, 1, 1, 1, 1, 0, 0, 0, 0]), (18, [1, 1, 1, 1, 1, 1, 0, 0, 0, 0])]);
    let w = Weights::reference();
    let plain = calculate_best_move_lookahead(&board, PieceKind::O, None, &w);
    assert_eq!(plain, calculate_best_move(&board, Some(PieceKind::O), &w));
    let m = calculate_best_move_lookahead(&board, PieceKind::O, Some(PieceKind::O), &w).unwrap();
    let (after, _) = evaluate_placement(&board, PieceKind::O, m.x, m.y, m.rotation, &w);
    let answer = calculate_best_move(&after, Some(PieceKind::O), &w).unwrap();
    assert_eq!(m.score, answer.score);
    for c in enumerate_candidates(&board, PieceKind::O, &w) {
        let (after, _) = evaluate_placement(&board, PieceKind::O, c.x, c.y, c.rotation, &w);
        let s = calculate_best_move(&after, Some(PieceKind::O), &w).unwrap().score;
        assert!(s <= m.score);
    }
    // Two O pieces fill the gap and clear both rows.
    assert!(m.x == 6 || m.x == 8);
    assert_eq!(m.score, 0);
}

#[test]
fn rotation_shift_follows_the_mask_width() {
    assert_eq!(get_actual_position_after_rotation(PieceKind::I, 3, 0), 3);
    assert_eq!(get_actual_position_after_rotation(PieceKind::I, 3, 1), 4);
    assert_eq!(get_actual_position_after_rotation(PieceKind::I, 3, 3), 4);
    assert_eq!(get_actual_position_after_rotation(PieceKind::T, 3, 1), 3);
    assert_eq!(get_actual_position_after_rotation(PieceKind::O, 4, 1), 4);
}

#[test]
fn commands_for_each_kind_of_turn() {
    let t = Move::new(PieceKind::T, 0, 18, 1, 0);
    assert_eq!(
        calculate_input_commands(PieceKind::T, &t),
        vec![
            InputCommand::new(Action::RotateCw, 1),
            InputCommand::new(Action::Left, 3),
            InputCommand::new(Action::Drop, 1)
        ]
    );
    let j = Move::new(PieceKind::J, 7, 18, 2, 0);
    assert_eq!(
        calculate_input_commands(PieceKind::J, &j),
        vec![
            InputCommand::new(Action::Rotate180, 1),
            InputCommand::new(Action::Right, 4),
            InputCommand::new(Action::Drop, 1)
        ]
    );
    let l = Move::new(PieceKind::L, 3, 17, 3, 0);
    assert_eq!(
        calculate_input_commands(PieceKind::L, &l),
        vec![InputCommand::new(Action::RotateCw, 3), InputCommand::new(Action::Drop, 1)]
    );
    let i = Move::new(PieceKind::I, 9, 16, 3, 0);
    assert_eq!(
        calculate_input_commands(PieceKind::I, &i),
        vec![
            InputCommand::new(Action::RotateCw, 1),
            InputCommand::new(Action::Right, 5),
            InputCommand::new(Action::Drop, 1)
        ]
    );
    let o = Move::new(PieceKind::O, 4, 18, 3, 0);
    assert_eq!(calculate_input_commands(PieceKind::O, &o), vec![InputCommand::new(Action::Drop, 1)]);
    assert_eq!(Action::Rotate180.name(), "rotate_180");
    assert_eq!(Action::Left.name(), "left");
    assert_eq!(Action::Drop.name(), "drop");
}

#[test]
fn session_round_trip() {
    let mut s = GameSession::initialize_game_board();
    assert_eq!(s.weights, Weights::reference());
    s.update_game_pieces(Some(PieceKind::T), None, vec![PieceKind::I, PieceKind::O]);
    assert_eq!(s.board.current_piece, Some(PieceKind::T));
    assert!(s.test_spawn_position(PieceKind::T));
    let (m, commands) = s.get_optimal_move_with_inputs(Some(PieceKind::T)).unwrap();
    assert_eq!(Some(m), s.calculate_best_move_persistent(Some(PieceKind::T)));
    assert_eq!(commands, calculate_input_commands(PieceKind::T, &m));
    assert!(s.execute_move_on_board(&m));
    let snapshot = s.get_board_state();
    assert_eq!(snapshot.grid, s.board.grid);
    assert_eq!(snapshot.next_pieces, vec![PieceKind::I, PieceKind::O]);
    // The same placement is stale now.
    assert!(!s.execute_move_on_board(&m));
    assert_eq!(s.board.grid, snapshot.grid);
    assert_eq!(s.advance_queue(), Some(PieceKind::I));
    assert_eq!(s.board.next_pieces, vec![PieceKind::O]);
    assert_eq!(s.advance_queue(), Some(PieceKind::O));
    assert_eq!(s.advance_queue(), None);
    assert_eq!(s.get_optimal_move_with_inputs(None), None);
    s.reset_game_board();
    assert!(s.board.grid.iter().all(|r| r.iter().all(|&c| c == 0)));
    assert_eq!(s.board.current_piece, None);
}

#[test]
fn session_lookahead_uses_the_queue_head() {
    let mut s = GameSession::with_weights(Weights::reference());
    let alone = s.calculate_best_move_lookahead_persistent(PieceKind::S);
    assert_eq!(alone, s.calculate_best_move_persistent(Some(PieceKind::S)));
    s.update_game_pieces(Some(PieceKind::S), None, vec![PieceKind::Z]);
    let with_next = s.calculate_best_move_lookahead_persistent(PieceKind::S);
    assert_eq!(with_next, calculate_best_move_lookahead(&s.board, PieceKind::S, Some(PieceKind::Z), &s.weights));
}

#[test]
fn spawn_columns_around_the_spawn_point() {
    let mut s = GameSession::initialize_game_board();
    assert_eq!(s.valid_spawn_columns(PieceKind::I, 0), vec![0, 1, 2, 3, 4, 5, 6]);
    assert_eq!(s.valid_spawn_columns(PieceKind::O, 0), vec![1, 2, 3, 4, 5, 6, 7]);
    s.board.grid[0][3] = 2;
    assert_eq!(s.valid_spawn_columns(PieceKind::O, 0), vec![1, 4, 5, 6, 7]);
    assert!(s.test_spawn_position(PieceKind::T));
    assert!(!s.test_spawn_position(PieceKind::I));
}
