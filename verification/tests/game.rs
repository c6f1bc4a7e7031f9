use apple_grid::Loc;
use apple_grid::Size;
use apple_grid::board::apply_turn;
use apple_grid::board::initialize_board;
use apple_grid::board::make_size;
use apple_grid::board::player_won;
use apple_grid::board::remove_eaten_apple;
use apple_grid::board::update_board_state;
use apple_grid::board::ConfigError;
use apple_grid::board::Field;
use apple_grid::gen::generate_apples_positions;
use apple_grid::gen::generate_player_position;
use apple_grid::moves::convert_input_to_move_enum;
use apple_grid::moves::handle_move;
use apple_grid::moves::Move;

fn is_interior(sz: Size, l: Loc) -> bool {
    1 <= l.row && l.row + 1 < sz.rows && 1 <= l.col && l.col + 1 < sz.cols
}

#[test]
fn make_size_inflates_by_wall_ring() {
    assert_eq!(make_size(5, 5), Ok(Size { rows: 7, cols: 7 }));
    assert_eq!(make_size(1, 2), Ok(Size { rows: 3, cols: 4 }));
}

#[test]
fn make_size_rejects_zero() {
    assert_eq!(make_size(0, 5), Err(ConfigError::NonPositive));
    assert_eq!(make_size(5, 0), Err(ConfigError::NonPositive));
    assert_eq!(make_size(0, 0), Err(ConfigError::NonPositive));
}

#[test]
fn make_size_rejects_one_by_one_interior() {
    assert_eq!(make_size(1, 1), Err(ConfigError::Degenerate));
}

#[test]
fn make_size_rejects_overflowing_dimensions() {
    assert_eq!(make_size(usize::MAX, 1), Err(ConfigError::TooLarge));
    assert_eq!(make_size(1, usize::MAX - 1), Err(ConfigError::TooLarge));
}

#[test]
fn initialize_board_is_empty() {
    let sz = Size { rows: 7, cols: 9 };
    let board = initialize_board(sz);
    assert_eq!(board.size, sz);
    assert_eq!(board.player_position, Loc { row: 0, col: 0 });
    assert!(board.apples_positions.is_empty());
    assert_eq!(board.field.len(), 7);
    for row in &board.field {
        assert_eq!(row.len(), 9);
        for cell in row {
            assert_eq!(*cell, Field::Empty);
        }
    }
}

#[test]
fn seven_by_seven_board_gets_three_apples() {
    // 5 x 5 interior, 25 cells: ceil(25 / 10) = 3 apples.
    let sz = make_size(5, 5).unwrap();
    let mut board = initialize_board(sz);
    let mut rng = rand::thread_rng();
    generate_apples_positions(&mut board, &mut rng);
    assert_eq!(board.apples_positions.len(), 3);
    for (i, a) in board.apples_positions.iter().enumerate() {
        assert!(is_interior(sz, *a));
        for b in &board.apples_positions[i + 1..] {
            assert_ne!(a, b);
        }
    }
}

#[test]
fn ten_by_ten_interior_gets_ten_apples() {
    let sz = make_size(10, 10).unwrap();
    let mut board = initialize_board(sz);
    let mut rng = rand::thread_rng();
    generate_apples_positions(&mut board, &mut rng);
    assert_eq!(board.apples_positions.len(), 10);
}

#[test]
fn smallest_playable_board_gets_one_apple() {
    // 1 x 2 interior, 2 cells: ceil(2 / 10) with a minimum of 1.
    let sz = make_size(1, 2).unwrap();
    let mut board = initialize_board(sz);
    let mut rng = rand::thread_rng();
    generate_apples_positions(&mut board, &mut rng);
    assert_eq!(board.apples_positions.len(), 1);
}

#[test]
fn player_spawns_interior_and_off_apples() {
    let sz = make_size(5, 5).unwrap();
    let mut board = initialize_board(sz);
    let mut rng = rand::thread_rng();
    generate_apples_positions(&mut board, &mut rng);
    generate_player_position(&mut board, &mut rng);
    assert!(is_interior(sz, board.player_position));
    assert!(!board.apples_positions.contains(&board.player_position));
}

#[test]
fn player_spawn_takes_the_only_free_cell() {
    // 1 x 2 interior with one cell taken: the spawn must land on the other,
    // whatever the random samples were.
    let sz = make_size(1, 2).unwrap();
    let mut board = initialize_board(sz);
    board.apples_positions.push(Loc { row: 1, col: 1 });
    let mut rng = rand::thread_rng();
    generate_player_position(&mut board, &mut rng);
    assert_eq!(board.player_position, Loc { row: 1, col: 2 });
    assert_eq!(board.apples_positions, vec![Loc { row: 1, col: 1 }]);
}

#[test]
fn up_is_rejected_on_topmost_interior_row() {
    let mut p = Loc { row: 1, col: 1 };
    let moved = handle_move(Move::Up, &mut p, 7, 7);
    assert!(!moved);
    assert_eq!(p, Loc { row: 1, col: 1 });
}

#[test]
fn right_from_top_left_interior_corner_is_accepted() {
    let mut p = Loc { row: 1, col: 1 };
    let moved = handle_move(Move::Right, &mut p, 7, 7);
    assert!(moved);
    assert_eq!(p, Loc { row: 1, col: 2 });
}

#[test]
fn all_moves_accepted_away_from_interior_boundary() {
    let intents = [Move::Up, Move::Down, Move::Left, Move::Right];
    for mv in intents {
        let mut p = Loc { row: 3, col: 3 };
        let moved = handle_move(mv, &mut p, 7, 7);
        assert!(moved);
        let row_diff = p.row.abs_diff(3);
        let col_diff = p.col.abs_diff(3);
        assert_eq!(row_diff + col_diff, 1);
    }
}

#[test]
fn moves_are_rejected_on_every_interior_edge() {
    let mut p = Loc { row: 5, col: 3 };
    assert!(!handle_move(Move::Down, &mut p, 7, 7));
    assert_eq!(p, Loc { row: 5, col: 3 });
    let mut p = Loc { row: 3, col: 1 };
    assert!(!handle_move(Move::Left, &mut p, 7, 7));
    assert_eq!(p, Loc { row: 3, col: 1 });
    let mut p = Loc { row: 3, col: 5 };
    assert!(!handle_move(Move::Right, &mut p, 7, 7));
    assert_eq!(p, Loc { row: 3, col: 5 });
}

#[test]
fn eating_an_apple_removes_exactly_that_one() {
    let sz = Size { rows: 7, cols: 7 };
    let mut board = initialize_board(sz);
    board.player_position = Loc { row: 1, col: 2 };
    board.apples_positions = vec![Loc { row: 2, col: 2 }, Loc { row: 1, col: 1 }];
    let outcome = apply_turn(&mut board, Move::Left);
    assert!(outcome.moved);
    assert_eq!(board.player_position, Loc { row: 1, col: 1 });
    assert!(outcome.collected);
    assert_eq!(board.apples_positions, vec![Loc { row: 2, col: 2 }]);
    assert!(!outcome.won);
}

#[test]
fn missing_the_apples_removes_nothing() {
    let sz = Size { rows: 7, cols: 7 };
    let mut board = initialize_board(sz);
    board.player_position = Loc { row: 3, col: 3 };
    board.apples_positions = vec![Loc { row: 1, col: 1 }];
    let outcome = apply_turn(&mut board, Move::Down);
    assert!(outcome.moved);
    assert!(!outcome.collected);
    assert_eq!(board.apples_positions, vec![Loc { row: 1, col: 1 }]);
    assert!(!outcome.won);
}

#[test]
fn rejected_move_still_completes_the_turn() {
    let sz = Size { rows: 7, cols: 7 };
    let mut board = initialize_board(sz);
    board.player_position = Loc { row: 1, col: 3 };
    board.apples_positions = vec![Loc { row: 1, col: 3 }];
    let outcome = apply_turn(&mut board, Move::Up);
    assert!(!outcome.moved);
    assert_eq!(board.player_position, Loc { row: 1, col: 3 });
    // Consumption is checked against the (unchanged) position all the same.
    assert!(outcome.collected);
    assert!(outcome.won);
}

#[test]
fn win_fires_exactly_when_last_apple_goes() {
    let sz = Size { rows: 7, cols: 7 };
    let mut board = initialize_board(sz);
    board.player_position = Loc { row: 2, col: 2 };
    board.apples_positions = vec![Loc { row: 2, col: 3 }];
    assert!(!player_won(&board));
    let outcome = apply_turn(&mut board, Move::Right);
    assert!(outcome.collected);
    assert!(outcome.won);
    assert!(player_won(&board));
    // Further turns on the won session find nothing to collect and no new
    // transition: the signal cannot fire a second time.
    let outcome2 = apply_turn(&mut board, Move::Left);
    assert!(!outcome2.collected);
    assert!(outcome2.won);
    assert!(board.apples_positions.is_empty());
}

#[test]
fn remove_eaten_apple_takes_first_match_only() {
    let sz = Size { rows: 7, cols: 7 };
    let mut board = initialize_board(sz);
    board.player_position = Loc { row: 2, col: 2 };
    board.apples_positions = vec![
        Loc { row: 1, col: 1 },
        Loc { row: 2, col: 2 },
        Loc { row: 3, col: 3 },
    ];
    let ate = remove_eaten_apple(&mut board);
    assert!(ate);
    assert_eq!(
        board.apples_positions,
        vec![Loc { row: 1, col: 1 }, Loc { row: 3, col: 3 }]
    );
    let ate_again = remove_eaten_apple(&mut board);
    assert!(!ate_again);
}

#[test]
fn player_won_reflects_apple_count() {
    let sz = Size { rows: 7, cols: 7 };
    let mut board = initialize_board(sz);
    assert!(player_won(&board));
    board.apples_positions.push(Loc { row: 1, col: 1 });
    assert!(!player_won(&board));
}

#[test]
fn display_grid_draws_every_kind() {
    let sz = Size { rows: 7, cols: 7 };
    let mut board = initialize_board(sz);
    board.player_position = Loc { row: 2, col: 3 };
    board.apples_positions = vec![Loc { row: 1, col: 1 }];
    update_board_state(&mut board);
    assert_eq!(board.field.len(), 7);
    for row in &board.field {
        assert_eq!(row.len(), 7);
    }
    assert_eq!(board.field[0][0], Field::Wall);
    assert_eq!(board.field[6][3], Field::Wall);
    assert_eq!(board.field[3][0], Field::Wall);
    assert_eq!(board.field[1][1], Field::Apple);
    assert_eq!(board.field[2][3], Field::Player);
    assert_eq!(board.field[1][2], Field::Empty);
    assert_eq!(board.field[5][5], Field::Empty);
}

#[test]
fn display_grid_is_deterministic() {
    let sz = Size { rows: 7, cols: 7 };
    let mut board = initialize_board(sz);
    board.player_position = Loc { row: 2, col: 3 };
    board.apples_positions = vec![Loc { row: 1, col: 1 }, Loc { row: 4, col: 4 }];
    update_board_state(&mut board);
    let first = board.field.clone();
    update_board_state(&mut board);
    assert_eq!(board.field, first);

    // The grid depends only on the authoritative state, not on whatever grid
    // stood there before.
    let mut other = initialize_board(sz);
    other.player_position = Loc { row: 2, col: 3 };
    other.apples_positions = vec![Loc { row: 1, col: 1 }, Loc { row: 4, col: 4 }];
    other.field = vec![vec![Field::Player; 7]; 7];
    update_board_state(&mut other);
    assert_eq!(other.field, first);
}

#[test]
fn field_to_string_draws_two_characters() {
    assert_eq!(Field::Empty.to_string(), ". ");
    assert_eq!(Field::Apple.to_string(), "* ");
    assert_eq!(Field::Wall.to_string(), "# ");
    assert_eq!(Field::Player.to_string(), "@ ");
}

#[test]
fn input_maps_wsad_to_directions() {
    assert_eq!(convert_input_to_move_enum("w".to_string()), Some(Move::Up));
    assert_eq!(convert_input_to_move_enum("s".to_string()), Some(Move::Down));
    assert_eq!(convert_input_to_move_enum("a".to_string()), Some(Move::Left));
    assert_eq!(convert_input_to_move_enum("d".to_string()), Some(Move::Right));
}

#[test]
fn input_is_trimmed_before_matching() {
    assert_eq!(convert_input_to_move_enum("w\n".to_string()), Some(Move::Up));
    assert_eq!(
        convert_input_to_move_enum("  d  \r\n".to_string()),
        Some(Move::Right)
    );
}

#[test]
fn unrecognized_input_maps_to_none() {
    assert_eq!(convert_input_to_move_enum("x".to_string()), None);
    assert_eq!(convert_input_to_move_enum("".to_string()), None);
    assert_eq!(convert_input_to_move_enum("ws".to_string()), None);
    assert_eq!(convert_input_to_move_enum("W".to_string()), None);
}
