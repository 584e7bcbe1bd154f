use royal_ur::{GameState, Player};

fn trials(d: u8) -> [bool; 4] {
    match d {
        1 => [true, false, false, false],
        2 => [true, true, false, false],
        3 => [true, true, true, false],
        _ => [true, true, true, true],
    }
}

fn roll(g: &mut GameState, d: u8) {
    assert_eq!(g.roll_dice(trials(d)), d);
}

/// Dark rolls and gives up its turn.
fn dark_passes(g: &mut GameState) {
    assert_eq!(g.current_player(), Player::Dark);
    roll(g, 1);
    g.pass_turn();
    assert_eq!(g.current_player(), Player::Light);
}

/// Light moves from `from` with roll `d`, then Dark passes.
fn light_moves(g: &mut GameState, from: usize, d: u8) {
    roll(g, d);
    assert!(g.can_move(from));
    assert!(g.make_move(from));
    if !g.game_over() {
        dark_passes(g);
    }
}

/// Brings one Light piece from the reserve to path position 19 (square 15).
fn light_to_nineteen(g: &mut GameState) {
    light_moves(g, 0, 4);
    light_moves(g, 4, 4);
    light_moves(g, 8, 2);
    light_moves(g, 10, 4);
    light_moves(g, 14, 1);
    light_moves(g, 15, 4);
}

/// Brings one Light piece from the reserve all the way off.
fn light_runs_one_piece(g: &mut GameState) {
    light_to_nineteen(g);
    light_moves(g, 19, 2);
}

fn conserved(g: &GameState) -> bool {
    g.light_pieces_start() + g.count_pieces_on_board(Player::Light) + g.light_pieces_off() == 7
        && g.dark_pieces_start() + g.count_pieces_on_board(Player::Dark) + g.dark_pieces_off() == 7
}

#[test]
fn new_game_is_fresh() {
    let g = GameState::new();
    assert_eq!(g.light_pieces_start(), 7);
    assert_eq!(g.dark_pieces_start(), 7);
    assert_eq!(g.light_pieces_off(), 0);
    assert_eq!(g.dark_pieces_off(), 0);
    assert_eq!(g.current_player(), Player::Light);
    assert_eq!(g.dice_value(), 0);
    assert!(!g.game_over());
    assert_eq!(g.winner(), None);
    assert_eq!(g.get_board(), vec![0u8; 20]);
    assert_eq!(g.get_status_message(), "");
    assert_eq!(g.get_player_name(), "Light");
}

#[test]
fn no_move_without_roll() {
    let mut g = GameState::new();
    assert!(!g.can_move(0));
    assert!(!g.make_move(0));
    assert_eq!(g.light_pieces_start(), 7);
    assert!(g.get_valid_moves().is_empty());
}

#[test]
fn dice_from_trials() {
    let mut g = GameState::new();
    assert_eq!(g.roll_dice([false, false, false, false]), 1);
    assert_eq!(g.roll_dice([false, true, false, true]), 2);
    assert_eq!(g.roll_dice([true, false, true, true]), 3);
    assert_eq!(g.roll_dice([true, true, true, true]), 4);
    assert_eq!(g.roll_dice([false, false, true, false]), 1);
    assert_eq!(g.dice_value(), 1);
    assert_eq!(g.get_status_message(), "Select a piece to move");
}

#[test]
fn dice_always_in_range() {
    let mut g = GameState::new();
    for bits in 0u8..16 {
        let t = [bits & 1 != 0, bits & 2 != 0, bits & 4 != 0, bits & 8 != 0];
        let d = g.roll_dice(t);
        assert!((1..=4).contains(&d));
        assert_eq!(d, g.dice_value());
    }
}

#[test]
fn enter_with_three() {
    let mut g = GameState::new();
    roll(&mut g, 3);
    assert!(g.can_move(0));
    assert_eq!(g.get_valid_moves(), vec![0]);
    assert!(g.make_move(0));
    assert_eq!(g.light_pieces_start(), 6);
    assert_eq!(g.get_board()[1], 1);
    assert_eq!(g.count_pieces_on_board(Player::Light), 1);
    assert_eq!(g.dice_value(), 0);
    assert_eq!(g.current_player(), Player::Dark);
    assert_eq!(g.get_player_name(), "Dark");
}

#[test]
fn dark_enters_on_its_own_squares() {
    let mut g = GameState::new();
    roll(&mut g, 1);
    g.pass_turn();
    roll(&mut g, 2);
    assert!(g.make_move(0));
    assert_eq!(g.get_board()[10], 2);
    assert_eq!(g.dark_pieces_start(), 6);
    assert_eq!(g.current_player(), Player::Light);
}

#[test]
fn entry_blocked_by_own_piece() {
    let mut g = GameState::new();
    light_moves(&mut g, 0, 2);
    roll(&mut g, 2);
    assert!(!g.can_move(0));
    assert!(!g.make_move(0));
    assert_eq!(g.light_pieces_start(), 6);
    assert_eq!(g.dice_value(), 2);
    assert_eq!(g.current_player(), Player::Light);
    // the piece at path 2 may still advance
    assert_eq!(g.get_valid_moves(), vec![2]);
}

#[test]
fn capture_sends_piece_home() {
    let mut g = GameState::new();
    // Light to path 5 (square 4)
    light_moves(&mut g, 0, 4);
    light_moves(&mut g, 4, 1);
    assert_eq!(g.get_board()[4], 1);
    // Light passes; Dark enters with 4 (square 8, path 4), then reaches path 5 (square 4)
    roll(&mut g, 2);
    g.pass_turn();
    roll(&mut g, 4);
    assert!(g.make_move(0));
    roll(&mut g, 1);
    g.pass_turn();
    roll(&mut g, 1);
    assert!(g.can_move(4));
    assert!(g.make_move(4));
    assert_eq!(g.get_board()[4], 2);
    assert_eq!(g.get_board()[8], 0);
    assert_eq!(g.light_pieces_start(), 7);
    assert_eq!(g.count_pieces_on_board(Player::Light), 0);
    assert!(conserved(&g));
}

#[test]
fn exit_from_nineteen_with_four() {
    let mut g = GameState::new();
    light_to_nineteen(&mut g);
    assert_eq!(g.get_board()[15], 1);
    roll(&mut g, 4);
    assert!(g.can_move(19));
    assert!(g.make_move(19));
    assert_eq!(g.light_pieces_off(), 1);
    assert_eq!(g.count_pieces_on_board(Player::Light), 0);
    assert_eq!(g.get_board(), vec![0u8; 20]);
    assert!(conserved(&g));
}

#[test]
fn exit_needs_reaching_twenty_one() {
    let mut g = GameState::new();
    light_to_nineteen(&mut g);
    // 19 + 1 = 20 stays on the track, on square 14
    roll(&mut g, 1);
    assert!(g.make_move(19));
    assert_eq!(g.light_pieces_off(), 0);
    assert_eq!(g.get_board()[14], 1);
    dark_passes(&mut g);
    // 20 + 1 = 21 is exact
    roll(&mut g, 1);
    assert!(g.make_move(20));
    assert_eq!(g.light_pieces_off(), 1);
}

#[test]
fn seventh_exit_wins() {
    let mut g = GameState::new();
    for _ in 0..6 {
        light_runs_one_piece(&mut g);
        assert!(conserved(&g));
    }
    assert_eq!(g.light_pieces_off(), 6);
    assert!(!g.game_over());
    light_to_nineteen(&mut g);
    roll(&mut g, 4);
    assert!(g.make_move(19));
    assert_eq!(g.light_pieces_off(), 7);
    assert!(g.game_over());
    assert_eq!(g.winner(), Some(Player::Light));
    assert_eq!(g.current_player(), Player::Light);
    assert_eq!(g.get_status_message(), "Game Over! Light Player Wins!");
    assert!(conserved(&g));
    // nothing moves afterwards
    roll(&mut g, 2);
    assert!(!g.can_move(0));
    assert!(!g.make_move(0));
    assert_eq!(g.light_pieces_start(), 0);
    assert_eq!(g.dark_pieces_start(), 7);
    assert!(g.get_valid_moves().is_empty());
    // a finished game keeps no roll and passing changes nothing
    assert_eq!(g.dice_value(), 0);
    g.pass_turn();
    assert_eq!(g.current_player(), Player::Light);
    assert!(g.game_over());
}

#[test]
fn reset_restores_fresh_game() {
    let mut g = GameState::new();
    light_moves(&mut g, 0, 3);
    roll(&mut g, 2);
    g.reset();
    let f = GameState::new();
    assert_eq!(g.get_board(), f.get_board());
    assert_eq!(g.light_pieces_start(), 7);
    assert_eq!(g.dark_pieces_start(), 7);
    assert_eq!(g.light_pieces_off(), 0);
    assert_eq!(g.dark_pieces_off(), 0);
    assert_eq!(g.current_player(), Player::Light);
    assert_eq!(g.dice_value(), 0);
    assert!(!g.game_over());
    assert_eq!(g.winner(), None);
    g.reset();
    assert_eq!(g.get_board(), f.get_board());
    assert_eq!(g.dice_value(), 0);
}

#[test]
fn pass_without_roll_changes_nothing() {
    let mut g = GameState::new();
    g.pass_turn();
    assert_eq!(g.current_player(), Player::Light);
    roll(&mut g, 2);
    g.pass_turn();
    assert_eq!(g.current_player(), Player::Dark);
    assert_eq!(g.dice_value(), 0);
}

#[test]
fn path_mapping_values() {
    let g = GameState::new();
    let light = [
        Some(4), Some(3), Some(2), Some(1), Some(5), Some(6), Some(7), Some(8), None, None,
        None, None, Some(9), Some(10), Some(20), Some(19), Some(14), Some(15), None, None,
    ];
    let dark = [
        None, None, None, None, Some(5), Some(6), Some(7), Some(8), Some(4), Some(3),
        Some(2), Some(1), Some(9), Some(10), None, None, Some(14), Some(15), Some(20),
        Some(19),
    ];
    for i in 0..20 {
        assert_eq!(g.board_index_to_path(i, Player::Light), light[i]);
        assert_eq!(g.board_index_to_path(i, Player::Dark), dark[i]);
    }
    assert_eq!(g.board_index_to_path(20, Player::Light), None);
    assert_eq!(g.board_index_to_path(usize::MAX, Player::Dark), None);
}

#[test]
fn out_of_range_queries_are_absent() {
    let mut g = GameState::new();
    assert_eq!(g.get_square_info(20), None);
    assert_eq!(g.get_square_info(usize::MAX), None);
    roll(&mut g, 4);
    assert!(!g.can_move(22));
    assert!(!g.can_move(usize::MAX));
    assert!(!g.make_move(usize::MAX));
    assert!(!g.can_move(5));
}

#[test]
fn square_info_marks_movable_pieces() {
    let mut g = GameState::new();
    light_moves(&mut g, 0, 3);
    roll(&mut g, 2);
    assert_eq!(g.get_valid_moves(), vec![0, 3]);
    assert_eq!(g.get_square_info(1), Some([1, 1]));
    assert_eq!(g.get_square_info(0), Some([0, 0]));
    assert_eq!(g.get_square_info(9), Some([0, 0]));
}

#[test]
fn light_blocked_by_own_piece_ahead() {
    let mut g = GameState::new();
    light_moves(&mut g, 0, 4);
    light_moves(&mut g, 0, 2);
    roll(&mut g, 2);
    // path 2 + 2 lands on the own piece at path 4, and entering lands on path 2
    assert!(!g.can_move(2));
    assert!(!g.can_move(0));
    assert_eq!(g.get_valid_moves(), vec![4]);
}

#[test]
fn entry_captures_opposing_piece() {
    // a Dark piece on square 1, where Light enters with a roll of 3
    let mut board = [0u8; 20];
    board[1] = 2;
    let mut g = GameState::from_snapshot(board, 7, 6, 0, 0, Player::Light, 3).unwrap();
    assert_eq!(g.count_pieces_on_board(Player::Dark), 1);
    assert!(g.can_move(0));
    assert!(g.make_move(0));
    assert_eq!(g.get_board()[1], 1);
    assert_eq!(g.count_pieces_on_board(Player::Dark), 0);
    assert_eq!(g.dark_pieces_start(), 7);
    assert_eq!(g.light_pieces_start(), 6);
    assert_eq!(g.current_player(), Player::Dark);
    assert!(conserved(&g));
}

#[test]
fn snapshot_round_trips_board() {
    let mut board = [0u8; 20];
    board[4] = 1;
    board[17] = 2;
    board[18] = 2;
    let g = GameState::from_snapshot(board, 5, 3, 1, 2, Player::Dark, 0).unwrap();
    assert_eq!(g.get_board(), board.to_vec());
    assert_eq!(g.light_pieces_start(), 5);
    assert_eq!(g.dark_pieces_off(), 2);
    assert_eq!(g.current_player(), Player::Dark);
    assert!(!g.game_over());
}

#[test]
fn snapshot_rejects_inconsistent_games() {
    let mut board = [0u8; 20];
    assert!(GameState::from_snapshot(board, 7, 7, 0, 0, Player::Light, 0).is_some());
    // too many pieces
    assert!(GameState::from_snapshot(board, 7, 7, 1, 0, Player::Light, 0).is_none());
    // too few pieces
    assert!(GameState::from_snapshot(board, 6, 7, 0, 0, Player::Light, 0).is_none());
    // roll out of range
    assert!(GameState::from_snapshot(board, 7, 7, 0, 0, Player::Light, 5).is_none());
    // both sides finished
    assert!(GameState::from_snapshot(board, 0, 0, 7, 7, Player::Light, 0).is_none());
    // unknown square code
    board[3] = 3;
    assert!(GameState::from_snapshot(board, 7, 7, 0, 0, Player::Light, 0).is_none());
    // overflowing counts
    assert!(GameState::from_snapshot([0u8; 20], 255, 7, 9, 0, Player::Light, 0).is_none());
}

#[test]
fn snapshot_of_finished_game_is_over() {
    let g = GameState::from_snapshot([0u8; 20], 7, 0, 0, 7, Player::Dark, 0).unwrap();
    assert!(g.game_over());
    assert_eq!(g.winner(), Some(Player::Dark));
    assert_eq!(g.get_status_message(), "Game Over! Dark Player Wins!");
}

#[test]
fn finished_game_ignores_roll_and_pass() {
    let mut g = GameState::from_snapshot([0u8; 20], 0, 7, 7, 0, Player::Light, 0).unwrap();
    assert!(g.game_over());
    assert_eq!(g.roll_dice(trials(3)), 3);
    assert_eq!(g.dice_value(), 0);
    g.pass_turn();
    assert_eq!(g.current_player(), Player::Light);
    assert!(!g.make_move(0));
    // a finished game with a pending roll is no consistent snapshot
    assert!(GameState::from_snapshot([0u8; 20], 0, 7, 7, 0, Player::Light, 2).is_none());
}

#[test]
fn light_captures_on_shared_square() {
    let mut board = [0u8; 20];
    board[13] = 1; // Light path 10
    board[16] = 2; // Dark path 14
    let mut g = GameState::from_snapshot(board, 6, 6, 0, 0, Player::Light, 4).unwrap();
    assert!(g.can_move(10));
    assert!(g.make_move(10));
    assert_eq!(g.get_board()[16], 1);
    assert_eq!(g.get_board()[13], 0);
    assert_eq!(g.dark_pieces_start(), 7);
    assert!(conserved(&g));
}

#[test]
fn moves_into_route_gap_fail() {
    let mut board = [0u8; 20];
    board[13] = 1; // Light path 10
    let mut g = GameState::from_snapshot(board, 6, 7, 0, 0, Player::Light, 3).unwrap();
    // 10 + 3 = 13 has no square
    assert!(!g.can_move(10));
    assert!(!g.make_move(10));
    assert_eq!(g.get_board()[13], 1);
    assert_eq!(g.dice_value(), 3);
    for p in 11..19 {
        if !(14..=15).contains(&p) {
            assert!(!g.can_move(p));
        }
    }
}

#[test]
fn exit_squares_are_private() {
    let g = GameState::new();
    for i in [14usize, 15] {
        assert!(g.board_index_to_path(i, Player::Light).is_some());
        assert_eq!(g.board_index_to_path(i, Player::Dark), None);
    }
    for i in [18usize, 19] {
        assert!(g.board_index_to_path(i, Player::Dark).is_some());
        assert_eq!(g.board_index_to_path(i, Player::Light), None);
    }
}
