use tictactoe::Board;
use tictactoe::Player;
use tictactoe::Status;

#[test]
fn game_over() {
    let board = Board::from_u32(0b110100011111110000).unwrap();
    assert!(!board.game_over())
}

#[test]
fn fresh_board_is_empty_and_playing() {
    let board = Board::new();
    for idx in 0..9 {
        assert_eq!(board.value_at(idx), None);
        assert!(!board.occupied(idx));
    }
    assert_eq!(board.status(), Status::Playing);
    assert_eq!(board.indexes_available(), [true; 9]);
}

#[test]
fn place_at_sets_only_the_chosen_cell() {
    let board = Board::new().place_at(4, &Player::O);
    let placed = board.place_at(7, &Player::X);
    assert_eq!(placed.value_at(7), Some(Player::X));
    for idx in 0..9 {
        if idx != 7 {
            assert_eq!(placed.value_at(idx), board.value_at(idx));
        }
    }
}

#[test]
fn completed_row_names_the_winner() {
    let board = Board::new()
        .place_at(3, &Player::X)
        .place_at(0, &Player::O)
        .place_at(4, &Player::X)
        .place_at(1, &Player::O)
        .place_at(5, &Player::X);
    assert_eq!(board.status(), Status::Winner(Player::X));
}

#[test]
fn completed_column_names_the_winner() {
    let board = Board::new()
        .place_at(0, &Player::X)
        .place_at(1, &Player::O)
        .place_at(8, &Player::X)
        .place_at(4, &Player::O)
        .place_at(5, &Player::X)
        .place_at(7, &Player::O);
    assert_eq!(board.status(), Status::Winner(Player::O));
}

#[test]
fn completed_diagonal_names_the_winner() {
    let board = Board::new()
        .place_at(0, &Player::X)
        .place_at(1, &Player::O)
        .place_at(4, &Player::X)
        .place_at(2, &Player::O)
        .place_at(8, &Player::X);
    assert_eq!(board.status(), Status::Winner(Player::X));
}

#[test]
fn full_board_without_a_line_is_a_draw() {
    // X O X / X O O / O X X, reachable by alternating marks, has no line
    let board = Board::new()
        .place_at(0, &Player::X)
        .place_at(1, &Player::O)
        .place_at(2, &Player::X)
        .place_at(4, &Player::O)
        .place_at(3, &Player::X)
        .place_at(5, &Player::O)
        .place_at(7, &Player::X)
        .place_at(6, &Player::O)
        .place_at(8, &Player::X);
    assert!(!board.indexes_available().contains(&true));
    assert!(board.game_over());
    assert_eq!(board.status(), Status::Draw);
}

#[test]
fn opposite_swaps_the_players() {
    assert_eq!(Player::X.opposite(), Player::O);
    assert_eq!(Player::O.opposite(), Player::X);
}

#[test]
fn fresh_board_encodes_as_all_empty_pairs() {
    assert_eq!(Board::new().as_u32(), 0b01_01_01_01_01_01_01_01_01);
}

#[test]
fn encoding_round_trips() {
    let board = Board::new()
        .place_at(0, &Player::X)
        .place_at(3, &Player::O)
        .place_at(8, &Player::X);
    let packed = board.as_u32();
    let decoded = Board::from_u32(packed).unwrap();
    for idx in 0..9 {
        assert_eq!(decoded.value_at(idx), board.value_at(idx));
    }
    assert_eq!(decoded.as_u32(), packed);
}

#[test]
fn from_u32_rejects_bad_encodings() {
    // an unassigned `10` cell code
    assert!(Board::from_u32(0b10_01_01_01_01_01_01_01_01).is_none());
    // more than eighteen bits
    assert!(Board::from_u32(1 << 18).is_none());
}

#[test]
fn indexes_available_marks_exactly_the_empty_cells() {
    let board = Board::new().place_at(2, &Player::X).place_at(6, &Player::O);
    let available = board.indexes_available();
    for idx in 0..9 {
        assert_eq!(available[idx], idx != 2 && idx != 6);
        assert_eq!(board.occupied(idx), idx == 2 || idx == 6);
    }
}
