use tictactoe::Board;
use tictactoe::Minimaxxing;
use tictactoe::Player;
use tictactoe::Status;

#[test]
fn maximizer_completes_its_own_row() {
    // X at 0 and 1, O at 3: searching for X with X to move must take the
    // immediate win at 2, scored as a doubled leaf value
    let board = Board::new()
        .place_at(0, &Player::X)
        .place_at(3, &Player::O)
        .place_at(1, &Player::X);
    assert_eq!(board.minimax(&Player::X, &Player::X), Minimaxxing::Position(2, 2));
}

#[test]
fn minimizer_blocks_the_opposing_threat() {
    // O at 0 and 1, X at 4: searching for O with X to move, X must block
    // O's threat at 2 rather than lose
    let board = Board::new()
        .place_at(0, &Player::O)
        .place_at(4, &Player::X)
        .place_at(1, &Player::O);
    match board.minimax(&Player::O, &Player::X) {
        Minimaxxing::Position(pos, _) => assert_eq!(pos, 2),
        Minimaxxing::Result(_) => panic!("search on a playing board must pick a move"),
    }
}

#[test]
fn search_is_deterministic() {
    let board = Board::new()
        .place_at(4, &Player::X)
        .place_at(0, &Player::O)
        .place_at(2, &Player::X);
    let first = board.minimax(&Player::X, &Player::O);
    let second = board.minimax(&Player::X, &Player::O);
    assert_eq!(first, second);
}

#[test]
fn search_picks_an_empty_cell() {
    let board = Board::new()
        .place_at(4, &Player::X)
        .place_at(8, &Player::O)
        .place_at(6, &Player::X);
    match board.minimax(&Player::O, &Player::O) {
        Minimaxxing::Position(pos, _) => assert!(!board.occupied(pos)),
        Minimaxxing::Result(_) => panic!("search on a playing board must pick a move"),
    }
}

#[test]
fn finished_boards_report_leaf_values() {
    let won = Board::new()
        .place_at(0, &Player::X)
        .place_at(3, &Player::O)
        .place_at(1, &Player::X)
        .place_at(4, &Player::O)
        .place_at(2, &Player::X);
    assert_eq!(won.minimax(&Player::X, &Player::O), Minimaxxing::Result(1));
    assert_eq!(won.minimax(&Player::O, &Player::O), Minimaxxing::Result(-1));

    let drawn = Board::new()
        .place_at(0, &Player::X)
        .place_at(1, &Player::O)
        .place_at(2, &Player::X)
        .place_at(4, &Player::O)
        .place_at(3, &Player::X)
        .place_at(5, &Player::O)
        .place_at(7, &Player::X)
        .place_at(6, &Player::O)
        .place_at(8, &Player::X);
    assert_eq!(drawn.minimax(&Player::X, &Player::X), Minimaxxing::Result(0));
}

#[test]
fn optimal_play_from_empty_always_draws() {
    let mut board = Board::new();
    let mut turn = Player::X;
    let mut plies: usize = 0;
    while board.status() == Status::Playing {
        match board.minimax(&turn, &turn) {
            Minimaxxing::Position(pos, _) => {
                assert!(!board.occupied(pos));
                board = board.place_at(pos, &turn);
            }
            Minimaxxing::Result(_) => panic!("search on a playing board must pick a move"),
        }
        turn = turn.opposite();
        plies += 1;
        assert!(plies <= 9);
    }
    assert_eq!(board.status(), Status::Draw);
    assert_eq!(plies, 9);
}
