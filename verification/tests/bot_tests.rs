use chess_engine::bots::{is_center, is_extended_center, parse_uci, piece_value, score_move, RandomBot, SmartBot};
use chess_engine::game::{BoardState, Castling};
use chess_engine::types::{Color, Piece, PieceType};

fn empty_board(fullmove: u16) -> BoardState {
    BoardState {
        squares: vec![None; 64],
        turn: Color::White,
        castling_rights: Castling {
            white_kingside: false,
            white_queenside: false,
            black_kingside: false,
            black_queenside: false,
        },
        en_passant: None,
        halfmove_clock: 0,
        fullmove_number: fullmove,
        move_history: vec![],
    }
}

// ---- parse_uci ----

#[test]
fn parse_uci_valid_e2e4() {
    assert_eq!(parse_uci("e2e4"), Some((12, 28))); // e2 = rank1*8+file4 = 1*8+4=12, e4 = 3*8+4=28
}

#[test]
fn parse_uci_valid_a1h8() {
    assert_eq!(parse_uci("a1h8"), Some((0, 63)));
}

#[test]
fn parse_uci_valid_promotion() {
    // parse_uci ignores the 5th char, just returns from/to
    assert_eq!(parse_uci("e7e8q"), Some((48 + 4, 56 + 4))); // e7=52, e8=60
}

#[test]
fn parse_uci_too_short() {
    assert_eq!(parse_uci("e2"), None);
    assert_eq!(parse_uci(""), None);
    assert_eq!(parse_uci("e2e"), None);
}

#[test]
fn parse_uci_invalid_file() {
    assert_eq!(parse_uci("z2e4"), None); // 'z' - 'a' = 25 > 7
}

#[test]
fn parse_uci_invalid_rank() {
    assert_eq!(parse_uci("e9e4"), None); // '9' - '1' = 8 > 7
}

// ---- score_move ----

#[test]
fn score_quiet_move_to_center() {
    let board = empty_board(15); // past opening
    // Move to d4 (index 27) — center bonus only
    assert_eq!(score_move("a1d4", &board), 15);
}

#[test]
fn score_quiet_move_to_extended_center() {
    let board = empty_board(15);
    // Move to c3 (index 18) — extended center bonus
    assert_eq!(score_move("a1c3", &board), 5);
}

#[test]
fn score_capture_adds_mvv_bonus() {
    let mut board = empty_board(15);
    // Place a black queen on d4 (index 27)
    board.squares[27] = Some(Piece {
        piece_type: PieceType::Queen,
        color: Color::Black,
    });
    // Capturing queen: 100 + 9*10 = 190, plus center bonus 15
    assert_eq!(score_move("a1d4", &board), 205);
}

#[test]
fn score_promotion_bonus() {
    let board = empty_board(15);
    // e7e8q — promotion to queen: 90, no capture, no center (rank 8 is not center)
    assert_eq!(score_move("e7e8q", &board), 90);
    // e7e8n — promotion to knight: 30
    assert_eq!(score_move("e7e8n", &board), 30);
}

#[test]
fn score_opening_development_bonus() {
    let mut board = empty_board(5); // opening phase
    // Place a white knight on g1 (index 6)
    board.squares[6] = Some(Piece {
        piece_type: PieceType::Knight,
        color: Color::White,
    });
    // Knight from g1 to f3 (index 21) — extended center 5 + development 8 = 13
    assert_eq!(score_move("g1f3", &board), 13);
}

#[test]
fn score_opening_pawn_no_development_bonus() {
    let mut board = empty_board(5); // opening phase
    // Place a white pawn on e2 (index 12)
    board.squares[12] = Some(Piece {
        piece_type: PieceType::Pawn,
        color: Color::White,
    });
    // Pawn e2 to e4 (index 28) — center 15, no development bonus for pawns
    assert_eq!(score_move("e2e4", &board), 15);
}

#[test]
fn score_invalid_uci_returns_zero() {
    let board = empty_board(1);
    assert_eq!(score_move("zz", &board), 0);
}

// ---- more of the same players ----

#[test]
fn piece_values_follow_the_usual_scale() {
    assert_eq!(piece_value(PieceType::Queen), 9);
    assert_eq!(piece_value(PieceType::Rook), 5);
    assert_eq!(piece_value(PieceType::Bishop), 3);
    assert_eq!(piece_value(PieceType::Knight), 3);
    assert_eq!(piece_value(PieceType::Pawn), 1);
    assert_eq!(piece_value(PieceType::King), 0);
}

#[test]
fn center_squares() {
    assert!(is_center(27) && is_center(28) && is_center(35) && is_center(36));
    assert!(!is_center(26) && !is_center(0) && !is_center(63));
    assert!(is_extended_center(18) && is_extended_center(45) && is_extended_center(27));
    assert!(!is_extended_center(17) && !is_extended_center(46) && !is_extended_center(10));
}

#[test]
fn score_promotion_with_capture_adds_up() {
    let mut board = empty_board(15);
    board.squares[59] = Some(Piece { piece_type: PieceType::Rook, color: Color::Black });
    // Capture of a rook (100 + 50) and promotion to a rook (50).
    assert_eq!(score_move("e7d8r", &board), 200);
    // An upper-case letter is not counted as a promotion by the scoring.
    assert_eq!(score_move("e7d8Q", &board), 150);
}

#[test]
fn smart_bot_takes_the_capture() {
    let mut board = empty_board(15);
    board.squares[27] = Some(Piece { piece_type: PieceType::Pawn, color: Color::Black });
    let moves = vec!["a1a2".to_string(), "c3d4".to_string(), "h1h2".to_string()];
    assert_eq!(SmartBot::select_move(&moves, &board), "c3d4");
    assert_eq!(SmartBot::suggest_move(&moves, &board), "c3d4");
}

#[test]
fn smart_bot_breaks_ties_by_the_counters() {
    let mut board = empty_board(15);
    board.halfmove_clock = 3;
    // Three quiet moves to the edge: all score 0, and 15 + 3 = 18, 18 % 3 = 0.
    let moves = vec!["a1a2".to_string(), "b1a3".to_string(), "h1h2".to_string()];
    assert_eq!(SmartBot::select_move(&moves, &board), "a1a2");
    board.halfmove_clock = 4;
    assert_eq!(SmartBot::select_move(&moves, &board), "b1a3");
    board.halfmove_clock = 5;
    assert_eq!(SmartBot::select_move(&moves, &board), "h1h2");
}

#[test]
fn bots_without_moves_say_nothing() {
    let board = empty_board(1);
    let moves: Vec<String> = vec![];
    assert_eq!(SmartBot::select_move(&moves, &board), "");
    assert_eq!(RandomBot::select_move(&moves, &board), "");
}

#[test]
fn random_bot_follows_the_counters() {
    let mut board = empty_board(7);
    board.halfmove_clock = 2;
    let moves = vec!["a2a3".to_string(), "b2b3".to_string(), "c2c3".to_string(), "d2d3".to_string()];
    // (7 + 2) % 4 = 1
    assert_eq!(RandomBot::select_move(&moves, &board), "b2b3");
    assert_eq!(RandomBot::suggest_move(&moves, &board), "b2b3");
}

#[test]
fn bots_introduce_themselves() {
    assert_eq!(SmartBot::get_name(), "Smart Bot");
    assert_eq!(RandomBot::get_name(), "Random Bot");
    assert_eq!(SmartBot::get_description(), "Prefers captures and center control. Written in Rust.");
    assert_eq!(
        RandomBot::get_description(),
        "A simple bot that picks random legal moves. Great for testing!"
    );
    assert_eq!(SmartBot::get_preferred_color(), None);
    assert_eq!(RandomBot::get_preferred_color(), None);
}
