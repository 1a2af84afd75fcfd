use chess_engine::bits::{count_ones, lsb_index, msb_index};
use chess_engine::board::Board;
use chess_engine::game::{history_to_wit, json_or_empty_array, ChessGame, EngineError, GameResource};
use chess_engine::tables::{
    compute_king_attacks, compute_knight_attacks, compute_pawn_attacks, compute_ray,
    compute_ray_attacks, nearest_blocker, AttackTables,
};
use chess_engine::types::{
    CastlingRights, Color, GameState, Move, MoveKind, Piece, PieceType, Square,
};

const START: &str = "rnbqkbnr/pppppppp/8/8/8/8/PPPPPPPP/RNBQKBNR w KQkq - 0 1";
const KIWIPETE_FEN: &str = "r3k2r/p1ppqpb1/bn2pnp1/3PN3/1p2P3/2N2Q1p/PPPBBPPP/R3K2R w KQkq - 0 1";

fn after(fen: &str, uci: &str) -> String {
    let mut b = Board::from_fen(fen).unwrap();
    assert!(b.make_move(Move::from_uci(uci).unwrap()), "{uci} should be legal in {fen}");
    b.to_fen()
}

// ---- squares, pieces, moves ----

#[test]
fn square_parts() {
    let e4 = Square::new(4, 3);
    assert_eq!(e4.index(), 28);
    assert_eq!(e4.raw(), 28);
    assert_eq!(e4.rank(), 3);
    assert_eq!(e4.file(), 4);
    assert_eq!(e4.bitboard(), 1u64 << 28);
    assert_eq!(e4, Square::from_index(28));
    assert_eq!(e4.to_string(), "e4");
    assert_eq!(Square::from_index(0).to_string(), "a1");
    assert_eq!(Square::from_index(63).to_string(), "h8");
    assert_eq!(Square::from_index(63).bitboard(), 0x8000_0000_0000_0000);
    assert_eq!(Square::from_algebraic("e4"), Some(e4));
    assert_eq!(Square::from_algebraic("E4"), None);
}

#[test]
fn piece_letters() {
    let all = [
        (PieceType::Pawn, 'p'),
        (PieceType::Knight, 'n'),
        (PieceType::Bishop, 'b'),
        (PieceType::Rook, 'r'),
        (PieceType::Queen, 'q'),
        (PieceType::King, 'k'),
    ];
    for (pt, c) in all {
        let black = Piece::new(pt, Color::Black);
        let white = Piece::new(pt, Color::White);
        assert_eq!(black.to_fen_char(), c);
        assert_eq!(white.to_fen_char(), c.to_ascii_uppercase());
        assert_eq!(Piece::from_fen_char(c), Some(black));
        assert_eq!(Piece::from_fen_char(c.to_ascii_uppercase()), Some(white));
        assert_eq!(white.piece_type(), pt);
        assert_eq!(white.color(), Color::White);
    }
    assert_eq!(Piece::from_fen_char('x'), None);
    assert_eq!(Piece::from_fen_char('1'), None);
    assert_eq!(Piece::from_fen_char('/'), None);
}

#[test]
fn piece_type_and_color_names() {
    assert_eq!(PieceType::Pawn.to_string(), "pawn");
    assert_eq!(PieceType::Knight.to_string(), "knight");
    assert_eq!(PieceType::Bishop.to_string(), "bishop");
    assert_eq!(PieceType::Rook.to_string(), "rook");
    assert_eq!(PieceType::Queen.to_string(), "queen");
    assert_eq!(PieceType::King.to_string(), "king");
    assert_eq!(Color::White.to_string(), "white");
    assert_eq!(Color::Black.to_string(), "black");
    assert_eq!(Color::White.opposite(), Color::Black);
    assert_eq!(Color::Black.opposite(), Color::White);
    assert_eq!(Color::White.index(), 0);
    assert_eq!(Color::Black.index(), 1);
    for i in 0..6 {
        assert_eq!(PieceType::from_index(i).index(), i);
    }
}

#[test]
fn promotion_letters() {
    assert_eq!(PieceType::Queen.to_uci_char(), 'q');
    assert_eq!(PieceType::Rook.to_uci_char(), 'r');
    assert_eq!(PieceType::Bishop.to_uci_char(), 'b');
    assert_eq!(PieceType::Knight.to_uci_char(), 'n');
    assert_eq!(PieceType::from_uci_char(b'q'), Some(PieceType::Queen));
    assert_eq!(PieceType::from_uci_char(b'R'), Some(PieceType::Rook));
    assert_eq!(PieceType::from_uci_char(b'b'), Some(PieceType::Bishop));
    assert_eq!(PieceType::from_uci_char(b'N'), Some(PieceType::Knight));
    assert_eq!(PieceType::from_uci_char(b'k'), None);
    assert_eq!(PieceType::from_uci_char(b'p'), None);
    assert_eq!(PieceType::promotion_of('Q'), Some(PieceType::Queen));
    assert_eq!(PieceType::promotion_of('x'), None);
}

#[test]
fn move_parts() {
    let a = Square::new(4, 6);
    let b = Square::new(4, 7);
    assert_eq!(Move::normal(a, b).kind(), MoveKind::Normal);
    assert_eq!(Move::castle(a, b).kind(), MoveKind::Castle);
    assert_eq!(Move::en_passant(a, b).kind(), MoveKind::EnPassant);
    let p = Move::promotion(a, b, PieceType::Rook);
    assert_eq!(p.kind(), MoveKind::Promotion(PieceType::Rook));
    assert_eq!(p.promotion_piece(), Some(PieceType::Rook));
    assert_eq!(p.from(), a);
    assert_eq!(p.to(), b);
    assert_eq!(p.to_uci(), "e7e8r");
    assert_eq!(Move::normal(a, b).to_uci(), "e7e8");
    assert_eq!(Move::castle(Square::new(4, 0), Square::new(6, 0)).to_uci(), "e1g1");
    assert_eq!(Move::normal(a, b).promotion_piece(), None);
}

#[test]
fn uci_reading_is_strict() {
    assert_eq!(
        Move::from_uci("e7e8Q").unwrap().promotion_piece(),
        Some(PieceType::Queen)
    );
    assert_eq!(Move::from_uci("a7a8n").unwrap().kind(), MoveKind::Promotion(PieceType::Knight));
    assert_eq!(Move::from_uci("e1g1").unwrap().kind(), MoveKind::Normal);
    assert!(Move::from_uci("e7e8k").is_none());
    assert!(Move::from_uci("e7e8 ").is_none());
    assert!(Move::from_uci("e7e").is_none());
    assert!(Move::from_uci("E2E4").is_none());
    assert!(Move::from_uci("e0e4").is_none());
    assert!(Move::from_uci("e2i4").is_none());
    assert!(Move::from_uci("\u{e9}2e4").is_none());
}

#[test]
fn uci_round_trip_of_legal_moves() {
    for fen in [
        START,
        KIWIPETE_FEN,
        "k2r4/4P3/8/8/8/8/8/4K3 w - - 0 1",
        "k6K/8/8/8/8/8/4p3/3R4 b - - 0 1",
        "rnbqkbnr/ppp1pppp/8/3pP3/8/8/PPPP1PPP/RNBQKBNR w KQkq d6 0 3",
    ] {
        let b = Board::from_fen(fen).unwrap();
        let moves = b.generate_legal_moves();
        assert!(!moves.is_empty());
        for m in moves {
            let back = Move::from_uci(&m.to_uci()).unwrap();
            assert_eq!(back.from(), m.from());
            assert_eq!(back.to(), m.to());
            assert_eq!(back.promotion_piece(), m.promotion_piece());
        }
    }
}

// ---- castling rights ----

#[test]
fn castling_masks() {
    assert_eq!(CastlingRights::mask_for_square(0), 2);
    assert_eq!(CastlingRights::mask_for_square(4), 3);
    assert_eq!(CastlingRights::mask_for_square(7), 1);
    assert_eq!(CastlingRights::mask_for_square(56), 8);
    assert_eq!(CastlingRights::mask_for_square(60), 12);
    assert_eq!(CastlingRights::mask_for_square(63), 4);
    for sq in [1u8, 3, 5, 10, 28, 57, 59, 61, 62] {
        assert_eq!(CastlingRights::mask_for_square(sq), 0);
    }
}

#[test]
fn castling_rights_are_cleared_by_mask() {
    let mut r = CastlingRights::all();
    assert!(r.white_kingside() && r.white_queenside() && r.black_kingside() && r.black_queenside());
    assert_eq!(r, CastlingRights::default());
    r.clear(CastlingRights::mask_for_square(7));
    assert!(!r.white_kingside() && r.white_queenside() && r.black_kingside() && r.black_queenside());
    r.clear(CastlingRights::mask_for_square(60));
    assert!(!r.white_kingside() && r.white_queenside() && !r.black_kingside() && !r.black_queenside());
    r.clear(0);
    assert!(r.white_queenside());
    r.clear(CastlingRights::mask_for_square(4));
    assert_eq!(r, CastlingRights::none());
    let some = CastlingRights::from_flags(true, false, false, true);
    assert!(some.white_kingside() && !some.white_queenside());
    assert!(!some.black_kingside() && some.black_queenside());
}

// ---- bitboards and tables ----

#[test]
fn bit_scans() {
    assert_eq!(lsb_index(0b1000), 3);
    assert_eq!(lsb_index(0b1010), 1);
    assert_eq!(lsb_index(1 << 63), 63);
    assert_eq!(msb_index(0b1010), 3);
    assert_eq!(msb_index(1), 0);
    assert_eq!(msb_index(u64::MAX), 63);
    assert_eq!(count_ones(0), 0);
    assert_eq!(count_ones(0xff), 8);
    assert_eq!(count_ones(u64::MAX), 64);
    assert_eq!(count_ones(0x8000_0000_0000_0001), 2);
}

#[test]
fn nearest_blocker_by_direction() {
    // a2, a5 and a7 on the ray north of a1: the nearest is the lowest.
    let north = (1u64 << 8) | (1u64 << 32) | (1u64 << 48);
    for dir in [0usize, 1, 2, 7] {
        assert_eq!(nearest_blocker(north, dir), 8);
    }
    // e3, e2 and e1 on the ray south of e4: the nearest is the highest.
    for dir in [3usize, 4, 5, 6] {
        assert_eq!(nearest_blocker(0x101010, dir), 20);
    }
}

#[test]
fn attack_masks() {
    let a1 = Square::from_index(0);
    let e1 = Square::from_index(4);
    let e2 = Square::from_index(12);
    let e4 = Square::from_index(28);
    let h1 = Square::from_index(7);
    assert_eq!(compute_knight_attacks(a1), 0x20400);
    assert_eq!(compute_knight_attacks(e4), 0x0000_2844_0044_2800);
    assert_eq!(compute_king_attacks(e1), 0x3828);
    assert_eq!(compute_king_attacks(a1), 0x302);
    assert_eq!(compute_pawn_attacks(e2, Color::White), 0x280000);
    assert_eq!(compute_pawn_attacks(e2, Color::Black), 0x28);
    assert_eq!(compute_pawn_attacks(a1, Color::Black), 0);
    assert_eq!(compute_pawn_attacks(Square::from_index(8), Color::White), 1 << 17);
    assert_eq!(compute_pawn_attacks(Square::from_index(63), Color::White), 0);
    assert_eq!(compute_ray(a1, 0), 0x0101_0101_0101_0100);
    assert_eq!(compute_ray(a1, 1), 0x8040_2010_0804_0200);
    assert_eq!(compute_ray(a1, 2), 0xfe);
    assert_eq!(compute_ray(a1, 4), 0);
    assert_eq!(compute_ray(h1, 7), 0x0102_0408_1020_4000);
    assert_eq!(compute_ray(e4, 4), 0x101010);
    assert_eq!(compute_ray(e4, 6), 0x0f00_0000);
    assert_eq!(compute_ray(e4, 3), (1 << 21) | (1 << 14) | (1 << 7));
    assert_eq!(compute_ray(e4, 5), (1 << 19) | (1 << 10) | (1 << 1));
    let rays = compute_ray_attacks(e4);
    for d in 0..8 {
        assert_eq!(rays[d], compute_ray(e4, d));
    }
}

#[test]
fn tables_hold_the_masks() {
    let t = AttackTables::new();
    for i in 0..64u8 {
        let sq = Square::from_index(i);
        assert_eq!(t.knight(sq), compute_knight_attacks(sq));
        assert_eq!(t.king(sq), compute_king_attacks(sq));
        assert_eq!(t.pawn(Color::White, sq), compute_pawn_attacks(sq, Color::White));
        assert_eq!(t.pawn(Color::Black, sq), compute_pawn_attacks(sq, Color::Black));
        for d in 0..8 {
            assert_eq!(t.ray(sq, d), compute_ray(sq, d));
        }
    }
}

// ---- reading and writing positions ----

#[test]
fn new_board_is_the_starting_position() {
    let b = Board::new();
    assert_eq!(b.to_fen(), START);
    assert_eq!(b.generate_legal_moves().len(), 20);
    assert_eq!(b.side_to_move(), Color::White);
    assert!(!b.is_in_check(Color::White));
    assert!(b.castling().white_kingside() && b.castling().black_queenside());
    assert_eq!(b.en_passant(), None);
    assert_eq!(b.halfmove_clock(), 0);
    assert_eq!(b.fullmove_number(), 1);
    assert_eq!(b.piece_at(Square::new(3, 0)), Some(Piece::new(PieceType::Queen, Color::White)));
    assert_eq!(b.piece_at(Square::new(4, 7)), Some(Piece::new(PieceType::King, Color::Black)));
    assert_eq!(b.piece_at(Square::new(4, 3)), None);
    assert!(b.is_playable());
    assert_eq!(Board::from_fen(START).unwrap().to_fen(), b.to_fen());
}

#[test]
fn fen_counters_default_when_left_out() {
    let b = Board::from_fen("4k3/8/8/8/8/8/8/4K3 w - -").unwrap();
    assert_eq!(b.halfmove_clock(), 0);
    assert_eq!(b.fullmove_number(), 1);
    assert_eq!(b.to_fen(), "4k3/8/8/8/8/8/8/4K3 w - - 0 1");
    let b = Board::from_fen("4k3/8/8/8/8/8/8/4K3 b - - 12").unwrap();
    assert_eq!(b.to_fen(), "4k3/8/8/8/8/8/8/4K3 b - - 12 1");
}

#[test]
fn fen_fields_are_split_at_any_white_space() {
    let b = Board::from_fen("  4k3/8/8/8/8/8/8/4K3 \t w\n-  -\u{a0}7 \u{2003} 9  ").unwrap();
    assert_eq!(b.to_fen(), "4k3/8/8/8/8/8/8/4K3 w - - 7 9");
    let b = Board::from_fen("4k3/8/8/8/8/8/8/4K3 w - - 0 1 and more").unwrap();
    assert_eq!(b.to_fen(), "4k3/8/8/8/8/8/8/4K3 w - - 0 1");
}

#[test]
fn fen_castling_field_ignores_unknown_letters() {
    let b = Board::from_fen("r3k2r/8/8/8/8/8/8/R3K2R w qxK?Q - 0 1").unwrap();
    assert_eq!(b.to_fen(), "r3k2r/8/8/8/8/8/8/R3K2R w KQq - 0 1");
    let b = Board::from_fen("r3k2r/8/8/8/8/8/8/R3K2R w ABC - 0 1").unwrap();
    assert_eq!(b.to_fen(), "r3k2r/8/8/8/8/8/8/R3K2R w - - 0 1");
}

#[test]
fn fen_counters_are_sixteen_bit_numbers() {
    let at = |half: &str, full: &str| {
        Board::from_fen(&format!("4k3/8/8/8/8/8/8/4K3 w - - {half} {full}"))
            .map(|b| (b.halfmove_clock(), b.fullmove_number()))
    };
    assert_eq!(at("0", "1"), Some((0, 1)));
    assert_eq!(at("65535", "65535"), Some((65535, 65535)));
    assert_eq!(at("+5", "007"), Some((5, 7)));
    assert_eq!(at("0000000000000000012", "3"), Some((12, 3)));
    assert_eq!(at("65536", "1"), None);
    assert_eq!(at("1", "99999999999999999999"), None);
    assert_eq!(at("-1", "1"), None);
    assert_eq!(at("+", "1"), None);
    assert_eq!(at("1.5", "1"), None);
    assert_eq!(at("1", "1x"), None);
    assert_eq!(at("++1", "1"), None);
}

#[test]
fn fen_ranks_must_be_complete() {
    // Seven files on the first rank.
    assert!(Board::from_fen("4k3/8/8/8/8/8/8/4K2 w - - 0 1").is_none());
    // Seven files on the eighth rank.
    assert!(Board::from_fen("4k2/8/8/8/8/8/8/4K3 w - - 0 1").is_none());
    // An empty rank.
    assert!(Board::from_fen("4k3//8/8/8/8/8/4K3 w - - 0 1").is_none());
    // Nine files.
    assert!(Board::from_fen("4k3/8/8/8/8/8/8/4K31 w - - 0 1").is_none());
    assert!(Board::from_fen("4k3/9/8/8/8/8/8/4K3 w - - 0 1").is_none());
    assert!(Board::from_fen("4k3/71/8/8/8/8/8/4K3 w - - 0 1").is_some());
    assert!(Board::from_fen("4k3/0/8/8/8/8/8/4K3 w - - 0 1").is_none());
    // Nine ranks.
    assert!(Board::from_fen("4k3/8/8/8/8/8/8/4K3/8 w - - 0 1").is_none());
    // A letter that is no piece.
    assert!(Board::from_fen("4k3/8/8/8/8/8/8/4K2x w - - 0 1").is_none());
}

#[test]
fn fen_ranks_that_are_left_out_are_empty() {
    let b = Board::from_fen("4k3/4K3 w - - 0 1").unwrap();
    assert_eq!(b.to_fen(), "4k3/4K3/8/8/8/8/8/8 w - - 0 1");
    // Adjacent digits are merged when the position is written.
    let b = Board::from_fen("4k3/44/1111p3/8/8/8/8/4K3 w - - 0 1").unwrap();
    assert_eq!(b.to_fen(), "4k3/8/4p3/8/8/8/8/4K3 w - - 0 1");
}

#[test]
fn fen_en_passant_field() {
    let b = Board::from_fen("4k3/8/8/8/4P3/8/8/4K3 b - e3 0 1").unwrap();
    assert_eq!(b.en_passant(), Some(Square::new(4, 2)));
    assert_eq!(b.to_fen(), "4k3/8/8/8/4P3/8/8/4K3 b - e3 0 1");
    let b = Board::from_fen("4k3/8/8/3p4/8/8/8/4K3 w - d6 0 1").unwrap();
    assert_eq!(b.en_passant(), Some(Square::new(3, 5)));
    for bad in ["e4", "e5", "e1", "e8", "e2", "e7", "i3", "e9", "e", "e3x", "--", "E3"] {
        assert!(
            Board::from_fen(&format!("4k3/8/8/8/8/8/8/4K3 w - {bad} 0 1")).is_none(),
            "{bad} is no en-passant target"
        );
    }
}

#[test]
fn fen_king_counts() {
    assert!(Board::from_fen("4k3/8/8/8/8/8/8/8 w - - 0 1").is_none());
    assert!(Board::from_fen("4k3/4k3/8/8/8/8/8/4K3 w - - 0 1").is_none());
    assert!(Board::from_fen("4k3/8/8/8/8/8/KK6/8 w - - 0 1").is_none());
    assert!(Board::from_fen("kK6/8/8/8/8/8/8/8 w - - 0 1").is_some());
}

#[test]
fn fen_side_to_move() {
    assert_eq!(
        Board::from_fen("4k3/8/8/8/8/8/8/4K3 b - - 0 1").unwrap().side_to_move(),
        Color::Black
    );
    for bad in ["B", "wb", "white", "-", "1"] {
        assert!(Board::from_fen(&format!("4k3/8/8/8/8/8/8/4K3 {bad} - - 0 1")).is_none());
    }
}

#[test]
fn fen_round_trip_of_written_positions() {
    for fen in [
        START,
        KIWIPETE_FEN,
        "8/2p5/3p4/KP5r/1R3p1k/8/4P1P1/8 w - - 0 1",
        "r3k2r/Pppp1ppp/1b3nbN/nP6/BBP1P3/q4N2/Pp1P2PP/R2Q1RK1 w kq - 0 1",
        "rnbq1k1r/pp1Pbppp/2p5/8/2B5/8/PPP1NnPP/RNBQK2R w KQ - 1 8",
        "4k3/8/8/8/4P3/8/8/4K3 b - e3 0 1",
        "4k3/8/8/8/8/8/8/4K3 w - - 65535 65535",
        "k7/8/8/8/8/8/8/7K b - - 100 60",
        "pppppppk/8/8/8/8/8/8/KPPPPPPP w Qk - 9 10",
    ] {
        let b = Board::from_fen(fen).unwrap();
        assert_eq!(b.to_fen(), fen);
        // And what is written reads back as the same board.
        let again = Board::from_fen(&b.to_fen()).unwrap();
        assert_eq!(again.to_fen(), fen);
        for i in 0..64 {
            assert_eq!(again.piece_at(Square::from_index(i)), b.piece_at(Square::from_index(i)));
        }
    }
}

#[test]
fn debug_text_wraps_the_fen() {
    let b = Board::from_fen("4k3/8/8/8/8/8/8/4K3 w - - 3 4").unwrap();
    assert_eq!(b.to_debug_string(), "Board(\"4k3/8/8/8/8/8/8/4K3 w - - 3 4\")");
}

// ---- making moves ----

#[test]
fn double_push_sets_the_en_passant_target() {
    let mut b = Board::new();
    assert!(b.make_move(Move::from_uci("e2e4").unwrap()));
    assert_eq!(b.halfmove_clock(), 0);
    assert_eq!(b.en_passant(), Some(Square::from_algebraic("e3").unwrap()));
    assert_eq!(b.fullmove_number(), 1);
    assert_eq!(b.side_to_move(), Color::Black);
    assert_eq!(b.to_fen(), "rnbqkbnr/pppppppp/8/8/4P3/8/PPPP1PPP/RNBQKBNR b KQkq e3 0 1");
    assert!(b.make_move(Move::from_uci("g8f6").unwrap()));
    assert_eq!(b.to_fen(), "rnbqkb1r/pppppppp/5n2/8/4P3/8/PPPP1PPP/RNBQKBNR w KQkq - 1 2");
    assert!(b.make_move(Move::from_uci("e4e5").unwrap()));
    assert!(b.make_move(Move::from_uci("d7d5").unwrap()));
    assert_eq!(b.to_fen(), "rnbqkb1r/ppp1pppp/5n2/3pP3/8/8/PPPP1PPP/RNBQKBNR w KQkq d6 0 3");
}

#[test]
fn en_passant_is_resolved_from_plain_uci() {
    assert_eq!(
        after("rnbqkbnr/ppp1pppp/8/3pP3/8/8/PPPP1PPP/RNBQKBNR w KQkq d6 0 3", "e5d6"),
        "rnbqkbnr/ppp1pppp/3P4/8/8/8/PPPP1PPP/RNBQKBNR b KQkq - 0 3"
    );
    assert_eq!(
        after("4k3/8/8/8/3pP3/8/8/4K3 b - e3 0 1", "d4e3"),
        "4k3/8/8/8/8/4p3/8/4K3 w - - 0 2"
    );
}

#[test]
fn castling_is_resolved_from_plain_uci() {
    let fen = "r3k2r/8/8/8/8/8/8/R3K2R w KQkq - 0 1";
    assert_eq!(after(fen, "e1g1"), "r3k2r/8/8/8/8/8/8/R4RK1 b kq - 1 1");
    assert_eq!(after(fen, "e1c1"), "r3k2r/8/8/8/8/8/8/2KR3R b kq - 1 1");
    let fen = "r3k2r/8/8/8/8/8/8/R3K2R b KQkq - 4 7";
    assert_eq!(after(fen, "e8g8"), "r4rk1/8/8/8/8/8/8/R3K2R w KQ - 5 8");
    assert_eq!(after(fen, "e8c8"), "2kr3r/8/8/8/8/8/8/R3K2R w KQ - 5 8");
}

#[test]
fn castling_rights_end_with_king_and_rook_moves_and_rook_captures() {
    let fen = "r3k2r/8/8/8/8/8/8/R3K2R w KQkq - 0 1";
    // The king moves: both rights of its side end.
    assert_eq!(after(fen, "e1e2"), "r3k2r/8/8/8/8/8/4K3/R6R b kq - 1 1");
    // A rook moves: the right of its wing ends.
    assert_eq!(after(fen, "h1h2"), "r3k2r/8/8/8/8/8/7R/R3K3 b Qkq - 1 1");
    assert_eq!(after(fen, "a1b1"), "r3k2r/8/8/8/8/8/8/1R2K2R b Kkq - 1 1");
    // A rook takes a rook on its corner: a right of each side ends.
    assert_eq!(after(fen, "a1a8"), "R3k2r/8/8/8/8/8/8/4K2R b Kk - 0 1");
    assert_eq!(after(fen, "h1h8"), "r3k2R/8/8/8/8/8/8/R3K3 b Qq - 0 1");
}

#[test]
fn promotion_places_the_chosen_piece() {
    let fen = "k7/4P3/8/8/8/8/8/4K3 w - - 5 1";
    assert_eq!(after(fen, "e7e8q"), "k3Q3/8/8/8/8/8/8/4K3 b - - 0 1");
    assert_eq!(after(fen, "e7e8r"), "k3R3/8/8/8/8/8/8/4K3 b - - 0 1");
    assert_eq!(after(fen, "e7e8b"), "k3B3/8/8/8/8/8/8/4K3 b - - 0 1");
    assert_eq!(after(fen, "e7e8N"), "k3N3/8/8/8/8/8/8/4K3 b - - 0 1");
    // Without a promotion letter no legal move agrees.
    let mut b = Board::from_fen(fen).unwrap();
    assert!(!b.make_move(Move::from_uci("e7e8").unwrap()));
    assert_eq!(b.to_fen(), fen);
    assert_eq!(
        after("k2r4/4P3/8/8/8/8/8/4K3 w - - 0 1", "e7d8q"),
        "k2Q4/8/8/8/8/8/8/4K3 b - - 0 1"
    );
    assert_eq!(
        after("k6K/8/8/8/8/8/4p3/8 b - - 0 1", "e2e1q"),
        "k6K/8/8/8/8/8/8/4q3 w - - 0 2"
    );
}

#[test]
fn halfmove_clock_counts_quiet_plies() {
    assert_eq!(after("4k3/8/8/8/8/8/8/4K3 w - - 5 1", "e1d1"), "4k3/8/8/8/8/8/8/3K4 b - - 6 1");
    assert_eq!(after("4k3/8/8/8/8/8/4P3/4K3 w - - 5 1", "e2e3"), "4k3/8/8/8/8/4P3/8/4K3 b - - 0 1");
    assert_eq!(after("4k3/8/8/8/8/8/4p3/4K3 w - - 10 1", "e1e2"), "4k3/8/8/8/8/8/4K3/8 b - - 0 1");
    assert_eq!(after("4k3/8/8/8/8/8/8/4K3 w - - 99 1", "e1d1"), "4k3/8/8/8/8/8/8/3K4 b - - 100 1");
}

#[test]
fn fullmove_number_grows_after_black_and_saturates() {
    assert_eq!(after("4k3/8/8/8/8/8/8/4K3 w - - 0 7", "e1d1"), "4k3/8/8/8/8/8/8/3K4 b - - 1 7");
    assert_eq!(after("4k3/8/8/8/8/8/8/4K3 b - - 0 7", "e8d8"), "3k4/8/8/8/8/8/8/4K3 w - - 1 8");
    assert_eq!(
        after("4k3/8/8/8/8/8/8/4K3 b - - 0 65535", "e8d8"),
        "3k4/8/8/8/8/8/8/4K3 w - - 1 65535"
    );
}

#[test]
fn illegal_requests_leave_the_board_as_it_was() {
    let mut b = Board::from_fen(KIWIPETE_FEN).unwrap();
    for uci in ["e1e3", "a1a8", "e8g8", "h3g2", "e5e5", "d5d6q"] {
        assert!(!b.make_move(Move::from_uci(uci).unwrap()), "{uci}");
        assert_eq!(b.to_fen(), KIWIPETE_FEN);
    }
    // A move that is marked as castling where the king only steps is taken
    // as the step that it agrees with.
    let mut b = Board::from_fen("4k3/8/8/8/8/8/8/4K3 w - - 0 1").unwrap();
    assert!(b.make_move(Move::castle(Square::new(4, 0), Square::new(5, 0))));
    assert_eq!(b.to_fen(), "4k3/8/8/8/8/8/8/5K2 b - - 1 1");
}

#[test]
fn invariants_hold_along_a_game() {
    let mut b = Board::new();
    let line = [
        "e2e4", "c7c5", "g1f3", "d7d6", "d2d4", "c5d4", "f3d4", "g8f6", "b1c3", "a7a6", "f1e2",
        "e7e5", "d4b3", "f8e7", "e1g1", "e8g8", "c1e3", "c8e6", "d1d2", "b8d7", "a2a4", "a8c8",
        "a4a5", "d8c7", "f1d1", "c7c6", "e2f3", "h7h6", "b3c1", "f8e8", "c1d3", "e7f8",
    ];
    for uci in line {
        let mover = b.side_to_move();
        assert!(b.make_move(Move::from_uci(uci).unwrap()), "{uci} in {}", b.to_fen());
        assert_eq!(b.side_to_move(), mover.opposite());
        assert!(!b.is_in_check(mover), "{uci} left the king attacked");
        assert!(b.is_playable(), "after {uci}");
        let mut kings = [0, 0];
        for i in 0..64 {
            if let Some(p) = b.piece_at(Square::from_index(i)) {
                if p.piece_type() == PieceType::King {
                    kings[p.color().index()] += 1;
                }
            }
        }
        assert_eq!(kings, [1, 1]);
        // The board is the one that its notation denotes.
        assert_eq!(Board::from_fen(&b.to_fen()).unwrap().to_fen(), b.to_fen());
    }
    assert_eq!(
        b.to_fen(),
        "2r1rbk1/1p1n1pp1/p1qpbn1p/P3p3/4P3/2NNBB2/1PPQ1PPP/R2R2K1 w - - 4 17"
    );
    assert_eq!(b.game_state(), GameState::InProgress);
}

#[test]
fn apply_unchecked_makes_a_generated_move() {
    let b = Board::from_fen(KIWIPETE_FEN).unwrap();
    for m in b.generate_legal_moves() {
        let mut direct = b.clone();
        direct.apply_unchecked(m);
        let mut checked = b.clone();
        assert!(checked.make_move(m));
        assert_eq!(direct.to_fen(), checked.to_fen());
    }
}

// ---- how the game stands ----

#[test]
fn game_states() {
    let state = |fen: &str| Board::from_fen(fen).unwrap().game_state();
    assert_eq!(state(START), GameState::InProgress);
    assert_eq!(
        state("rnb1kbnr/pppp1ppp/8/4p3/6Pq/5P2/PPPPP2P/RNBQKBNR w KQkq - 1 3"),
        GameState::Checkmate
    );
    assert_eq!(state("k7/2Q5/1K6/8/8/8/8/8 b - - 0 1"), GameState::Stalemate);
    assert_eq!(state("8/8/8/8/8/8/4k3/4KB2 w - - 0 1"), GameState::Draw);
    // Two minor pieces are material enough for the engine.
    assert_eq!(state("8/8/8/8/8/8/4k3/3NKB2 w - - 0 1"), GameState::InProgress);
    assert_eq!(state("7k/8/8/8/8/8/8/KBb5 w - - 0 1"), GameState::InProgress);
    // A pawn, a rook or a queen is material enough.
    assert_eq!(state("7k/8/8/8/8/8/1P6/K7 w - - 0 1"), GameState::InProgress);
    assert_eq!(state("7k/8/8/8/8/8/8/K6r w - - 0 1"), GameState::InProgress);
    assert_eq!(state("7k/8/8/8/8/8/8/K5q1 b - - 0 1"), GameState::InProgress);
    // The fifty-move rule sets in at a hundred plies.
    assert_eq!(state("7k/8/8/8/8/8/1P6/K7 w - - 99 80"), GameState::InProgress);
    assert_eq!(state("7k/8/8/8/8/8/1P6/K7 w - - 100 80"), GameState::Draw);
    // Mate comes before the fifty-move rule.
    assert_eq!(state("3R2k1/5ppp/8/8/8/8/8/6K1 b - - 100 80"), GameState::Checkmate);
    let mated = Board::from_fen("rnb1kbnr/pppp1ppp/8/4p3/6Pq/5P2/PPPPP2P/RNBQKBNR w KQkq - 1 3")
        .unwrap();
    assert!(mated.generate_legal_moves().is_empty());
    assert!(mated.is_in_check(Color::White));
    assert!(!mated.is_in_check(Color::Black));
}

#[test]
fn unsound_positions_are_told_apart() {
    let playable = |fen: &str| Board::from_fen(fen).unwrap().is_playable();
    assert!(playable(START));
    assert!(playable(KIWIPETE_FEN));
    assert!(playable("4k3/8/8/8/4P3/8/8/4K3 b - e3 0 1"));
    // A right without the king or the rook at home.
    assert!(!playable("4k3/8/8/8/8/8/8/1K5R w K - 0 1"));
    assert!(!playable("4k3/8/8/8/8/8/8/4K3 w K - 0 1"));
    assert!(!playable("r3k3/8/8/8/8/8/8/4K3 w k - 0 1"));
    assert!(!playable("r2k4/8/8/8/8/8/8/4K3 w q - 0 1"));
    assert!(playable("r3k3/8/8/8/8/8/8/4K3 w q - 0 1"));
    // A target without a pawn before it, or with something on it.
    assert!(!playable("4k3/8/8/8/8/8/8/4K3 b - e6 0 1"));
    assert!(!playable("4k3/8/8/8/4P3/4N3/8/4K3 b - e3 0 1"));
    assert!(!playable("4k3/8/8/8/4P3/8/8/4K3 w - e3 0 1"));
    // A pawn on the rank on which it would have promoted.
    assert!(!playable("P3k3/8/8/8/8/8/8/4K3 w - - 0 1"));
    assert!(!playable("4k3/8/8/8/8/8/8/4K2p w - - 0 1"));
    assert!(playable("p3k3/8/8/8/8/8/8/4K2P w - - 0 1"));
}

// ---- the game as a host sees it ----

#[test]
fn game_resource_plays_and_records() {
    let mut g = GameResource::new();
    assert_eq!(g.get_fen(), START);
    assert_eq!(g.get_turn(), Color::White);
    assert!(!g.is_check());
    assert_eq!(g.get_game_result(), GameState::InProgress);
    assert_eq!(g.get_legal_moves().len(), 20);
    assert!(g.get_move_history().is_empty());
    assert_eq!(g.make_move("e2e4"), Ok(()));
    assert_eq!(g.make_move("e7e5"), Ok(()));
    assert_eq!(g.get_turn(), Color::White);
    let history = g.get_move_history();
    assert_eq!(history.len(), 2);
    assert_eq!(history[0].uci_move, "e2e4");
    assert_eq!(
        history[0].resulting_fen,
        "rnbqkbnr/pppppppp/8/8/4P3/8/PPPP1PPP/RNBQKBNR b KQkq e3 0 1"
    );
    assert_eq!(history[1].uci_move, "e7e5");
    assert_eq!(
        history[1].resulting_fen,
        "rnbqkbnr/pppp1ppp/8/4p3/4P3/8/PPPP1PPP/RNBQKBNR w KQkq e6 0 2"
    );
    assert_eq!(g.get_fen(), history[1].resulting_fen);
    let state = g.get_board_state();
    assert_eq!(state.squares.len(), 64);
    assert_eq!(state.squares[28], Some(Piece::new(PieceType::Pawn, Color::White)));
    assert_eq!(state.squares[36], Some(Piece::new(PieceType::Pawn, Color::Black)));
    assert_eq!(state.squares[12], None);
    assert_eq!(state.turn, Color::White);
    assert!(state.castling_rights.white_kingside && state.castling_rights.black_queenside);
    assert_eq!(state.en_passant, Some(44));
    assert_eq!(state.halfmove_clock, 0);
    assert_eq!(state.fullmove_number, 2);
    assert_eq!(state.move_history.len(), 2);
    assert_eq!(state.move_history[1].uci_move, "e7e5");
    assert_eq!(g.get_piece_at(4), Some(Piece::new(PieceType::King, Color::White)));
    assert_eq!(g.get_piece_at(20), None);
    assert_eq!(g.get_piece_at(64), None);
    assert_eq!(g.get_piece_at(255), None);
    g.reset();
    assert_eq!(g.get_fen(), START);
    assert!(g.get_move_history().is_empty());
}

#[test]
fn game_resource_errors() {
    assert_eq!(GameResource::from_fen("not a position").err(), Some(EngineError::InvalidFen));
    assert_eq!(
        GameResource::from_fen("4k3/8/8/8/8/8/8/8 w - - 0 1").err(),
        Some(EngineError::InvalidFen)
    );
    // Read, but not sound: a right without its king at home.
    assert_eq!(
        GameResource::from_fen("4k3/8/8/8/8/8/8/1K6 w K - 0 1").err(),
        Some(EngineError::InvalidFen)
    );
    let mut g = GameResource::new();
    assert_eq!(g.make_move("e2e5"), Err(EngineError::IllegalMove));
    assert_eq!(g.make_move("e7e5"), Err(EngineError::IllegalMove));
    assert_eq!(g.make_move("zzzz"), Err(EngineError::IllegalMove));
    assert_eq!(g.make_move(""), Err(EngineError::IllegalMove));
    assert_eq!(g.make_move("e2e4 "), Err(EngineError::IllegalMove));
    assert_eq!(g.get_fen(), START);
    assert!(g.get_move_history().is_empty());
}

#[test]
fn no_move_is_made_when_the_game_is_over() {
    for fen in [
        "rnb1kbnr/pppp1ppp/8/4p3/6Pq/5P2/PPPPP2P/RNBQKBNR w KQkq - 1 3",
        "k7/2Q5/1K6/8/8/8/8/8 b - - 0 1",
        "8/8/8/8/8/8/4k3/4KB2 w - - 0 1",
        "7k/8/8/8/8/8/1P6/K7 w - - 100 80",
    ] {
        let mut g = GameResource::from_fen(fen).unwrap();
        assert_ne!(g.get_game_result(), GameState::InProgress);
        for uci in ["a2a3", "e1d1", "a1b1", "a8b8", "none"] {
            assert_eq!(g.make_move(uci), Err(EngineError::GameOver));
        }
        assert_eq!(g.get_fen(), fen);
        assert!(g.get_move_history().is_empty());
    }
}

#[test]
fn a_game_does_not_take_a_king() {
    // White is to move while Black is in check: the rook could take the king.
    let fen = "k7/8/8/8/8/8/7p/R3K3 w - - 0 1";
    let mut g = GameResource::from_fen(fen).unwrap();
    assert_eq!(g.get_game_result(), GameState::InProgress);
    assert_eq!(g.make_move("a1a8"), Err(EngineError::IllegalMove));
    assert_eq!(g.get_fen(), fen);
    assert_eq!(g.make_move("a1a7"), Ok(()));
    let mut c = ChessGame::from_fen(fen).unwrap();
    assert!(!c.make_move("a1a8"));
    assert_eq!(c.get_fen(), fen);
}

#[test]
fn chess_game_speaks_in_texts() {
    let mut g = ChessGame::new();
    assert_eq!(g.get_fen(), START);
    assert_eq!(g.get_turn(), "white");
    assert_eq!(g.get_game_state(), "in_progress");
    assert!(!g.is_check());
    assert_eq!(
        g.get_legal_moves(),
        "[\"a2a3\",\"a2a4\",\"b2b3\",\"b2b4\",\"c2c3\",\"c2c4\",\"d2d3\",\"d2d4\",\"e2e3\",\
         \"e2e4\",\"f2f3\",\"f2f4\",\"g2g3\",\"g2g4\",\"h2h3\",\"h2h4\",\"b1a3\",\"b1c3\",\
         \"g1f3\",\"g1h3\"]"
    );
    assert!(g.make_move("e2e4"));
    assert!(!g.make_move("e2e4"));
    assert!(!g.make_move("nonsense"));
    assert_eq!(g.get_turn(), "black");
    let state = g.get_board_state();
    assert_eq!(state.squares.len(), 64);
    let king = state.squares[4].as_ref().unwrap();
    assert_eq!(king.piece_type, "king");
    assert_eq!(king.color, "white");
    let pawn = state.squares[52].as_ref().unwrap();
    assert_eq!(pawn.piece_type, "pawn");
    assert_eq!(pawn.color, "black");
    assert!(state.squares[12].is_none());
    assert_eq!(state.turn, "black");
    assert!(state.castling.white_kingside && state.castling.white_queenside);
    assert!(state.castling.black_kingside && state.castling.black_queenside);
    assert_eq!(state.en_passant.as_deref(), Some("e3"));
    assert_eq!(state.halfmove_clock, 0);
    assert_eq!(state.fullmove_number, 1);
    assert_eq!(state.move_history.len(), 1);
    let history = g.get_move_history();
    assert_eq!(history.len(), 1);
    assert_eq!(history[0].uci_move, "e2e4");
    assert_eq!(
        history[0].resulting_fen,
        "rnbqkbnr/pppppppp/8/8/4P3/8/PPPP1PPP/RNBQKBNR b KQkq e3 0 1"
    );
    let p = g.get_piece_at("d8").unwrap();
    assert_eq!((p.piece_type.as_str(), p.color.as_str()), ("queen", "black"));
    let p = g.get_piece_at("e4xyz").unwrap();
    assert_eq!((p.piece_type.as_str(), p.color.as_str()), ("pawn", "white"));
    assert!(g.get_piece_at("e2").is_none());
    assert!(g.get_piece_at("e").is_none());
    assert!(g.get_piece_at("").is_none());
    assert!(g.get_piece_at("z9").is_none());
    assert!(g.get_piece_at("e9").is_none());
    g.reset();
    assert_eq!(g.get_fen(), START);
    assert!(g.get_move_history().is_empty());
}

#[test]
fn chess_game_names_the_states() {
    let state = |fen: &str| ChessGame::from_fen(fen).unwrap().get_game_state();
    assert_eq!(
        state("rnb1kbnr/pppp1ppp/8/4p3/6Pq/5P2/PPPPP2P/RNBQKBNR w KQkq - 1 3"),
        "checkmate"
    );
    assert_eq!(state("k7/2Q5/1K6/8/8/8/8/8 b - - 0 1"), "stalemate");
    assert_eq!(state("8/8/8/8/8/8/4k3/4K3 w - - 0 1"), "draw");
    assert_eq!(state(KIWIPETE_FEN), "in_progress");
    assert!(ChessGame::from_fen("4k3/8/8/8/4r3/8/8/4K3 w - - 0 1").unwrap().is_check());
    assert!(ChessGame::from_fen("rubbish").is_none());
    assert!(ChessGame::from_fen("4k3/8/8/8/8/8/8/4K3 b - e6 0 1").is_none());
    let mated = ChessGame::from_fen("k7/2Q5/1K6/8/8/8/8/8 b - - 0 1").unwrap();
    assert_eq!(mated.get_legal_moves(), "[]");
}

#[test]
fn legal_moves_are_written_as_json() {
    let g = ChessGame::from_fen("k7/4P3/8/8/8/8/8/7K w - - 0 1").unwrap();
    assert_eq!(
        g.get_legal_moves(),
        "[\"e7e8q\",\"e7e8r\",\"e7e8b\",\"e7e8n\",\"h1g1\",\"h1g2\",\"h1h2\"]"
    );
    let r = GameResource::from_fen("k7/4P3/8/8/8/8/8/7K w - - 0 1").unwrap();
    assert_eq!(r.get_legal_moves(), ["e7e8q", "e7e8r", "e7e8b", "e7e8n", "h1g1", "h1g2", "h1h2"]);
}

#[test]
fn json_text_or_the_empty_array() {
    assert_eq!(json_or_empty_array(Ok("[\"a\"]".to_string())), "[\"a\"]");
    let failed = serde_json::from_str::<Vec<String>>("oops").map(|_| String::new());
    assert!(failed.is_err());
    assert_eq!(json_or_empty_array(failed), "[]");
}

#[test]
fn history_is_handed_out_as_entries() {
    let pairs = vec![
        ("e2e4".to_string(), "fen one".to_string()),
        ("e7e5".to_string(), "fen two".to_string()),
    ];
    let entries = history_to_wit(&pairs);
    assert_eq!(entries.len(), 2);
    assert_eq!(entries[0].uci_move, "e2e4");
    assert_eq!(entries[0].resulting_fen, "fen one");
    assert_eq!(entries[1].uci_move, "e7e5");
    assert_eq!(entries[1].resulting_fen, "fen two");
    assert!(history_to_wit(&vec![]).is_empty());
}

// ---- the order of the moves ----

#[test]
fn moves_come_in_the_order_of_the_generator() {
    let b = Board::from_fen("r3k2r/8/8/8/8/8/P6P/R3K2R w KQkq - 0 1").unwrap();
    let moves: Vec<String> = b.generate_legal_moves().iter().map(|m| m.to_uci()).collect();
    let expected = [
        // pawns
        "a2a3", "a2a4", "h2h3", "h2h4",
        // king, then castling
        "e1d1", "e1f1", "e1d2", "e1e2", "e1f2", "e1g1", "e1c1",
        // rooks: a1 east, then h1 west
        "a1b1", "a1c1", "a1d1", "h1f1", "h1g1",
    ];
    assert_eq!(moves, expected);
}

// ---- what a text in UCI names ----

#[test]
fn uci_texts_of_a_position_are_distinct() {
    for fen in [
        START,
        KIWIPETE_FEN,
        "r3k2r/Pppp1ppp/1b3nbN/nP6/BBP1P3/q4N2/Pp1P2PP/R2Q1RK1 w kq - 0 1",
        "rnbqkbnr/ppp1pppp/8/3pP3/8/8/PPPP1PPP/RNBQKBNR w KQkq d6 0 3",
        "k6K/8/8/8/8/8/4p3/3R4 b - - 0 1",
    ] {
        let b = Board::from_fen(fen).unwrap();
        let moves = b.generate_legal_moves();
        let mut texts: Vec<String> = moves.iter().map(|m| m.to_uci()).collect();
        texts.sort();
        texts.dedup();
        assert_eq!(texts.len(), moves.len(), "{fen}");
    }
}

#[test]
fn a_request_in_uci_resolves_to_the_move_it_names() {
    for fen in [
        KIWIPETE_FEN,
        "rnbqkbnr/ppp1pppp/8/3pP3/8/8/PPPP1PPP/RNBQKBNR w KQkq d6 0 3",
        "k2r4/4P3/8/8/8/8/8/4K3 w - - 0 1",
    ] {
        let b = Board::from_fen(fen).unwrap();
        for m in b.generate_legal_moves() {
            let mut direct = b.clone();
            direct.apply_unchecked(m);
            let mut requested = b.clone();
            assert!(requested.make_move(Move::from_uci(&m.to_uci()).unwrap()));
            assert_eq!(requested.to_fen(), direct.to_fen(), "{} in {fen}", m.to_uci());
        }
    }
}

#[test]
fn moves_by_other_names() {
    let a = Square::new(4, 6);
    let b = Square::new(4, 7);
    assert_eq!(Move::new(a, b), Move::normal(a, b));
    assert_eq!(Move::with_promotion(a, b, PieceType::Queen), Move::promotion(a, b, PieceType::Queen));
    assert_eq!(Move::castling(a, b), Move::castle(a, b));
}

#[test]
fn default_board_is_the_starting_position() {
    assert_eq!(Board::default().to_fen(), START);
}

// ---- the counter of plies at its last value ----

#[test]
fn a_move_that_sets_the_full_counter_back_is_made() {
    let fen = "4k3/8/8/8/8/8/4p3/4K3 w - - 65535 9";
    // A capture.
    assert_eq!(after(fen, "e1e2"), "4k3/8/8/8/8/8/4K3/8 b - - 0 9");
    // A pawn move.
    assert_eq!(
        after("4k3/8/8/8/8/8/4p3/6K1 b - - 65535 9", "e2e1q"),
        "4k3/8/8/8/8/8/8/4q1K1 w - - 0 10"
    );
    let mut g = ChessGame::from_fen(fen).unwrap();
    assert!(!g.overflows_clock("e1e2"));
    assert!(g.overflows_clock("e1d2"));
    assert!(g.overflows_clock("e1f2"));
    // Not legal, or no move at all: nothing would be added.
    assert!(!g.overflows_clock("e1d1"));
    assert!(!g.overflows_clock("e1e5"));
    assert!(!g.overflows_clock("nothing"));
    assert!(!g.make_move("e1d1"));
    assert!(g.make_move("e1e2"));
    assert_eq!(g.get_fen(), "4k3/8/8/8/8/8/4K3/8 b - - 0 9");
    // With room on the counter no move overflows it.
    let g = ChessGame::from_fen("4k3/8/8/8/8/8/4p3/4K3 w - - 65534 9").unwrap();
    assert!(!g.overflows_clock("e1d2"));
    assert!(!ChessGame::new().overflows_clock("g1f3"));
}

#[test]
fn a_request_is_resolved_without_being_made() {
    let b = Board::from_fen("r3k2r/8/8/8/8/8/8/R3K2R w KQkq - 0 1").unwrap();
    let castle = b.resolve_move(Move::from_uci("e1g1").unwrap()).unwrap();
    assert_eq!(castle, Move::castle(Square::new(4, 0), Square::new(6, 0)));
    let step = b.resolve_move(Move::from_uci("e1f1").unwrap()).unwrap();
    assert_eq!(step, Move::normal(Square::new(4, 0), Square::new(5, 0)));
    assert_eq!(b.resolve_move(Move::from_uci("e1e3").unwrap()), None);
    assert_eq!(b.resolve_move(Move::from_uci("e8g8").unwrap()), None);
    assert_eq!(b.to_fen(), "r3k2r/8/8/8/8/8/8/R3K2R w KQkq - 0 1");
    let b = Board::from_fen("rnbqkbnr/ppp1pppp/8/3pP3/8/8/PPPP1PPP/RNBQKBNR w KQkq d6 0 3").unwrap();
    let passing = b.resolve_move(Move::from_uci("e5d6").unwrap()).unwrap();
    assert_eq!(passing.kind(), MoveKind::EnPassant);
    let b = Board::from_fen("k2r4/4P3/8/8/8/8/8/4K3 w - - 0 1").unwrap();
    let promotion = b.resolve_move(Move::from_uci("e7d8n").unwrap()).unwrap();
    assert_eq!(promotion.kind(), MoveKind::Promotion(PieceType::Knight));
    assert_eq!(b.resolve_move(Move::from_uci("e7d8").unwrap()), None);
}

#[test]
fn moves_that_set_the_counter_back() {
    let b = Board::from_fen("rnbqkbnr/ppp1pppp/8/3pP3/8/8/PPPP1PPP/RNBQKBNR w KQkq d6 0 3").unwrap();
    let resets = |uci: &str| b.resets_clock(b.resolve_move(Move::from_uci(uci).unwrap()).unwrap());
    // Pawn moves, with and without a capture, and en passant.
    assert!(resets("a2a3"));
    assert!(resets("e5e6"));
    assert!(resets("e5d6"));
    // Quiet moves of pieces.
    assert!(!resets("g1f3"));
    assert!(!resets("f1b5"));
    assert!(!resets("e1e2"));
    // A capture by a piece.
    let b = Board::from_fen("4k3/8/8/8/8/8/4p3/4K3 w - - 0 1").unwrap();
    assert!(b.resets_clock(Move::normal(Square::new(4, 0), Square::new(4, 1))));
    assert!(!b.resets_clock(Move::normal(Square::new(4, 0), Square::new(3, 1))));
}

#[test]
fn what_a_move_that_is_made_leaves_behind() {
    let mut b = Board::from_fen(KIWIPETE_FEN).unwrap();
    for uci in ["e1g1", "h3g2", "f3f6", "e7f6", "d5e6", "e8c8"] {
        let mover = b.side_to_move();
        assert!(b.make_move(Move::from_uci(uci).unwrap()), "{uci}");
        assert_eq!(b.side_to_move(), mover.opposite());
        assert!(!b.is_in_check(mover));
        let target = b.en_passant();
        assert!(target.map_or(true, |sq| sq.rank() == 2 || sq.rank() == 5));
        for color in [Color::White, Color::Black] {
            let kings = (0..64)
                .filter(|&i| {
                    b.piece_at(Square::from_index(i)) == Some(Piece::new(PieceType::King, color))
                })
                .count();
            assert_eq!(kings, 1);
        }
    }
    assert_eq!(b.to_fen(), "2kr3r/p1pp1pb1/bn2Pqp1/4N3/1p2P3/2N5/PPPBBPpP/R4RK1 w - - 1 4");
}
