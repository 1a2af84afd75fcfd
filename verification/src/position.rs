//! The rules of chess over a mathematical position: sixty-four squares that
//! each hold a piece or nothing, the side to move, the castling rights, the
//! en-passant target and the two move counters.
//!
//! Nothing here is executable. The board of the engine is held to these
//! definitions by its contracts.

use crate::bits::count_below;
use crate::geometry::{
    before_on_ray,
    forward,
    is_diagonal,
    is_straight,
    king_step,
    knight_step,
    on_board,
    on_ray,
    pawn_attack,
};
use crate::types::{rank_of, Color, GameState, MoveKind, MoveView, Piece, PieceType, Rights};
use vstd::prelude::*;

verus! {

/// A position of the game.
pub struct Position {
    /// What stands on each square, by index `rank * 8 + file`.
    pub squares: Seq<Option<Piece>>,
    pub side_to_move: Color,
    pub castling: Rights,
    /// The square that a pawn may capture onto en passant, if any: the one
    /// that a pawn has just passed in advancing two squares.
    pub en_passant: Option<int>,
    /// Plies since the last capture or pawn move.
    pub halfmove_clock: int,
    /// Number of the move, which grows after each move of Black.
    pub fullmove_number: int,
}

// ---------------------------------------------------------------------------
// What stands where
// ---------------------------------------------------------------------------
/// The square holds a piece of kind `pt` and side `c`.
pub open spec fn holds(squares: Seq<Option<Piece>>, i: int, c: Color, pt: PieceType) -> bool {
    on_board(i) && squares[i] == Some(Piece { piece_type: pt, color: c })
}

/// The square holds some piece of side `c`.
pub open spec fn owned(squares: Seq<Option<Piece>>, i: int, c: Color) -> bool {
    on_board(i) && match squares[i] {
        Some(p) => p.color == c,
        None => false,
    }
}

/// The square holds nothing.
pub open spec fn vacant(squares: Seq<Option<Piece>>, i: int) -> bool {
    on_board(i) && squares[i] is None
}

/// The square of the king of side `c`.
pub open spec fn king_square(squares: Seq<Option<Piece>>, c: Color) -> int {
    choose|k: int| holds(squares, k, c, PieceType::King)
}

/// Side `c` has exactly one king.
pub open spec fn one_king(squares: Seq<Option<Piece>>, c: Color) -> bool {
    exists|k: int|
        #![trigger holds(squares, k, c, PieceType::King)]
        holds(squares, k, c, PieceType::King) && forall|j: int|
            holds(squares, j, c, PieceType::King) ==> j == k
}

// ---------------------------------------------------------------------------
// Attacks
// ---------------------------------------------------------------------------
/// From `a`, looking in direction `d`, the square `b` is in view: it is on
/// the ray and every square before it is vacant.
pub open spec fn sees(squares: Seq<Option<Piece>>, a: int, d: int, b: int) -> bool {
    on_ray(a, d, b) && forall|x: int| #[trigger] before_on_ray(a, d, b, x) ==> squares[x] is None
}

/// The piece on `s` is the first piece in view from `a` along `d`.
pub open spec fn first_seen(squares: Seq<Option<Piece>>, a: int, d: int, s: int) -> bool {
    sees(squares, a, d, s) && squares[s] is Some
}

/// A piece of kind `pt` slides in direction `d`.
pub open spec fn slides(pt: PieceType, d: int) -> bool {
    match pt {
        PieceType::Bishop => is_diagonal(d),
        PieceType::Rook => is_straight(d),
        PieceType::Queen => 0 <= d < 8,
        _ => false,
    }
}

/// A slider of kind `pt` on `s` has `t` in view along one of its directions.
pub open spec fn slider_reaches(squares: Seq<Option<Piece>>, pt: PieceType, s: int, t: int) -> bool {
    exists|d: int| slides(pt, d) && #[trigger] sees(squares, s, d, t)
}

/// The piece on `s`, if there is one, attacks `t`.
pub open spec fn attacks(squares: Seq<Option<Piece>>, s: int, t: int) -> bool {
    on_board(s) && match squares[s] {
        None => false,
        Some(p) => match p.piece_type {
            PieceType::Pawn => pawn_attack(p.color, s, t),
            PieceType::Knight => knight_step(s, t),
            PieceType::King => king_step(s, t),
            _ => slider_reaches(squares, p.piece_type, s, t),
        },
    }
}

/// Some piece of side `by` attacks `t`.
pub open spec fn attacked(squares: Seq<Option<Piece>>, t: int, by: Color) -> bool {
    exists|s: int| owned(squares, s, by) && #[trigger] attacks(squares, s, t)
}

/// The king of side `c` is attacked.
pub open spec fn in_check(squares: Seq<Option<Piece>>, c: Color) -> bool {
    attacked(squares, king_square(squares, c), c.other())
}

// ---------------------------------------------------------------------------
// Lists of moves
// ---------------------------------------------------------------------------
/// `f(0) + f(1) + ... + f(n - 1)`.
pub open spec fn scan<T>(f: spec_fn(int) -> Seq<T>, n: int) -> Seq<T>
    decreases n,
{
    if n <= 0 {
        Seq::empty()
    } else {
        scan(f, n - 1) + f(n - 1)
    }
}

pub open spec fn normal(from: int, to: int) -> MoveView {
    MoveView { from, to, kind: MoveKind::Normal }
}

/// The four promotions of a pawn that goes from `from` to `to`.
pub open spec fn promotions(from: int, to: int) -> Seq<MoveView> {
    seq![
        MoveView { from, to, kind: MoveKind::Promotion(PieceType::Queen) },
        MoveView { from, to, kind: MoveKind::Promotion(PieceType::Rook) },
        MoveView { from, to, kind: MoveKind::Promotion(PieceType::Bishop) },
        MoveView { from, to, kind: MoveKind::Promotion(PieceType::Knight) },
    ]
}

/// The move to `t`, where `t` is a target, and no move otherwise.
pub open spec fn move_to(from: int, targets: spec_fn(int) -> bool) -> spec_fn(int) -> Seq<
    MoveView,
> {
    |t: int|
        if targets(t) {
            seq![normal(from, t)]
        } else {
            Seq::empty()
        }
}

/// The normal moves from `from` to each target square, lowest square first.
pub open spec fn moves_to(from: int, targets: spec_fn(int) -> bool) -> Seq<MoveView> {
    scan(move_to(from, targets), 64)
}

/// The rank on which pawns of side `c` promote.
pub open spec fn promotion_rank(c: Color) -> int {
    match c {
        Color::White => 7,
        Color::Black => 0,
    }
}

/// The rank on which pawns of side `c` start.
pub open spec fn start_rank(c: Color) -> int {
    match c {
        Color::White => 1,
        Color::Black => 6,
    }
}

impl Position {
    pub open spec fn them(self) -> Color {
        self.side_to_move.other()
    }

    // -- pawns ---------------------------------------------------------------
    /// A pawn's move to `to`: four promotions on the last rank, else one
    /// normal move.
    pub open spec fn pawn_arrival(self, from: int, to: int) -> Seq<MoveView> {
        if rank_of(to) == promotion_rank(self.side_to_move) {
            promotions(from, to)
        } else {
            seq![normal(from, to)]
        }
    }

    /// The advances of the pawn on `from`: one square if that is vacant, and
    /// from the start rank two squares if both are vacant.
    pub open spec fn pawn_pushes(self, from: int) -> Seq<MoveView> {
        let us = self.side_to_move;
        let one = from + 8 * forward(us);
        let two = one + 8 * forward(us);
        if !vacant(self.squares, one) {
            Seq::empty()
        } else if rank_of(one) == promotion_rank(us) {
            promotions(from, one)
        } else if rank_of(from) == start_rank(us) && vacant(self.squares, two) {
            seq![normal(from, one), normal(from, two)]
        } else {
            seq![normal(from, one)]
        }
    }

    /// The capture by the pawn on `from` onto `t`, if `t` is attacked by it
    /// and held by the other side.
    pub open spec fn pawn_capture(self, from: int) -> spec_fn(int) -> Seq<MoveView> {
        |t: int|
            if pawn_attack(self.side_to_move, from, t) && owned(self.squares, t, self.them()) {
                self.pawn_arrival(from, t)
            } else {
                Seq::empty()
            }
    }

    /// The en-passant capture by the pawn on `from`, if the target is set
    /// and attacked by it.
    pub open spec fn pawn_en_passant(self, from: int) -> Seq<MoveView> {
        match self.en_passant {
            Some(e) => if pawn_attack(self.side_to_move, from, e) {
                seq![MoveView { from, to: e, kind: MoveKind::EnPassant }]
            } else {
                Seq::empty()
            },
            None => Seq::empty(),
        }
    }

    /// The moves of the pawn on `from`: advances, captures by target square,
    /// en passant.
    pub open spec fn pawn_moves_from(self, from: int) -> Seq<MoveView> {
        self.pawn_pushes(from) + scan(self.pawn_capture(from), 64) + self.pawn_en_passant(from)
    }

    /// The moves of the piece on `from` if it is a pawn of the side to move.
    pub open spec fn pawn_on(self) -> spec_fn(int) -> Seq<MoveView> {
        |from: int|
            if holds(self.squares, from, self.side_to_move, PieceType::Pawn) {
                self.pawn_moves_from(from)
            } else {
                Seq::empty()
            }
    }

    // -- knights and kings -----------------------------------------------------
    /// A knight or king on `from` may go to `t`: a step away, and not held
    /// by its own side.
    pub open spec fn leap_target(self, pt: PieceType, from: int) -> spec_fn(int) -> bool {
        |t: int|
            (if pt == PieceType::Knight {
                knight_step(from, t)
            } else {
                king_step(from, t)
            }) && !owned(self.squares, t, self.side_to_move)
    }

    /// The moves of the piece on `from` if it is of kind `pt`, a knight or a
    /// king, and of the side to move.
    pub open spec fn leaper_on(self, pt: PieceType) -> spec_fn(int) -> Seq<MoveView> {
        |from: int|
            if holds(self.squares, from, self.side_to_move, pt) {
                moves_to(from, self.leap_target(pt, from))
            } else {
                Seq::empty()
            }
    }

    // -- castling --------------------------------------------------------------
    /// The side to move may castle with the king going from `from` to `to`:
    /// it holds the right, the squares between king and rook are vacant, and
    /// neither the square the king crosses nor the one it reaches is
    /// attacked. (That the king is not in check is asked once for both
    /// wings, in [`Position::castle_moves`].)
    pub open spec fn may_castle(self, from: int, to: int) -> bool {
        let s = self.squares;
        if self.side_to_move == Color::White {
            from == 4 && ((to == 6 && self.castling.white_kingside && vacant(s, 5) && vacant(s, 6)
                && !attacked(s, 5, Color::Black) && !attacked(s, 6, Color::Black)) || (to == 2
                && self.castling.white_queenside && vacant(s, 1) && vacant(s, 2) && vacant(s, 3)
                && !attacked(s, 3, Color::Black) && !attacked(s, 2, Color::Black)))
        } else {
            from == 60 && ((to == 62 && self.castling.black_kingside && vacant(s, 61) && vacant(
                s,
                62,
            ) && !attacked(s, 61, Color::White) && !attacked(s, 62, Color::White)) || (to == 58
                && self.castling.black_queenside && vacant(s, 57) && vacant(s, 58) && vacant(
                s,
                59,
            ) && !attacked(s, 59, Color::White) && !attacked(s, 58, Color::White)))
        }
    }

    pub open spec fn castle_if(self, from: int, to: int) -> Seq<MoveView> {
        if self.may_castle(from, to) {
            seq![MoveView { from, to, kind: MoveKind::Castle }]
        } else {
            Seq::empty()
        }
    }

    /// The castling moves: none in check, else kingside before queenside.
    pub open spec fn castle_moves(self) -> Seq<MoveView> {
        if in_check(self.squares, self.side_to_move) {
            Seq::empty()
        } else if self.side_to_move == Color::White {
            self.castle_if(4, 6) + self.castle_if(4, 2)
        } else {
            self.castle_if(60, 62) + self.castle_if(60, 58)
        }
    }

    // -- bishops, rooks, queens --------------------------------------------------
    /// A slider on `from` may go to `t` along `d`: in view, and not held by
    /// its own side.
    pub open spec fn slide_target(self, from: int, d: int) -> spec_fn(int) -> bool {
        |t: int| sees(self.squares, from, d, t) && !owned(self.squares, t, self.side_to_move)
    }

    /// The moves of a slider of kind `pt` on `from` along `d`, if it slides
    /// that way.
    pub open spec fn slide_along(self, pt: PieceType, from: int) -> spec_fn(int) -> Seq<MoveView> {
        |d: int|
            if slides(pt, d) {
                moves_to(from, self.slide_target(from, d))
            } else {
                Seq::empty()
            }
    }

    /// The moves of the piece on `from` if it is a slider of kind `pt` and
    /// of the side to move: direction by direction, clockwise from north.
    pub open spec fn slider_on(self, pt: PieceType) -> spec_fn(int) -> Seq<MoveView> {
        |from: int|
            if holds(self.squares, from, self.side_to_move, pt) {
                scan(self.slide_along(pt, from), 8)
            } else {
                Seq::empty()
            }
    }

    // -- all of them ---------------------------------------------------------------
    /// Every move of the side to move that the pieces can make, whether or
    /// not it leaves the own king attacked, in the order in which the engine
    /// lists them: pawns, knights, king, castling, bishops, rooks, queens;
    /// within a kind by the square of the piece, lowest first.
    pub open spec fn pseudo_legal_moves(self) -> Seq<MoveView> {
        scan(self.pawn_on(), 64) + scan(self.leaper_on(PieceType::Knight), 64) + scan(
            self.leaper_on(PieceType::King),
            64,
        ) + self.castle_moves() + scan(self.slider_on(PieceType::Bishop), 64) + scan(
            self.slider_on(PieceType::Rook),
            64,
        ) + scan(self.slider_on(PieceType::Queen), 64)
    }

    /// The move is one that the pieces can make: what
    /// [`Position::pseudo_legal_moves`] lists, said of a single move.
    pub open spec fn pseudo_legal(self, m: MoveView) -> bool {
        let s = self.squares;
        let us = self.side_to_move;
        let one = m.from + 8 * forward(us);
        let two = one + 8 * forward(us);
        let push = m.to == one && vacant(s, one);
        let double = m.to == two && rank_of(m.from) == start_rank(us) && vacant(s, one) && vacant(
            s,
            two,
        );
        let capture = pawn_attack(us, m.from, m.to) && owned(s, m.to, self.them());
        on_board(m.from) && on_board(m.to) && match s[m.from] {
            None => false,
            Some(p) => p.color == us && match (p.piece_type, m.kind) {
                (PieceType::Pawn, MoveKind::Normal) => rank_of(m.to) != promotion_rank(us) && (
                push || double || capture),
                (PieceType::Pawn, MoveKind::Promotion(pt)) => pt.promotable() && rank_of(m.to)
                    == promotion_rank(us) && (push || capture),
                (PieceType::Pawn, MoveKind::EnPassant) => self.en_passant == Some(m.to)
                    && pawn_attack(us, m.from, m.to),
                (PieceType::Knight, MoveKind::Normal) => knight_step(m.from, m.to) && !owned(
                    s,
                    m.to,
                    us,
                ),
                (PieceType::King, MoveKind::Normal) => king_step(m.from, m.to) && !owned(
                    s,
                    m.to,
                    us,
                ),
                (PieceType::King, MoveKind::Castle) => !in_check(s, us) && self.may_castle(
                    m.from,
                    m.to,
                ),
                (PieceType::Bishop, MoveKind::Normal)
                | (PieceType::Rook, MoveKind::Normal)
                | (PieceType::Queen, MoveKind::Normal) => slider_reaches(
                    s,
                    p.piece_type,
                    m.from,
                    m.to,
                ) && !owned(s, m.to, us),
                _ => false,
            },
        }
    }

    // -- making a move ---------------------------------------------------------------
    /// The square of the pawn that an en-passant capture onto `to` removes:
    /// one rank behind `to`, seen from the capturing side.
    pub open spec fn en_passant_victim(self, to: int) -> int {
        to - 8 * forward(self.side_to_move)
    }

    /// The position after the move.
    pub open spec fn apply_move(self, m: MoveView) -> Position {
        let us = self.side_to_move;
        let mover = self.squares[m.from]->0;
        let placed = match m.kind {
            MoveKind::Promotion(pt) => Piece { piece_type: pt, color: us },
            _ => mover,
        };
        let lifted = self.squares.update(m.from, None);
        let cleared = if m.kind == MoveKind::EnPassant {
            lifted.update(self.en_passant_victim(m.to), None)
        } else {
            lifted
        };
        let landed = cleared.update(m.to, Some(placed));
        let rook = Some(Piece { piece_type: PieceType::Rook, color: us });
        let squares = if m.kind == MoveKind::Castle {
            landed.update(rook_from(m.to), None).update(rook_to(m.to), rook)
        } else {
            landed
        };
        let pawn = mover.piece_type == PieceType::Pawn;
        let capture = owned(self.squares, m.to, self.them()) || m.kind == MoveKind::EnPassant;
        Position {
            squares,
            side_to_move: self.them(),
            castling: self.castling.after_touch(m.from).after_touch(m.to),
            en_passant: if pawn && ((rank_of(m.from) == 1 && rank_of(m.to) == 3) || (rank_of(
                m.from,
            ) == 6 && rank_of(m.to) == 4)) {
                Some((m.from + m.to) / 2)
            } else {
                None
            },
            halfmove_clock: if pawn || capture {
                0
            } else {
                self.halfmove_clock + 1
            },
            fullmove_number: if us == Color::Black && self.fullmove_number < 0xffff {
                self.fullmove_number + 1
            } else {
                self.fullmove_number
            },
        }
    }

    /// The move sets the counter of plies back to nothing: a pawn moves, or
    /// a piece is taken.
    pub open spec fn resets_clock(self, m: MoveView) -> bool {
        (self.squares[m.from] matches Some(p) && p.piece_type == PieceType::Pawn) || owned(
            self.squares,
            m.to,
            self.them(),
        ) || m.kind == MoveKind::EnPassant
    }

    /// The counter of plies, which has sixteen bits, can take the move: it
    /// is below its last value, or the move sets it back.
    pub open spec fn clock_has_room(self, m: MoveView) -> bool {
        self.halfmove_clock < 0xffff || self.resets_clock(m)
    }

    /// The counter of plies can take the move that the request resolves to,
    /// if it resolves to one.
    pub open spec fn clock_allows(self, request: MoveView) -> bool {
        match resolve(self.legal_moves(), request) {
            Some(m) => self.clock_has_room(m),
            None => true,
        }
    }

    /// The move does not leave the own king attacked.
    pub open spec fn safe(self, m: MoveView) -> bool {
        !in_check(self.apply_move(m).squares, self.side_to_move)
    }

    /// The move is legal.
    pub open spec fn legal(self, m: MoveView) -> bool {
        self.pseudo_legal(m) && self.safe(m)
    }

    /// [`Position::safe`], as a test on moves.
    pub open spec fn safety(self) -> spec_fn(MoveView) -> bool {
        |m: MoveView| self.safe(m)
    }

    /// The legal moves, in the order of [`Position::pseudo_legal_moves`].
    pub open spec fn legal_moves(self) -> Seq<MoveView> {
        self.pseudo_legal_moves().filter(self.safety())
    }

    // -- how the game stands ---------------------------------------------------------
    /// Neither side can mate: at most three pieces on the board, no pawn,
    /// rook or queen, and at most one knight or bishop.
    pub open spec fn insufficient_material(self) -> bool {
        let s = self.squares;
        count_below(|i: int| s[i] is Some, 64) <= 3 && count_below(|i: int| is_heavy(s[i]), 64)
            == 0 && count_below(|i: int| is_minor(s[i]), 64) <= 1
    }

    /// How the game stands.
    pub open spec fn outcome(self) -> GameState {
        if self.legal_moves().len() == 0 {
            if in_check(self.squares, self.side_to_move) {
                GameState::Checkmate
            } else {
                GameState::Stalemate
            }
        } else if self.insufficient_material() || self.halfmove_clock >= 100 {
            GameState::Draw
        } else {
            GameState::InProgress
        }
    }

    // -- which positions are sound -----------------------------------------------------
    /// What holds of every position of the engine: sixty-four squares, one
    /// king a side, an en-passant target on the third or sixth rank, and
    /// counters of sixteen bits.
    pub open spec fn well_formed(self) -> bool {
        &&& self.squares.len() == 64
        &&& one_king(self.squares, Color::White)
        &&& one_king(self.squares, Color::Black)
        &&& match self.en_passant {
            Some(e) => on_board(e) && (rank_of(e) == 2 || rank_of(e) == 5),
            None => true,
        }
        &&& 0 <= self.halfmove_clock <= 0xffff
        &&& 0 <= self.fullmove_number <= 0xffff
    }

    /// The castling rights speak of kings and rooks that stand on their
    /// home squares.
    pub open spec fn castling_sound(self) -> bool {
        let s = self.squares;
        let c = self.castling;
        &&& c.white_kingside ==> holds(s, 4, Color::White, PieceType::King) && holds(
            s,
            7,
            Color::White,
            PieceType::Rook,
        )
        &&& c.white_queenside ==> holds(s, 4, Color::White, PieceType::King) && holds(
            s,
            0,
            Color::White,
            PieceType::Rook,
        )
        &&& c.black_kingside ==> holds(s, 60, Color::Black, PieceType::King) && holds(
            s,
            63,
            Color::Black,
            PieceType::Rook,
        )
        &&& c.black_queenside ==> holds(s, 60, Color::Black, PieceType::King) && holds(
            s,
            56,
            Color::Black,
            PieceType::Rook,
        )
    }

    /// The en-passant target, if set, is vacant and lies right behind a pawn
    /// of the side that has just moved.
    pub open spec fn en_passant_sound(self) -> bool {
        match self.en_passant {
            Some(e) => vacant(self.squares, e) && holds(
                self.squares,
                self.en_passant_victim(e),
                self.them(),
                PieceType::Pawn,
            ),
            None => true,
        }
    }

    /// No pawn stands on the rank on which it would have promoted.
    pub open spec fn pawns_sound(self) -> bool {
        forall|i: int|
            #![trigger self.squares[i]]
            on_board(i) ==> !(holds(self.squares, i, Color::White, PieceType::Pawn) && rank_of(i)
                == 7) && !(holds(self.squares, i, Color::Black, PieceType::Pawn) && rank_of(i)
                == 0)
    }

    /// The pieces stand as the rules of the game let them: sixty-four
    /// squares, one king a side, and sound castling rights, en-passant
    /// target and pawns. This is [`Position::playable`] without the bound on
    /// the counters.
    pub open spec fn pieces_sound(self) -> bool {
        &&& self.squares.len() == 64
        &&& one_king(self.squares, Color::White)
        &&& one_king(self.squares, Color::Black)
        &&& match self.en_passant {
            Some(e) => on_board(e) && (rank_of(e) == 2 || rank_of(e) == 5),
            None => true,
        }
        &&& self.castling_sound()
        &&& self.en_passant_sound()
        &&& self.pawns_sound()
    }

    /// The position is one from which moves can be generated and made: it
    /// is well formed, and its castling rights, en-passant target and pawns
    /// are sound.
    pub open spec fn playable(self) -> bool {
        self.well_formed() && self.castling_sound() && self.en_passant_sound()
            && self.pawns_sound()
    }

    /// The side that has just moved is not in check.
    pub open spec fn opponent_safe(self) -> bool {
        !in_check(self.squares, self.them())
    }
}

/// The square that the rook leaves when the king castles to `king_to`.
pub open spec fn rook_from(king_to: int) -> int {
    if king_to == 6 {
        7
    } else if king_to == 2 {
        0
    } else if king_to == 62 {
        63
    } else {
        56
    }
}

/// The square that the rook reaches when the king castles to `king_to`.
pub open spec fn rook_to(king_to: int) -> int {
    if king_to == 6 {
        5
    } else if king_to == 2 {
        3
    } else if king_to == 62 {
        61
    } else {
        59
    }
}

/// A pawn, rook or queen.
pub open spec fn is_heavy(p: Option<Piece>) -> bool {
    match p {
        Some(p) => p.piece_type == PieceType::Pawn || p.piece_type == PieceType::Rook
            || p.piece_type == PieceType::Queen,
        None => false,
    }
}

/// A knight or bishop.
pub open spec fn is_minor(p: Option<Piece>) -> bool {
    match p {
        Some(p) => p.piece_type == PieceType::Knight || p.piece_type == PieceType::Bishop,
        None => false,
    }
}

/// The first move of the list that agrees with `m` on source, destination
/// and promotion piece.
pub open spec fn resolve(moves: Seq<MoveView>, m: MoveView) -> Option<MoveView>
    decreases moves.len(),
{
    if moves.len() == 0 {
        None
    } else if moves[0].same_uci(m) {
        Some(moves[0])
    } else {
        resolve(moves.drop_first(), m)
    }
}

/// The piece that stands on square `i` at the start of a game.
pub open spec fn start_piece(i: int) -> Option<Piece> {
    let rank = rank_of(i);
    let file = crate::types::file_of(i);
    let back = if file == 0 || file == 7 {
        PieceType::Rook
    } else if file == 1 || file == 6 {
        PieceType::Knight
    } else if file == 2 || file == 5 {
        PieceType::Bishop
    } else if file == 3 {
        PieceType::Queen
    } else {
        PieceType::King
    };
    if rank == 0 {
        Some(Piece { piece_type: back, color: Color::White })
    } else if rank == 1 {
        Some(Piece { piece_type: PieceType::Pawn, color: Color::White })
    } else if rank == 6 {
        Some(Piece { piece_type: PieceType::Pawn, color: Color::Black })
    } else if rank == 7 {
        Some(Piece { piece_type: back, color: Color::Black })
    } else {
        None
    }
}

/// The position at the start of a game.
pub open spec fn start_position() -> Position {
    Position {
        squares: Seq::new(64, |i: int| start_piece(i)),
        side_to_move: Color::White,
        castling: Rights {
            white_kingside: true,
            white_queenside: true,
            black_kingside: true,
            black_queenside: true,
        },
        en_passant: None,
        halfmove_clock: 0,
        fullmove_number: 1,
    }
}

/// The starting position is sound, and the side that is not to move is not
/// in check.
pub proof fn lemma_start_sound()
    ensures
        start_position().playable(),
        start_position().opponent_safe(),
{
    let pos = start_position();
    let s = pos.squares;
    assert(holds(s, 4, Color::White, PieceType::King));
    assert(holds(s, 60, Color::Black, PieceType::King));
    assert(one_king(s, Color::White)) by {
        assert forall|j: int| holds(s, j, Color::White, PieceType::King) implies j == 4 by {}
    }
    assert(one_king(s, Color::Black)) by {
        assert forall|j: int| holds(s, j, Color::Black, PieceType::King) implies j == 60 by {}
    }
    assert(pos.castling_sound()) by {
        assert(holds(s, 0, Color::White, PieceType::Rook));
        assert(holds(s, 7, Color::White, PieceType::Rook));
        assert(holds(s, 56, Color::Black, PieceType::Rook));
        assert(holds(s, 63, Color::Black, PieceType::Rook));
    }
    assert(pos.pawns_sound());
    assert(king_square(s, Color::Black) == 60) by {
        assert forall|j: int| holds(s, j, Color::Black, PieceType::King) implies j == 60 by {}
    }
    assert forall|a: int| owned(s, a, Color::White) implies !#[trigger] attacks(s, a, 60) by {
        assert(0 <= a < 16);
        if attacks(s, a, 60) {
            let p = s[a]->0;
            if p.piece_type == PieceType::Bishop || p.piece_type == PieceType::Rook
                || p.piece_type == PieceType::Queen {
                let d = choose|d: int| slides(p.piece_type, d) && #[trigger] sees(s, a, d, 60);
                assert(on_ray(a, d, 60));
                assert(false);
            }
        }
    }
}

// ---------------------------------------------------------------------------
// Lemmas on lists
// ---------------------------------------------------------------------------
/// A scan over a stretch that contributes nothing stays as it is.
pub proof fn lemma_scan_skip<T>(f: spec_fn(int) -> Seq<T>, a: int, b: int)
    requires
        a <= b,
        forall|i: int| a <= i < b ==> (#[trigger] f(i)).len() == 0,
    ensures
        scan(f, b) == scan(f, a),
    decreases b - a,
{
    if a < b {
        lemma_scan_skip(f, a, b - 1);
        assert(f(b - 1) =~= Seq::empty());
        assert(scan(f, b) =~= scan(f, b - 1));
    }
}

/// A scan grows by what the next index contributes.
pub proof fn lemma_scan_step<T>(f: spec_fn(int) -> Seq<T>, n: int)
    requires
        0 <= n,
    ensures
        scan(f, n + 1) == scan(f, n) + f(n),
{
}

/// Scans of functions that agree are the same.
pub proof fn lemma_scan_ext<T>(f: spec_fn(int) -> Seq<T>, g: spec_fn(int) -> Seq<T>, n: int)
    requires
        forall|i: int| 0 <= i < n ==> (#[trigger] f(i)) == g(i),
    ensures
        scan(f, n) == scan(g, n),
    decreases n,
{
    if n > 0 {
        lemma_scan_ext(f, g, n - 1);
    }
}

/// The first match is found by passing over what does not match.
pub proof fn lemma_resolve(moves: Seq<MoveView>, m: MoveView, i: int)
    requires
        0 <= i <= moves.len(),
        forall|j: int| 0 <= j < i ==> !(#[trigger] moves[j]).same_uci(m),
        i < moves.len() ==> moves[i].same_uci(m),
    ensures
        resolve(moves, m) == if i < moves.len() {
            Some(moves[i])
        } else {
            None
        },
    decreases moves.len(),
{
    if moves.len() > 0 && i > 0 {
        let rest = moves.drop_first();
        assert(!moves[0].same_uci(m));
        assert forall|j: int| 0 <= j < i - 1 implies !(#[trigger] rest[j]).same_uci(m) by {
            assert(rest[j] == moves[j + 1]);
        }
        lemma_resolve(rest, m, i - 1);
    }
}

// ---------------------------------------------------------------------------
// Lemmas on attacks
// ---------------------------------------------------------------------------
/// What is in view one way is in view the other way.
pub proof fn lemma_sees_reverse(squares: Seq<Option<Piece>>, a: int, d: int, b: int)
    requires
        sees(squares, a, d, b),
    ensures
        sees(squares, b, crate::geometry::opposite_dir(d), a),
{
    let e = crate::geometry::opposite_dir(d);
    crate::geometry::lemma_ray_reverse(a, d, b, a);
    assert forall|x: int| #[trigger] before_on_ray(b, e, a, x) implies squares[x] is None by {
        crate::geometry::lemma_ray_reverse(a, d, b, x);
        assert(before_on_ray(a, d, b, x));
    }
}

} // verus!
