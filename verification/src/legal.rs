//! Legal moves, the making of a move, and how the game stands.

use crate::bits::{bit, count_ones, lemma_bit_or, lemma_count_ext};
use crate::board::Board;
use crate::movegen::all_pseudo_legal;
use crate::position::{
    holds,
    in_check,
    is_heavy,
    is_minor,
    lemma_resolve,
    one_king,
    owned,
    resolve,
    rook_from,
    rook_to,
    Position,
};
use crate::tables::AttackTables;
use crate::types::{move_views, Color, GameState, Move, MoveKind, MoveView, Piece, PieceType};
use vstd::prelude::*;

verus! {

/// Every move of the list is legal in `pos`.
pub open spec fn all_legal(pos: Position, moves: Seq<Move>) -> bool {
    forall|k: int| 0 <= k < moves.len() ==> pos.legal(#[trigger] moves[k]@)
}

/// Filtering a list that has grown by one element.
pub proof fn lemma_filter_push<A>(s: Seq<A>, x: A, pred: spec_fn(A) -> bool)
    ensures
        s.push(x).filter(pred) == if pred(x) {
            s.filter(pred).push(x)
        } else {
            s.filter(pred)
        },
{
    reveal(Seq::filter);
    assert(s.push(x).drop_last() =~= s);
}

/// A move that the pieces can make leaves the mover's side with its one
/// king.
pub proof fn lemma_own_king_stays(pos: Position, m: MoveView)
    requires
        pos.pieces_sound(),
        pos.pseudo_legal(m),
    ensures
        one_king(pos.apply_move(m).squares, pos.side_to_move),
{
    let s = pos.squares;
    let us = pos.side_to_move;
    let after = pos.apply_move(m).squares;
    let k = choose|k: int|
        #![trigger holds(s, k, us, PieceType::King)]
        holds(s, k, us, PieceType::King) && forall|j: int|
            holds(s, j, us, PieceType::King) ==> j == k;
    let mover = s[m.from]->0;
    if mover.piece_type == PieceType::King {
        assert(holds(s, m.from, us, PieceType::King));
        assert(m.from == k);
        assert(holds(after, m.to, us, PieceType::King));
        assert forall|j: int| holds(after, j, us, PieceType::King) implies j == m.to by {
            if j != m.to {
                if m.kind == MoveKind::Castle {
                    assert(j != rook_from(m.to) && j != rook_to(m.to));
                }
                assert(j != m.from);
                assert(after[j] == s[j]);
                assert(holds(s, j, us, PieceType::King));
            }
        }
    } else {
        assert(m.from != k);
        assert(m.to != k);
        assert(m.kind != MoveKind::Castle);
        if m.kind == MoveKind::EnPassant {
            assert(pos.en_passant_victim(m.to) != k);
        }
        assert(after[k] == s[k]);
        assert(holds(after, k, us, PieceType::King));
        assert forall|j: int| holds(after, j, us, PieceType::King) implies j == k by {
            if j == m.to {
                assert(false);
            } else {
                assert(after[j] == s[j] || after[j] is None);
                assert(holds(s, j, us, PieceType::King));
            }
        }
    }
}

/// A move that the pieces can make and that does not take the king leaves
/// the other side with its one king.
pub proof fn lemma_other_king_stays(pos: Position, m: MoveView)
    requires
        pos.pieces_sound(),
        pos.pseudo_legal(m),
        !holds(pos.squares, m.to, pos.them(), PieceType::King),
    ensures
        one_king(pos.apply_move(m).squares, pos.them()),
{
    let s = pos.squares;
    let us = pos.side_to_move;
    let them = pos.them();
    let after = pos.apply_move(m).squares;
    let k = choose|k: int|
        #![trigger holds(s, k, them, PieceType::King)]
        holds(s, k, them, PieceType::King) && forall|j: int|
            holds(s, j, them, PieceType::King) ==> j == k;
    assert(k != m.from);
    assert(k != m.to);
    if m.kind == MoveKind::EnPassant {
        assert(pos.en_passant_victim(m.to) != k);
    }
    if m.kind == MoveKind::Castle {
        assert(k != rook_from(m.to) && k != rook_to(m.to));
    }
    assert(after[k] == s[k]);
    assert(holds(after, k, them, PieceType::King));
    assert forall|j: int| holds(after, j, them, PieceType::King) implies j == k by {
        if j == m.to {
            assert(false);
        } else if m.kind == MoveKind::Castle && j == rook_to(m.to) {
            assert(false);
        } else {
            assert(after[j] == s[j] || after[j] is None);
            assert(holds(s, j, them, PieceType::King));
        }
    }
}

/// Where the side that has just moved is not in check, no move that the
/// pieces can make takes its king.
pub proof fn lemma_king_is_not_taken(pos: Position, m: MoveView)
    requires
        pos.pieces_sound(),
        pos.opponent_safe(),
        pos.pseudo_legal(m),
    ensures
        !holds(pos.squares, m.to, pos.them(), PieceType::King),
{
    let s = pos.squares;
    let them = pos.them();
    if holds(s, m.to, them, PieceType::King) {
        let k = choose|k: int|
            #![trigger holds(s, k, them, PieceType::King)]
            holds(s, k, them, PieceType::King) && forall|j: int|
                holds(s, j, them, PieceType::King) ==> j == k;
        assert(m.to == k);
        assert(crate::position::king_square(s, them) == k);
        assert(owned(s, m.from, pos.side_to_move) && crate::position::attacks(s, m.from, m.to));
        assert(crate::position::attacked(s, m.to, pos.side_to_move));
        assert(false);
    }
}

/// A move that the pieces can make and that does not take the king leads
/// from one playable position to another, as long as the counter of plies
/// can take it.
pub proof fn lemma_apply_playable(pos: Position, m: MoveView)
    requires
        pos.playable(),
        pos.pseudo_legal(m),
        pos.clock_has_room(m),
        !holds(pos.squares, m.to, pos.them(), PieceType::King),
    ensures
        pos.apply_move(m).playable(),
{
    lemma_apply_pieces_sound(pos, m);
}

/// A move that the pieces can make and that does not take the king leaves
/// the pieces standing as the rules let them.
pub proof fn lemma_apply_pieces_sound(pos: Position, m: MoveView)
    requires
        pos.pieces_sound(),
        pos.pseudo_legal(m),
        !holds(pos.squares, m.to, pos.them(), PieceType::King),
    ensures
        pos.apply_move(m).pieces_sound(),
{
    let s = pos.squares;
    let us = pos.side_to_move;
    let next = pos.apply_move(m);
    let after = next.squares;
    lemma_own_king_stays(pos, m);
    lemma_other_king_stays(pos, m);
    assert(after.len() == 64);
    assert(one_king(after, Color::White) && one_king(after, Color::Black)) by {
        if us == Color::White {
        } else {
        }
    }
    let mover = s[m.from]->0;
    assert forall|i: int| 0 <= i < 64 && i != m.from && i != m.to && !(m.kind
        == MoveKind::EnPassant && i == pos.en_passant_victim(m.to)) && !(m.kind
        == MoveKind::Castle && (i == rook_from(m.to) || i == rook_to(m.to))) implies #[trigger] after[i]
        == s[i] by {}
    assert(next.castling_sound()) by {
        let c = next.castling;
        if c.white_kingside {
            assert(after[4] == s[4] && after[7] == s[7]);
        }
        if c.white_queenside {
            assert(after[4] == s[4] && after[0] == s[0]);
        }
        if c.black_kingside {
            assert(after[60] == s[60] && after[63] == s[63]);
        }
        if c.black_queenside {
            assert(after[60] == s[60] && after[56] == s[56]);
        }
    }
    assert(next.en_passant_sound()) by {
        if next.en_passant is Some {
            let e = next.en_passant->0;
            assert(mover.piece_type == PieceType::Pawn);
            assert(m.kind == MoveKind::Normal);
            assert(e == m.from + 8 * crate::geometry::forward(us));
            assert(after[e] == s[e]);
            assert(next.en_passant_victim(e) == m.to);
        }
    }
    assert(next.pawns_sound()) by {
        assert forall|i: int| #![trigger after[i]] crate::geometry::on_board(i) implies !(holds(
            after,
            i,
            Color::White,
            PieceType::Pawn,
        ) && crate::types::rank_of(i) == 7) && !(holds(after, i, Color::Black, PieceType::Pawn)
            && crate::types::rank_of(i) == 0) by {
            if i == m.to {
            } else {
                assert(after[i] == s[i] || after[i] is None || after[i] == Some(
                    Piece { piece_type: PieceType::Rook, color: us },
                ));
                assert(s[i] == s[i]);
            }
        }
    }
}

impl Board {
    /// Whether the move, made on this board, leaves the own king
    /// unattacked.
    fn leaves_king_safe(&self, t: &AttackTables, mv: Move) -> (r: bool)
        requires
            self.wf(),
            self@.playable(),
            self@.pseudo_legal(mv@),
        ensures
            r == self@.safe(mv@),
    {
        let mut after: Board = *self;
        let _ = after.move_pieces(mv);
        proof {
            lemma_own_king_stays(self@, mv@);
        }
        !after.in_check_with(t, self.side_to_move())
    }

    /// The legal moves, with the attack tables at hand.
    pub(crate) fn legal_moves_with(&self, t: &AttackTables) -> (moves: Vec<Move>)
        requires
            self.wf(),
            self@.playable(),
        ensures
            move_views(moves@) == self@.legal_moves(),
            all_legal(self@, moves@),
    {
        let ghost pos = self@;
        let ghost keep = pos.safety();
        let pseudo: Vec<Move> = self.generate_pseudo_legal(t);
        let mut legal: Vec<Move> = Vec::new();
        let mut i: usize = 0;
        proof {
            reveal(Seq::filter);
            assert(move_views(pseudo@.take(0)) =~= Seq::<MoveView>::empty());
            assert(move_views(legal@) =~= Seq::<MoveView>::empty());
        }
        while i < pseudo.len()
            invariant
                self.wf(),
                pos == self@,
                pos.playable(),
                keep == pos.safety(),
                all_pseudo_legal(pos, pseudo@),
                i <= pseudo.len(),
                move_views(legal@) == move_views(pseudo@.take(i as int)).filter(keep),
                all_legal(pos, legal@),
            decreases pseudo.len() - i,
        {
            let m: Move = pseudo[i];
            let ghost before = move_views(pseudo@.take(i as int));
            let ghost kept = move_views(legal@);
            proof {
                assert(move_views(pseudo@.take(i + 1)) =~= before.push(m@));
                lemma_filter_push(before, m@, keep);
            }
            if self.leaves_king_safe(t, m) {
                legal.push(m);
                proof {
                    assert(move_views(legal@) =~= kept.push(m@));
                }
            }
            i = i + 1;
        }
        proof {
            assert(pseudo@.take(pseudo.len() as int) =~= pseudo@);
        }
        legal
    }

    /// The legal moves of the side to move.
    pub fn generate_legal_moves(&self) -> (moves: Vec<Move>)
        requires
            self.wf(),
            self@.playable(),
        ensures
            move_views(moves@) == self@.legal_moves(),
            all_legal(self@, moves@),
    {
        let t = AttackTables::new();
        self.legal_moves_with(&t)
    }
    /// Whether `sq` holds a piece of side `c` and kind `pt`.
    fn holds_piece(&self, sq: u8, c: Color, pt: PieceType) -> (r: bool)
        requires
            self.consistent(),
            sq < 64,
        ensures
            r == holds(self@.squares, sq as int, c, pt),
    {
        match self.piece_at(crate::types::Square::from_index(sq)) {
            Some(p) => p.piece_type.index() == pt.index() && p.color.index() == c.index(),
            None => false,
        }
    }

    /// Whether each castling right that is held speaks of a king and a rook
    /// on their home squares.
    fn castling_is_sound(&self) -> (r: bool)
        requires
            self.consistent(),
        ensures
            r == self@.castling_sound(),
    {
        let c = self.castling();
        let white: bool = !(c.white_kingside() || c.white_queenside()) || self.holds_piece(
            4,
            Color::White,
            PieceType::King,
        );
        let black: bool = !(c.black_kingside() || c.black_queenside()) || self.holds_piece(
            60,
            Color::Black,
            PieceType::King,
        );
        white && black && (!c.white_kingside() || self.holds_piece(
            7,
            Color::White,
            PieceType::Rook,
        )) && (!c.white_queenside() || self.holds_piece(0, Color::White, PieceType::Rook)) && (
        !c.black_kingside() || self.holds_piece(63, Color::Black, PieceType::Rook)) && (
        !c.black_queenside() || self.holds_piece(56, Color::Black, PieceType::Rook))
    }

    /// Whether the en-passant target, if set, is vacant and lies right
    /// behind a pawn of the side that has just moved.
    fn en_passant_is_sound(&self) -> (r: bool)
        requires
            self.wf(),
        ensures
            r == self@.en_passant_sound(),
    {
        match self.en_passant() {
            Some(e) => {
                let us: Color = self.side_to_move();
                let i: u8 = e.raw();
                let victim: u8 = match us {
                    Color::White => i - 8,
                    Color::Black => i + 8,
                };
                self.piece_at(e).is_none() && self.holds_piece(
                    victim,
                    us.opposite(),
                    PieceType::Pawn,
                )
            },
            None => true,
        }
    }

    /// Whether no pawn stands on the rank on which it would have promoted.
    fn pawns_are_sound(&self) -> (r: bool)
        requires
            self.consistent(),
        ensures
            r == self@.pawns_sound(),
    {
        let ghost s = self@.squares;
        let mut file: u8 = 0;
        while file < 8
            invariant
                self.consistent(),
                s == self@.squares,
                file <= 8,
                forall|i: int|
                    #![trigger s[i]]
                    0 <= i < 64 && crate::types::file_of(i) < file ==> !(holds(
                        s,
                        i,
                        Color::White,
                        PieceType::Pawn,
                    ) && crate::types::rank_of(i) == 7) && !(holds(
                        s,
                        i,
                        Color::Black,
                        PieceType::Pawn,
                    ) && crate::types::rank_of(i) == 0),
            decreases 8 - file,
        {
            if self.holds_piece(56 + file, Color::White, PieceType::Pawn) {
                proof {
                    let i = 56 + file as int;
                    assert(s[i] == s[i]);
                }
                return false;
            }
            if self.holds_piece(file, Color::Black, PieceType::Pawn) {
                proof {
                    let i = file as int;
                    assert(s[i] == s[i]);
                }
                return false;
            }
            file = file + 1;
        }
        true
    }

    /// Whether moves can be generated and made on this board: its castling
    /// rights, its en-passant target and its pawns are sound.
    pub fn is_playable(&self) -> (ok: bool)
        requires
            self.wf(),
        ensures
            ok == self@.playable(),
    {
        self.castling_is_sound() && self.en_passant_is_sound() && self.pawns_are_sound()
    }

    /// The legal move that agrees with `mv` on source, destination and
    /// promotion piece, if there is one: the first in the list of legal
    /// moves, and the only one where the position is sound. It has the kind
    /// that the board gives it: castling and en passant need not be marked
    /// in `mv`.
    pub fn resolve_move(&self, mv: Move) -> (found: Option<Move>)
        requires
            self.wf(),
            self@.playable(),
        ensures
            match resolve(self@.legal_moves(), mv@) {
                Some(m) => found matches Some(f) && f@ == m && self@.legal(m) && m.same_uci(mv@),
                None => found is None,
            },
    {
        let ghost pos = self@;
        let legal: Vec<Move> = self.generate_legal_moves();
        let ghost views = move_views(legal@);
        let mut i: usize = 0;
        while i < legal.len()
            invariant
                pos == self@,
                views == move_views(legal@),
                views == pos.legal_moves(),
                all_legal(pos, legal@),
                i <= legal.len(),
                forall|j: int| 0 <= j < i ==> !(#[trigger] views[j]).same_uci(mv@),
            decreases legal.len() - i,
        {
            let m: Move = legal[i];
            if m.from().raw() == mv.from().raw() && m.to().raw() == mv.to().raw()
                && same_promotion(m.promotion_piece(), mv.promotion_piece()) {
                proof {
                    assert(views[i as int] == m@);
                    lemma_resolve(views, mv@, i as int);
                }
                return Some(m);
            }
            proof {
                assert(views[i as int] == m@);
            }
            i = i + 1;
        }
        proof {
            lemma_resolve(views, mv@, legal.len() as int);
        }
        None
    }

    /// Whether the move sets the counter of plies back to nothing: a pawn
    /// moves, or a piece is taken.
    pub fn resets_clock(&self, m: Move) -> (r: bool)
        requires
            self.consistent(),
        ensures
            r == self@.resets_clock(m@),
    {
        let pawn: bool = match self.piece_at(m.from()) {
            Some(p) => p.piece_type.index() == 0,
            None => false,
        };
        let taken: bool = match self.piece_at(m.to()) {
            Some(p) => p.color.index() != self.side_to_move().index(),
            None => false,
        };
        let passing: bool = match m.kind() {
            MoveKind::EnPassant => true,
            _ => false,
        };
        pawn || taken || passing
    }

    /// Makes the legal move that agrees with `mv` on source, destination
    /// and promotion piece, if there is one, and says whether there was. The
    /// move that is made has the kind that the board gives it: castling and
    /// en passant need not be marked in `mv`.
    ///
    /// What the board owes after a move that is made: its bitboards are
    /// consistent, the turn has passed, and the side that has moved is not
    /// in check. Where the side that had last moved was not in check
    /// before, each side still has its one king, the en-passant target is
    /// unset or on the third or sixth rank, and the position is playable
    /// again.
    pub fn make_move(&mut self, mv: Move) -> (done: bool)
        requires
            old(self).wf(),
            old(self)@.playable(),
            old(self)@.clock_allows(mv@),
        ensures
            done == (resolve(old(self)@.legal_moves(), mv@) is Some),
            done ==> ({
                let m = resolve(old(self)@.legal_moves(), mv@)->0;
                &&& m.same_uci(mv@)
                &&& old(self)@.legal(m)
                &&& final(self)@ == old(self)@.apply_move(m)
                &&& final(self).consistent()
                &&& final(self)@.side_to_move == old(self)@.them()
                &&& !in_check(final(self)@.squares, old(self)@.side_to_move)
                &&& final(self)@.opponent_safe()
                &&& !holds(old(self)@.squares, m.to, old(self)@.them(), PieceType::King)
                    ==> final(self).wf() && final(self)@.playable()
                &&& old(self)@.opponent_safe() ==> final(self).wf() && final(self)@.playable()
                    && one_king(final(self)@.squares, Color::White) && one_king(
                    final(self)@.squares,
                    Color::Black,
                )
            }),
            !done ==> *final(self) == *old(self),
    {
        let ghost pos = self@;
        match self.resolve_move(mv) {
            Some(m) => {
                proof {
                    if pos.opponent_safe() {
                        lemma_king_is_not_taken(pos, m@);
                    }
                    if !holds(pos.squares, m@.to, pos.them(), PieceType::King) {
                        lemma_apply_playable(pos, m@);
                    }
                }
                self.apply_unchecked(m);
                true
            },
            None => false,
        }
    }

    /// How the game stands: checkmate or stalemate where the side to move
    /// has no legal move, a draw by insufficient material or after a hundred
    /// plies without capture or pawn move, and in progress otherwise.
    pub fn game_state(&self) -> (state: GameState)
        requires
            self.wf(),
            self@.playable(),
        ensures
            state == self@.outcome(),
    {
        let ghost s = self@.squares;
        let t = AttackTables::new();
        let legal: Vec<Move> = self.legal_moves_with(&t);
        proof {
            assert(move_views(legal@).len() == legal@.len());
        }
        if legal.len() == 0 {
            return if self.in_check_with(&t, self.side_to_move()) {
                GameState::Checkmate
            } else {
                GameState::Stalemate
            };
        }
        let total: u32 = count_ones(self.all());
        let wn: u64 = self.bitboard(Color::White, PieceType::Knight);
        let bn: u64 = self.bitboard(Color::Black, PieceType::Knight);
        let wb: u64 = self.bitboard(Color::White, PieceType::Bishop);
        let bb: u64 = self.bitboard(Color::Black, PieceType::Bishop);
        let wp: u64 = self.bitboard(Color::White, PieceType::Pawn);
        let bp: u64 = self.bitboard(Color::Black, PieceType::Pawn);
        let wr: u64 = self.bitboard(Color::White, PieceType::Rook);
        let br: u64 = self.bitboard(Color::Black, PieceType::Rook);
        let wq: u64 = self.bitboard(Color::White, PieceType::Queen);
        let bq: u64 = self.bitboard(Color::Black, PieceType::Queen);
        let minor_bb: u64 = wn | bn | wb | bb;
        let heavy_bb: u64 = wp | bp | wr | br | wq | bq;
        let minors: u32 = count_ones(minor_bb);
        let heavy: u32 = count_ones(heavy_bb);
        proof {
            self.lemma_view();
            lemma_bit_or(wn, bn);
            lemma_bit_or(wn | bn, wb);
            lemma_bit_or(wn | bn | wb, bb);
            lemma_bit_or(wp, bp);
            lemma_bit_or(wp | bp, wr);
            lemma_bit_or(wp | bp | wr, br);
            lemma_bit_or(wp | bp | wr | br, wq);
            lemma_bit_or(wp | bp | wr | br | wq, bq);
            let all = self.all_spec();
            assert forall|i: int| 0 <= i < 64 implies bit(minor_bb, i) == is_minor(s[i]) by {
                if s[i] is Some {
                    let p = s[i]->0;
                    assert(holds(s, i, p.color, p.piece_type));
                }
            }
            assert forall|i: int| 0 <= i < 64 implies bit(heavy_bb, i) == is_heavy(s[i]) by {
                if s[i] is Some {
                    let p = s[i]->0;
                    assert(holds(s, i, p.color, p.piece_type));
                }
            }
            lemma_count_ext(|i: int| bit(all, i), |i: int| s[i] is Some, 64);
            lemma_count_ext(|i: int| bit(minor_bb, i), |i: int| is_minor(s[i]), 64);
            lemma_count_ext(|i: int| bit(heavy_bb, i), |i: int| is_heavy(s[i]), 64);
        }
        if total <= 3 && heavy == 0 && minors <= 1 {
            return GameState::Draw;
        }
        if self.halfmove_clock() >= 100 {
            return GameState::Draw;
        }
        GameState::InProgress
    }
}

/// Whether two answers to "which piece does the move promote to" agree.
fn same_promotion(a: Option<PieceType>, b: Option<PieceType>) -> (r: bool)
    ensures
        r == (a == b),
{
    match (a, b) {
        (Some(x), Some(y)) => x.index() == y.index(),
        (None, None) => true,
        _ => false,
    }
}

} // verus!
