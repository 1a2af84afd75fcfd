//! The list of moves and the rule of moves say the same: a move is in the
//! list that the engine generates exactly when the rule allows it.

use crate::geometry::{forward, on_board, pawn_attack};
use crate::position::{
    holds,
    in_check,
    move_to,
    moves_to,
    normal,
    owned,
    promotion_rank,
    promotions,
    resolve,
    scan,
    slider_reaches,
    slides,
    sees,
    start_rank,
    vacant,
    Position,
};
use crate::types::{rank_of, Color, MoveKind, MoveView, PieceType};
use vstd::prelude::*;

verus! {

// ---------------------------------------------------------------------------
// What a list holds
// ---------------------------------------------------------------------------
/// A list that is put together from two holds what either holds.
pub proof fn lemma_add_contains<T>(a: Seq<T>, b: Seq<T>, x: T)
    ensures
        (a + b).contains(x) == (a.contains(x) || b.contains(x)),
{
    if a.contains(x) {
        let i = choose|i: int| 0 <= i < a.len() && a[i] == x;
        assert((a + b)[i] == x);
    }
    if b.contains(x) {
        let i = choose|i: int| 0 <= i < b.len() && b[i] == x;
        assert((a + b)[a.len() + i] == x);
    }
    if (a + b).contains(x) {
        let i = choose|i: int| 0 <= i < (a + b).len() && (a + b)[i] == x;
        if i < a.len() {
            assert(a[i] == x);
        } else {
            assert(b[i - a.len()] == x);
        }
    }
}

/// A scan holds what one of its parts holds.
pub proof fn lemma_scan_contains<T>(f: spec_fn(int) -> Seq<T>, n: int, x: T)
    ensures
        scan(f, n).contains(x) == exists|i: int| 0 <= i < n && (#[trigger] f(i)).contains(x),
    decreases n,
{
    if n <= 0 {
        assert(scan(f, n) =~= Seq::<T>::empty());
    } else {
        lemma_scan_contains(f, n - 1, x);
        lemma_add_contains(scan(f, n - 1), f(n - 1), x);
        if exists|i: int| 0 <= i < n && (#[trigger] f(i)).contains(x) {
            let i = choose|i: int| 0 <= i < n && (#[trigger] f(i)).contains(x);
            if i < n - 1 {
                assert(0 <= i < n - 1 && f(i).contains(x));
            }
        }
        if scan(f, n).contains(x) {
            if f(n - 1).contains(x) {
            } else {
                let i = choose|i: int| 0 <= i < n - 1 && (#[trigger] f(i)).contains(x);
                assert(0 <= i < n && f(i).contains(x));
            }
        }
    }
}

/// What is left of a list holds what the list holds and the test lets pass.
pub proof fn lemma_filter_contains<T>(s: Seq<T>, keep: spec_fn(T) -> bool, x: T)
    ensures
        s.filter(keep).contains(x) == (s.contains(x) && keep(x)),
    decreases s.len(),
{
    reveal(Seq::filter);
    if s.len() > 0 {
        let init = s.drop_last();
        let last = s.last();
        lemma_filter_contains(init, keep, x);
        assert(s =~= init + seq![last]);
        lemma_add_contains(init, seq![last], x);
        lemma_one_contains(last, x);
        if keep(last) {
            assert(init.filter(keep).push(last) =~= init.filter(keep) + seq![last]);
            lemma_add_contains(init.filter(keep), seq![last], x);
        }
    }
}

/// A list of one holds that one.
pub proof fn lemma_one_contains<T>(a: T, x: T)
    ensures
        seq![a].contains(x) == (a == x),
{
    if a == x {
        assert(seq![a][0] == x);
    }
}

/// The normal moves to a set of targets are the moves to its squares.
pub proof fn lemma_moves_to_contains(from: int, targets: spec_fn(int) -> bool, m: MoveView)
    ensures
        moves_to(from, targets).contains(m) == (m.kind == MoveKind::Normal && m.from == from
            && on_board(m.to) && targets(m.to)),
{
    let f = move_to(from, targets);
    lemma_scan_contains(f, 64, m);
    if exists|i: int| 0 <= i < 64 && (#[trigger] f(i)).contains(m) {
        let i = choose|i: int| 0 <= i < 64 && (#[trigger] f(i)).contains(m);
        lemma_one_contains(normal(from, i), m);
        assert(targets(i));
    }
    if m.kind == MoveKind::Normal && m.from == from && on_board(m.to) && targets(m.to) {
        lemma_one_contains(normal(from, m.to), m);
        assert(f(m.to).contains(m));
    }
}

/// The promotions to a square are the four moves that promote there.
pub proof fn lemma_promotions_contain(from: int, to: int, m: MoveView)
    ensures
        promotions(from, to).contains(m) == (m.from == from && m.to == to && (
        m.kind matches MoveKind::Promotion(pt) && pt.promotable())),
{
    let p = promotions(from, to);
    if p.contains(m) {
        let i = choose|i: int| 0 <= i < p.len() && p[i] == m;
        assert(i == 0 || i == 1 || i == 2 || i == 3);
    }
    if m.from == from && m.to == to && (m.kind matches MoveKind::Promotion(pt) && pt.promotable()) {
        let pt = m.kind->Promotion_0;
        if pt == PieceType::Queen {
            assert(p[0] == m);
        } else if pt == PieceType::Rook {
            assert(p[1] == m);
        } else if pt == PieceType::Bishop {
            assert(p[2] == m);
        } else {
            assert(p[3] == m);
        }
    }
}

impl Position {
    // -- the rule, by kind of piece -----------------------------------------------
    /// What the rule asks of a move of the pawn on `m.from`.
    pub open spec fn pawn_rule(self, m: MoveView) -> bool {
        let s = self.squares;
        let us = self.side_to_move;
        let one = m.from + 8 * forward(us);
        let two = one + 8 * forward(us);
        let push = m.to == one && vacant(s, one);
        let double = m.to == two && rank_of(m.from) == start_rank(us) && vacant(s, one) && vacant(
            s,
            two,
        );
        let capture = pawn_attack(us, m.from, m.to) && owned(s, m.to, self.them());
        match m.kind {
            MoveKind::Normal => rank_of(m.to) != promotion_rank(us) && (push || double || capture),
            MoveKind::Promotion(pt) => pt.promotable() && rank_of(m.to) == promotion_rank(us) && (
            push || capture),
            MoveKind::EnPassant => self.en_passant == Some(m.to) && pawn_attack(us, m.from, m.to),
            MoveKind::Castle => false,
        }
    }

    /// The move of a pawn to a square is its arrival there.
    pub proof fn lemma_pawn_arrival(self, from: int, to: int, m: MoveView)
        ensures
            self.pawn_arrival(from, to).contains(m) == (m.from == from && m.to == to && if rank_of(
                to,
            ) == promotion_rank(self.side_to_move) {
                m.kind matches MoveKind::Promotion(pt) && pt.promotable()
            } else {
                m.kind == MoveKind::Normal
            }),
    {
        lemma_promotions_contain(from, to, m);
        lemma_one_contains(normal(from, to), m);
    }

    /// The moves that are listed for the pawn on `from` are those that the
    /// rule allows it.
    pub proof fn lemma_pawn_moves(self, from: int, m: MoveView)
        requires
            on_board(from),
            self.squares.len() == 64,
            self.pawns_sound(),
            holds(self.squares, from, self.side_to_move, PieceType::Pawn),
        ensures
            self.pawn_moves_from(from).contains(m) == (m.from == from && on_board(m.to)
                && self.pawn_rule(m)),
    {
        let s = self.squares;
        let us = self.side_to_move;
        let one = from + 8 * forward(us);
        let two = one + 8 * forward(us);
        let pushes = self.pawn_pushes(from);
        let captures = scan(self.pawn_capture(from), 64);
        let passing = self.pawn_en_passant(from);
        lemma_add_contains(pushes + captures, passing, m);
        lemma_add_contains(pushes, captures, m);
        // Advances.
        assert(s[from] is Some);
        lemma_promotions_contain(from, one, m);
        lemma_one_contains(normal(from, one), m);
        assert(pushes.contains(m) == (m.from == from && vacant(s, one) && (if rank_of(one)
            == promotion_rank(us) {
            m.to == one && (m.kind matches MoveKind::Promotion(pt) && pt.promotable())
        } else {
            m.kind == MoveKind::Normal && (m.to == one || (m.to == two && rank_of(from)
                == start_rank(us) && vacant(s, two)))
        }))) by {
            if vacant(s, one) && rank_of(one) != promotion_rank(us) && rank_of(from) == start_rank(
                us,
            ) && vacant(s, two) {
                let both = seq![normal(from, one), normal(from, two)];
                if both.contains(m) {
                    let i = choose|i: int| 0 <= i < both.len() && both[i] == m;
                    assert(i == 0 || i == 1);
                }
                if m == normal(from, one) {
                    assert(both[0] == m);
                }
                if m == normal(from, two) {
                    assert(both[1] == m);
                }
            }
        }
        // Captures.
        let h = self.pawn_capture(from);
        lemma_scan_contains(h, 64, m);
        assert(captures.contains(m) == (m.from == from && on_board(m.to) && pawn_attack(
            us,
            from,
            m.to,
        ) && owned(s, m.to, self.them()) && if rank_of(m.to) == promotion_rank(us) {
            m.kind matches MoveKind::Promotion(pt) && pt.promotable()
        } else {
            m.kind == MoveKind::Normal
        })) by {
            if exists|t: int| 0 <= t < 64 && (#[trigger] h(t)).contains(m) {
                let t = choose|t: int| 0 <= t < 64 && (#[trigger] h(t)).contains(m);
                self.lemma_pawn_arrival(from, t, m);
            }
            if m.from == from && on_board(m.to) && pawn_attack(us, from, m.to) && owned(
                s,
                m.to,
                self.them(),
            ) {
                self.lemma_pawn_arrival(from, m.to, m);
                if self.pawn_arrival(from, m.to).contains(m) {
                    assert(h(m.to).contains(m));
                }
            }
        }
        // En passant.
        match self.en_passant {
            Some(e) => {
                lemma_one_contains(MoveView { from, to: e, kind: MoveKind::EnPassant }, m);
            },
            None => {},
        }
    }

    /// The pawn moves that are listed are those that the rule allows.
    pub proof fn lemma_pawns_listed(self, m: MoveView)
        requires
            self.squares.len() == 64,
            self.pawns_sound(),
        ensures
            scan(self.pawn_on(), 64).contains(m) == (holds(
                self.squares,
                m.from,
                self.side_to_move,
                PieceType::Pawn,
            ) && on_board(m.to) && self.pawn_rule(m)),
    {
        let f = self.pawn_on();
        lemma_scan_contains(f, 64, m);
        if exists|i: int| 0 <= i < 64 && (#[trigger] f(i)).contains(m) {
            let i = choose|i: int| 0 <= i < 64 && (#[trigger] f(i)).contains(m);
            self.lemma_pawn_moves(i, m);
        }
        if holds(self.squares, m.from, self.side_to_move, PieceType::Pawn) {
            self.lemma_pawn_moves(m.from, m);
            if self.pawn_moves_from(m.from).contains(m) {
                assert(f(m.from).contains(m));
            }
        }
    }

    /// The moves of knights, or of the king, that are listed are the steps
    /// to squares that the own side does not hold.
    pub proof fn lemma_leapers_listed(self, pt: PieceType, m: MoveView)
        ensures
            scan(self.leaper_on(pt), 64).contains(m) == (m.kind == MoveKind::Normal && holds(
                self.squares,
                m.from,
                self.side_to_move,
                pt,
            ) && on_board(m.to) && self.leap_target(pt, m.from)(m.to)),
    {
        let f = self.leaper_on(pt);
        lemma_scan_contains(f, 64, m);
        if exists|i: int| 0 <= i < 64 && (#[trigger] f(i)).contains(m) {
            let i = choose|i: int| 0 <= i < 64 && (#[trigger] f(i)).contains(m);
            lemma_moves_to_contains(i, self.leap_target(pt, i), m);
        }
        if holds(self.squares, m.from, self.side_to_move, pt) {
            lemma_moves_to_contains(m.from, self.leap_target(pt, m.from), m);
            if moves_to(m.from, self.leap_target(pt, m.from)).contains(m) {
                assert(f(m.from).contains(m));
            }
        }
    }

    /// The moves of bishops, rooks or queens that are listed are the moves
    /// to squares in view that the own side does not hold.
    pub proof fn lemma_sliders_listed(self, pt: PieceType, m: MoveView)
        ensures
            scan(self.slider_on(pt), 64).contains(m) == (m.kind == MoveKind::Normal && holds(
                self.squares,
                m.from,
                self.side_to_move,
                pt,
            ) && on_board(m.to) && slider_reaches(self.squares, pt, m.from, m.to) && !owned(
                self.squares,
                m.to,
                self.side_to_move,
            )),
    {
        let f = self.slider_on(pt);
        lemma_scan_contains(f, 64, m);
        if exists|i: int| 0 <= i < 64 && (#[trigger] f(i)).contains(m) {
            let i = choose|i: int| 0 <= i < 64 && (#[trigger] f(i)).contains(m);
            let g = self.slide_along(pt, i);
            lemma_scan_contains(g, 8, m);
            let d = choose|d: int| 0 <= d < 8 && (#[trigger] g(d)).contains(m);
            lemma_moves_to_contains(i, self.slide_target(i, d), m);
            assert(slides(pt, d) && sees(self.squares, i, d, m.to));
        }
        if m.kind == MoveKind::Normal && holds(self.squares, m.from, self.side_to_move, pt)
            && on_board(m.to) && slider_reaches(self.squares, pt, m.from, m.to) && !owned(
            self.squares,
            m.to,
            self.side_to_move,
        ) {
            let d = choose|d: int| slides(pt, d) && #[trigger] sees(self.squares, m.from, d, m.to);
            let g = self.slide_along(pt, m.from);
            lemma_scan_contains(g, 8, m);
            lemma_moves_to_contains(m.from, self.slide_target(m.from, d), m);
            assert(0 <= d < 8);
            assert(g(d).contains(m));
            assert(f(m.from).contains(m));
        }
    }

    /// The castling moves that are listed are those that the side to move,
    /// not in check, may make.
    pub proof fn lemma_castles_listed(self, m: MoveView)
        ensures
            self.castle_moves().contains(m) == (m.kind == MoveKind::Castle && !in_check(
                self.squares,
                self.side_to_move,
            ) && self.may_castle(m.from, m.to)),
    {
        let (from, king, queen) = if self.side_to_move == Color::White {
            (4int, 6int, 2int)
        } else {
            (60int, 62int, 58int)
        };
        lemma_add_contains(self.castle_if(from, king), self.castle_if(from, queen), m);
        lemma_one_contains(MoveView { from, to: king, kind: MoveKind::Castle }, m);
        lemma_one_contains(MoveView { from, to: queen, kind: MoveKind::Castle }, m);
    }

    /// A move is in the list of the moves that the pieces can make exactly
    /// when the rule allows it.
    pub proof fn law_listed_is_pseudo_legal(self, m: MoveView)
        requires
            self.pieces_sound(),
        ensures
            self.pseudo_legal_moves().contains(m) == self.pseudo_legal(m),
    {
        let s = self.squares;
        let us = self.side_to_move;
        let pawns = scan(self.pawn_on(), 64);
        let knights = scan(self.leaper_on(PieceType::Knight), 64);
        let kings = scan(self.leaper_on(PieceType::King), 64);
        let castles = self.castle_moves();
        let bishops = scan(self.slider_on(PieceType::Bishop), 64);
        let rooks = scan(self.slider_on(PieceType::Rook), 64);
        let queens = scan(self.slider_on(PieceType::Queen), 64);
        lemma_add_contains(pawns + knights + kings + castles + bishops + rooks, queens, m);
        lemma_add_contains(pawns + knights + kings + castles + bishops, rooks, m);
        lemma_add_contains(pawns + knights + kings + castles, bishops, m);
        lemma_add_contains(pawns + knights + kings, castles, m);
        lemma_add_contains(pawns + knights, kings, m);
        lemma_add_contains(pawns, knights, m);
        self.lemma_pawns_listed(m);
        self.lemma_leapers_listed(PieceType::Knight, m);
        self.lemma_leapers_listed(PieceType::King, m);
        self.lemma_castles_listed(m);
        self.lemma_sliders_listed(PieceType::Bishop, m);
        self.lemma_sliders_listed(PieceType::Rook, m);
        self.lemma_sliders_listed(PieceType::Queen, m);
        if self.may_castle(m.from, m.to) {
            assert(holds(s, m.from, us, PieceType::King));
            assert(on_board(m.to));
        }
    }

    /// A move is in the list of the legal moves exactly when it is legal.
    pub proof fn law_listed_is_legal(self, m: MoveView)
        requires
            self.pieces_sound(),
        ensures
            self.legal_moves().contains(m) == self.legal(m),
    {
        self.law_listed_is_pseudo_legal(m);
        lemma_filter_contains(self.pseudo_legal_moves(), self.safety(), m);
    }

    /// Two moves that the rule allows and that agree on source, destination
    /// and promotion piece are the same move: the text of a move in UCI
    /// names at most one move of a position.
    pub proof fn lemma_uci_names_one_move(self, a: MoveView, b: MoveView)
        requires
            self.pieces_sound(),
            self.pseudo_legal(a),
            self.pseudo_legal(b),
            a.same_uci(b),
        ensures
            a == b,
    {
        let s = self.squares;
        assert(s[a.from] is Some);
        if a.kind != b.kind {
            assert(a.promotion() is None && b.promotion() is None);
            let p = s[a.from]->0;
            if p.piece_type == PieceType::Pawn {
                assert(vacant(s, a.to));
            }
        }
    }

    /// Where a legal move agrees with a request, it is the move that the
    /// request resolves to.
    pub proof fn law_request_is_unambiguous(self, request: MoveView, m: MoveView)
        requires
            self.pieces_sound(),
            self.legal(m),
            m.same_uci(request),
        ensures
            resolve(self.legal_moves(), request) == Some(m),
    {
        let list = self.legal_moves();
        self.law_listed_is_legal(m);
        lemma_resolve_finds(list, request, m);
        let found = resolve(list, request)->0;
        self.law_listed_is_legal(found);
        self.lemma_uci_names_one_move(found, m);
    }
}

/// A request resolves to a move of the list that agrees with it, and it
/// resolves to one where the list holds one.
pub proof fn lemma_resolve_finds(list: Seq<MoveView>, request: MoveView, m: MoveView)
    ensures
        resolve(list, request) matches Some(found) ==> list.contains(found) && found.same_uci(
            request,
        ),
        list.contains(m) && m.same_uci(request) ==> resolve(list, request) is Some,
    decreases list.len(),
{
    if list.len() > 0 {
        let rest = list.drop_first();
        lemma_resolve_finds(rest, request, m);
        if list[0].same_uci(request) {
            assert(list.contains(list[0]));
        } else {
            if resolve(rest, request) is Some {
                let found = resolve(rest, request)->0;
                let i = choose|i: int| 0 <= i < rest.len() && rest[i] == found;
                assert(list[i + 1] == found);
            }
            if list.contains(m) && m.same_uci(request) {
                let i = choose|i: int| 0 <= i < list.len() && list[i] == m;
                assert(i > 0);
                assert(rest[i - 1] == m);
            }
        }
    }
}

} // verus!
