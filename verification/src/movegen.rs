//! Generation of the moves that the pieces can make, before the test of
//! whether a move leaves the own king attacked.

use crate::bits::{
    bit,
    lemma_bit_and,
    lemma_bit_not,
    lemma_bit_or,
    lemma_bit_xor,
    lemma_bit_zero,
    lemma_clear_lowest,
    lemma_nonzero_bit,
    lsb_index,
};
use crate::board::Board;
use crate::geometry::{
    before_on_ray,
    distance,
    lemma_ray_beyond,
    lemma_ray_order,
    on_ray,
    pawn_attack,
};
use crate::position::{
    holds,
    in_check,
    owned,
    vacant,
    lemma_scan_skip,
    lemma_scan_step,
    move_to,
    moves_to,
    normal,
    promotion_rank,
    promotions,
    scan,
    sees,
    slides,
    Position,
};
use crate::tables::{nearest_blocker, AttackTables};
use crate::types::{move_views, rank_of, Color, Move, MoveView, PieceType, Square};
use vstd::prelude::*;

verus! {

/// Every move of the list is one that the pieces can make in `pos`.
pub open spec fn all_pseudo_legal(pos: Position, moves: Seq<Move>) -> bool {
    forall|k: int| 0 <= k < moves.len() ==> pos.pseudo_legal(#[trigger] moves[k]@)
}

/// Appends one move.
fn push_move(moves: &mut Vec<Move>, m: Move, Ghost(pos): Ghost<Position>)
    requires
        all_pseudo_legal(pos, old(moves)@),
        pos.pseudo_legal(m@),
    ensures
        move_views(final(moves)@) == move_views(old(moves)@).push(m@),
        move_views(final(moves)@) == move_views(old(moves)@) + seq![m@],
        all_pseudo_legal(pos, final(moves)@),
{
    moves.push(m);
    proof {
        assert(move_views(moves@) =~= move_views(old(moves)@).push(m@));
        assert(move_views(old(moves)@).push(m@) =~= move_views(old(moves)@) + seq![m@]);
    }
}

/// Appends the normal moves from `from` to each square of `targets`, lowest
/// square first.
#[verifier::loop_isolation(false)]
fn push_moves(
    moves: &mut Vec<Move>,
    from: Square,
    targets: u64,
    Ghost(wanted): Ghost<spec_fn(int) -> bool>,
    Ghost(pos): Ghost<Position>,
)
    requires
        forall|t: int| #[trigger] bit(targets, t) == wanted(t),
        forall|t: int| bit(targets, t) ==> pos.pseudo_legal(#[trigger] normal(from@, t)),
        all_pseudo_legal(pos, old(moves)@),
    ensures
        move_views(final(moves)@) == move_views(old(moves)@) + moves_to(from@, wanted),
        all_pseudo_legal(pos, final(moves)@),
{
    let ghost base = move_views(moves@);
    let ghost f = move_to(from@, wanted);
    let ghost mut cursor: int = 0;
    let mut rest: u64 = targets;
    proof {
        assert(base =~= base + scan(f, 0));
    }
    while rest != 0
        invariant
            0 <= cursor <= 64,
            forall|t: int| #[trigger] bit(rest, t) == (t >= cursor && wanted(t)),
            move_views(moves@) == base + scan(f, cursor),
            all_pseudo_legal(pos, moves@),
        decreases 64 - cursor,
    {
        let i: u8 = lsb_index(rest);
        let to = Square::from_index(i);
        proof {
            lemma_clear_lowest(rest, i as int);
            assert forall|j: int| cursor <= j < i implies (#[trigger] f(j)).len() == 0 by {
                assert(!bit(rest, j));
            }
            lemma_scan_skip(f, cursor, i as int);
            lemma_scan_step(f, i as int);
            assert(bit(targets, i as int));
        }
        rest = rest & (rest - 1);
        push_move(moves, Move::normal(from, to), Ghost(pos));
        proof {
            assert(f(i as int) == seq![normal(from@, i as int)]);
            assert(move_views(moves@) =~= base + scan(f, i + 1));
            cursor = i + 1;
        }
    }
    proof {
        lemma_bit_zero();
        assert forall|j: int| cursor <= j < 64 implies (#[trigger] f(j)).len() == 0 by {
            assert(!bit(rest, j));
        }
        lemma_scan_skip(f, cursor, 64);
    }
}

/// Appends the move of a pawn from `from` to `to`: the four promotions if
/// `promote`, the normal move if not.
fn push_arrival(
    moves: &mut Vec<Move>,
    from: Square,
    to: Square,
    promote: bool,
    Ghost(pos): Ghost<Position>,
)
    requires
        promote == (crate::types::rank_of(to@) == promotion_rank(pos.side_to_move)),
        promote ==> forall|k: int|
            0 <= k < 4 ==> pos.pseudo_legal(#[trigger] promotions(from@, to@)[k]),
        !promote ==> pos.pseudo_legal(normal(from@, to@)),
        all_pseudo_legal(pos, old(moves)@),
    ensures
        move_views(final(moves)@) == move_views(old(moves)@) + pos.pawn_arrival(from@, to@),
        all_pseudo_legal(pos, final(moves)@),
{
    let ghost base = move_views(moves@);
    if promote {
        proof {
            let p = promotions(from@, to@);
            assert(pos.pseudo_legal(p[0]) && pos.pseudo_legal(p[1]) && pos.pseudo_legal(p[2])
                && pos.pseudo_legal(p[3]));
        }
        push_move(moves, Move::promotion(from, to, PieceType::Queen), Ghost(pos));
        push_move(moves, Move::promotion(from, to, PieceType::Rook), Ghost(pos));
        push_move(moves, Move::promotion(from, to, PieceType::Bishop), Ghost(pos));
        push_move(moves, Move::promotion(from, to, PieceType::Knight), Ghost(pos));
        proof {
            assert(move_views(moves@) =~= base + promotions(from@, to@));
        }
    } else {
        push_move(moves, Move::normal(from, to), Ghost(pos));
    }
}

/// Whether a piece of kind `pt` slides in direction `dir`.
fn slides_along(pt: PieceType, dir: usize) -> (r: bool)
    requires
        dir < 8,
    ensures
        r == slides(pt, dir as int),
{
    match pt {
        PieceType::Bishop => dir % 2 == 1,
        PieceType::Rook => dir % 2 == 0,
        PieceType::Queen => true,
        _ => false,
    }
}

impl Board {
    /// The squares in view from `from` along `dir`: the ray up to and with
    /// the nearest piece on it.
    fn ray_reach(&self, t: &AttackTables, from: Square, dir: usize) -> (reach: u64)
        requires
            self.consistent(),
            dir < 8,
        ensures
            forall|x: int| #[trigger] bit(reach, x) == sees(self@.squares, from@, dir as int, x),
    {
        let ray: u64 = t.ray(from, dir);
        let all: u64 = self.all();
        let blockers: u64 = ray & all;
        let ghost sqs = self@.squares;
        let ghost a = from@;
        let ghost d = dir as int;
        proof {
            lemma_bit_and(ray, all);
            lemma_nonzero_bit(blockers);
            lemma_bit_zero();
        }
        if blockers == 0 {
            proof {
                assert forall|x: int| #[trigger] bit(ray, x) == sees(sqs, a, d, x) by {
                    if on_ray(a, d, x) {
                        assert forall|y: int| #[trigger]
                            before_on_ray(a, d, x, y) implies sqs[y] is None by {
                            assert(!bit(blockers, y));
                        }
                    }
                }
            }
            ray
        } else {
            let nb: u8 = nearest_blocker(blockers, dir);
            let beyond: u64 = t.ray(Square::from_index(nb), dir);
            proof {
                let n = nb as int;
                lemma_bit_xor(ray, beyond);
                assert forall|x: int| #[trigger] bit(ray ^ beyond, x) == sees(sqs, a, d, x) by {
                    lemma_ray_beyond(a, d, n, x);
                    if on_ray(a, d, x) {
                        lemma_ray_order(a, d, x, n);
                        if distance(a, x) <= distance(a, n) {
                            assert forall|y: int| #[trigger]
                                before_on_ray(a, d, x, y) implies sqs[y] is None by {
                                lemma_ray_order(a, d, y, n);
                                assert(!bit(blockers, y));
                            }
                        } else {
                            assert(before_on_ray(a, d, x, n));
                        }
                    }
                }
            }
            ray ^ beyond
        }
    }

    /// Appends the moves of the knights, or of the king, of the side to move.
    #[verifier::loop_isolation(false)]
    fn gen_leaper(&self, t: &AttackTables, moves: &mut Vec<Move>, pt: PieceType)
        requires
            self.consistent(),
            pt == PieceType::Knight || pt == PieceType::King,
            all_pseudo_legal(self@, old(moves)@),
        ensures
            move_views(final(moves)@) == move_views(old(moves)@) + scan(self@.leaper_on(pt), 64),
            all_pseudo_legal(self@, final(moves)@),
    {
        let ghost pos = self@;
        let ghost base = move_views(moves@);
        let ghost f = pos.leaper_on(pt);
        let ghost mut cursor: int = 0;
        let us: Color = self.side_to_move();
        let own: u64 = self.occupancy(us);
        let mut bb: u64 = self.bitboard(us, pt);
        proof {
            self.lemma_view();
            lemma_bit_not(own);
            assert(base =~= base + scan(f, 0));
        }
        while bb != 0
            invariant
                0 <= cursor <= 64,
                forall|i: int|
                    #[trigger] bit(bb, i) == (i >= cursor && crate::position::holds(
                        pos.squares,
                        i,
                        us,
                        pt,
                    )),
                move_views(moves@) == base + scan(f, cursor),
                all_pseudo_legal(pos, moves@),
            decreases 64 - cursor,
        {
            let i: u8 = lsb_index(bb);
            let from = Square::from_index(i);
            proof {
                lemma_clear_lowest(bb, i as int);
                assert forall|j: int| cursor <= j < i implies (#[trigger] f(j)).len() == 0 by {
                    assert(!bit(bb, j));
                }
                lemma_scan_skip(f, cursor, i as int);
                lemma_scan_step(f, i as int);
            }
            bb = bb & (bb - 1);
            let steps: u64 = match pt {
                PieceType::Knight => t.knight(from),
                _ => t.king(from),
            };
            let targets: u64 = steps & !own;
            let ghost wanted = pos.leap_target(pt, from@);
            proof {
                lemma_bit_and(steps, !own);
                assert forall|x: int| #[trigger] bit(targets, x) == wanted(x) by {}
                assert forall|x: int| bit(targets, x) implies pos.pseudo_legal(
                    #[trigger] normal(from@, x),
                ) by {}
            }
            push_moves(moves, from, targets, Ghost(wanted), Ghost(pos));
            proof {
                assert(f(i as int) == moves_to(from@, wanted));
                assert(move_views(moves@) =~= base + scan(f, i + 1));
                cursor = i + 1;
            }
        }
        proof {
            lemma_bit_zero();
            assert forall|j: int| cursor <= j < 64 implies (#[trigger] f(j)).len() == 0 by {
                assert(!bit(bb, j));
            }
            lemma_scan_skip(f, cursor, 64);
        }
    }

    /// Appends the moves of the bishops, the rooks or the queens of the side
    /// to move.
    #[verifier::loop_isolation(false)]
    fn gen_slider(&self, t: &AttackTables, moves: &mut Vec<Move>, pt: PieceType)
        requires
            self.consistent(),
            pt == PieceType::Bishop || pt == PieceType::Rook || pt == PieceType::Queen,
            all_pseudo_legal(self@, old(moves)@),
        ensures
            move_views(final(moves)@) == move_views(old(moves)@) + scan(self@.slider_on(pt), 64),
            all_pseudo_legal(self@, final(moves)@),
    {
        let ghost pos = self@;
        let ghost base = move_views(moves@);
        let ghost f = pos.slider_on(pt);
        let ghost mut cursor: int = 0;
        let us: Color = self.side_to_move();
        let own: u64 = self.occupancy(us);
        let mut bb: u64 = self.bitboard(us, pt);
        proof {
            self.lemma_view();
            lemma_bit_not(own);
            assert(base =~= base + scan(f, 0));
        }
        while bb != 0
            invariant
                0 <= cursor <= 64,
                forall|i: int|
                    #[trigger] bit(bb, i) == (i >= cursor && crate::position::holds(
                        pos.squares,
                        i,
                        us,
                        pt,
                    )),
                move_views(moves@) == base + scan(f, cursor),
                all_pseudo_legal(pos, moves@),
            decreases 64 - cursor,
        {
            let i: u8 = lsb_index(bb);
            let from = Square::from_index(i);
            proof {
                lemma_clear_lowest(bb, i as int);
                assert forall|j: int| cursor <= j < i implies (#[trigger] f(j)).len() == 0 by {
                    assert(!bit(bb, j));
                }
                lemma_scan_skip(f, cursor, i as int);
                lemma_scan_step(f, i as int);
            }
            bb = bb & (bb - 1);
            let ghost piece_base = move_views(moves@);
            let ghost g = pos.slide_along(pt, from@);
            let mut dir: usize = 0;
            proof {
                assert(piece_base =~= piece_base + scan(g, 0));
            }
            while dir < 8
                invariant
                    dir <= 8,
                    move_views(moves@) == piece_base + scan(g, dir as int),
                    all_pseudo_legal(pos, moves@),
                decreases 8 - dir,
            {
                let ghost before = move_views(moves@);
                proof {
                    lemma_scan_step(g, dir as int);
                }
                if slides_along(pt, dir) {
                    let reach: u64 = self.ray_reach(t, from, dir);
                    let targets: u64 = reach & !own;
                    let ghost wanted = pos.slide_target(from@, dir as int);
                    proof {
                        lemma_bit_and(reach, !own);
                        assert forall|x: int| #[trigger] bit(targets, x) == wanted(x) by {}
                        assert forall|x: int| bit(targets, x) implies pos.pseudo_legal(
                            #[trigger] normal(from@, x),
                        ) by {
                            assert(sees(pos.squares, from@, dir as int, x));
                        }
                    }
                    push_moves(moves, from, targets, Ghost(wanted), Ghost(pos));
                    proof {
                        assert(g(dir as int) == moves_to(from@, wanted));
                    }
                } else {
                    proof {
                        assert(g(dir as int) =~= Seq::<MoveView>::empty());
                        assert(before =~= before + g(dir as int));
                    }
                }
                proof {
                    assert(move_views(moves@) =~= piece_base + scan(g, dir + 1));
                }
                dir = dir + 1;
            }
            proof {
                assert(f(i as int) == scan(g, 8));
                assert(move_views(moves@) =~= base + scan(f, i + 1));
                cursor = i + 1;
            }
        }
        proof {
            lemma_bit_zero();
            assert forall|j: int| cursor <= j < 64 implies (#[trigger] f(j)).len() == 0 by {
                assert(!bit(bb, j));
            }
            lemma_scan_skip(f, cursor, 64);
        }
    }

    /// Appends the advances of the pawn on `from`.
    fn gen_pawn_pushes(&self, moves: &mut Vec<Move>, from: Square)
        requires
            self.consistent(),
            self@.pawns_sound(),
            holds(self@.squares, from@, self@.side_to_move, PieceType::Pawn),
            all_pseudo_legal(self@, old(moves)@),
        ensures
            move_views(final(moves)@) == move_views(old(moves)@) + self@.pawn_pushes(from@),
            all_pseudo_legal(self@, final(moves)@),
    {
        let ghost pos = self@;
        let ghost base = move_views(moves@);
        let ghost a = from@;
        let white: bool = self.side_to_move() == Color::White;
        let all: u64 = self.all();
        let i: u8 = from.raw();
        proof {
            self.lemma_view();
            assert(pos.squares[a] is Some);
            assert(white ==> a < 56);
            assert(!white ==> a >= 8);
            lemma_bit_zero();
        }
        let one = if white {
            Square::from_index(i + 8)
        } else {
            Square::from_index(i - 8)
        };
        let one_bb: u64 = one.bitboard();
        proof {
            lemma_bit_and(all, one_bb);
            lemma_nonzero_bit(all & one_bb);
        }
        if all & one_bb != 0 {
            proof {
                let x = choose|x: int| bit(all & one_bb, x);
                assert(x == one@);
                assert(!vacant(pos.squares, one@));
                assert(base =~= base + pos.pawn_pushes(a));
            }
            return ;
        }
        proof {
            assert(!bit(all & one_bb, one@));
            assert(vacant(pos.squares, one@));
        }
        let last: u8 = if white {
            7
        } else {
            0
        };
        if one.rank() == last {
            proof {
                assert forall|k: int| 0 <= k < 4 implies pos.pseudo_legal(
                    #[trigger] promotions(a, one@)[k],
                ) by {
                    if k == 0 {
                    } else if k == 1 {
                    } else if k == 2 {
                    } else {
                    }
                }
            }
            push_arrival(moves, from, one, true, Ghost(pos));
            return ;
        }
        push_move(moves, Move::normal(from, one), Ghost(pos));
        let first: u8 = if white {
            1
        } else {
            6
        };
        if from.rank() == first {
            let two = if white {
                Square::from_index(i + 16)
            } else {
                Square::from_index(i - 16)
            };
            let two_bb: u64 = two.bitboard();
            proof {
                lemma_bit_and(all, two_bb);
                lemma_nonzero_bit(all & two_bb);
            }
            if all & two_bb == 0 {
                proof {
                    assert(!bit(all & two_bb, two@));
                    assert(vacant(pos.squares, two@));
                }
                push_move(moves, Move::normal(from, two), Ghost(pos));
                proof {
                    assert(move_views(moves@) =~= base + pos.pawn_pushes(a));
                }
            } else {
                proof {
                    let x = choose|x: int| bit(all & two_bb, x);
                    assert(x == two@);
                    assert(!vacant(pos.squares, two@));
                }
            }
        }
    }

    /// Appends the captures of the pawn on `from`, by target square.
    #[verifier::loop_isolation(false)]
    fn gen_pawn_captures(&self, t: &AttackTables, moves: &mut Vec<Move>, from: Square)
        requires
            self.consistent(),
            holds(self@.squares, from@, self@.side_to_move, PieceType::Pawn),
            all_pseudo_legal(self@, old(moves)@),
        ensures
            move_views(final(moves)@) == move_views(old(moves)@) + scan(
                self@.pawn_capture(from@),
                64,
            ),
            all_pseudo_legal(self@, final(moves)@),
    {
        let ghost pos = self@;
        let ghost a = from@;
        let us: Color = self.side_to_move();
        let them: Color = us.opposite();
        let last: u8 = if us == Color::White {
            7
        } else {
            0
        };
        let enemy: u64 = self.occupancy(them);
        let attacks: u64 = t.pawn(us, from);
        let mut caps: u64 = attacks & enemy;
        let ghost h = pos.pawn_capture(a);
        let ghost base = move_views(moves@);
        let ghost mut seen: int = 0;
        proof {
            self.lemma_view();
            lemma_bit_and(attacks, enemy);
            assert(base =~= base + scan(h, 0));
        }
        while caps != 0
            invariant
                0 <= seen <= 64,
                forall|x: int|
                    #[trigger] bit(caps, x) == (x >= seen && pawn_attack(us, a, x) && owned(
                        pos.squares,
                        x,
                        them,
                    )),
                move_views(moves@) == base + scan(h, seen),
                all_pseudo_legal(pos, moves@),
            decreases 64 - seen,
        {
            let j: u8 = lsb_index(caps);
            let to = Square::from_index(j);
            proof {
                lemma_clear_lowest(caps, j as int);
                assert forall|x: int| seen <= x < j implies (#[trigger] h(x)).len() == 0 by {
                    assert(!bit(caps, x));
                }
                lemma_scan_skip(h, seen, j as int);
                lemma_scan_step(h, j as int);
                assert(pos.squares[a] is Some);
                if rank_of(j as int) == promotion_rank(us) {
                    assert forall|k: int| 0 <= k < 4 implies pos.pseudo_legal(
                        #[trigger] promotions(a, j as int)[k],
                    ) by {
                        if k == 0 {
                        } else if k == 1 {
                        } else if k == 2 {
                        } else {
                        }
                    }
                }
            }
            caps = caps & (caps - 1);
            push_arrival(moves, from, to, to.rank() == last, Ghost(pos));
            proof {
                assert(h(j as int) == pos.pawn_arrival(a, j as int));
                assert(move_views(moves@) =~= base + scan(h, j + 1));
                seen = j + 1;
            }
        }
        proof {
            lemma_bit_zero();
            assert forall|x: int| seen <= x < 64 implies (#[trigger] h(x)).len() == 0 by {
                assert(!bit(caps, x));
            }
            lemma_scan_skip(h, seen, 64);
        }
    }

    /// Appends the en-passant capture of the pawn on `from`, if there is one.
    fn gen_pawn_en_passant(&self, t: &AttackTables, moves: &mut Vec<Move>, from: Square)
        requires
            self.consistent(),
            holds(self@.squares, from@, self@.side_to_move, PieceType::Pawn),
            all_pseudo_legal(self@, old(moves)@),
        ensures
            move_views(final(moves)@) == move_views(old(moves)@) + self@.pawn_en_passant(from@),
            all_pseudo_legal(self@, final(moves)@),
    {
        let ghost pos = self@;
        let ghost base = move_views(moves@);
        let attacks: u64 = t.pawn(self.side_to_move(), from);
        proof {
            self.lemma_view();
            lemma_bit_zero();
            assert(pos.squares[from@] is Some);
        }
        match self.en_passant() {
            Some(e) => {
                let e_bb: u64 = e.bitboard();
                proof {
                    lemma_bit_and(attacks, e_bb);
                    lemma_nonzero_bit(attacks & e_bb);
                }
                if attacks & e_bb != 0 {
                    proof {
                        let x = choose|x: int| bit(attacks & e_bb, x);
                        assert(x == e@);
                    }
                    push_move(moves, Move::en_passant(from, e), Ghost(pos));
                } else {
                    proof {
                        assert(!bit(attacks & e_bb, e@));
                        assert(base =~= base + pos.pawn_en_passant(from@));
                    }
                }
            },
            None => {
                proof {
                    assert(base =~= base + pos.pawn_en_passant(from@));
                }
            },
        }
    }

    /// Appends the moves of the pawns of the side to move.
    #[verifier::loop_isolation(false)]
    fn gen_pawns(&self, t: &AttackTables, moves: &mut Vec<Move>)
        requires
            self.consistent(),
            self@.pawns_sound(),
            all_pseudo_legal(self@, old(moves)@),
        ensures
            move_views(final(moves)@) == move_views(old(moves)@) + scan(self@.pawn_on(), 64),
            all_pseudo_legal(self@, final(moves)@),
    {
        let ghost pos = self@;
        let ghost base = move_views(moves@);
        let ghost f = pos.pawn_on();
        let ghost mut cursor: int = 0;
        let us: Color = self.side_to_move();
        let mut bb: u64 = self.bitboard(us, PieceType::Pawn);
        proof {
            assert(base =~= base + scan(f, 0));
        }
        while bb != 0
            invariant
                0 <= cursor <= 64,
                forall|i: int|
                    #[trigger] bit(bb, i) == (i >= cursor && holds(
                        pos.squares,
                        i,
                        us,
                        PieceType::Pawn,
                    )),
                move_views(moves@) == base + scan(f, cursor),
                all_pseudo_legal(pos, moves@),
            decreases 64 - cursor,
        {
            let i: u8 = lsb_index(bb);
            let from = Square::from_index(i);
            let ghost a = i as int;
            proof {
                lemma_clear_lowest(bb, a);
                assert forall|j: int| cursor <= j < i implies (#[trigger] f(j)).len() == 0 by {
                    assert(!bit(bb, j));
                }
                lemma_scan_skip(f, cursor, a);
                lemma_scan_step(f, a);
            }
            bb = bb & (bb - 1);
            self.gen_pawn_pushes(moves, from);
            self.gen_pawn_captures(t, moves, from);
            self.gen_pawn_en_passant(t, moves, from);
            proof {
                assert(f(a) == pos.pawn_moves_from(a));
                assert(move_views(moves@) =~= base + scan(f, a + 1));
                cursor = a + 1;
            }
        }
        proof {
            lemma_bit_zero();
            assert forall|j: int| cursor <= j < 64 implies (#[trigger] f(j)).len() == 0 by {
                assert(!bit(bb, j));
            }
            lemma_scan_skip(f, cursor, 64);
        }
    }

    /// Appends the castling move of the king from `king_from` to `king_to`
    /// if the side to move, which is not in check, may make it: it holds the
    /// `right`, the path between king and rook is vacant, and neither the
    /// `transit` square nor `king_to` is attacked. `beside_rook` is the
    /// square of the path that the king does not touch, on the queen's wing.
    fn gen_castle(
        &self,
        t: &AttackTables,
        moves: &mut Vec<Move>,
        right: bool,
        king_from: u8,
        king_to: u8,
        transit: u8,
        beside_rook: Option<u8>,
    )
        requires
            self.wf(),
            self@.castling_sound(),
            !in_check(self@.squares, self@.side_to_move),
            all_pseudo_legal(self@, old(moves)@),
            ({
                let c = self@.castling;
                let white = self@.side_to_move == Color::White;
                ||| (white && king_from == 4 && king_to == 6 && transit == 5 && beside_rook is None
                    && right == c.white_kingside)
                ||| (white && king_from == 4 && king_to == 2 && transit == 3 && beside_rook == Some(
                    1u8,
                ) && right == c.white_queenside)
                ||| (!white && king_from == 60 && king_to == 62 && transit == 61
                    && beside_rook is None && right == c.black_kingside)
                ||| (!white && king_from == 60 && king_to == 58 && transit == 59 && beside_rook
                    == Some(57u8) && right == c.black_queenside)
            }),
        ensures
            move_views(final(moves)@) == move_views(old(moves)@) + self@.castle_if(
                king_from as int,
                king_to as int,
            ),
            all_pseudo_legal(self@, final(moves)@),
    {
        let ghost pos = self@;
        let ghost base = move_views(moves@);
        let from = Square::from_index(king_from);
        let to = Square::from_index(king_to);
        let across = Square::from_index(transit);
        let attacker: Color = self.side_to_move().opposite();
        let all: u64 = self.all();
        let to_bb: u64 = to.bitboard();
        let across_bb: u64 = across.bitboard();
        let mut path: u64 = across_bb | to_bb;
        proof {
            self.lemma_view();
            lemma_bit_or(across_bb, to_bb);
        }
        match beside_rook {
            Some(b) => {
                let b_bb: u64 = Square::from_index(b).bitboard();
                proof {
                    lemma_bit_or(path, b_bb);
                }
                path = path | b_bb;
            },
            None => {},
        }
        proof {
            lemma_bit_and(all, path);
            lemma_nonzero_bit(all & path);
            lemma_bit_zero();
            if all & path != 0 {
                let x = choose|x: int| bit(all & path, x);
                assert(!vacant(pos.squares, x));
            } else {
                assert(!bit(all & path, transit as int));
                assert(!bit(all & path, king_to as int));
                if beside_rook is Some {
                    assert(!bit(all & path, beside_rook->0 as int));
                }
            }
        }
        if right && all & path == 0 && !self.is_attacked(t, across, attacker) && !self.is_attacked(
            t,
            to,
            attacker,
        ) {
            proof {
                assert(pos.may_castle(king_from as int, king_to as int));
            }
            push_move(moves, Move::castle(from, to), Ghost(pos));
        } else {
            proof {
                assert(!pos.may_castle(king_from as int, king_to as int));
                assert(base =~= base + pos.castle_if(king_from as int, king_to as int));
            }
        }
    }

    /// Appends the castling moves of the side to move.
    fn gen_castling(&self, t: &AttackTables, moves: &mut Vec<Move>)
        requires
            self.wf(),
            self@.castling_sound(),
            all_pseudo_legal(self@, old(moves)@),
        ensures
            move_views(final(moves)@) == move_views(old(moves)@) + self@.castle_moves(),
            all_pseudo_legal(self@, final(moves)@),
    {
        let ghost base = move_views(moves@);
        let us: Color = self.side_to_move();
        if self.in_check_with(t, us) {
            proof {
                assert(base =~= base + self@.castle_moves());
            }
            return ;
        }
        let rights = self.castling();
        if us == Color::White {
            self.gen_castle(t, moves, rights.white_kingside(), 4, 6, 5, None);
            self.gen_castle(t, moves, rights.white_queenside(), 4, 2, 3, Some(1));
        } else {
            self.gen_castle(t, moves, rights.black_kingside(), 60, 62, 61, None);
            self.gen_castle(t, moves, rights.black_queenside(), 60, 58, 59, Some(57));
        }
        proof {
            assert(move_views(moves@) =~= base + self@.castle_moves());
        }
    }

    /// Every move of the side to move that the pieces can make, whether or
    /// not it leaves the own king attacked: pawns first, then knights, king,
    /// castling, bishops, rooks and queens.
    pub(crate) fn generate_pseudo_legal(&self, t: &AttackTables) -> (moves: Vec<Move>)
        requires
            self.wf(),
            self@.playable(),
        ensures
            move_views(moves@) == self@.pseudo_legal_moves(),
            all_pseudo_legal(self@, moves@),
    {
        let mut moves: Vec<Move> = Vec::with_capacity(256);
        proof {
            assert(move_views(moves@) =~= Seq::<MoveView>::empty());
        }
        self.gen_pawns(t, &mut moves);
        self.gen_leaper(t, &mut moves, PieceType::Knight);
        self.gen_leaper(t, &mut moves, PieceType::King);
        self.gen_castling(t, &mut moves);
        self.gen_slider(t, &mut moves, PieceType::Bishop);
        self.gen_slider(t, &mut moves, PieceType::Rook);
        self.gen_slider(t, &mut moves, PieceType::Queen);
        proof {
            assert(move_views(moves@) =~= self@.pseudo_legal_moves());
        }
        moves
    }
}

} // verus!
