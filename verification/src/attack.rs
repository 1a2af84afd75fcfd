//! Which squares are attacked, and whether a king is in check.

use crate::bits::{bit, lemma_bit_and, lemma_bit_or, lemma_bit_zero, lemma_nonzero_bit, lsb_index};
use crate::board::Board;
use crate::geometry::{
    before_on_ray,
    is_diagonal,
    lemma_ray_order,
    opposite_dir,
};
use crate::position::{
    attacked,
    attacks,
    first_seen,
    holds,
    in_check,
    king_square,
    lemma_sees_reverse,
    one_king,
    owned,
    sees,
    slides,
};
use crate::tables::{nearest_blocker, AttackTables};
use crate::types::{Color, Piece, PieceType, Square};
use vstd::prelude::*;

verus! {

/// A slider that is the first piece in view from `t` along a direction in
/// which it slides attacks `t`.
pub proof fn lemma_seen_slider_attacks(squares: Seq<Option<Piece>>, t: int, d: int, s: int)
    requires
        first_seen(squares, t, d, s),
        slides(squares[s]->0.piece_type, d),
    ensures
        attacks(squares, s, t),
{
    let pt = squares[s]->0.piece_type;
    let e = opposite_dir(d);
    lemma_sees_reverse(squares, t, d, s);
    assert(slides(pt, e));
    assert(sees(squares, s, e, t));
}

/// A slider that attacks `t` is the first piece in view from `t` along a
/// direction in which it slides.
pub proof fn lemma_attacking_slider_seen(squares: Seq<Option<Piece>>, s: int, t: int) -> (d: int)
    requires
        attacks(squares, s, t),
        squares[s] matches Some(p) && (p.piece_type == PieceType::Bishop || p.piece_type
            == PieceType::Rook || p.piece_type == PieceType::Queen),
    ensures
        0 <= d < 8,
        slides(squares[s]->0.piece_type, d),
        first_seen(squares, t, d, s),
{
    let pt = squares[s]->0.piece_type;
    let e = choose|e: int| slides(pt, e) && #[trigger] sees(squares, s, e, t);
    lemma_sees_reverse(squares, s, e, t);
    let d = opposite_dir(e);
    assert(slides(pt, d));
    d
}

impl Board {
    /// The square of the king of side `color`.
    pub(crate) fn king_square(&self, color: Color) -> (sq: Square)
        requires
            self.consistent(),
            one_king(self@.squares, color),
        ensures
            sq@ == king_square(self@.squares, color),
            holds(self@.squares, sq@, color, PieceType::King),
    {
        let bb: u64 = self.bitboard(color, PieceType::King);
        proof {
            lemma_nonzero_bit(bb);
            let k = choose|k: int|
                #![trigger holds(self@.squares, k, color, PieceType::King)]
                holds(self@.squares, k, color, PieceType::King) && forall|j: int|
                    holds(self@.squares, j, color, PieceType::King) ==> j == k;
            assert(bit(bb, k));
        }
        Square::from_index(lsb_index(bb))
    }

    /// Whether the first piece in view from `sq` along `dir` is one of
    /// `targets`.
    fn ray_hits(&self, t: &AttackTables, sq: Square, dir: usize, targets: u64) -> (hit: bool)
        requires
            self.consistent(),
            dir < 8,
        ensures
            hit == exists|s: int| #[trigger]
                first_seen(self@.squares, sq@, dir as int, s) && bit(targets, s),
    {
        let ray: u64 = t.ray(sq, dir);
        let all: u64 = self.all();
        let blockers: u64 = ray & all;
        let ghost sqs = self@.squares;
        let ghost a = sq@;
        let ghost d = dir as int;
        proof {
            lemma_bit_and(ray, all);
            lemma_nonzero_bit(blockers);
            lemma_bit_zero();
        }
        if blockers != 0 {
            let nb: u8 = nearest_blocker(blockers, dir);
            let hit: bool = (1u64 << (nb as u64)) & targets != 0;
            proof {
                let n = nb as int;
                crate::bits::lemma_bit_single(n);
                lemma_bit_and(1u64 << (nb as u64), targets);
                lemma_nonzero_bit((1u64 << (nb as u64)) & targets);
                assert(hit == bit(targets, n)) by {
                    if bit(targets, n) {
                        assert(bit((1u64 << (nb as u64)) & targets, n));
                    }
                }
                assert(first_seen(sqs, a, d, n)) by {
                    assert forall|x: int| #[trigger] before_on_ray(a, d, n, x) implies sqs[x] is None by {
                        lemma_ray_order(a, d, x, n);
                        assert(!bit(blockers, x));
                    }
                }
                assert forall|s: int| #[trigger] first_seen(sqs, a, d, s) implies s == n by {
                    lemma_ray_order(a, d, s, n);
                    assert(bit(blockers, s));
                    if s != n {
                        if before_on_ray(a, d, n, s) {
                            assert(!bit(blockers, s));
                        } else {
                            assert(before_on_ray(a, d, s, n));
                        }
                    }
                }
            }
            hit
        } else {
            proof {
                assert forall|s: int| !(#[trigger] first_seen(sqs, a, d, s)) by {
                    if first_seen(sqs, a, d, s) {
                        assert(bit(blockers, s));
                    }
                }
            }
            false
        }
    }

    /// Whether some piece of side `by` attacks `sq`.
    pub(crate) fn is_attacked(&self, t: &AttackTables, sq: Square, by: Color) -> (r: bool)
        requires
            self.consistent(),
        ensures
            r == attacked(self@.squares, sq@, by),
    {
        let ghost sqs = self@.squares;
        let ghost a = sq@;
        let knights: u64 = self.bitboard(by, PieceType::Knight);
        let kings: u64 = self.bitboard(by, PieceType::King);
        let pawns: u64 = self.bitboard(by, PieceType::Pawn);
        let bishops: u64 = self.bitboard(by, PieceType::Bishop);
        let rooks: u64 = self.bitboard(by, PieceType::Rook);
        let queens: u64 = self.bitboard(by, PieceType::Queen);
        let knight_steps: u64 = t.knight(sq);
        let king_steps: u64 = t.king(sq);
        // The squares from which a pawn of `by` attacks `sq` are those that a
        // pawn of the other side on `sq` would attack.
        let pawn_steps: u64 = t.pawn(by.opposite(), sq);
        let by_knight: u64 = knight_steps & knights;
        let by_king: u64 = king_steps & kings;
        let by_pawn: u64 = pawn_steps & pawns;
        let diagonal: u64 = bishops | queens;
        let straight: u64 = rooks | queens;
        proof {
            lemma_bit_zero();
            lemma_bit_and(knight_steps, knights);
            lemma_bit_and(king_steps, kings);
            lemma_bit_and(pawn_steps, pawns);
            lemma_bit_or(bishops, queens);
            lemma_bit_or(rooks, queens);
            lemma_nonzero_bit(by_knight);
            lemma_nonzero_bit(by_king);
            lemma_nonzero_bit(by_pawn);
            use_type_invariant(&sq);
            sq.lemma_on_board();
        }
        if by_knight != 0 {
            proof {
                let s = choose|s: int| bit(by_knight, s);
                assert(owned(sqs, s, by) && attacks(sqs, s, a));
            }
            return true;
        }
        if by_king != 0 {
            proof {
                let s = choose|s: int| bit(by_king, s);
                assert(owned(sqs, s, by) && attacks(sqs, s, a));
            }
            return true;
        }
        if by_pawn != 0 {
            proof {
                let s = choose|s: int| bit(by_pawn, s);
                assert(owned(sqs, s, by) && attacks(sqs, s, a));
            }
            return true;
        }
        let mut dir: usize = 0;
        while dir < 8
            invariant
                self.consistent(),
                sqs == self@.squares,
                a == sq@,
                dir <= 8,
                forall|i: int| #[trigger] bit(diagonal, i) == (holds(sqs, i, by, PieceType::Bishop)
                    || holds(sqs, i, by, PieceType::Queen)),
                forall|i: int| #[trigger] bit(straight, i) == (holds(sqs, i, by, PieceType::Rook)
                    || holds(sqs, i, by, PieceType::Queen)),
                forall|e: int, s: int|
                    0 <= e < dir && #[trigger] first_seen(sqs, a, e, s) ==> !bit(
                        if is_diagonal(e) {
                            diagonal
                        } else {
                            straight
                        },
                        s,
                    ),
            decreases 8 - dir,
        {
            let targets: u64 = if dir % 2 == 1 {
                diagonal
            } else {
                straight
            };
            if self.ray_hits(t, sq, dir, targets) {
                proof {
                    let s = choose|s: int| #[trigger]
                        first_seen(sqs, a, dir as int, s) && bit(targets, s);
                    lemma_seen_slider_attacks(sqs, a, dir as int, s);
                    assert(owned(sqs, s, by) && attacks(sqs, s, a));
                }
                return true;
            }
            dir = dir + 1;
        }
        proof {
            assert forall|s: int| owned(sqs, s, by) implies !#[trigger] attacks(sqs, s, a) by {
                if attacks(sqs, s, a) {
                    let p = sqs[s]->0;
                    match p.piece_type {
                        PieceType::Pawn => {
                            assert(bit(by_pawn, s));
                        },
                        PieceType::Knight => {
                            assert(bit(by_knight, s));
                        },
                        PieceType::King => {
                            assert(bit(by_king, s));
                        },
                        _ => {
                            let e = lemma_attacking_slider_seen(sqs, s, a);
                            assert(first_seen(sqs, a, e, s));
                            assert(bit(
                                if is_diagonal(e) {
                                    diagonal
                                } else {
                                    straight
                                },
                                s,
                            ));
                        },
                    }
                }
            }
        }
        false
    }

    /// Whether the king of side `color` is attacked.
    pub(crate) fn in_check_with(&self, t: &AttackTables, color: Color) -> (r: bool)
        requires
            self.consistent(),
            one_king(self@.squares, color),
        ensures
            r == in_check(self@.squares, color),
    {
        let king: Square = self.king_square(color);
        self.is_attacked(t, king, color.opposite())
    }

    /// Whether the king of side `color` is in check.
    pub fn is_in_check(&self, color: Color) -> (r: bool)
        requires
            self.wf(),
        ensures
            r == in_check(self@.squares, color),
    {
        let t = AttackTables::new();
        self.in_check_with(&t, color)
    }
}

} // verus!
