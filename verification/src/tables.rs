//! Attack tables: for every square, the squares that a knight, a king or a
//! pawn on it attacks, and the eight rays that leave it.

use crate::bits::{bit, lemma_bit_or, lemma_bit_single, lemma_bit_zero, lsb_index, msb_index};
use crate::geometry::{
    dir_file,
    dir_rank,
    distance,
    increasing,
    king_step,
    knight_step,
    lemma_ray_end,
    lemma_ray_order,
    lemma_ray_square,
    on_board,
    on_ray,
    pawn_attack,
    steps,
};
use crate::types::{file_of, rank_of, Color, Square};
use vstd::prelude::*;

verus! {

/// `t` is the square that lies `dr` ranks and `df` files from the square on
/// `rank` and `file`.
pub open spec fn at_offset(rank: int, file: int, dr: int, df: int, t: int) -> bool {
    on_board(t) && rank_of(t) == rank + dr && file_of(t) == file + df
}

/// Adds to `bb` the square at the given offset, if it is on the board.
fn with_offset(bb: u64, rank: u8, file: u8, dr: i8, df: i8) -> (out: u64)
    requires
        rank < 8,
        file < 8,
        -2 <= dr <= 2,
        -2 <= df <= 2,
    ensures
        forall|t: int| #[trigger]
            bit(out, t) == (bit(bb, t) || at_offset(rank as int, file as int, dr as int, df as int, t)),
{
    let r: i8 = rank as i8 + dr;
    let f: i8 = file as i8 + df;
    if 0 <= r && r < 8 && 0 <= f && f < 8 {
        let s: u8 = (r * 8 + f) as u8;
        proof {
            lemma_bit_single(s as int);
            lemma_bit_or(bb, 1u64 << (s as u64));
            assert forall|t: int|
                at_offset(rank as int, file as int, dr as int, df as int, t) == (t == s) by {}
        }
        bb | (1u64 << (s as u64))
    } else {
        bb
    }
}

/// The squares a knight on `sq` attacks.
pub fn compute_knight_attacks(sq: Square) -> (bb: u64)
    ensures
        forall|t: int| #[trigger] bit(bb, t) == knight_step(sq@, t),
{
    let r: u8 = sq.rank();
    let f: u8 = sq.file();
    proof {
        lemma_bit_zero();
    }
    let bb: u64 = with_offset(0, r, f, -2, -1);
    let bb: u64 = with_offset(bb, r, f, -2, 1);
    let bb: u64 = with_offset(bb, r, f, -1, -2);
    let bb: u64 = with_offset(bb, r, f, -1, 2);
    let bb: u64 = with_offset(bb, r, f, 1, -2);
    let bb: u64 = with_offset(bb, r, f, 1, 2);
    let bb: u64 = with_offset(bb, r, f, 2, -1);
    let bb: u64 = with_offset(bb, r, f, 2, 1);
    bb
}

/// The squares a king on `sq` attacks.
pub fn compute_king_attacks(sq: Square) -> (bb: u64)
    ensures
        forall|t: int| #[trigger] bit(bb, t) == king_step(sq@, t),
{
    let r: u8 = sq.rank();
    let f: u8 = sq.file();
    proof {
        lemma_bit_zero();
    }
    let bb: u64 = with_offset(0, r, f, -1, -1);
    let bb: u64 = with_offset(bb, r, f, -1, 0);
    let bb: u64 = with_offset(bb, r, f, -1, 1);
    let bb: u64 = with_offset(bb, r, f, 0, -1);
    let bb: u64 = with_offset(bb, r, f, 0, 1);
    let bb: u64 = with_offset(bb, r, f, 1, -1);
    let bb: u64 = with_offset(bb, r, f, 1, 0);
    let bb: u64 = with_offset(bb, r, f, 1, 1);
    bb
}

/// The squares a pawn of side `color` on `sq` attacks.
pub fn compute_pawn_attacks(sq: Square, color: Color) -> (bb: u64)
    ensures
        forall|t: int| #[trigger] bit(bb, t) == pawn_attack(color, sq@, t),
{
    let r: u8 = sq.rank();
    let f: u8 = sq.file();
    let dr: i8 = match color {
        Color::White => 1,
        Color::Black => -1,
    };
    proof {
        lemma_bit_zero();
    }
    let bb: u64 = with_offset(0, r, f, dr, -1);
    let bb: u64 = with_offset(bb, r, f, dr, 1);
    bb
}

/// Change of rank in one step of direction `d`.
fn step_rank(d: usize) -> (s: i8)
    requires
        d < 8,
    ensures
        s == dir_rank(d as int),
{
    if d == 0 || d == 1 || d == 7 {
        1
    } else if d == 3 || d == 4 || d == 5 {
        -1
    } else {
        0
    }
}

/// Change of file in one step of direction `d`.
fn step_file(d: usize) -> (s: i8)
    requires
        d < 8,
    ensures
        s == dir_file(d as int),
{
    if d == 1 || d == 2 || d == 3 {
        1
    } else if d == 5 || d == 6 || d == 7 {
        -1
    } else {
        0
    }
}

/// The ray that leaves `sq` in direction `d`.
pub fn compute_ray(sq: Square, d: usize) -> (bb: u64)
    requires
        d < 8,
    ensures
        forall|t: int| #[trigger] bit(bb, t) == on_ray(sq@, d as int, t),
{
    let rank: i8 = sq.rank() as i8;
    let file: i8 = sq.file() as i8;
    let dr: i8 = step_rank(d);
    let df: i8 = step_file(d);
    let mut r: i8 = rank + dr;
    let mut f: i8 = file + df;
    let mut bb: u64 = 0;
    let ghost mut k: int = 1;
    proof {
        lemma_bit_zero();
    }
    while 0 <= r && r < 8 && 0 <= f && f < 8
        invariant
            0 <= sq@ < 64,
            rank == rank_of(sq@),
            file == file_of(sq@),
            d < 8,
            dr == dir_rank(d as int),
            df == dir_file(d as int),
            1 <= k <= 8,
            r == rank + steps(dr as int, k),
            f == file + steps(df as int, k),
            forall|t: int| #[trigger]
                bit(bb, t) == (on_ray(sq@, d as int, t) && distance(sq@, t) < k),
        decreases 8 - k,
    {
        let s: u8 = (r * 8 + f) as u8;
        proof {
            lemma_bit_single(s as int);
            lemma_bit_or(bb, 1u64 << (s as u64));
            lemma_ray_square(sq@, d as int, k, s as int);
            assert forall|t: int| on_ray(sq@, d as int, t) && distance(sq@, t) == k implies t
                == s by {
                lemma_ray_order(sq@, d as int, t, s as int);
            }
        }
        bb = bb | (1u64 << (s as u64));
        r = r + dr;
        f = f + df;
        proof {
            k = k + 1;
        }
    }
    proof {
        assert forall|t: int| on_ray(sq@, d as int, t) implies distance(sq@, t) < k by {
            lemma_ray_end(sq@, d as int, k, t);
        }
    }
    bb
}

/// The eight rays that leave `sq`, by direction.
pub fn compute_ray_attacks(sq: Square) -> (rays: [u64; 8])
    ensures
        forall|d: int, t: int| 0 <= d < 8 ==> #[trigger] bit(rays[d], t) == on_ray(sq@, d, t),
{
    let mut rays: [u64; 8] = [0u64;8];
    let mut d: usize = 0;
    while d < 8
        invariant
            d <= 8,
            forall|e: int, t: int| 0 <= e < d ==> #[trigger] bit(rays[e], t) == on_ray(sq@, e, t),
        decreases 8 - d,
    {
        rays[d] = compute_ray(sq, d);
        d = d + 1;
    }
    rays
}

/// The nearest of the `blockers` along a ray of direction `dir`: the lowest
/// square where indices grow along the ray, the highest where they shrink.
pub fn nearest_blocker(blockers: u64, dir: usize) -> (r: u8)
    requires
        blockers != 0,
    ensures
        r < 64,
        bit(blockers, r as int),
        increasing(dir as int) ==> forall|i: int| 0 <= i < r ==> !bit(blockers, i),
        !increasing(dir as int) ==> forall|i: int| r < i < 64 ==> !bit(blockers, i),
{
    if dir == 0 || dir == 1 || dir == 2 || dir == 7 {
        lsb_index(blockers)
    } else {
        msb_index(blockers)
    }
}

/// The attack tables of the engine.
pub struct AttackTables {
    knight: [u64; 64],
    king: [u64; 64],
    pawn: [[u64; 64]; 2],
    rays: [[u64; 8]; 64],
}

impl AttackTables {
    /// Every entry holds exactly the squares that the geometry of the board
    /// gives it.
    #[verifier::type_invariant]
    pub closed spec fn complete(&self) -> bool {
        &&& forall|a: int, t: int|
            0 <= a < 64 ==> #[trigger] bit(self.knight[a], t) == knight_step(a, t)
        &&& forall|a: int, t: int| 0 <= a < 64 ==> #[trigger] bit(self.king[a], t) == king_step(a, t)
        &&& forall|a: int, t: int|
            0 <= a < 64 ==> #[trigger] bit(self.pawn[0][a], t) == pawn_attack(Color::White, a, t)
        &&& forall|a: int, t: int|
            0 <= a < 64 ==> #[trigger] bit(self.pawn[1][a], t) == pawn_attack(Color::Black, a, t)
        &&& forall|a: int, d: int, t: int|
            0 <= a < 64 && 0 <= d < 8 ==> #[trigger] bit(self.rays[a][d], t) == on_ray(a, d, t)
    }

    /// Builds the tables.
    pub fn new() -> (tables: AttackTables)
        ensures
            tables.complete(),
    {
        let mut knight: [u64; 64] = [0u64;64];
        let mut king: [u64; 64] = [0u64;64];
        let mut white: [u64; 64] = [0u64;64];
        let mut black: [u64; 64] = [0u64;64];
        let mut rays: [[u64; 8]; 64] = [[0u64;8];64];
        let mut i: u8 = 0;
        while i < 64
            invariant
                i <= 64,
                forall|a: int, t: int|
                    0 <= a < i ==> #[trigger] bit(knight[a], t) == knight_step(a, t),
                forall|a: int, t: int| 0 <= a < i ==> #[trigger] bit(king[a], t) == king_step(a, t),
                forall|a: int, t: int|
                    0 <= a < i ==> #[trigger] bit(white[a], t) == pawn_attack(Color::White, a, t),
                forall|a: int, t: int|
                    0 <= a < i ==> #[trigger] bit(black[a], t) == pawn_attack(Color::Black, a, t),
                forall|a: int, d: int, t: int|
                    0 <= a < i && 0 <= d < 8 ==> #[trigger] bit(rays[a][d], t) == on_ray(a, d, t),
            decreases 64 - i,
        {
            let sq = Square::from_index(i);
            knight[i as usize] = compute_knight_attacks(sq);
            king[i as usize] = compute_king_attacks(sq);
            white[i as usize] = compute_pawn_attacks(sq, Color::White);
            black[i as usize] = compute_pawn_attacks(sq, Color::Black);
            rays[i as usize] = compute_ray_attacks(sq);
            i = i + 1;
        }
        AttackTables { knight, king, pawn: [white, black], rays }
    }

    /// The squares a knight on `sq` attacks.
    pub fn knight(&self, sq: Square) -> (bb: u64)
        ensures
            forall|t: int| #[trigger] bit(bb, t) == knight_step(sq@, t),
    {
        proof {
            use_type_invariant(self);
        }
        self.knight[sq.index()]
    }

    /// The squares a king on `sq` attacks.
    pub fn king(&self, sq: Square) -> (bb: u64)
        ensures
            forall|t: int| #[trigger] bit(bb, t) == king_step(sq@, t),
    {
        proof {
            use_type_invariant(self);
        }
        self.king[sq.index()]
    }

    /// The squares a pawn of side `color` on `sq` attacks.
    pub fn pawn(&self, color: Color, sq: Square) -> (bb: u64)
        ensures
            forall|t: int| #[trigger] bit(bb, t) == pawn_attack(color, sq@, t),
    {
        proof {
            use_type_invariant(self);
        }
        self.pawn[color.index()][sq.index()]
    }

    /// The ray that leaves `sq` in direction `dir`.
    pub fn ray(&self, sq: Square, dir: usize) -> (bb: u64)
        requires
            dir < 8,
        ensures
            forall|t: int| #[trigger] bit(bb, t) == on_ray(sq@, dir as int, t),
    {
        proof {
            use_type_invariant(self);
        }
        self.rays[sq.index()][dir]
    }
}

} // verus!
