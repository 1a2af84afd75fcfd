//! The geometry of the board: which squares a piece on one square bears on.
//!
//! Squares are indices `rank * 8 + file`. The eight directions are numbered
//! clockwise from north: 0 = N, 1 = NE, 2 = E, 3 = SE, 4 = S, 5 = SW, 6 = W,
//! 7 = NW, where north is toward the eighth rank and east toward the h-file.

use crate::types::{file_of, rank_of, Color};
use vstd::prelude::*;

verus! {

pub open spec fn on_board(i: int) -> bool {
    0 <= i < 64
}

pub open spec fn abs(x: int) -> int {
    if x < 0 {
        -x
    } else {
        x
    }
}

/// `b` is a knight's leap away from `a`.
pub open spec fn knight_step(a: int, b: int) -> bool {
    let df = abs(file_of(b) - file_of(a));
    let dr = abs(rank_of(b) - rank_of(a));
    on_board(a) && on_board(b) && ((df == 1 && dr == 2) || (df == 2 && dr == 1))
}

/// `b` is next to `a`, in any of the eight directions.
pub open spec fn king_step(a: int, b: int) -> bool {
    on_board(a) && on_board(b) && a != b && abs(file_of(b) - file_of(a)) <= 1 && abs(
        rank_of(b) - rank_of(a),
    ) <= 1
}

/// The direction in which pawns of a side advance: +1 rank for White, -1
/// for Black.
pub open spec fn forward(c: Color) -> int {
    match c {
        Color::White => 1,
        Color::Black => -1,
    }
}

/// A pawn of side `c` on `a` attacks `b`: one rank forward, one file aside.
pub open spec fn pawn_attack(c: Color, a: int, b: int) -> bool {
    on_board(a) && on_board(b) && rank_of(b) == rank_of(a) + forward(c) && abs(
        file_of(b) - file_of(a),
    ) == 1
}

/// Change of rank in one step of direction `d`.
pub open spec fn dir_rank(d: int) -> int {
    if d == 0 || d == 1 || d == 7 {
        1
    } else if d == 3 || d == 4 || d == 5 {
        -1
    } else {
        0
    }
}

/// Change of file in one step of direction `d`.
pub open spec fn dir_file(d: int) -> int {
    if d == 1 || d == 2 || d == 3 {
        1
    } else if d == 5 || d == 6 || d == 7 {
        -1
    } else {
        0
    }
}

pub open spec fn is_diagonal(d: int) -> bool {
    d == 1 || d == 3 || d == 5 || d == 7
}

pub open spec fn is_straight(d: int) -> bool {
    d == 0 || d == 2 || d == 4 || d == 6
}

/// Square indices grow along the directions N, NE, E and NW, and shrink
/// along the other four.
pub open spec fn increasing(d: int) -> bool {
    d == 0 || d == 1 || d == 2 || d == 7
}

/// The direction opposite to `d`.
pub open spec fn opposite_dir(d: int) -> int {
    (d + 4) % 8
}

/// `k` steps of a unit step `s` in {-1, 0, 1}.
pub open spec fn steps(s: int, k: int) -> int {
    if s > 0 {
        k
    } else if s < 0 {
        -k
    } else {
        0
    }
}

/// Number of king steps between two squares.
pub open spec fn distance(a: int, b: int) -> int {
    let df = abs(file_of(b) - file_of(a));
    let dr = abs(rank_of(b) - rank_of(a));
    if df > dr {
        df
    } else {
        dr
    }
}

/// `b` lies on the ray that leaves `a` in direction `d`. The ray does not
/// hold `a` itself and ends at the edge of the board.
pub open spec fn on_ray(a: int, d: int, b: int) -> bool {
    let k = distance(a, b);
    on_board(a) && on_board(b) && 0 <= d < 8 && k >= 1 && rank_of(b) - rank_of(a) == steps(
        dir_rank(d),
        k,
    ) && file_of(b) - file_of(a) == steps(dir_file(d), k)
}

/// `x` lies on the ray from `a` in direction `d`, strictly before `b`.
pub open spec fn before_on_ray(a: int, d: int, b: int, x: int) -> bool {
    on_ray(a, d, x) && distance(a, x) < distance(a, b)
}

/// Along a ray the nearer square has the smaller index where indices grow,
/// the larger where they shrink; and a distance names one square.
pub proof fn lemma_ray_order(a: int, d: int, b: int, c: int)
    requires
        on_ray(a, d, b),
        on_ray(a, d, c),
    ensures
        distance(a, b) < distance(a, c) <==> if increasing(d) {
            b < c
        } else {
            b > c
        },
        distance(a, b) == distance(a, c) <==> b == c,
{
}

/// The ray that leaves a square `b` of a ray in the same direction is the
/// rest of that ray beyond `b`.
pub proof fn lemma_ray_beyond(a: int, d: int, b: int, c: int)
    requires
        on_ray(a, d, b),
    ensures
        on_ray(b, d, c) <==> on_ray(a, d, c) && distance(a, c) > distance(a, b),
{
}

/// Seen from the far end, a ray runs back through the same squares.
pub proof fn lemma_ray_reverse(a: int, d: int, b: int, x: int)
    requires
        on_ray(a, d, b),
    ensures
        on_ray(b, opposite_dir(d), a),
        distance(b, a) == distance(a, b),
        before_on_ray(a, d, b, x) <==> before_on_ray(b, opposite_dir(d), a, x),
{
}

/// The square reached by `k` steps in direction `d` is on the ray, at
/// distance `k`.
pub proof fn lemma_ray_square(a: int, d: int, k: int, s: int)
    requires
        on_board(a),
        on_board(s),
        0 <= d < 8,
        k >= 1,
        rank_of(s) == rank_of(a) + steps(dir_rank(d), k),
        file_of(s) == file_of(a) + steps(dir_file(d), k),
    ensures
        on_ray(a, d, s),
        distance(a, s) == k,
{
}

/// Where `k` steps in direction `d` leave the board, the ray has ended.
pub proof fn lemma_ray_end(a: int, d: int, k: int, t: int)
    requires
        on_ray(a, d, t),
        k >= 1,
        !(0 <= rank_of(a) + steps(dir_rank(d), k) < 8 && 0 <= file_of(a) + steps(dir_file(d), k)
            < 8),
    ensures
        distance(a, t) < k,
{
}

} // verus!
