//! Bitboards as sets of squares.
//!
//! A bitboard is a `u64` whose bit `i` stands for square `i`. Everything the
//! engine proves about bitboards goes through [`bit`], the membership test,
//! and the lemmas below, which say what each machine operation does to the
//! set of squares.

use vstd::prelude::*;

verus! {

/// Square `i` is a member of the bitboard `bb`.
pub open spec fn bit(bb: u64, i: int) -> bool {
    0 <= i < 64 && (bb >> (i as u64)) & 1 == 1
}

/// Number of indices below `n` at which `f` holds.
pub open spec fn count_below(f: spec_fn(int) -> bool, n: int) -> nat
    decreases n,
{
    if n <= 0 {
        0
    } else {
        count_below(f, n - 1) + if f(n - 1) {
            1nat
        } else {
            0nat
        }
    }
}

/// Number of squares in the bitboard.
pub open spec fn popcount(bb: u64) -> nat {
    count_below(|i: int| bit(bb, i), 64)
}

pub proof fn lemma_bit_zero()
    ensures
        forall|i: int| !#[trigger] bit(0u64, i),
{
    assert forall|i: int| !#[trigger] bit(0u64, i) by {
        if 0 <= i < 64 {
            let k: u64 = i as u64;
            assert((0u64 >> k) & 1 == 0) by (bit_vector);
        }
    }
}

pub proof fn lemma_bit_single(k: int)
    requires
        0 <= k < 64,
    ensures
        forall|i: int| #[trigger] bit(1u64 << (k as u64), i) == (i == k),
{
    let s: u64 = k as u64;
    assert forall|i: int| #[trigger] bit(1u64 << s, i) == (i == k) by {
        if 0 <= i < 64 {
            let j: u64 = i as u64;
            assert((((1u64 << s) >> j) & 1 == 1) == (j == s)) by (bit_vector)
                requires
                    s < 64,
                    j < 64,
            ;
        }
    }
}

pub proof fn lemma_bit_or(a: u64, b: u64)
    ensures
        forall|i: int| #[trigger] bit(a | b, i) == (bit(a, i) || bit(b, i)),
{
    assert forall|i: int| #[trigger] bit(a | b, i) == (bit(a, i) || bit(b, i)) by {
        if 0 <= i < 64 {
            let k: u64 = i as u64;
            assert((((a | b) >> k) & 1 == 1) == (((a >> k) & 1 == 1) || ((b >> k) & 1 == 1)))
                by (bit_vector);
        }
    }
}

pub proof fn lemma_bit_and(a: u64, b: u64)
    ensures
        forall|i: int| #[trigger] bit(a & b, i) == (bit(a, i) && bit(b, i)),
{
    assert forall|i: int| #[trigger] bit(a & b, i) == (bit(a, i) && bit(b, i)) by {
        if 0 <= i < 64 {
            let k: u64 = i as u64;
            assert((((a & b) >> k) & 1 == 1) == (((a >> k) & 1 == 1) && ((b >> k) & 1 == 1)))
                by (bit_vector);
        }
    }
}

pub proof fn lemma_bit_xor(a: u64, b: u64)
    ensures
        forall|i: int| #[trigger] bit(a ^ b, i) == (bit(a, i) != bit(b, i)),
{
    assert forall|i: int| #[trigger] bit(a ^ b, i) == (bit(a, i) != bit(b, i)) by {
        if 0 <= i < 64 {
            let k: u64 = i as u64;
            assert((((a ^ b) >> k) & 1 == 1) == (((a >> k) & 1 == 1) != ((b >> k) & 1 == 1)))
                by (bit_vector);
        }
    }
}

pub proof fn lemma_bit_not(a: u64)
    ensures
        forall|i: int| 0 <= i < 64 ==> #[trigger] bit(!a, i) == !bit(a, i),
{
    assert forall|i: int| 0 <= i < 64 implies #[trigger] bit(!a, i) == !bit(a, i) by {
        let k: u64 = i as u64;
        assert((((!a) >> k) & 1 == 1) == !((a >> k) & 1 == 1)) by (bit_vector)
            requires
                k < 64,
        ;
    }
}

/// A bitboard is empty exactly when it has no member.
pub proof fn lemma_nonzero_bit(bb: u64)
    ensures
        bb != 0 <==> exists|i: int| bit(bb, i),
{
    broadcast use vstd::std_specs::bits::axiom_u64_trailing_zeros;

    lemma_bit_zero();
    if bb != 0 {
        let t = vstd::std_specs::bits::u64_trailing_zeros(bb);
        assert(bit(bb, t as int));
    }
}

/// Index of the lowest square of a non-empty bitboard.
pub fn lsb_index(bb: u64) -> (r: u8)
    requires
        bb != 0,
    ensures
        r < 64,
        bit(bb, r as int),
        forall|i: int| 0 <= i < r ==> !bit(bb, i),
{
    broadcast use vstd::std_specs::bits::axiom_u64_trailing_zeros;

    let t: u32 = bb.trailing_zeros();
    proof {
        assert forall|i: int| 0 <= i < t implies !bit(bb, i) by {
            let j: u64 = i as u64;
            assert((bb >> j) & 1u64 == 0u64);
        }
    }
    t as u8
}

/// Index of the highest square of a non-empty bitboard.
pub fn msb_index(bb: u64) -> (r: u8)
    requires
        bb != 0,
    ensures
        r < 64,
        bit(bb, r as int),
        forall|i: int| r < i < 64 ==> !bit(bb, i),
{
    broadcast use vstd::std_specs::bits::axiom_u64_leading_zeros;

    let z: u32 = bb.leading_zeros();
    let r: u32 = 63 - z;
    proof {
        let k: u64 = r as u64;
        assert((bb >> k) & 1u64 != 0u64);
        assert((bb >> k) & 1u64 == 1u64) by (bit_vector)
            requires
                (bb >> k) & 1u64 != 0u64,
        ;
        assert forall|i: int| r < i < 64 implies !bit(bb, i) by {
            let j: u64 = i as u64;
            assert((bb >> j) & 1u64 == 0u64);
        }
    }
    r as u8
}

proof fn lemma_low_bits_clear(x: u64, t: u64)
    requires
        t < 64,
        forall|i: int| 0 <= i < t ==> !bit(x, i),
    ensures
        x & ((1u64 << t) - 1) as u64 == 0,
    decreases t,
{
    if t == 0 {
        assert(x & ((1u64 << 0u64) - 1) as u64 == 0) by (bit_vector);
    } else {
        let s: u64 = (t - 1) as u64;
        lemma_low_bits_clear(x, s);
        assert(!bit(x, s as int));
        assert((x >> s) & 1 != 1);
        assert(x & ((1u64 << t) - 1) as u64 == 0) by (bit_vector)
            requires
                0 < t < 64,
                s == t - 1,
                x & ((1u64 << s) - 1) as u64 == 0,
                (x >> s) & 1 != 1,
        ;
    }
}

/// `bb & (bb - 1)` removes the lowest square and nothing else.
pub proof fn lemma_clear_lowest(bb: u64, r: int)
    requires
        0 <= r < 64,
        bit(bb, r),
        forall|i: int| 0 <= i < r ==> !bit(bb, i),
    ensures
        bb != 0,
        forall|i: int| #[trigger] bit(bb & ((bb - 1) as u64), i) == (bit(bb, i) && i != r),
{
    lemma_bit_zero();
    let t: u64 = r as u64;
    lemma_low_bits_clear(bb, t);
    assert(bb & ((bb - 1) as u64) == bb ^ (1u64 << t)) by (bit_vector)
        requires
            bb != 0,
            t < 64,
            (bb >> t) & 1 == 1,
            bb & ((1u64 << t) - 1) as u64 == 0,
    ;
    lemma_bit_xor(bb, 1u64 << t);
    lemma_bit_single(r);
}

/// Counting agrees on predicates that agree below `n`.
pub proof fn lemma_count_ext(f: spec_fn(int) -> bool, g: spec_fn(int) -> bool, n: int)
    requires
        forall|i: int| 0 <= i < n ==> (#[trigger] f(i)) == g(i),
    ensures
        count_below(f, n) == count_below(g, n),
    decreases n,
{
    if n > 0 {
        lemma_count_ext(f, g, n - 1);
    }
}

/// Removing one member lowers the count by one.
proof fn lemma_count_remove(f: spec_fn(int) -> bool, g: spec_fn(int) -> bool, r: int, n: int)
    requires
        0 <= r,
        f(r),
        forall|i: int| 0 <= i < n ==> (#[trigger] g(i)) == (f(i) && i != r),
    ensures
        count_below(f, n) == count_below(g, n) + if r < n {
            1nat
        } else {
            0nat
        },
    decreases n,
{
    if n > 0 {
        lemma_count_remove(f, g, r, n - 1);
    }
}

pub proof fn lemma_count_bound(f: spec_fn(int) -> bool, n: int)
    ensures
        count_below(f, n) <= if n < 0 {
            0
        } else {
            n
        },
    decreases n,
{
    if n > 0 {
        lemma_count_bound(f, n - 1);
    }
}

/// Number of squares in the bitboard.
pub fn count_ones(bb: u64) -> (n: u32)
    ensures
        n == popcount(bb),
{
    let mut rest: u64 = bb;
    let mut n: u32 = 0;
    proof {
        lemma_count_bound(|i: int| bit(bb, i), 64);
    }
    while rest != 0
        invariant
            n + popcount(rest) == popcount(bb),
            popcount(bb) <= 64,
        decreases popcount(rest),
    {
        let r: u8 = lsb_index(rest);
        let next: u64 = rest & (rest - 1);
        proof {
            lemma_clear_lowest(rest, r as int);
            lemma_count_remove(|i: int| bit(rest, i), |i: int| bit(next, i), r as int, 64);
        }
        rest = next;
        n = n + 1;
    }
    proof {
        lemma_bit_zero();
        lemma_count_ext(|i: int| bit(0u64, i), |i: int| false, 64);
        lemma_count_none(64);
    }
    n
}

proof fn lemma_count_none(n: int)
    ensures
        count_below(|i: int| false, n) == 0,
    decreases n,
{
    if n > 0 {
        lemma_count_none(n - 1);
    }
}

} // verus!
