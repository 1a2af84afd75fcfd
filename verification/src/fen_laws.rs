//! Writing a position in Forsyth-Edwards Notation and reading it back.

use crate::fen::{
    castling_text,
    en_passant_text,
    fen_text,
    fields,
    is_space,
    letter_if,
    parse_castling,
    parse_en_passant,
    parse_fen,
    parse_placement,
    rank_prefix,
    rank_text,
    ranks_text,
    run_text,
    scan_all,
    scan_start,
    scan_step,
    side_text,
    Scan,
};
use crate::position::Position;
use crate::text::{decimal, digit_char, digits_value, parse_u16};
use crate::types::{
    fen_letter,
    file_of,
    lemma_fen_letter_parses,
    lemma_square_name_parses,
    rank_of,
    square_name,
    Piece,
    Rights,
};
use vstd::prelude::*;

verus! {

// ---------------------------------------------------------------------------
// Fields
// ---------------------------------------------------------------------------
/// The text holds no white space.
pub open spec fn no_space(s: Seq<char>) -> bool {
    forall|i: int| 0 <= i < s.len() ==> !is_space(#[trigger] s[i])
}

/// A text without white space is one field.
proof fn lemma_fields_one(tok: Seq<char>)
    requires
        tok.len() > 0,
        no_space(tok),
    ensures
        fields(tok) == seq![tok],
    decreases tok.len(),
{
    let c = tok.last();
    assert(!is_space(tok[tok.len() - 1]));
    if tok.len() == 1 {
        assert(fields(tok.drop_last()) =~= Seq::<Seq<char>>::empty());
        assert(seq![c] =~= tok);
        assert(fields(tok) =~= seq![tok]);
    } else {
        let t = tok.drop_last();
        assert forall|i: int| 0 <= i < t.len() implies !is_space(#[trigger] t[i]) by {
            assert(t[i] == tok[i]);
        }
        lemma_fields_one(t);
        assert(!is_space(tok[tok.len() - 2]));
        assert(t.push(c) =~= tok);
        assert(seq![t].drop_last().push(seq![t].last().push(c)) =~= seq![tok]);
    }
}

/// A field that follows a blank is the next field.
proof fn lemma_fields_next(s: Seq<char>, tok: Seq<char>)
    requires
        tok.len() > 0,
        no_space(tok),
    ensures
        fields(s + seq![' '] + tok) == fields(s).push(tok),
    decreases tok.len(),
{
    let u = s + seq![' '] + tok;
    let c = tok.last();
    assert(u.last() == c);
    assert(!is_space(tok[tok.len() - 1]));
    if tok.len() == 1 {
        let v = s + seq![' '];
        assert(u.drop_last() =~= v);
        assert(v.drop_last() =~= s);
        assert(v.last() == ' ');
        assert(fields(v) == fields(s));
        assert(u[u.len() - 2] == ' ');
        assert(seq![c] =~= tok);
    } else {
        let t = tok.drop_last();
        assert forall|i: int| 0 <= i < t.len() implies !is_space(#[trigger] t[i]) by {
            assert(t[i] == tok[i]);
        }
        lemma_fields_next(s, t);
        assert(u.drop_last() =~= s + seq![' '] + t);
        assert(u[u.len() - 2] == tok[tok.len() - 2]);
        assert(!is_space(tok[tok.len() - 2]));
        assert(t.push(c) =~= tok);
        assert(fields(s).push(t).drop_last() =~= fields(s));
    }
}

// ---------------------------------------------------------------------------
// Counters
// ---------------------------------------------------------------------------
/// Decimal notation is digits, and reads back as the number.
proof fn lemma_decimal_reads_back(n: nat)
    ensures
        decimal(n).len() > 0,
        digits_value(decimal(n)) == Some(n),
        forall|i: int| 0 <= i < decimal(n).len() ==> 48 <= (#[trigger] decimal(n)[i]) as u32 <= 57,
    decreases n,
{
    if n < 10 {
        let s = decimal(n);
        assert(s.drop_last() =~= Seq::<char>::empty());
        assert(digits_value(s.drop_last()) == Some(0nat));
    } else {
        lemma_decimal_reads_back(n / 10);
        let s = decimal(n);
        assert(s.drop_last() =~= decimal(n / 10));
    }
}

/// The notation of a counter reads back as the counter.
proof fn lemma_counter_reads_back(n: int)
    requires
        0 <= n <= 0xffff,
    ensures
        parse_u16(decimal(n as nat)) == Some(n as u16),
        decimal(n as nat).len() > 0,
        no_space(decimal(n as nat)),
{
    lemma_decimal_reads_back(n as nat);
    let s = decimal(n as nat);
    assert(48 <= s[0] as u32 <= 57);
    assert(s[0] != '+');
}

// ---------------------------------------------------------------------------
// Placement
// ---------------------------------------------------------------------------
/// The reading of a placement that sets in at `st` and goes through `s`.
pub open spec fn scan_from(st: Option<Scan>, s: Seq<char>) -> Option<Scan>
    decreases s.len(),
{
    if s.len() == 0 {
        st
    } else {
        match scan_from(st, s.drop_last()) {
            Some(x) => scan_step(x, s.last()),
            None => None,
        }
    }
}

proof fn lemma_scan_all_is_from_start(s: Seq<char>)
    ensures
        scan_all(s) == scan_from(Some(scan_start()), s),
    decreases s.len(),
{
    if s.len() > 0 {
        lemma_scan_all_is_from_start(s.drop_last());
    }
}

/// Reading one text after another is reading both.
proof fn lemma_scan_from_add(st: Option<Scan>, a: Seq<char>, b: Seq<char>)
    ensures
        scan_from(st, a + b) == scan_from(scan_from(st, a), b),
    decreases b.len(),
{
    if b.len() == 0 {
        assert(a + b =~= a);
    } else {
        lemma_scan_from_add(st, a, b.drop_last());
        assert((a + b).drop_last() =~= a + b.drop_last());
        assert((a + b).last() == b.last());
    }
}

proof fn lemma_scan_from_one(st: Scan, c: char)
    ensures
        scan_from(Some(st), seq![c]) == scan_step(st, c),
{
    let none = seq![c].drop_last();
    assert(none =~= Seq::<char>::empty());
    assert(scan_from(Some(st), none) == Some(st));
    assert(seq![c].last() == c);
}

/// A text that is read to the end holds no white space.
proof fn lemma_scanned_is_spaceless(st: Option<Scan>, s: Seq<char>)
    requires
        scan_from(st, s) is Some,
    ensures
        no_space(s),
    decreases s.len(),
{
    if s.len() > 0 {
        lemma_scanned_is_spaceless(st, s.drop_last());
        assert forall|i: int| 0 <= i < s.len() implies !is_space(#[trigger] s[i]) by {
            if i < s.len() - 1 {
                assert(s[i] == s.drop_last()[i]);
            }
        }
    }
}

/// The squares `t` as far as the writing of rank `r` has come when its
/// files below `n` are done: all of the ranks above `r`, the files below
/// `n` of rank `r`, and nothing else.
pub open spec fn written(t: Seq<Option<Piece>>, r: int, n: int) -> Seq<Option<Piece>> {
    Seq::new(
        64,
        |i: int|
            if rank_of(i) > r || (rank_of(i) == r && file_of(i) < n) {
                t[i]
            } else {
                None
            },
    )
}

/// Reading what is written of a rank fills the squares that are written,
/// and stops before the empty squares that are still to be written.
proof fn lemma_rank_prefix_reads_back(t: Seq<Option<Piece>>, r: int, n: int)
    requires
        t.len() == 64,
        0 <= r < 8,
        0 <= n <= 8,
    ensures
        ({
            let (text, run) = rank_prefix(t, r, n);
            &&& 0 <= run <= n
            &&& scan_from(Some(Scan { squares: written(t, r, 0), rank: r, file: 0 }), text) == Some(
                Scan { squares: written(t, r, n), rank: r, file: n - run },
            )
        }),
    decreases n,
{
    let start = Some(Scan { squares: written(t, r, 0), rank: r, file: 0 });
    if n > 0 {
        lemma_rank_prefix_reads_back(t, r, n - 1);
        let (text, run) = rank_prefix(t, r, n - 1);
        let before = Scan { squares: written(t, r, n - 1), rank: r, file: n - 1 - run };
        let i = r * 8 + n - 1;
        match t[i] {
            Some(p) => {
                lemma_fen_letter_parses(p);
                let letter = fen_letter(p);
                let skipped = Scan { squares: written(t, r, n - 1), rank: r, file: n - 1 };
                lemma_scan_from_add(start, text, run_text(run));
                if run > 0 {
                    lemma_scan_from_one(before, digit_char(run));
                    assert(digit_char(run) as u32 == 48 + run);
                    assert(digit_char(run) != '/');
                } else {
                    assert(run_text(run) =~= Seq::<char>::empty());
                }
                assert(scan_from(start, text + run_text(run)) == Some(skipped));
                lemma_scan_from_add(start, text + run_text(run), seq![letter]);
                lemma_scan_from_one(skipped, letter);
                assert(skipped.squares.update(i, Some(p)) =~= written(t, r, n));
            },
            None => {
                assert(written(t, r, n - 1) =~= written(t, r, n));
            },
        }
    }
}

/// Reading a rank that is written fills the rank.
proof fn lemma_rank_reads_back(t: Seq<Option<Piece>>, r: int)
    requires
        t.len() == 64,
        0 <= r < 8,
    ensures
        scan_from(
            Some(Scan { squares: written(t, r, 0), rank: r, file: 0 }),
            rank_text(t, r),
        ) == Some(Scan { squares: written(t, r, 8), rank: r, file: 8 }),
{
    let start = Some(Scan { squares: written(t, r, 0), rank: r, file: 0 });
    lemma_rank_prefix_reads_back(t, r, 8);
    let (text, run) = rank_prefix(t, r, 8);
    let before = Scan { squares: written(t, r, 8), rank: r, file: 8 - run };
    lemma_scan_from_add(start, text, run_text(run));
    if run > 0 {
        lemma_scan_from_one(before, digit_char(run));
        assert(digit_char(run) as u32 == 48 + run);
        assert(digit_char(run) != '/');
    } else {
        assert(run_text(run) =~= Seq::<char>::empty());
    }
}

/// Reading the ranks that are written, from the eighth down to `r`, fills
/// those ranks.
proof fn lemma_ranks_read_back(t: Seq<Option<Piece>>, r: int)
    requires
        t.len() == 64,
        0 <= r < 8,
    ensures
        scan_from(Some(scan_start()), ranks_text(t, r)) == Some(
            Scan { squares: written(t, r, 8), rank: r, file: 8 },
        ),
    decreases 7 - r,
{
    let start = Some(scan_start());
    if r == 7 {
        assert(scan_start().squares =~= written(t, 7, 0));
        lemma_rank_reads_back(t, 7);
    } else {
        lemma_ranks_read_back(t, r + 1);
        let above = Scan { squares: written(t, r + 1, 8), rank: r + 1, file: 8 };
        let here = Scan { squares: written(t, r, 0), rank: r, file: 0 };
        lemma_scan_from_add(start, ranks_text(t, r + 1), seq!['/']);
        lemma_scan_from_one(above, '/');
        assert(written(t, r + 1, 8) =~= written(t, r, 0));
        assert(scan_from(start, ranks_text(t, r + 1) + seq!['/']) == Some(here));
        lemma_scan_from_add(start, ranks_text(t, r + 1) + seq!['/'], rank_text(t, r));
        lemma_rank_reads_back(t, r);
    }
}

/// The placement that is written reads back as the squares, and is one
/// field.
proof fn lemma_placement_reads_back(t: Seq<Option<Piece>>)
    requires
        t.len() == 64,
    ensures
        parse_placement(ranks_text(t, 0)) == Some(t),
        ranks_text(t, 0).len() > 0,
        no_space(ranks_text(t, 0)),
{
    let text = ranks_text(t, 0);
    lemma_ranks_read_back(t, 0);
    lemma_scan_all_is_from_start(text);
    assert(written(t, 0, 8) =~= t);
    lemma_scanned_is_spaceless(Some(scan_start()), text);
}

// ---------------------------------------------------------------------------
// Rights and target
// ---------------------------------------------------------------------------
proof fn lemma_contains_add(a: Seq<char>, b: Seq<char>, c: char)
    ensures
        (a + b).contains(c) == (a.contains(c) || b.contains(c)),
{
    if a.contains(c) {
        let i = choose|i: int| 0 <= i < a.len() && a[i] == c;
        assert((a + b)[i] == c);
    }
    if b.contains(c) {
        let i = choose|i: int| 0 <= i < b.len() && b[i] == c;
        assert((a + b)[a.len() + i] == c);
    }
    if (a + b).contains(c) {
        let i = choose|i: int| 0 <= i < (a + b).len() && (a + b)[i] == c;
        if i < a.len() {
            assert(a[i] == c);
        } else {
            assert(b[i - a.len()] == c);
        }
    }
}

proof fn lemma_letter_if(b: bool, x: char, c: char)
    ensures
        letter_if(b, x).contains(c) == (b && x == c),
        no_space(letter_if(b, x)) || is_space(x),
{
    if b {
        assert(letter_if(b, x)[0] == x);
    }
}

/// The rights that are written read back as the rights, and are one field.
proof fn lemma_castling_reads_back(r: Rights)
    ensures
        parse_castling(castling_text(r)) == r,
        castling_text(r).len() > 0,
        no_space(castling_text(r)),
{
    let k = letter_if(r.white_kingside, 'K');
    let q = letter_if(r.white_queenside, 'Q');
    let bk = letter_if(r.black_kingside, 'k');
    let bq = letter_if(r.black_queenside, 'q');
    let text = castling_text(r);
    if !r.white_kingside && !r.white_queenside && !r.black_kingside && !r.black_queenside {
        assert(text == seq!['-']);
        assert forall|c: char| c != '-' implies !text.contains(c) by {
            if text.contains(c) {
                let i = choose|i: int| 0 <= i < text.len() && text[i] == c;
                assert(text[i] == '-');
            }
        }
    } else {
        assert(text == k + q + bk + bq);
        assert forall|c: char| #[trigger]
            text.contains(c) == ((r.white_kingside && c == 'K') || (r.white_queenside && c == 'Q')
                || (r.black_kingside && c == 'k') || (r.black_queenside && c == 'q')) by {
            lemma_contains_add(k + q + bk, bq, c);
            lemma_contains_add(k + q, bk, c);
            lemma_contains_add(k, q, c);
            lemma_letter_if(r.white_kingside, 'K', c);
            lemma_letter_if(r.white_queenside, 'Q', c);
            lemma_letter_if(r.black_kingside, 'k', c);
            lemma_letter_if(r.black_queenside, 'q', c);
        }
        assert forall|i: int| 0 <= i < text.len() implies !is_space(#[trigger] text[i]) by {
            let c = text[i];
            assert(text.contains(c));
        }
    }
}

/// The target that is written reads back as the target, and is one field.
proof fn lemma_en_passant_reads_back(e: Option<int>)
    requires
        e matches Some(i) ==> 0 <= i < 64 && (rank_of(i) == 2 || rank_of(i) == 5),
    ensures
        parse_en_passant(en_passant_text(e)) == Some(e),
        en_passant_text(e).len() > 0,
        no_space(en_passant_text(e)),
{
    match e {
        Some(i) => {
            lemma_square_name_parses(i);
            let name = square_name(i);
            assert(name.len() == 2);
            assert(name != seq!['-']);
        },
        None => {},
    }
}

// ---------------------------------------------------------------------------
// The whole
// ---------------------------------------------------------------------------
/// A well-formed position that is written in Forsyth-Edwards Notation and
/// read back is the position that was written.
pub proof fn law_fen_reads_back(pos: Position)
    requires
        pos.well_formed(),
    ensures
        parse_fen(fen_text(pos)) == Some(pos),
{
    let a = ranks_text(pos.squares, 0);
    let b = side_text(pos.side_to_move);
    let c = castling_text(pos.castling);
    let d = en_passant_text(pos.en_passant);
    let e = decimal(pos.halfmove_clock as nat);
    let f = decimal(pos.fullmove_number as nat);
    lemma_placement_reads_back(pos.squares);
    lemma_castling_reads_back(pos.castling);
    lemma_en_passant_reads_back(pos.en_passant);
    lemma_counter_reads_back(pos.halfmove_clock);
    lemma_counter_reads_back(pos.fullmove_number);
    assert(no_space(b) && b.len() == 1);
    lemma_fields_one(a);
    lemma_fields_next(a, b);
    lemma_fields_next(a + seq![' '] + b, c);
    lemma_fields_next(a + seq![' '] + b + seq![' '] + c, d);
    lemma_fields_next(a + seq![' '] + b + seq![' '] + c + seq![' '] + d, e);
    lemma_fields_next(a + seq![' '] + b + seq![' '] + c + seq![' '] + d + seq![' '] + e, f);
    let all = fields(fen_text(pos));
    assert(all =~= seq![a, b, c, d, e, f]);
    let back = parse_fen(fen_text(pos));
    assert(back is Some);
    assert(back->0.squares == pos.squares);
    assert(back->0 == pos);
}

/// A text that is the notation of a well-formed position is written back as
/// it was read.
pub proof fn law_fen_round_trip(text: Seq<char>, pos: Position)
    requires
        pos.well_formed(),
        text == fen_text(pos),
    ensures
        parse_fen(text) matches Some(read) && fen_text(read) == text,
{
    law_fen_reads_back(pos);
}

} // verus!
