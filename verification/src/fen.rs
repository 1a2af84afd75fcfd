//! Positions in Forsyth-Edwards Notation.
//!
//! A position is written in six fields that white space separates: the
//! placement of the pieces, the side to move, the castling rights, the
//! en-passant target and the two counters. The last two may be left out
//! when a position is read.

use crate::board::Board;
use crate::position::{one_king, Position};
use crate::text::{decimal, digit_char, digit_to_char, digits_value, parse_u16, push_decimal};
use crate::types::{
    fen_letter,
    parse_square,
    piece_of_letter,
    rank_of,
    square_name,
    CastlingRights,
    Color,
    Piece,
    PieceType,
    Rights,
    Square,
};
use vstd::prelude::*;

verus! {

// ---------------------------------------------------------------------------
// Fields
// ---------------------------------------------------------------------------
/// White space, as Unicode defines it.
pub open spec fn is_space(c: char) -> bool {
    let v = c as u32;
    (9 <= v <= 13) || v == 0x20 || v == 0x85 || v == 0xa0 || v == 0x1680 || (0x2000 <= v <= 0x200a)
        || v == 0x2028 || v == 0x2029 || v == 0x202f || v == 0x205f || v == 0x3000
}

/// The fields of a text: its longest runs of characters that are not white
/// space, in order.
pub open spec fn fields(s: Seq<char>) -> Seq<Seq<char>>
    decreases s.len(),
{
    if s.len() == 0 {
        Seq::empty()
    } else {
        let before = fields(s.drop_last());
        let c = s.last();
        if is_space(c) {
            before
        } else if s.len() > 1 && !is_space(s[s.len() - 2]) {
            before.drop_last().push(before.last().push(c))
        } else {
            before.push(seq![c])
        }
    }
}

/// The texts that a list of fields holds.
pub open spec fn field_views(v: Seq<Vec<char>>) -> Seq<Seq<char>> {
    v.map_values(|f: Vec<char>| f@)
}

fn is_whitespace(c: char) -> (r: bool)
    ensures
        r == is_space(c),
{
    let v: u32 = c as u32;
    (9 <= v && v <= 13) || v == 0x20 || v == 0x85 || v == 0xa0 || v == 0x1680 || (0x2000 <= v && v
        <= 0x200a) || v == 0x2028 || v == 0x2029 || v == 0x202f || v == 0x205f || v == 0x3000
}

/// The characters of a text.
fn to_chars(s: &str) -> (v: Vec<char>)
    ensures
        v@ == s@,
{
    let n: usize = s.unicode_len();
    let mut v: Vec<char> = Vec::new();
    let mut i: usize = 0;
    while i < n
        invariant
            n == s@.len(),
            i <= n,
            v@ == s@.take(i as int),
        decreases n - i,
    {
        v.push(s.get_char(i));
        i = i + 1;
        proof {
            assert(v@ =~= s@.take(i as int));
        }
    }
    proof {
        assert(s@.take(n as int) =~= s@);
    }
    v
}

/// Splits a text into its fields.
fn split_fields(text: &Vec<char>) -> (done: Vec<Vec<char>>)
    ensures
        field_views(done@) == fields(text@),
{
    let mut done: Vec<Vec<char>> = Vec::new();
    let mut current: Vec<char> = Vec::new();
    let mut i: usize = 0;
    proof {
        assert(field_views(done@) =~= Seq::<Seq<char>>::empty());
        assert(text@.take(0) =~= Seq::<char>::empty());
    }
    while i < text.len()
        invariant
            i <= text.len(),
            current.len() > 0 <==> i > 0 && !is_space(text[i - 1]),
            fields(text@.take(i as int)) == if current.len() > 0 {
                field_views(done@).push(current@)
            } else {
                field_views(done@)
            },
        decreases text.len() - i,
    {
        let c: char = text[i];
        let ghost before = fields(text@.take(i as int));
        let ghost views = field_views(done@);
        let ghost run = current@;
        proof {
            assert(text@.take(i + 1).drop_last() =~= text@.take(i as int));
            assert(text@.take(i + 1).last() == c);
            if i > 0 {
                assert(text@.take(i + 1)[i - 1] == text[i - 1]);
            }
        }
        if is_whitespace(c) {
            if current.len() > 0 {
                done.push(current);
                current = Vec::new();
                proof {
                    assert(field_views(done@) =~= views.push(run));
                }
            }
            proof {
                assert(fields(text@.take(i + 1)) == before);
            }
        } else {
            current.push(c);
            proof {
                if run.len() > 0 {
                    assert(before.drop_last() =~= views);
                    assert(before.last() == run);
                    assert(fields(text@.take(i + 1)) == views.push(run.push(c)));
                } else {
                    assert(current@ =~= seq![c]);
                    assert(fields(text@.take(i + 1)) == views.push(seq![c]));
                }
            }
        }
        i = i + 1;
    }
    proof {
        assert(text@.take(text.len() as int) =~= text@);
    }
    if current.len() > 0 {
        let ghost views = field_views(done@);
        let ghost run = current@;
        done.push(current);
        proof {
            assert(field_views(done@) =~= views.push(run));
        }
    }
    done
}

/// Reads a counter.
fn parse_counter(f: &Vec<char>) -> (r: Option<u16>)
    ensures
        r == parse_u16(f@),
{
    let start: usize = if f.len() > 0 && f[0] == '+' {
        1
    } else {
        0
    };
    let ghost body = f@.subrange(start as int, f.len() as int);
    proof {
        if start == 0 {
            assert(body =~= f@);
        }
    }
    if start == f.len() {
        return None;
    }
    let mut value: u32 = 0;
    let mut bad: bool = false;
    let mut big: bool = false;
    let ghost mut exact: nat = 0;
    let mut i: usize = start;
    proof {
        assert(body.take(0) =~= Seq::<char>::empty());
    }
    while i < f.len()
        invariant
            start <= i <= f.len(),
            body == f@.subrange(start as int, f.len() as int),
            digits_value(body.take(i - start)) == if bad {
                None
            } else {
                Some(exact)
            },
            !bad && !big ==> value == exact,
            value <= 0xffff,
            big && !bad ==> exact > 0xffff,
        decreases f.len() - i,
    {
        let c: char = f[i];
        let v: u32 = c as u32;
        proof {
            assert(body.take(i + 1 - start).drop_last() =~= body.take(i - start));
            assert(body.take(i + 1 - start).last() == c);
        }
        if v >= 48 && v <= 57 {
            let d: u32 = v - 48;
            proof {
                exact = exact * 10 + d as nat;
            }
            if !big {
                let next: u32 = value * 10 + d;
                if next > 0xffff {
                    big = true;
                } else {
                    value = next;
                }
            }
        } else {
            bad = true;
        }
        i = i + 1;
    }
    proof {
        assert(body.take(f.len() - start) =~= body);
    }
    if bad || big {
        None
    } else {
        Some(value as u16)
    }
}

// ---------------------------------------------------------------------------
// Placement
// ---------------------------------------------------------------------------
/// Where the reading of a placement stands: the squares filled so far, and
/// the rank and file at which the next character sets in.
pub struct Scan {
    pub squares: Seq<Option<Piece>>,
    pub rank: int,
    pub file: int,
}

/// The reading of a placement before its first character: an empty board,
/// at the a-file of the eighth rank.
pub open spec fn scan_start() -> Scan {
    Scan { squares: Seq::new(64, |i: int| None::<Piece>), rank: 7, file: 0 }
}

/// What one character of a placement does. A slash ends a rank, which must
/// be complete and not the first; a digit from 1 to 8 skips that many
/// squares; a piece letter fills one square. A rank holds no more than
/// eight squares. Any other character ends the reading.
pub open spec fn scan_step(st: Scan, c: char) -> Option<Scan> {
    if c == '/' {
        if st.file == 8 && st.rank > 0 {
            Some(Scan { squares: st.squares, rank: st.rank - 1, file: 0 })
        } else {
            None
        }
    } else if 49 <= c as u32 <= 56 {
        if st.file + (c as u32 - 48) <= 8 {
            Some(Scan { squares: st.squares, rank: st.rank, file: st.file + (c as u32 - 48) })
        } else {
            None
        }
    } else {
        match piece_of_letter(c) {
            Some(p) => if st.file < 8 {
                Some(
                    Scan {
                        squares: st.squares.update(st.rank * 8 + st.file, Some(p)),
                        rank: st.rank,
                        file: st.file + 1,
                    },
                )
            } else {
                None
            },
            None => None,
        }
    }
}

/// The reading of a placement after all of `s`.
pub open spec fn scan_all(s: Seq<char>) -> Option<Scan>
    decreases s.len(),
{
    if s.len() == 0 {
        Some(scan_start())
    } else {
        match scan_all(s.drop_last()) {
            Some(st) => scan_step(st, s.last()),
            None => None,
        }
    }
}

/// The squares that a placement field denotes: ranks from the eighth down,
/// each complete. Ranks that the field does not reach are empty.
pub open spec fn parse_placement(s: Seq<char>) -> Option<Seq<Option<Piece>>> {
    match scan_all(s) {
        Some(st) => if st.file == 8 {
            Some(st.squares)
        } else {
            None
        },
        None => None,
    }
}

/// A reading that has ended stays ended.
proof fn lemma_scan_ended(s: Seq<char>, i: int)
    requires
        0 <= i <= s.len(),
        scan_all(s.take(i)) is None,
    ensures
        scan_all(s) is None,
    decreases s.len() - i,
{
    if i < s.len() {
        assert(s.take(i + 1).drop_last() =~= s.take(i));
        lemma_scan_ended(s, i + 1);
    } else {
        assert(s.take(i) =~= s);
    }
}

/// Reads a placement field.
fn read_placement(f: &Vec<char>) -> (r: Option<Vec<Option<Piece>>>)
    ensures
        match parse_placement(f@) {
            Some(squares) => r matches Some(v) && v@ == squares && v.len() == 64,
            None => r is None,
        },
{
    let mut squares: Vec<Option<Piece>> = Vec::new();
    let mut k: usize = 0;
    while k < 64
        invariant
            k <= 64,
            squares.len() == k,
            forall|j: int| 0 <= j < k ==> #[trigger] squares[j] is None,
        decreases 64 - k,
    {
        squares.push(None);
        k = k + 1;
    }
    let mut rank: u8 = 7;
    let mut file: u8 = 0;
    let mut i: usize = 0;
    proof {
        assert(f@.take(0) =~= Seq::<char>::empty());
        assert(squares@ =~= scan_start().squares);
    }
    while i < f.len()
        invariant
            i <= f.len(),
            squares.len() == 64,
            rank < 8,
            file <= 8,
            scan_all(f@.take(i as int)) == Some(
                Scan { squares: squares@, rank: rank as int, file: file as int },
            ),
        decreases f.len() - i,
    {
        let c: char = f[i];
        let v: u32 = c as u32;
        proof {
            assert(f@.take(i + 1).drop_last() =~= f@.take(i as int));
            assert(f@.take(i + 1).last() == c);
        }
        if c == '/' {
            if file != 8 || rank == 0 {
                proof {
                    lemma_scan_ended(f@, i + 1);
                }
                return None;
            }
            rank = rank - 1;
            file = 0;
        } else if v >= 49 && v <= 56 {
            let n: u8 = (v - 48) as u8;
            if file + n > 8 {
                proof {
                    lemma_scan_ended(f@, i + 1);
                }
                return None;
            }
            file = file + n;
        } else {
            match Piece::from_fen_char(c) {
                Some(p) => {
                    if file >= 8 {
                        proof {
                            lemma_scan_ended(f@, i + 1);
                        }
                        return None;
                    }
                    squares[(rank * 8 + file) as usize] = Some(p);
                    file = file + 1;
                },
                None => {
                    proof {
                        lemma_scan_ended(f@, i + 1);
                    }
                    return None;
                },
            }
        }
        i = i + 1;
    }
    proof {
        assert(f@.take(f.len() as int) =~= f@);
    }
    if file == 8 {
        Some(squares)
    } else {
        None
    }
}

/// Whether side `c` has exactly one king on the squares.
fn has_one_king(squares: &Vec<Option<Piece>>, c: Color) -> (r: bool)
    requires
        squares.len() == 64,
    ensures
        r == one_king(squares@, c),
{
    let king = Piece::new(PieceType::King, c);
    let mut found: Option<usize> = None;
    let mut i: usize = 0;
    while i < 64
        invariant
            squares.len() == 64,
            i <= 64,
            king == (Piece { piece_type: PieceType::King, color: c }),
            match found {
                Some(k) => k < i && squares[k as int] == Some(king) && forall|j: int|
                    0 <= j < i && #[trigger] squares[j] == Some(king) ==> j == k,
                None => forall|j: int| 0 <= j < i ==> #[trigger] squares[j] != Some(king),
            },
        decreases 64 - i,
    {
        let here: bool = match squares[i] {
            Some(p) => p.piece_type.index() == 5 && p.color.index() == c.index(),
            None => false,
        };
        proof {
            assert(here == (squares[i as int] == Some(king)));
        }
        if here {
            match found {
                Some(k) => {
                    proof {
                        assert(crate::position::holds(squares@, k as int, c, PieceType::King));
                        assert(crate::position::holds(squares@, i as int, c, PieceType::King));
                    }
                    return false;
                },
                None => {
                    found = Some(i);
                },
            }
        }
        i = i + 1;
    }
    match found {
        Some(k) => {
            proof {
                assert(crate::position::holds(squares@, k as int, c, PieceType::King));
            }
            true
        },
        None => false,
    }
}

// ---------------------------------------------------------------------------
// The other fields
// ---------------------------------------------------------------------------
/// The side that the second field denotes: `w` or `b`.
pub open spec fn parse_side(s: Seq<char>) -> Option<Color> {
    if s == seq!['w'] {
        Some(Color::White)
    } else if s == seq!['b'] {
        Some(Color::Black)
    } else {
        None
    }
}

/// The rights that the third field denotes: those whose letter it holds.
/// Other characters say nothing.
pub open spec fn parse_castling(s: Seq<char>) -> Rights {
    Rights {
        white_kingside: s.contains('K'),
        white_queenside: s.contains('Q'),
        black_kingside: s.contains('k'),
        black_queenside: s.contains('q'),
    }
}

/// The target that the fourth field denotes: none for `-`, else a square of
/// the third or sixth rank; `None` when the field is neither.
pub open spec fn parse_en_passant(s: Seq<char>) -> Option<Option<int>> {
    if s == seq!['-'] {
        Some(None)
    } else {
        match parse_square(s) {
            Some(e) => if rank_of(e) == 2 || rank_of(e) == 5 {
                Some(Some(e))
            } else {
                None
            },
            None => None,
        }
    }
}

/// The position that a text denotes, if it denotes one: at least four
/// fields, a placement with one king a side, a side to move, rights, a
/// target, and counters that are 0 and 1 where the text leaves them out.
pub open spec fn parse_fen(s: Seq<char>) -> Option<Position> {
    let f = fields(s);
    if f.len() < 4 {
        None
    } else {
        match (
            parse_placement(f[0]),
            parse_side(f[1]),
            parse_en_passant(f[3]),
            if f.len() > 4 {
                parse_u16(f[4])
            } else {
                Some(0u16)
            },
            if f.len() > 5 {
                parse_u16(f[5])
            } else {
                Some(1u16)
            },
        ) {
            (Some(squares), Some(side), Some(target), Some(half), Some(full)) => if one_king(
                squares,
                Color::White,
            ) && one_king(squares, Color::Black) {
                Some(
                    Position {
                        squares,
                        side_to_move: side,
                        castling: parse_castling(f[2]),
                        en_passant: target,
                        halfmove_clock: half as int,
                        fullmove_number: full as int,
                    },
                )
            } else {
                None
            },
            _ => None,
        }
    }
}

fn read_side(f: &Vec<char>) -> (r: Option<Color>)
    ensures
        r == parse_side(f@),
{
    if f.len() == 1 && f[0] == 'w' {
        proof {
            assert(f@ =~= seq!['w']);
        }
        Some(Color::White)
    } else if f.len() == 1 && f[0] == 'b' {
        proof {
            assert(f@ =~= seq!['b']);
        }
        Some(Color::Black)
    } else {
        proof {
            if f@ == seq!['w'] || f@ == seq!['b'] {
                assert(f@.len() == 1);
                assert(f@[0] == 'w' || f@[0] == 'b');
            }
        }
        None
    }
}

fn read_castling(f: &Vec<char>) -> (r: CastlingRights)
    ensures
        r@ == parse_castling(f@),
{
    let mut wk: bool = false;
    let mut wq: bool = false;
    let mut bk: bool = false;
    let mut bq: bool = false;
    let mut i: usize = 0;
    while i < f.len()
        invariant
            i <= f.len(),
            wk == exists|j: int| 0 <= j < i && f[j] == 'K',
            wq == exists|j: int| 0 <= j < i && f[j] == 'Q',
            bk == exists|j: int| 0 <= j < i && f[j] == 'k',
            bq == exists|j: int| 0 <= j < i && f[j] == 'q',
        decreases f.len() - i,
    {
        let c: char = f[i];
        if c == 'K' {
            wk = true;
        } else if c == 'Q' {
            wq = true;
        } else if c == 'k' {
            bk = true;
        } else if c == 'q' {
            bq = true;
        }
        i = i + 1;
    }
    CastlingRights::from_flags(wk, wq, bk, bq)
}

fn read_en_passant(f: &Vec<char>) -> (r: Option<Option<Square>>)
    ensures
        match parse_en_passant(f@) {
            Some(Some(e)) => r matches Some(Some(sq)) && sq@ == e,
            Some(None) => r == Some(None::<Square>),
            None => r is None,
        },
{
    if f.len() == 1 && f[0] == '-' {
        proof {
            assert(f@ =~= seq!['-']);
        }
        return Some(None);
    }
    proof {
        if f@ == seq!['-'] {
            assert(f@.len() == 1 && f@[0] == '-');
        }
    }
    if f.len() != 2 {
        return None;
    }
    let file: u32 = f[0] as u32;
    let rank: u32 = f[1] as u32;
    if file >= 97 && file <= 104 && (rank == 51 || rank == 54) {
        Some(Some(Square::new((file - 97) as u8, (rank - 49) as u8)))
    } else {
        None
    }
}

impl Board {
    /// Reads a position in Forsyth-Edwards Notation. `None` when the text
    /// does not denote one.
    pub fn from_fen(fen: &str) -> (r: Option<Board>)
        ensures
            match parse_fen(fen@) {
                Some(pos) => r matches Some(b) && b.wf() && b@ == pos,
                None => r is None,
            },
    {
        let text: Vec<char> = to_chars(fen);
        let parts: Vec<Vec<char>> = split_fields(&text);
        let ghost f = fields(fen@);
        proof {
            assert(field_views(parts@).len() == parts.len());
        }
        if parts.len() < 4 {
            return None;
        }
        proof {
            assert(field_views(parts@)[0] == parts[0]@);
            assert(field_views(parts@)[1] == parts[1]@);
            assert(field_views(parts@)[2] == parts[2]@);
            assert(field_views(parts@)[3] == parts[3]@);
            if parts.len() > 4 {
                assert(field_views(parts@)[4] == parts[4]@);
            }
            if parts.len() > 5 {
                assert(field_views(parts@)[5] == parts[5]@);
            }
        }
        let squares: Vec<Option<Piece>> = match read_placement(&parts[0]) {
            Some(v) => v,
            None => {
                return None;
            },
        };
        if !has_one_king(&squares, Color::White) || !has_one_king(&squares, Color::Black) {
            return None;
        }
        let side: Color = match read_side(&parts[1]) {
            Some(c) => c,
            None => {
                return None;
            },
        };
        let castling: CastlingRights = read_castling(&parts[2]);
        let target: Option<Square> = match read_en_passant(&parts[3]) {
            Some(e) => e,
            None => {
                return None;
            },
        };
        let half: u16 = if parts.len() > 4 {
            match parse_counter(&parts[4]) {
                Some(n) => n,
                None => {
                    return None;
                },
            }
        } else {
            0
        };
        let full: u16 = if parts.len() > 5 {
            match parse_counter(&parts[5]) {
                Some(n) => n,
                None => {
                    return None;
                },
            }
        } else {
            1
        };
        let board = Board::from_squares(&squares, side, castling, target, half, full);
        proof {
            assert(board@ == parse_fen(fen@)->0);
        }
        Some(board)
    }
}

// ---------------------------------------------------------------------------
// Writing
// ---------------------------------------------------------------------------
/// The digit for a run of `e` empty squares, and nothing for none.
pub open spec fn run_text(e: int) -> Seq<char> {
    if e > 0 {
        seq![digit_char(e)]
    } else {
        Seq::empty()
    }
}

/// What is written of a rank once its files below `n` are done: the text
/// so far, and how many empty squares at its end are not yet written.
pub open spec fn rank_prefix(squares: Seq<Option<Piece>>, rank: int, n: int) -> (Seq<char>, int)
    decreases n,
{
    if n <= 0 {
        (Seq::empty(), 0)
    } else {
        let (text, run) = rank_prefix(squares, rank, n - 1);
        match squares[rank * 8 + n - 1] {
            Some(p) => (text + run_text(run) + seq![fen_letter(p)], 0),
            None => (text, run + 1),
        }
    }
}

/// A rank of the placement: piece letters, and digits for runs of empty
/// squares.
pub open spec fn rank_text(squares: Seq<Option<Piece>>, rank: int) -> Seq<char> {
    let (text, run) = rank_prefix(squares, rank, 8);
    text + run_text(run)
}

/// The ranks from the eighth down to `rank`, with slashes between them.
pub open spec fn ranks_text(squares: Seq<Option<Piece>>, rank: int) -> Seq<char>
    decreases 7 - rank,
{
    if rank >= 7 {
        rank_text(squares, 7)
    } else {
        ranks_text(squares, rank + 1) + seq!['/'] + rank_text(squares, rank)
    }
}

pub open spec fn side_text(c: Color) -> Seq<char> {
    match c {
        Color::White => seq!['w'],
        Color::Black => seq!['b'],
    }
}

pub open spec fn letter_if(b: bool, c: char) -> Seq<char> {
    if b {
        seq![c]
    } else {
        Seq::empty()
    }
}

/// The letters of the rights that are held, in the order `KQkq`, or `-`
/// where none is.
pub open spec fn castling_text(r: Rights) -> Seq<char> {
    if !r.white_kingside && !r.white_queenside && !r.black_kingside && !r.black_queenside {
        seq!['-']
    } else {
        letter_if(r.white_kingside, 'K') + letter_if(r.white_queenside, 'Q') + letter_if(
            r.black_kingside,
            'k',
        ) + letter_if(r.black_queenside, 'q')
    }
}

pub open spec fn en_passant_text(e: Option<int>) -> Seq<char> {
    match e {
        Some(i) => square_name(i),
        None => seq!['-'],
    }
}

/// The position in Forsyth-Edwards Notation.
pub open spec fn fen_text(pos: Position) -> Seq<char> {
    ranks_text(pos.squares, 0) + seq![' '] + side_text(pos.side_to_move) + seq![' ']
        + castling_text(pos.castling) + seq![' '] + en_passant_text(pos.en_passant) + seq![' ']
        + decimal(pos.halfmove_clock as nat) + seq![' '] + decimal(pos.fullmove_number as nat)
}

impl Board {
    /// Appends one rank of the placement.
    fn push_rank(&self, out: &mut String, rank: u8)
        requires
            self.consistent(),
            rank < 8,
        ensures
            final(out)@ == old(out)@ + rank_text(self@.squares, rank as int),
    {
        let ghost s = self@.squares;
        let ghost base = out@;
        let mut empty: u8 = 0;
        let mut file: u8 = 0;
        proof {
            assert(base =~= base + rank_prefix(s, rank as int, 0).0);
        }
        while file < 8
            invariant
                self.consistent(),
                s == self@.squares,
                rank < 8,
                file <= 8,
                empty <= file,
                out@ == base + rank_prefix(s, rank as int, file as int).0,
                empty == rank_prefix(s, rank as int, file as int).1,
            decreases 8 - file,
        {
            let ghost before = out@;
            let ghost (text, run) = rank_prefix(s, rank as int, file as int);
            match self.piece_at(Square::new(file, rank)) {
                Some(p) => {
                    if empty > 0 {
                        out.push(digit_to_char(empty));
                        empty = 0;
                    }
                    out.push(p.to_fen_char());
                    proof {
                        assert(out@ =~= base + (text + run_text(run) + seq![fen_letter(p)]));
                    }
                },
                None => {
                    empty = empty + 1;
                },
            }
            file = file + 1;
        }
        if empty > 0 {
            out.push(digit_to_char(empty));
        }
        proof {
            let (text, run) = rank_prefix(s, rank as int, 8);
            assert(out@ =~= base + (text + run_text(run)));
        }
    }

    /// Appends the placement of the pieces.
    fn push_placement(&self, out: &mut String)
        requires
            self.consistent(),
        ensures
            final(out)@ == old(out)@ + ranks_text(self@.squares, 0),
    {
        let ghost pos = self@;
        let ghost base = out@;
        let mut rank: u8 = 8;
        proof {
            assert(base =~= base + Seq::<char>::empty());
        }
        while rank > 0
            invariant
                self.consistent(),
                pos == self@,
                rank <= 8,
                rank == 8 ==> out@ == base,
                rank < 8 ==> out@ == base + (ranks_text(pos.squares, rank as int) + letter_if(
                    rank > 0,
                    '/',
                )),
            decreases rank,
        {
            let ghost before = out@;
            rank = rank - 1;
            self.push_rank(out, rank);
            proof {
                assert(out@ =~= base + ranks_text(pos.squares, rank as int));
            }
            if rank > 0 {
                out.push('/');
            }
            proof {
                assert(out@ =~= base + (ranks_text(pos.squares, rank as int) + letter_if(
                    rank > 0,
                    '/',
                )));
            }
        }
        proof {
            assert(out@ =~= base + ranks_text(pos.squares, 0));
        }
    }

    /// Appends the castling rights.
    fn push_castling(&self, out: &mut String)
        ensures
            final(out)@ == old(out)@ + castling_text(self@.castling),
    {
        let ghost base = out@;
        let rights = self.castling();
        let mut any: bool = false;
        if rights.white_kingside() {
            out.push('K');
            any = true;
        }
        if rights.white_queenside() {
            out.push('Q');
            any = true;
        }
        if rights.black_kingside() {
            out.push('k');
            any = true;
        }
        if rights.black_queenside() {
            out.push('q');
            any = true;
        }
        if !any {
            out.push('-');
        }
        proof {
            assert(out@ =~= base + castling_text(self@.castling));
        }
    }

    /// Appends the en-passant target.
    fn push_en_passant(&self, out: &mut String)
        ensures
            final(out)@ == old(out)@ + en_passant_text(self@.en_passant),
    {
        let ghost base = out@;
        match self.en_passant() {
            Some(sq) => {
                sq.push_name(out);
            },
            None => {
                out.push('-');
                proof {
                    assert(out@ =~= base + seq!['-']);
                }
            },
        }
    }

    /// The position in Forsyth-Edwards Notation.
    pub fn to_fen(&self) -> (fen: String)
        requires
            self.consistent(),
        ensures
            fen@ == fen_text(self@),
    {
        let ghost pos = self@;
        let mut fen = String::new();
        self.push_placement(&mut fen);
        let ghost a = fen@;
        fen.push(' ');
        fen.push(
            match self.side_to_move() {
                Color::White => 'w',
                Color::Black => 'b',
            },
        );
        fen.push(' ');
        let ghost b = fen@;
        self.push_castling(&mut fen);
        fen.push(' ');
        let ghost c = fen@;
        self.push_en_passant(&mut fen);
        fen.push(' ');
        let ghost d = fen@;
        push_decimal(&mut fen, self.halfmove_clock());
        fen.push(' ');
        let ghost e = fen@;
        push_decimal(&mut fen, self.fullmove_number());
        proof {
            assert(a =~= ranks_text(pos.squares, 0));
            assert(b =~= a + seq![' '] + side_text(pos.side_to_move) + seq![' ']);
            assert(c =~= b + castling_text(pos.castling) + seq![' ']);
            assert(d =~= c + en_passant_text(pos.en_passant) + seq![' ']);
            assert(e =~= d + decimal(pos.halfmove_clock as nat) + seq![' ']);
            assert(fen@ =~= e + decimal(pos.fullmove_number as nat));
        }
        fen
    }

    /// The position in FEN inside `Board("...")`, for use in messages.
    pub fn to_debug_string(&self) -> (s: String)
        requires
            self.consistent(),
        ensures
            s@ == "Board(\""@ + fen_text(self@) + "\")"@,
    {
        let mut s = String::from_str("Board(\"");
        let fen: String = self.to_fen();
        s.append(fen.as_str());
        s.append("\")");
        s
    }
}

} // verus!
