//! Two players that choose among the legal moves of a snapshot: one by the
//! counters of the game alone, one by a score that favours captures,
//! promotions, the centre and early development.

use crate::game::{string_views, BoardState};
use crate::types::{file_of, parse_square, rank_of, Color, Piece, PieceType};
use vstd::prelude::*;

verus! {

/// The two squares that a move in UCI begins with, whatever follows them.
pub open spec fn uci_squares(s: Seq<char>) -> Option<(int, int)> {
    if s.len() < 4 {
        None
    } else {
        match (parse_square(s.subrange(0, 2)), parse_square(s.subrange(2, 4))) {
            (Some(from), Some(to)) => Some((from, to)),
            _ => None,
        }
    }
}

/// The worth of a kind of piece as a victim: queen 9, rook 5, bishop and
/// knight 3, pawn 1, and nothing for the king, which is never taken.
pub open spec fn worth(pt: PieceType) -> int {
    match pt {
        PieceType::Queen => 9,
        PieceType::Rook => 5,
        PieceType::Bishop => 3,
        PieceType::Knight => 3,
        PieceType::Pawn => 1,
        PieceType::King => 0,
    }
}

/// One of the four squares in the middle of the board.
pub open spec fn central(i: int) -> bool {
    i == 27 || i == 28 || i == 35 || i == 36
}

/// One of the sixteen squares in the middle of the board.
pub open spec fn near_central(i: int) -> bool {
    2 <= file_of(i) <= 5 && 2 <= rank_of(i) <= 5
}

/// The score of a move on a snapshot. A capture scores 100 and ten times
/// the worth of the victim; a promotion 90 to a queen, 50 to a rook, 30 to a
/// bishop or knight; a move to the centre 15, near it 5; and before the
/// tenth move a piece other than a pawn that moves scores 8. A text that
/// does not begin with two squares scores nothing.
pub open spec fn score(uci: Seq<char>, squares: Seq<Option<Piece>>, fullmove: int) -> int {
    match uci_squares(uci) {
        None => 0,
        Some((from, to)) => {
            let capture = match squares[to] {
                Some(p) => 100 + worth(p.piece_type) * 10,
                None => 0,
            };
            let promotion = if uci.len() > 4 {
                if uci[4] == 'q' {
                    90
                } else if uci[4] == 'r' {
                    50
                } else if uci[4] == 'b' || uci[4] == 'n' {
                    30
                } else {
                    0int
                }
            } else {
                0
            };
            let centre = if central(to) {
                15
            } else if near_central(to) {
                5
            } else {
                0int
            };
            let development = if fullmove < 10 {
                match squares[from] {
                    Some(p) => if p.piece_type != PieceType::Pawn {
                        8
                    } else {
                        0int
                    },
                    None => 0,
                }
            } else {
                0
            };
            capture + promotion + centre + development
        },
    }
}

/// The worth of a kind of piece as a victim.
pub fn piece_value(pt: PieceType) -> (v: i32)
    ensures
        v == worth(pt),
{
    match pt {
        PieceType::Queen => 9,
        PieceType::Rook => 5,
        PieceType::Bishop => 3,
        PieceType::Knight => 3,
        PieceType::Pawn => 1,
        PieceType::King => 0,
    }
}

/// Reads the two squares that a move in UCI begins with, as indices.
pub fn parse_uci(uci: &str) -> (r: Option<(usize, usize)>)
    ensures
        match uci_squares(uci@) {
            Some((from, to)) => r == Some((from as usize, to as usize)) && from < 64 && to < 64,
            None => r is None,
        },
{
    if uci.unicode_len() < 4 {
        return None;
    }
    let ff: u32 = uci.get_char(0) as u32;
    let fr: u32 = uci.get_char(1) as u32;
    let tf: u32 = uci.get_char(2) as u32;
    let tr: u32 = uci.get_char(3) as u32;
    proof {
        assert(uci@.subrange(0, 2).len() == 2);
        assert(uci@.subrange(0, 2)[0] == uci@[0]);
        assert(uci@.subrange(0, 2)[1] == uci@[1]);
        assert(uci@.subrange(2, 4).len() == 2);
        assert(uci@.subrange(2, 4)[0] == uci@[2]);
        assert(uci@.subrange(2, 4)[1] == uci@[3]);
    }
    if !(ff >= 97 && ff <= 104 && fr >= 49 && fr <= 56 && tf >= 97 && tf <= 104 && tr >= 49 && tr
        <= 56) {
        return None;
    }
    let from: usize = ((fr - 49) * 8 + (ff - 97)) as usize;
    let to: usize = ((tr - 49) * 8 + (tf - 97)) as usize;
    Some((from, to))
}

/// Whether the square is one of the four in the middle of the board.
pub fn is_center(idx: usize) -> (r: bool)
    ensures
        r == central(idx as int),
{
    idx == 27 || idx == 28 || idx == 35 || idx == 36
}

/// Whether the square is one of the sixteen in the middle of the board.
pub fn is_extended_center(idx: usize) -> (r: bool)
    ensures
        r == near_central(idx as int),
{
    let file: usize = idx % 8;
    let rank: usize = idx / 8;
    2 <= file && file <= 5 && 2 <= rank && rank <= 5
}

/// The score of a move on a snapshot, for the ordering of moves: the
/// higher the better.
pub fn score_move(uci: &str, board: &BoardState) -> (s: i32)
    requires
        board.squares.len() == 64,
    ensures
        s == score(uci@, board.squares@, board.fullmove_number as int),
        0 <= s <= 303,
{
    let (from, to) = match parse_uci(uci) {
        Some(pair) => pair,
        None => {
            return 0;
        },
    };
    let mut total: i32 = 0;
    match board.squares[to] {
        Some(target) => {
            total = total + 100 + piece_value(target.piece_type) * 10;
        },
        None => {},
    }
    if uci.unicode_len() > 4 {
        let c: char = uci.get_char(4);
        total = total + if c == 'q' {
            90
        } else if c == 'r' {
            50
        } else if c == 'b' || c == 'n' {
            30
        } else {
            0
        };
    }
    if is_center(to) {
        total = total + 15;
    } else if is_extended_center(to) {
        total = total + 5;
    }
    if board.fullmove_number < 10 {
        match board.squares[from] {
            Some(piece) => {
                if piece.piece_type.index() != 0 {
                    total = total + 8;
                }
            },
            None => {},
        }
    }
    total
}

/// The scores of the moves, in order.
pub open spec fn scores(moves: Seq<Seq<char>>, squares: Seq<Option<Piece>>, fullmove: int) -> Seq<
    int,
> {
    moves.map_values(|m: Seq<char>| score(m, squares, fullmove))
}

/// The highest of the scores, and the least 32-bit integer where there is
/// none.
pub open spec fn best_of(s: Seq<int>) -> int
    decreases s.len(),
{
    if s.len() == 0 {
        i32::MIN as int
    } else {
        let rest = best_of(s.drop_last());
        if s.last() > rest {
            s.last()
        } else {
            rest
        }
    }
}

/// The indices at which the score is `best`, in order.
pub open spec fn tied_at(s: Seq<int>, best: int) -> Seq<int>
    decreases s.len(),
{
    if s.len() == 0 {
        Seq::empty()
    } else {
        let rest = tied_at(s.drop_last(), best);
        if s.last() == best {
            rest.push(s.len() - 1)
        } else {
            rest
        }
    }
}

/// The index of the move that the scoring player chooses: among the moves
/// of the highest score, the one that the sum of the two counters points
/// at, so that the same snapshot gives the same move.
pub open spec fn smart_choice(
    moves: Seq<Seq<char>>,
    squares: Seq<Option<Piece>>,
    halfmove: int,
    fullmove: int,
) -> int {
    let s = scores(moves, squares, fullmove);
    let tied = tied_at(s, best_of(s));
    tied[(fullmove + halfmove) % (tied.len() as int)]
}

/// Every tied index is an index of the list.
proof fn lemma_tied_in_range(s: Seq<int>, best: int)
    ensures
        forall|k: int|
            0 <= k < tied_at(s, best).len() ==> 0 <= #[trigger] tied_at(s, best)[k] < s.len(),
    decreases s.len(),
{
    if s.len() > 0 {
        lemma_tied_in_range(s.drop_last(), best);
        let rest = tied_at(s.drop_last(), best);
        assert forall|k: int| 0 <= k < tied_at(s, best).len() implies 0 <= #[trigger] tied_at(
            s,
            best,
        )[k] < s.len() by {
            if k < rest.len() {
                assert(tied_at(s, best)[k] == rest[k]);
            }
        }
    }
}

/// The highest score of a list that is not empty is reached.
proof fn lemma_best_is_reached(s: Seq<int>)
    requires
        s.len() > 0,
        forall|k: int| 0 <= k < s.len() ==> #[trigger] s[k] > i32::MIN,
    ensures
        tied_at(s, best_of(s)).len() > 0,
    decreases s.len(),
{
    let rest = s.drop_last();
    if s.last() == best_of(s) {
    } else {
        assert(best_of(s) == best_of(rest));
        if rest.len() == 0 {
            assert(best_of(rest) == i32::MIN);
            assert(s[s.len() - 1] > i32::MIN);
        } else {
            assert forall|k: int| 0 <= k < rest.len() implies #[trigger] rest[k] > i32::MIN by {
                assert(rest[k] == s[k]);
            }
            lemma_best_is_reached(rest);
        }
    }
}

/// A player that scores the moves and takes one of the best.
pub struct SmartBot;

impl SmartBot {
    pub fn get_name() -> (s: String)
        ensures
            s@ == "Smart Bot"@,
    {
        String::from_str("Smart Bot")
    }

    pub fn get_description() -> (s: String)
        ensures
            s@ == "Prefers captures and center control. Written in Rust."@,
    {
        String::from_str("Prefers captures and center control. Written in Rust.")
    }

    /// The player takes either side.
    pub fn get_preferred_color() -> (c: Option<Color>)
        ensures
            c is None,
    {
        None
    }

    /// The move that the player chooses among `moves`, the legal moves of
    /// the snapshot in UCI: one of those with the highest score. The empty
    /// text where there is no move.
    pub fn select_move(moves: &Vec<String>, board: &BoardState) -> (chosen: String)
        requires
            board.squares.len() == 64,
        ensures
            moves.len() == 0 ==> chosen@.len() == 0,
            moves.len() > 0 ==> ({
                let i = smart_choice(
                    string_views(moves@),
                    board.squares@,
                    board.halfmove_clock as int,
                    board.fullmove_number as int,
                );
                0 <= i < moves.len() && chosen@ == moves[i]@
            }),
    {
        if moves.len() == 0 {
            return String::new();
        }
        let ghost texts = string_views(moves@);
        let ghost all = scores(texts, board.squares@, board.fullmove_number as int);
        let mut scored: Vec<i32> = Vec::new();
        let mut best: i32 = i32::MIN;
        let mut i: usize = 0;
        proof {
            assert(all.take(0) =~= Seq::<int>::empty());
        }
        while i < moves.len()
            invariant
                board.squares.len() == 64,
                texts == string_views(moves@),
                all == scores(texts, board.squares@, board.fullmove_number as int),
                i <= moves.len(),
                scored.len() == i,
                forall|k: int| 0 <= k < i ==> #[trigger] scored[k] == all[k],
                forall|k: int| 0 <= k < i ==> 0 <= #[trigger] all[k] <= 303,
                best == best_of(all.take(i as int)),
            decreases moves.len() - i,
        {
            let s: i32 = score_move(moves[i].as_str(), board);
            proof {
                assert(texts[i as int] == moves[i as int]@);
                assert(all[i as int] == s);
                assert(all.take(i + 1).drop_last() =~= all.take(i as int));
            }
            scored.push(s);
            if s > best {
                best = s;
            }
            i = i + 1;
        }
        proof {
            assert(all.take(moves.len() as int) =~= all);
            assert(tied_at(all.take(0), best as int) =~= Seq::<int>::empty());
        }
        let mut tied: Vec<usize> = Vec::new();
        let mut j: usize = 0;
        while j < scored.len()
            invariant
                scored.len() == moves.len(),
                all.len() == moves.len(),
                forall|k: int| 0 <= k < scored.len() ==> #[trigger] scored[k] == all[k],
                j <= scored.len(),
                tied.len() == tied_at(all.take(j as int), best as int).len(),
                forall|k: int|
                    0 <= k < tied.len() ==> #[trigger] tied[k] == tied_at(
                        all.take(j as int),
                        best as int,
                    )[k],
            decreases scored.len() - j,
        {
            proof {
                assert(all.take(j + 1).drop_last() =~= all.take(j as int));
            }
            if scored[j] == best {
                tied.push(j);
            }
            j = j + 1;
        }
        proof {
            assert(all.take(scored.len() as int) =~= all);
            lemma_best_is_reached(all);
            lemma_tied_in_range(all, best as int);
        }
        // A component has no source of chance: the counters of the game
        // stand in for one.
        let sum: usize = board.fullmove_number as usize + board.halfmove_clock as usize;
        let pick: usize = sum % tied.len();
        moves[tied[pick]].clone()
    }

    /// The move that the player suggests: the one it would choose.
    pub fn suggest_move(moves: &Vec<String>, board: &BoardState) -> (chosen: String)
        requires
            board.squares.len() == 64,
        ensures
            moves.len() == 0 ==> chosen@.len() == 0,
            moves.len() > 0 ==> ({
                let i = smart_choice(
                    string_views(moves@),
                    board.squares@,
                    board.halfmove_clock as int,
                    board.fullmove_number as int,
                );
                0 <= i < moves.len() && chosen@ == moves[i]@
            }),
    {
        SmartBot::select_move(moves, board)
    }
}

/// A player that takes the move that the counters of the game point at.
pub struct RandomBot;

impl RandomBot {
    pub fn get_name() -> (s: String)
        ensures
            s@ == "Random Bot"@,
    {
        String::from_str("Random Bot")
    }

    pub fn get_description() -> (s: String)
        ensures
            s@ == "A simple bot that picks random legal moves. Great for testing!"@,
    {
        String::from_str("A simple bot that picks random legal moves. Great for testing!")
    }

    /// The player takes either side.
    pub fn get_preferred_color() -> (c: Option<Color>)
        ensures
            c is None,
    {
        None
    }

    /// The move that the player chooses among `moves`: the one at the index
    /// that the sum of the two counters gives, modulo the number of moves.
    /// The empty text where there is no move.
    pub fn select_move(moves: &Vec<String>, board: &BoardState) -> (chosen: String)
        ensures
            moves.len() == 0 ==> chosen@.len() == 0,
            moves.len() > 0 ==> chosen@ == moves[(board.fullmove_number + board.halfmove_clock)
                % (moves.len() as int)]@,
    {
        if moves.len() == 0 {
            return String::new();
        }
        let sum: usize = board.fullmove_number as usize + board.halfmove_clock as usize;
        moves[sum % moves.len()].clone()
    }

    /// The move that the player suggests: the one it would choose.
    pub fn suggest_move(moves: &Vec<String>, board: &BoardState) -> (chosen: String)
        ensures
            moves.len() == 0 ==> chosen@.len() == 0,
            moves.len() > 0 ==> chosen@ == moves[(board.fullmove_number + board.halfmove_clock)
                % (moves.len() as int)]@,
    {
        RandomBot::select_move(moves, board)
    }
}

} // verus!
