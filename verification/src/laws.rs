//! What holds of the engine as a whole.

use crate::fen::{fields, parse_fen, parse_placement};
use crate::legal::{lemma_apply_pieces_sound, lemma_king_is_not_taken};
use crate::position::{lemma_start_sound, one_king, start_position, Position};
use crate::text::parse_u16;
use crate::types::{
    lemma_square_name_parses,
    parse_square,
    parse_uci_move,
    rank_of,
    square_name,
    Color,
    MoveKind,
    MoveView,
};
use vstd::prelude::*;

verus! {

/// The position after the moves of a line, made one after another.
pub open spec fn play(pos: Position, line: Seq<MoveView>) -> Position
    decreases line.len(),
{
    if line.len() == 0 {
        pos
    } else {
        play(pos, line.drop_last()).apply_move(line.last())
    }
}

/// Every move of the line is legal where it is made.
pub open spec fn legal_line(pos: Position, line: Seq<MoveView>) -> bool
    decreases line.len(),
{
    line.len() == 0 || (legal_line(pos, line.drop_last()) && play(pos, line.drop_last()).legal(
        line.last(),
    ))
}

/// The text of a legal move reads back as a move with the same source,
/// destination and promotion piece.
pub proof fn law_uci_round_trip(pos: Position, m: MoveView)
    requires
        pos.legal(m),
    ensures
        parse_uci_move(m.uci()) matches Some(back) && back.same_uci(m),
{
    let text = m.uci();
    lemma_square_name_parses(m.from);
    lemma_square_name_parses(m.to);
    assert(text.subrange(0, 2) =~= square_name(m.from));
    assert(text.subrange(2, 4) =~= square_name(m.to));
    match m.kind {
        MoveKind::Promotion(pt) => {
            assert(text.len() == 5);
            assert(text[4] == pt.uci_letter());
        },
        _ => {
            assert(text.len() == 4);
        },
    }
}

/// A legal move, made where the side that has just moved is not in check,
/// leads to a position that is sound again: one king a side, an en-passant
/// target on the third or sixth rank, sound rights, and the side that has
/// just moved not in check.
pub proof fn law_legal_move_keeps_invariants(pos: Position, m: MoveView)
    requires
        pos.pieces_sound(),
        pos.opponent_safe(),
        pos.legal(m),
    ensures
        pos.apply_move(m).pieces_sound(),
        pos.apply_move(m).opponent_safe(),
{
    lemma_king_is_not_taken(pos, m);
    lemma_apply_pieces_sound(pos, m);
}

/// After any line of legal moves from the starting position, each side
/// has exactly one king.
pub proof fn law_kings_survive(line: Seq<MoveView>)
    requires
        legal_line(start_position(), line),
    ensures
        one_king(play(start_position(), line).squares, Color::White),
        one_king(play(start_position(), line).squares, Color::Black),
        play(start_position(), line).pieces_sound(),
        play(start_position(), line).opponent_safe(),
    decreases line.len(),
{
    lemma_start_sound();
    if line.len() > 0 {
        law_kings_survive(line.drop_last());
        law_legal_move_keeps_invariants(play(start_position(), line.drop_last()), line.last());
    }
}

/// A text is refused where its placement gives a side no king or more than
/// one, where its en-passant field names a square that is not on the third
/// or sixth rank, and where a counter is not a number.
pub proof fn law_fen_rejections(text: Seq<char>)
    ensures
        ({
            let f = fields(text);
            &&& f.len() >= 4 && (parse_placement(f[0]) matches Some(squares) && !(one_king(
                squares,
                Color::White,
            ) && one_king(squares, Color::Black))) ==> parse_fen(text) is None
            &&& f.len() >= 4 && (parse_square(f[3]) matches Some(e) && rank_of(e) != 2 && rank_of(e)
                != 5) ==> parse_fen(text) is None
            &&& f.len() > 4 && parse_u16(f[4]) is None ==> parse_fen(text) is None
            &&& f.len() > 5 && parse_u16(f[5]) is None ==> parse_fen(text) is None
        }),
{
    let f = fields(text);
    if f.len() >= 4 && parse_square(f[3]) is Some {
        assert(f[3].len() == 2);
        assert(f[3] != seq!['-']);
    }
}

} // verus!
