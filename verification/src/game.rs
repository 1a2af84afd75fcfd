//! A game: a board and the moves that have been made on it.
//!
//! [`GameResource`] is the game as a host sees it, with typed values and the
//! three errors of the boundary. [`ChessGame`] is the same game for a host
//! that speaks in texts.

use crate::board::Board;
use crate::fen::{fen_text, parse_fen};
use crate::legal::all_legal;
use crate::position::{holds, in_check, resolve, Position};
use crate::types::{
    move_views,
    parse_square,
    parse_uci_move,
    square_name,
    Color,
    GameState,
    Move,
    MoveView,
    Piece,
    PieceType,
    Square,
};
use vstd::prelude::*;

verus! {

/// Why the engine refuses a request.
#[derive(Clone, Copy, PartialEq, Eq, Debug, Structural)]
pub enum EngineError {
    /// The text does not denote a position on which a game can be played.
    InvalidFen,
    /// The text is not a move in UCI, or no legal move agrees with it.
    IllegalMove,
    /// The game is over: no move is made after checkmate, stalemate or a
    /// draw.
    GameOver,
}

/// A move that was made, in UCI, and the position it led to, in FEN.
#[derive(Clone, Debug)]
pub struct MoveHistoryEntry {
    pub uci_move: String,
    pub resulting_fen: String,
}

/// The four castling rights.
#[derive(Clone, Copy, PartialEq, Eq, Debug, Structural)]
pub struct Castling {
    pub white_kingside: bool,
    pub white_queenside: bool,
    pub black_kingside: bool,
    pub black_queenside: bool,
}

/// A snapshot of a game.
#[derive(Clone, Debug)]
pub struct BoardState {
    /// What stands on each of the sixty-four squares.
    pub squares: Vec<Option<Piece>>,
    pub turn: Color,
    pub castling_rights: Castling,
    /// Index of the en-passant target, if any.
    pub en_passant: Option<u8>,
    pub halfmove_clock: u16,
    pub fullmove_number: u16,
    pub move_history: Vec<MoveHistoryEntry>,
}

/// A move and the position it led to, as two texts.
pub open spec fn entry_view(e: MoveHistoryEntry) -> (Seq<char>, Seq<char>) {
    (e.uci_move@, e.resulting_fen@)
}

/// The history as a list of pairs of texts.
pub open spec fn entries_view(h: Seq<MoveHistoryEntry>) -> Seq<(Seq<char>, Seq<char>)> {
    h.map_values(|e: MoveHistoryEntry| entry_view(e))
}

/// The pairs as a list of pairs of texts.
pub open spec fn pairs_view(h: Seq<(String, String)>) -> Seq<(Seq<char>, Seq<char>)> {
    h.map_values(|e: (String, String)| (e.0@, e.1@))
}

/// The texts of a list of strings.
pub open spec fn string_views(v: Seq<String>) -> Seq<Seq<char>> {
    v.map_values(|s: String| s@)
}

/// The moves in UCI.
pub open spec fn uci_texts(moves: Seq<MoveView>) -> Seq<Seq<char>> {
    moves.map_values(|m: MoveView| m.uci())
}

/// The history of a game as a list of entries.
pub fn history_to_wit(history: &Vec<(String, String)>) -> (entries: Vec<MoveHistoryEntry>)
    ensures
        entries_view(entries@) == pairs_view(history@),
{
    let mut entries: Vec<MoveHistoryEntry> = Vec::new();
    let mut i: usize = 0;
    proof {
        assert(entries_view(entries@) =~= pairs_view(history@.take(0)));
    }
    while i < history.len()
        invariant
            i <= history.len(),
            entries_view(entries@) == pairs_view(history@.take(i as int)),
        decreases history.len() - i,
    {
        let ghost before = entries_view(entries@);
        let entry = MoveHistoryEntry {
            uci_move: history[i].0.clone(),
            resulting_fen: history[i].1.clone(),
        };
        entries.push(entry);
        i = i + 1;
        proof {
            assert(entries_view(entries@) =~= before.push(entry_view(entry)));
            assert(pairs_view(history@.take(i as int)) =~= before.push(entry_view(entry)));
        }
    }
    proof {
        assert(history@.take(history.len() as int) =~= history@);
    }
    entries
}

/// The legal moves of the board in UCI.
fn legal_uci(board: &Board) -> (texts: Vec<String>)
    requires
        board.wf(),
        board@.playable(),
    ensures
        string_views(texts@) == uci_texts(board@.legal_moves()),
{
    let moves: Vec<Move> = board.generate_legal_moves();
    let ghost views = move_views(moves@);
    let mut texts: Vec<String> = Vec::new();
    let mut i: usize = 0;
    proof {
        assert(string_views(texts@) =~= uci_texts(views.take(0)));
    }
    while i < moves.len()
        invariant
            i <= moves.len(),
            views == move_views(moves@),
            all_legal(board@, moves@),
            string_views(texts@) == uci_texts(views.take(i as int)),
        decreases moves.len() - i,
    {
        let ghost before = string_views(texts@);
        let m: Move = moves[i];
        proof {
            assert(board@.legal(m@));
        }
        let text: String = m.to_uci();
        texts.push(text);
        i = i + 1;
        proof {
            assert(views[i - 1] == m@);
            assert(string_views(texts@) =~= before.push(m@.uci()));
            assert(uci_texts(views.take(i as int)) =~= before.push(m@.uci()));
        }
    }
    proof {
        assert(views.take(moves.len() as int) =~= views);
    }
    texts
}

/// The sixty-four squares of the board.
fn all_squares(board: &Board) -> (squares: Vec<Option<Piece>>)
    requires
        board.consistent(),
    ensures
        squares@ == board@.squares,
{
    let mut squares: Vec<Option<Piece>> = Vec::new();
    let mut i: u8 = 0;
    proof {
        board.lemma_view();
    }
    while i < 64
        invariant
            board.consistent(),
            board@.squares.len() == 64,
            i <= 64,
            squares@ == board@.squares.take(i as int),
        decreases 64 - i,
    {
        squares.push(board.piece_at(Square::from_index(i)));
        i = i + 1;
        proof {
            assert(squares@ =~= board@.squares.take(i as int));
        }
    }
    proof {
        assert(board@.squares.take(64) =~= board@.squares);
    }
    squares
}

/// Whether the move would take the king of the side that is not to move.
fn takes_king(board: &Board, mv: Move) -> (r: bool)
    requires
        board.consistent(),
    ensures
        r == holds(board@.squares, mv@.to, board@.them(), PieceType::King),
{
    match board.piece_at(mv.to()) {
        Some(p) => p.piece_type.index() == 5 && p.color.index() == board.side_to_move().opposite().index(),
        None => false,
    }
}

/// The move that a request in UCI leads to on a position: the first legal
/// move that agrees with the text, unless the text is no move or the move
/// would take a king.
pub open spec fn requested_move(pos: Position, uci: Seq<char>) -> Option<MoveView> {
    match parse_uci_move(uci) {
        Some(mv) => if holds(pos.squares, mv.to, pos.them(), PieceType::King) {
            None
        } else {
            resolve(pos.legal_moves(), mv)
        },
        None => None,
    }
}

/// Makes on `board` the move that `uci` asks for, if there is one.
fn request_move(board: &mut Board, uci: &str) -> (done: bool)
    requires
        old(board).wf(),
        old(board)@.playable(),
        requested_move(old(board)@, uci@) matches Some(m) ==> old(board)@.clock_has_room(m),
    ensures
        done == (requested_move(old(board)@, uci@) is Some),
        done ==> final(board).wf() && final(board)@.playable() && final(board)@ == old(
            board,
        )@.apply_move(requested_move(old(board)@, uci@)->0) && old(board)@.legal(
            requested_move(old(board)@, uci@)->0,
        ),
        !done ==> *final(board) == *old(board),
{
    match Move::from_uci(uci) {
        Some(mv) => {
            if takes_king(board, mv) {
                false
            } else {
                board.make_move(mv)
            }
        },
        None => false,
    }
}

// ---------------------------------------------------------------------------
// The game with typed values
// ---------------------------------------------------------------------------
/// A game, as a host that speaks in typed values sees it.
pub struct GameResource {
    board: Board,
    history: Vec<(String, String)>,
}

impl GameResource {
    /// The invariant of a game: its board is one on which moves can be
    /// generated and made.
    pub closed spec fn wf(&self) -> bool {
        self.board.wf() && self.board@.playable()
    }

    /// The position of the game.
    pub closed spec fn position(&self) -> Position {
        self.board@
    }

    /// The moves made so far, each with the position it led to.
    pub closed spec fn history(&self) -> Seq<(Seq<char>, Seq<char>)> {
        pairs_view(self.history@)
    }

    /// A game at the starting position.
    pub fn new() -> (g: GameResource)
        ensures
            g.wf(),
            g.position() == crate::position::start_position(),
            g.history().len() == 0,
    {
        GameResource { board: Board::new(), history: Vec::new() }
    }

    /// A game at the position that the text denotes. The text is refused
    /// where it denotes no position, or one whose castling rights,
    /// en-passant target or pawns are not sound.
    pub fn from_fen(fen: &str) -> (r: Result<GameResource, EngineError>)
        ensures
            match r {
                Ok(g) => g.wf() && parse_fen(fen@) == Some(g.position()) && g.position().playable()
                    && g.history().len() == 0,
                Err(e) => e == EngineError::InvalidFen && (parse_fen(fen@) is None || !parse_fen(
                    fen@,
                )->0.playable()),
            },
    {
        match Board::from_fen(fen) {
            Some(board) => {
                if board.is_playable() {
                    Ok(GameResource { board, history: Vec::new() })
                } else {
                    Err(EngineError::InvalidFen)
                }
            },
            None => Err(EngineError::InvalidFen),
        }
    }

    /// The position in FEN.
    pub fn get_fen(&self) -> (fen: String)
        requires
            self.wf(),
        ensures
            fen@ == fen_text(self.position()),
    {
        self.board.to_fen()
    }

    /// A snapshot of the game.
    pub fn get_board_state(&self) -> (state: BoardState)
        requires
            self.wf(),
        ensures
            state.squares@ == self.position().squares,
            state.turn == self.position().side_to_move,
            state.castling_rights.white_kingside == self.position().castling.white_kingside,
            state.castling_rights.white_queenside == self.position().castling.white_queenside,
            state.castling_rights.black_kingside == self.position().castling.black_kingside,
            state.castling_rights.black_queenside == self.position().castling.black_queenside,
            match state.en_passant {
                Some(e) => self.position().en_passant == Some(e as int),
                None => self.position().en_passant is None,
            },
            state.halfmove_clock == self.position().halfmove_clock,
            state.fullmove_number == self.position().fullmove_number,
            entries_view(state.move_history@) == self.history(),
    {
        let rights = self.board.castling();
        BoardState {
            squares: all_squares(&self.board),
            turn: self.board.side_to_move(),
            castling_rights: Castling {
                white_kingside: rights.white_kingside(),
                white_queenside: rights.white_queenside(),
                black_kingside: rights.black_kingside(),
                black_queenside: rights.black_queenside(),
            },
            en_passant: match self.board.en_passant() {
                Some(sq) => Some(sq.raw()),
                None => None,
            },
            halfmove_clock: self.board.halfmove_clock(),
            fullmove_number: self.board.fullmove_number(),
            move_history: history_to_wit(&self.history),
        }
    }

    /// The legal moves in UCI.
    pub fn get_legal_moves(&self) -> (texts: Vec<String>)
        requires
            self.wf(),
        ensures
            string_views(texts@) == uci_texts(self.position().legal_moves()),
    {
        legal_uci(&self.board)
    }

    /// Makes the move that `uci` asks for. The game is left as it was where
    /// it is over, where the text is no move in UCI, and where no legal
    /// move agrees with it.
    pub fn make_move(&mut self, uci: &str) -> (r: Result<(), EngineError>)
        requires
            old(self).wf(),
        ensures
            final(self).wf(),
            match r {
                Ok(_) => {
                    let m = requested_move(old(self).position(), uci@);
                    &&& old(self).position().outcome() == GameState::InProgress
                    &&& m is Some
                    &&& old(self).position().legal(m->0)
                    &&& final(self).position() == old(self).position().apply_move(m->0)
                    &&& final(self).history() == old(self).history().push(
                        (uci@, fen_text(final(self).position())),
                    )
                },
                Err(e) => *final(self) == *old(self) && if old(self).position().outcome()
                    != GameState::InProgress {
                    e == EngineError::GameOver
                } else {
                    e == EngineError::IllegalMove && requested_move(old(self).position(), uci@)
                        is None
                },
            },
    {
        if !same_state(self.board.game_state(), GameState::InProgress) {
            return Err(EngineError::GameOver);
        }
        let mut board: Board = self.board;
        if request_move(&mut board, uci) {
            let fen: String = board.to_fen();
            let ghost before = pairs_view(self.history@);
            self.board = board;
            self.history.push((String::from_str(uci), fen));
            proof {
                assert(pairs_view(self.history@) =~= before.push((uci@, fen@)));
            }
            Ok(())
        } else {
            Err(EngineError::IllegalMove)
        }
    }

    /// How the game stands.
    pub fn get_game_result(&self) -> (state: GameState)
        requires
            self.wf(),
        ensures
            state == self.position().outcome(),
    {
        self.board.game_state()
    }

    /// Whether the side to move is in check.
    pub fn is_check(&self) -> (r: bool)
        requires
            self.wf(),
        ensures
            r == in_check(self.position().squares, self.position().side_to_move),
    {
        self.board.is_in_check(self.board.side_to_move())
    }

    /// The side to move.
    pub fn get_turn(&self) -> (c: Color)
        ensures
            c == self.position().side_to_move,
    {
        self.board.side_to_move()
    }

    /// The piece on the square with index `sq`, if that is a square and
    /// holds one.
    pub fn get_piece_at(&self, sq: u8) -> (p: Option<Piece>)
        requires
            self.wf(),
        ensures
            p == if sq < 64 {
                self.position().squares[sq as int]
            } else {
                None
            },
    {
        if sq >= 64 {
            return None;
        }
        self.board.piece_at(Square::from_index(sq))
    }

    /// The moves made so far, each with the position it led to.
    pub fn get_move_history(&self) -> (entries: Vec<MoveHistoryEntry>)
        ensures
            entries_view(entries@) == self.history(),
    {
        history_to_wit(&self.history)
    }

    /// Sets the game back to the starting position, with no move made.
    pub fn reset(&mut self)
        ensures
            final(self).wf(),
            final(self).position() == crate::position::start_position(),
            final(self).history().len() == 0,
    {
        self.board = Board::new();
        self.history = Vec::new();
    }
}

// ---------------------------------------------------------------------------
// The game in texts
// ---------------------------------------------------------------------------
/// A piece in words: its kind and its side, in lower case.
#[derive(Clone, Debug)]
pub struct PieceJson {
    pub piece_type: String,
    pub color: String,
}

/// The four castling rights.
#[derive(Clone, Copy, PartialEq, Eq, Debug, Structural)]
pub struct CastlingJson {
    pub white_kingside: bool,
    pub white_queenside: bool,
    pub black_kingside: bool,
    pub black_queenside: bool,
}

/// A move that was made, in UCI, and the position it led to, in FEN.
#[derive(Clone, Debug)]
pub struct MoveHistoryEntryJson {
    pub uci_move: String,
    pub resulting_fen: String,
}

/// A move in words: the names of its squares and of the piece it promotes
/// to.
#[derive(Clone, Debug)]
pub struct MoveJson {
    pub from: String,
    pub to: String,
    pub promotion: Option<String>,
}

/// A snapshot of a game in words.
#[derive(Clone, Debug)]
pub struct BoardJson {
    /// What stands on each of the sixty-four squares.
    pub squares: Vec<Option<PieceJson>>,
    pub turn: String,
    pub castling: CastlingJson,
    /// Name of the en-passant target, if any.
    pub en_passant: Option<String>,
    pub halfmove_clock: u16,
    pub fullmove_number: u16,
    pub move_history: Vec<MoveHistoryEntryJson>,
}

/// A piece in words.
pub open spec fn piece_words(p: Option<Piece>) -> Option<(Seq<char>, Seq<char>)> {
    match p {
        Some(p) => Some((p.piece_type.name_text(), p.color.name_text())),
        None => None,
    }
}

/// The words of a piece in words.
pub open spec fn piece_json_view(p: Option<PieceJson>) -> Option<(Seq<char>, Seq<char>)> {
    match p {
        Some(p) => Some((p.piece_type@, p.color@)),
        None => None,
    }
}

/// The history as a list of pairs of texts.
pub open spec fn json_entries_view(h: Seq<MoveHistoryEntryJson>) -> Seq<(Seq<char>, Seq<char>)> {
    h.map_values(|e: MoveHistoryEntryJson| (e.uci_move@, e.resulting_fen@))
}

/// The name of how a game stands.
pub open spec fn state_name(state: GameState) -> Seq<char> {
    match state {
        GameState::InProgress => "in_progress"@,
        GameState::Checkmate => "checkmate"@,
        GameState::Stalemate => "stalemate"@,
        GameState::Draw => "draw"@,
    }
}

/// The error type of `serde_json`.
#[verifier::external_type_specification]
#[verifier::external_body]
pub struct ExJsonError(serde_json::Error);

/// The JSON text that `serde_json::to_string` gives for a list of strings.
pub uninterp spec fn json_array_text(items: Seq<Seq<char>>) -> Seq<char>;

/// `serde_json::to_string` on a list of strings. It gives a text, and the
/// text is the JSON of the list. That it gives one rests on how the call
/// writes: into a byte vector, where every error of this call would come
/// from the writer, and a byte vector takes all that is written to it; the
/// list and its strings only hand themselves on to the serializer.
#[verifier::external_body]
fn strings_to_json(items: &Vec<String>) -> (r: Result<String, serde_json::Error>)
    ensures
        r is Ok,
        r matches Ok(text) ==> text@ == json_array_text(string_views(items@)),
{
    serde_json::to_string(items)
}

/// The text that was written, or the empty JSON array where none was.
pub fn json_or_empty_array(r: Result<String, serde_json::Error>) -> (text: String)
    ensures
        match r {
            Ok(t) => text@ == t@,
            Err(_) => text@ == "[]"@,
        },
{
    match r {
        Ok(t) => t,
        Err(_) => String::from_str("[]"),
    }
}

fn piece_to_json(p: Option<Piece>) -> (j: Option<PieceJson>)
    ensures
        piece_json_view(j) == piece_words(p),
{
    match p {
        Some(p) => Some(
            PieceJson { piece_type: p.piece_type.to_string(), color: p.color.to_string() },
        ),
        None => None,
    }
}

fn pairs_to_json(history: &Vec<(String, String)>) -> (entries: Vec<MoveHistoryEntryJson>)
    ensures
        json_entries_view(entries@) == pairs_view(history@),
{
    let mut entries: Vec<MoveHistoryEntryJson> = Vec::new();
    let mut i: usize = 0;
    proof {
        assert(json_entries_view(entries@) =~= pairs_view(history@.take(0)));
    }
    while i < history.len()
        invariant
            i <= history.len(),
            json_entries_view(entries@) == pairs_view(history@.take(i as int)),
        decreases history.len() - i,
    {
        let ghost before = json_entries_view(entries@);
        let entry = MoveHistoryEntryJson {
            uci_move: history[i].0.clone(),
            resulting_fen: history[i].1.clone(),
        };
        let ghost pair = (entry.uci_move@, entry.resulting_fen@);
        entries.push(entry);
        i = i + 1;
        proof {
            assert(json_entries_view(entries@) =~= before.push(pair));
            assert(pairs_view(history@.take(i as int)) =~= before.push(pair));
        }
    }
    proof {
        assert(history@.take(history.len() as int) =~= history@);
    }
    entries
}

/// A game, as a host that speaks in texts sees it.
pub struct ChessGame {
    board: Board,
    history: Vec<(String, String)>,
}

impl ChessGame {
    /// The invariant of a game: its board is one on which moves can be
    /// generated and made.
    pub closed spec fn wf(&self) -> bool {
        self.board.wf() && self.board@.playable()
    }

    /// The position of the game.
    pub closed spec fn position(&self) -> Position {
        self.board@
    }

    /// The moves made so far, each with the position it led to.
    pub closed spec fn history(&self) -> Seq<(Seq<char>, Seq<char>)> {
        pairs_view(self.history@)
    }

    /// A game at the starting position.
    pub fn new() -> (g: ChessGame)
        ensures
            g.wf(),
            g.position() == crate::position::start_position(),
            g.history().len() == 0,
    {
        ChessGame { board: Board::new(), history: Vec::new() }
    }

    /// A game at the position that the text denotes. There is none where
    /// the text denotes no position, or one whose castling rights,
    /// en-passant target or pawns are not sound.
    pub fn from_fen(fen: &str) -> (r: Option<ChessGame>)
        ensures
            match r {
                Some(g) => g.wf() && parse_fen(fen@) == Some(g.position())
                    && g.position().playable() && g.history().len() == 0,
                None => parse_fen(fen@) is None || !parse_fen(fen@)->0.playable(),
            },
    {
        match Board::from_fen(fen) {
            Some(board) => {
                if board.is_playable() {
                    Some(ChessGame { board, history: Vec::new() })
                } else {
                    None
                }
            },
            None => None,
        }
    }

    /// The position in FEN.
    pub fn get_fen(&self) -> (fen: String)
        requires
            self.wf(),
        ensures
            fen@ == fen_text(self.position()),
    {
        self.board.to_fen()
    }

    /// The legal moves in UCI, as a JSON array of strings.
    pub fn get_legal_moves(&self) -> (text: String)
        requires
            self.wf(),
        ensures
            text@ == json_array_text(uci_texts(self.position().legal_moves())),
    {
        let moves: Vec<String> = legal_uci(&self.board);
        json_or_empty_array(strings_to_json(&moves))
    }

    /// The move that `uci` asks for cannot be made because the counter of
    /// plies, which has sixteen bits, stands at its last value and the move
    /// would not set it back.
    pub open spec fn overflows(&self, uci: Seq<char>) -> bool {
        requested_move(self.position(), uci) matches Some(m) && !self.position().clock_has_room(
            m,
        )
    }

    /// Whether the move that `uci` asks for would take the counter of plies
    /// past its last value, so that [`ChessGame::make_move`] cannot be
    /// asked for it.
    pub fn overflows_clock(&self, uci: &str) -> (r: bool)
        requires
            self.wf(),
        ensures
            r == self.overflows(uci@),
    {
        if self.board.halfmove_clock() < 0xffff {
            return false;
        }
        match Move::from_uci(uci) {
            Some(mv) => {
                if takes_king(&self.board, mv) {
                    false
                } else {
                    match self.board.resolve_move(mv) {
                        Some(m) => !self.board.resets_clock(m),
                        None => false,
                    }
                }
            },
            None => false,
        }
    }

    /// Makes the move that `uci` asks for, and says whether it did. The
    /// game is left as it was where the text is no move in UCI and where no
    /// legal move agrees with it.
    pub fn make_move(&mut self, uci: &str) -> (done: bool)
        requires
            old(self).wf(),
            !old(self).overflows(uci@),
        ensures
            final(self).wf(),
            done == (requested_move(old(self).position(), uci@) is Some),
            done ==> ({
                let m = requested_move(old(self).position(), uci@)->0;
                &&& old(self).position().legal(m)
                &&& final(self).position() == old(self).position().apply_move(m)
                &&& final(self).history() == old(self).history().push(
                    (uci@, fen_text(final(self).position())),
                )
            }),
            !done ==> *final(self) == *old(self),
    {
        let mut board: Board = self.board;
        if request_move(&mut board, uci) {
            let fen: String = board.to_fen();
            let ghost before = pairs_view(self.history@);
            self.board = board;
            self.history.push((String::from_str(uci), fen));
            proof {
                assert(pairs_view(self.history@) =~= before.push((uci@, fen@)));
            }
            true
        } else {
            false
        }
    }

    /// A snapshot of the game in words.
    pub fn get_board_state(&self) -> (state: BoardJson)
        requires
            self.wf(),
        ensures
            state.squares.len() == 64,
            forall|i: int|
                0 <= i < 64 ==> piece_json_view(#[trigger] state.squares[i]) == piece_words(
                    self.position().squares[i],
                ),
            state.turn@ == self.position().side_to_move.name_text(),
            state.castling.white_kingside == self.position().castling.white_kingside,
            state.castling.white_queenside == self.position().castling.white_queenside,
            state.castling.black_kingside == self.position().castling.black_kingside,
            state.castling.black_queenside == self.position().castling.black_queenside,
            match state.en_passant {
                Some(name) => self.position().en_passant matches Some(e) && name@ == square_name(
                    e,
                ),
                None => self.position().en_passant is None,
            },
            state.halfmove_clock == self.position().halfmove_clock,
            state.fullmove_number == self.position().fullmove_number,
            json_entries_view(state.move_history@) == self.history(),
    {
        let mut squares: Vec<Option<PieceJson>> = Vec::new();
        let mut i: u8 = 0;
        proof {
            self.board.lemma_view();
        }
        while i < 64
            invariant
                self.board.consistent(),
                i <= 64,
                squares.len() == i,
                forall|k: int|
                    0 <= k < i ==> piece_json_view(#[trigger] squares[k]) == piece_words(
                        self.board@.squares[k],
                    ),
            decreases 64 - i,
        {
            squares.push(piece_to_json(self.board.piece_at(Square::from_index(i))));
            i = i + 1;
        }
        let rights = self.board.castling();
        BoardJson {
            squares,
            turn: self.board.side_to_move().to_string(),
            castling: CastlingJson {
                white_kingside: rights.white_kingside(),
                white_queenside: rights.white_queenside(),
                black_kingside: rights.black_kingside(),
                black_queenside: rights.black_queenside(),
            },
            en_passant: match self.board.en_passant() {
                Some(sq) => Some(sq.to_string()),
                None => None,
            },
            halfmove_clock: self.board.halfmove_clock(),
            fullmove_number: self.board.fullmove_number(),
            move_history: pairs_to_json(&self.history),
        }
    }

    /// How the game stands: `in_progress`, `checkmate`, `stalemate` or
    /// `draw`.
    pub fn get_game_state(&self) -> (name: String)
        requires
            self.wf(),
        ensures
            name@ == state_name(self.position().outcome()),
    {
        match self.board.game_state() {
            GameState::InProgress => String::from_str("in_progress"),
            GameState::Checkmate => String::from_str("checkmate"),
            GameState::Stalemate => String::from_str("stalemate"),
            GameState::Draw => String::from_str("draw"),
        }
    }

    /// Whether the side to move is in check.
    pub fn is_check(&self) -> (r: bool)
        requires
            self.wf(),
        ensures
            r == in_check(self.position().squares, self.position().side_to_move),
    {
        self.board.is_in_check(self.board.side_to_move())
    }

    /// The side to move: `white` or `black`.
    pub fn get_turn(&self) -> (name: String)
        ensures
            name@ == self.position().side_to_move.name_text(),
    {
        self.board.side_to_move().to_string()
    }

    /// Sets the game back to the starting position, with no move made.
    pub fn reset(&mut self)
        ensures
            final(self).wf(),
            final(self).position() == crate::position::start_position(),
            final(self).history().len() == 0,
    {
        self.board = Board::new();
        self.history = Vec::new();
    }

    /// The moves made so far, each with the position it led to.
    pub fn get_move_history(&self) -> (entries: Vec<MoveHistoryEntryJson>)
        ensures
            json_entries_view(entries@) == self.history(),
    {
        pairs_to_json(&self.history)
    }

    /// The piece, in words, on the square that the text begins with the
    /// name of; none where it does not begin with one or the square is
    /// vacant.
    pub fn get_piece_at(&self, sq_str: &str) -> (p: Option<PieceJson>)
        requires
            self.wf(),
        ensures
            piece_json_view(p) == if sq_str@.len() >= 2 {
                match parse_square(sq_str@.subrange(0, 2)) {
                    Some(i) => piece_words(self.position().squares[i]),
                    None => None,
                }
            } else {
                None
            },
    {
        if sq_str.unicode_len() < 2 {
            return None;
        }
        let f: u32 = sq_str.get_char(0) as u32;
        let r: u32 = sq_str.get_char(1) as u32;
        proof {
            assert(sq_str@.subrange(0, 2).len() == 2);
            assert(sq_str@.subrange(0, 2)[0] == sq_str@[0]);
            assert(sq_str@.subrange(0, 2)[1] == sq_str@[1]);
        }
        if !(f >= 97 && f <= 104 && r >= 49 && r <= 56) {
            return None;
        }
        let sq = Square::new((f - 97) as u8, (r - 49) as u8);
        piece_to_json(self.board.piece_at(sq))
    }
}

fn same_state(a: GameState, b: GameState) -> (r: bool)
    ensures
        r == (a == b),
{
    a == b
}

} // verus!
