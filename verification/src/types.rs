//! Domain types of the engine: squares, pieces, moves, castling rights.
//!
//! Each type has a mathematical view that the contracts of the engine speak
//! of: a [`Square`] is its index `rank * 8 + file`, a [`Move`] is a
//! [`MoveView`] over such indices, and [`CastlingRights`] is four booleans.

use crate::bits::{bit, lemma_bit_single};
use vstd::prelude::*;

verus! {

// ---------------------------------------------------------------------------
// Square
// ---------------------------------------------------------------------------
/// A square of the board, stored as `rank * 8 + file` in `0..64`, where file 0
/// is the a-file and rank 0 is the first rank.
#[derive(Clone, Copy, PartialEq, Eq, Debug, Hash, Structural)]
pub struct Square(u8);

impl View for Square {
    type V = int;

    closed spec fn view(&self) -> int {
        self.0 as int
    }
}

/// File of the square with index `i`.
pub open spec fn file_of(i: int) -> int {
    i % 8
}

/// Rank of the square with index `i`.
pub open spec fn rank_of(i: int) -> int {
    i / 8
}

/// The letter of a file, `a` to `h`.
pub open spec fn file_char(f: int) -> char {
    ((97 + f) as u8) as char
}

/// The digit of a rank, `1` to `8`.
pub open spec fn rank_char(r: int) -> char {
    ((49 + r) as u8) as char
}

/// Algebraic name of the square with index `i`, such as `e4`.
pub open spec fn square_name(i: int) -> Seq<char> {
    seq![file_char(file_of(i)), rank_char(rank_of(i))]
}

/// What a text denotes as a square: exactly a file letter and a rank digit.
pub open spec fn parse_square(s: Seq<char>) -> Option<int> {
    if s.len() == 2 && 97 <= s[0] as u32 <= 104 && 49 <= s[1] as u32 <= 56 {
        Some((s[1] as u32 - 49) * 8 + (s[0] as u32 - 97))
    } else {
        None
    }
}

impl Square {
    /// Every square is on the board.
    #[verifier::type_invariant]
    pub closed spec fn inv(self) -> bool {
        self.0 < 64
    }

    /// The invariant, in terms of the view.
    pub proof fn lemma_on_board(self)
        requires
            self.inv(),
        ensures
            0 <= self@ < 64,
    {
    }

    /// The square on `file` (0 = a) and `rank` (0 = first rank).
    pub fn new(file: u8, rank: u8) -> (s: Square)
        requires
            file < 8,
            rank < 8,
        ensures
            s@ == rank * 8 + file,
    {
        Square(rank * 8 + file)
    }

    /// The square with index `i`.
    pub fn from_index(i: u8) -> (s: Square)
        requires
            i < 64,
        ensures
            s@ == i,
    {
        Square(i)
    }

    pub fn index(self) -> (i: usize)
        ensures
            i == self@,
            i < 64,
    {
        proof {
            use_type_invariant(&self);
        }
        self.0 as usize
    }

    pub fn rank(self) -> (r: u8)
        ensures
            r == rank_of(self@),
            r < 8,
    {
        proof {
            use_type_invariant(&self);
        }
        self.0 / 8
    }

    pub fn file(self) -> (f: u8)
        ensures
            f == file_of(self@),
            f < 8,
    {
        self.0 % 8
    }

    pub fn raw(self) -> (i: u8)
        ensures
            i == self@,
            i < 64,
    {
        proof {
            use_type_invariant(&self);
        }
        self.0
    }

    /// Reads algebraic notation such as `e4`.
    pub fn from_algebraic(s: &str) -> (r: Option<Square>)
        ensures
            match parse_square(s@) {
                Some(i) => r matches Some(sq) && sq@ == i,
                None => r is None,
            },
    {
        if s.unicode_len() != 2 {
            return None;
        }
        let f: u32 = s.get_char(0) as u32;
        let r: u32 = s.get_char(1) as u32;
        if f >= 97 && f <= 104 && r >= 49 && r <= 56 {
            Some(Square::new((f - 97) as u8, (r - 49) as u8))
        } else {
            None
        }
    }

    /// The bitboard that holds this square alone.
    pub fn bitboard(self) -> (bb: u64)
        ensures
            bb == 1u64 << (self@ as u64),
            0 <= self@ < 64,
            forall|i: int| #[trigger] bit(bb, i) == (i == self@),
    {
        proof {
            use_type_invariant(&self);
            lemma_bit_single(self@);
        }
        1u64 << (self.0 as u64)
    }

    /// Appends the algebraic name of the square.
    pub fn push_name(self, out: &mut String)
        ensures
            final(out)@ == old(out)@ + square_name(self@),
    {
        let f: u8 = self.file();
        let r: u8 = self.rank();
        out.push((97u8 + f) as char);
        out.push((49u8 + r) as char);
        assert(out@ == old(out)@ + square_name(self@));
    }

    /// The algebraic name of the square.
    pub fn to_string(&self) -> (s: String)
        ensures
            s@ == square_name(self@),
    {
        let mut s = String::new();
        self.push_name(&mut s);
        assert(s@ == square_name(self@));
        s
    }
}

/// The name of a square reads back as that square.
pub proof fn lemma_square_name_parses(i: int)
    requires
        0 <= i < 64,
    ensures
        parse_square(square_name(i)) == Some(i),
{
}

// ---------------------------------------------------------------------------
// PieceType, Color, Piece
// ---------------------------------------------------------------------------
/// One of the six kinds of piece.
#[derive(Clone, Copy, PartialEq, Eq, Debug, Structural)]
pub enum PieceType {
    Pawn,
    Knight,
    Bishop,
    Rook,
    Queen,
    King,
}

impl PieceType {
    /// Position in the conventional order, pawn first and king last.
    pub open spec fn ord(self) -> int {
        match self {
            PieceType::Pawn => 0,
            PieceType::Knight => 1,
            PieceType::Bishop => 2,
            PieceType::Rook => 3,
            PieceType::Queen => 4,
            PieceType::King => 5,
        }
    }

    /// Whether a pawn may promote to this kind.
    pub open spec fn promotable(self) -> bool {
        self == PieceType::Queen || self == PieceType::Rook || self == PieceType::Bishop || self
            == PieceType::Knight
    }

    /// The letter that UCI uses for a promotion to this kind.
    pub open spec fn uci_letter(self) -> char {
        match self {
            PieceType::Queen => 'q',
            PieceType::Rook => 'r',
            PieceType::Bishop => 'b',
            _ => 'n',
        }
    }

    /// The kind that a promotion letter of UCI denotes, in either case.
    pub open spec fn of_uci_letter(c: char) -> Option<PieceType> {
        if c == 'q' || c == 'Q' {
            Some(PieceType::Queen)
        } else if c == 'r' || c == 'R' {
            Some(PieceType::Rook)
        } else if c == 'b' || c == 'B' {
            Some(PieceType::Bishop)
        } else if c == 'n' || c == 'N' {
            Some(PieceType::Knight)
        } else {
            None
        }
    }

    /// The lower-case English name of the kind.
    pub open spec fn name_text(self) -> Seq<char> {
        match self {
            PieceType::Pawn => "pawn"@,
            PieceType::Knight => "knight"@,
            PieceType::Bishop => "bishop"@,
            PieceType::Rook => "rook"@,
            PieceType::Queen => "queen"@,
            PieceType::King => "king"@,
        }
    }

    pub fn index(self) -> (i: usize)
        ensures
            i == self.ord(),
            i < 6,
    {
        match self {
            PieceType::Pawn => 0,
            PieceType::Knight => 1,
            PieceType::Bishop => 2,
            PieceType::Rook => 3,
            PieceType::Queen => 4,
            PieceType::King => 5,
        }
    }

    /// The kind at position `i` of the conventional order.
    pub fn from_index(i: usize) -> (pt: PieceType)
        requires
            i < 6,
        ensures
            pt.ord() == i,
    {
        if i == 0 {
            PieceType::Pawn
        } else if i == 1 {
            PieceType::Knight
        } else if i == 2 {
            PieceType::Bishop
        } else if i == 3 {
            PieceType::Rook
        } else if i == 4 {
            PieceType::Queen
        } else {
            PieceType::King
        }
    }

    /// The UCI promotion letter (`q`, `r`, `b`, `n`).
    pub fn to_uci_char(self) -> (c: char)
        requires
            self.promotable(),
        ensures
            c == self.uci_letter(),
    {
        match self {
            PieceType::Queen => 'q',
            PieceType::Rook => 'r',
            PieceType::Bishop => 'b',
            _ => 'n',
        }
    }

    /// Reads a UCI promotion letter, in either case.
    pub fn from_uci_char(c: u8) -> (r: Option<PieceType>)
        ensures
            r == PieceType::of_uci_letter(c as char),
    {
        PieceType::promotion_of(c as char)
    }

    /// Reads a UCI promotion letter, in either case.
    pub fn promotion_of(c: char) -> (r: Option<PieceType>)
        ensures
            r == PieceType::of_uci_letter(c),
    {
        if c == 'q' || c == 'Q' {
            Some(PieceType::Queen)
        } else if c == 'r' || c == 'R' {
            Some(PieceType::Rook)
        } else if c == 'b' || c == 'B' {
            Some(PieceType::Bishop)
        } else if c == 'n' || c == 'N' {
            Some(PieceType::Knight)
        } else {
            None
        }
    }

    /// The lower-case English name of the kind.
    pub fn to_string(&self) -> (s: String)
        ensures
            s@ == self.name_text(),
    {
        match self {
            PieceType::Pawn => String::from_str("pawn"),
            PieceType::Knight => String::from_str("knight"),
            PieceType::Bishop => String::from_str("bishop"),
            PieceType::Rook => String::from_str("rook"),
            PieceType::Queen => String::from_str("queen"),
            PieceType::King => String::from_str("king"),
        }
    }
}

/// One of the two sides.
#[derive(Clone, Copy, PartialEq, Eq, Debug, Structural)]
pub enum Color {
    White,
    Black,
}

impl Color {
    /// The other side.
    pub open spec fn other(self) -> Color {
        match self {
            Color::White => Color::Black,
            Color::Black => Color::White,
        }
    }

    /// 0 for White, 1 for Black.
    pub open spec fn ord(self) -> int {
        match self {
            Color::White => 0,
            Color::Black => 1,
        }
    }

    /// The lower-case English name of the side.
    pub open spec fn name_text(self) -> Seq<char> {
        match self {
            Color::White => "white"@,
            Color::Black => "black"@,
        }
    }

    pub fn opposite(self) -> (c: Color)
        ensures
            c == self.other(),
    {
        match self {
            Color::White => Color::Black,
            Color::Black => Color::White,
        }
    }

    pub fn index(self) -> (i: usize)
        ensures
            i == self.ord(),
            i < 2,
    {
        match self {
            Color::White => 0,
            Color::Black => 1,
        }
    }

    /// The lower-case English name of the side.
    pub fn to_string(&self) -> (s: String)
        ensures
            s@ == self.name_text(),
    {
        match self {
            Color::White => String::from_str("white"),
            Color::Black => String::from_str("black"),
        }
    }
}

/// A piece: its kind and its side.
#[derive(Clone, Copy, PartialEq, Eq, Debug, Structural)]
pub struct Piece {
    pub piece_type: PieceType,
    pub color: Color,
}

/// The FEN letter of a piece: upper case for White, lower case for Black.
pub open spec fn fen_letter(p: Piece) -> char {
    match (p.color, p.piece_type) {
        (Color::White, PieceType::Pawn) => 'P',
        (Color::White, PieceType::Knight) => 'N',
        (Color::White, PieceType::Bishop) => 'B',
        (Color::White, PieceType::Rook) => 'R',
        (Color::White, PieceType::Queen) => 'Q',
        (Color::White, PieceType::King) => 'K',
        (Color::Black, PieceType::Pawn) => 'p',
        (Color::Black, PieceType::Knight) => 'n',
        (Color::Black, PieceType::Bishop) => 'b',
        (Color::Black, PieceType::Rook) => 'r',
        (Color::Black, PieceType::Queen) => 'q',
        (Color::Black, PieceType::King) => 'k',
    }
}

/// The piece that a FEN letter denotes.
pub open spec fn piece_of_letter(c: char) -> Option<Piece> {
    if c == 'P' {
        Some(Piece { piece_type: PieceType::Pawn, color: Color::White })
    } else if c == 'N' {
        Some(Piece { piece_type: PieceType::Knight, color: Color::White })
    } else if c == 'B' {
        Some(Piece { piece_type: PieceType::Bishop, color: Color::White })
    } else if c == 'R' {
        Some(Piece { piece_type: PieceType::Rook, color: Color::White })
    } else if c == 'Q' {
        Some(Piece { piece_type: PieceType::Queen, color: Color::White })
    } else if c == 'K' {
        Some(Piece { piece_type: PieceType::King, color: Color::White })
    } else if c == 'p' {
        Some(Piece { piece_type: PieceType::Pawn, color: Color::Black })
    } else if c == 'n' {
        Some(Piece { piece_type: PieceType::Knight, color: Color::Black })
    } else if c == 'b' {
        Some(Piece { piece_type: PieceType::Bishop, color: Color::Black })
    } else if c == 'r' {
        Some(Piece { piece_type: PieceType::Rook, color: Color::Black })
    } else if c == 'q' {
        Some(Piece { piece_type: PieceType::Queen, color: Color::Black })
    } else if c == 'k' {
        Some(Piece { piece_type: PieceType::King, color: Color::Black })
    } else {
        None
    }
}

impl Piece {
    pub fn new(piece_type: PieceType, color: Color) -> (p: Piece)
        ensures
            p == (Piece { piece_type, color }),
    {
        Piece { piece_type, color }
    }

    pub fn piece_type(self) -> (pt: PieceType)
        ensures
            pt == self.piece_type,
    {
        self.piece_type
    }

    pub fn color(self) -> (c: Color)
        ensures
            c == self.color,
    {
        self.color
    }

    /// The FEN letter of the piece.
    pub fn to_fen_char(self) -> (c: char)
        ensures
            c == fen_letter(self),
    {
        match self.color {
            Color::White => match self.piece_type {
                PieceType::Pawn => 'P',
                PieceType::Knight => 'N',
                PieceType::Bishop => 'B',
                PieceType::Rook => 'R',
                PieceType::Queen => 'Q',
                PieceType::King => 'K',
            },
            Color::Black => match self.piece_type {
                PieceType::Pawn => 'p',
                PieceType::Knight => 'n',
                PieceType::Bishop => 'b',
                PieceType::Rook => 'r',
                PieceType::Queen => 'q',
                PieceType::King => 'k',
            },
        }
    }

    /// Reads a FEN piece letter.
    pub fn from_fen_char(c: char) -> (r: Option<Piece>)
        ensures
            r == piece_of_letter(c),
    {
        if c == 'P' {
            Some(Piece { piece_type: PieceType::Pawn, color: Color::White })
        } else if c == 'N' {
            Some(Piece { piece_type: PieceType::Knight, color: Color::White })
        } else if c == 'B' {
            Some(Piece { piece_type: PieceType::Bishop, color: Color::White })
        } else if c == 'R' {
            Some(Piece { piece_type: PieceType::Rook, color: Color::White })
        } else if c == 'Q' {
            Some(Piece { piece_type: PieceType::Queen, color: Color::White })
        } else if c == 'K' {
            Some(Piece { piece_type: PieceType::King, color: Color::White })
        } else if c == 'p' {
            Some(Piece { piece_type: PieceType::Pawn, color: Color::Black })
        } else if c == 'n' {
            Some(Piece { piece_type: PieceType::Knight, color: Color::Black })
        } else if c == 'b' {
            Some(Piece { piece_type: PieceType::Bishop, color: Color::Black })
        } else if c == 'r' {
            Some(Piece { piece_type: PieceType::Rook, color: Color::Black })
        } else if c == 'q' {
            Some(Piece { piece_type: PieceType::Queen, color: Color::Black })
        } else if c == 'k' {
            Some(Piece { piece_type: PieceType::King, color: Color::Black })
        } else {
            None
        }
    }
}

/// The letter of a piece reads back as that piece.
pub proof fn lemma_fen_letter_parses(p: Piece)
    ensures
        piece_of_letter(fen_letter(p)) == Some(p),
        !(48 <= fen_letter(p) as u32 <= 57),
        fen_letter(p) != '/',
{
}

// ---------------------------------------------------------------------------
// Move
// ---------------------------------------------------------------------------
/// What kind of move it is: exactly one of these.
#[derive(Clone, Copy, PartialEq, Eq, Debug, Structural)]
pub enum MoveKind {
    /// A regular move or capture.
    Normal,
    /// The king moves two squares toward a rook, which jumps over it.
    Castle,
    /// A pawn captures a pawn that has just passed it.
    EnPassant,
    /// A pawn reaches the last rank and becomes the given kind.
    Promotion(PieceType),
}

/// A move: source square, destination square and kind.
#[derive(Clone, Copy, PartialEq, Eq, Debug, Structural)]
pub struct Move {
    from: Square,
    to: Square,
    kind: MoveKind,
}

/// A move over square indices.
pub struct MoveView {
    pub from: int,
    pub to: int,
    pub kind: MoveKind,
}

impl View for Move {
    type V = MoveView;

    closed spec fn view(&self) -> MoveView {
        MoveView { from: self.from@, to: self.to@, kind: self.kind }
    }
}

/// The views of a list of moves, in order.
pub open spec fn move_views(moves: Seq<Move>) -> Seq<MoveView> {
    moves.map_values(|m: Move| m@)
}

impl MoveView {
    /// The piece that the move promotes to, if it is a promotion.
    pub open spec fn promotion(self) -> Option<PieceType> {
        match self.kind {
            MoveKind::Promotion(pt) => Some(pt),
            _ => None,
        }
    }

    /// Whether two moves agree on source, destination and promotion piece,
    /// which is all that UCI text can say of a move.
    pub open spec fn same_uci(self, other: MoveView) -> bool {
        self.from == other.from && self.to == other.to && self.promotion() == other.promotion()
    }

    /// UCI text of the move, such as `e2e4` or `e7e8q`.
    pub open spec fn uci(self) -> Seq<char> {
        square_name(self.from) + square_name(self.to) + match self.kind {
            MoveKind::Promotion(pt) => seq![pt.uci_letter()],
            _ => Seq::<char>::empty(),
        }
    }
}

/// What a text denotes as a move in UCI: two squares and, in a fifth
/// character, a promotion letter. Nothing may follow.
pub open spec fn parse_uci_move(s: Seq<char>) -> Option<MoveView> {
    if s.len() != 4 && s.len() != 5 {
        None
    } else {
        match (parse_square(s.subrange(0, 2)), parse_square(s.subrange(2, 4))) {
            (Some(from), Some(to)) => if s.len() == 4 {
                Some(MoveView { from, to, kind: MoveKind::Normal })
            } else {
                match PieceType::of_uci_letter(s[4]) {
                    Some(pt) => Some(MoveView { from, to, kind: MoveKind::Promotion(pt) }),
                    None => None,
                }
            },
            _ => None,
        }
    }
}

impl Move {
    /// A regular move or capture.
    pub fn normal(from: Square, to: Square) -> (m: Move)
        ensures
            m@ == (MoveView { from: from@, to: to@, kind: MoveKind::Normal }),
    {
        Move { from, to, kind: MoveKind::Normal }
    }

    /// A pawn promotion.
    pub fn promotion(from: Square, to: Square, piece: PieceType) -> (m: Move)
        ensures
            m@ == (MoveView { from: from@, to: to@, kind: MoveKind::Promotion(piece) }),
    {
        Move { from, to, kind: MoveKind::Promotion(piece) }
    }

    /// A castling move, given by the king's squares.
    pub fn castle(from: Square, to: Square) -> (m: Move)
        ensures
            m@ == (MoveView { from: from@, to: to@, kind: MoveKind::Castle }),
    {
        Move { from, to, kind: MoveKind::Castle }
    }

    /// A regular move or capture.
    pub fn new(from: Square, to: Square) -> (m: Move)
        ensures
            m@ == (MoveView { from: from@, to: to@, kind: MoveKind::Normal }),
    {
        Move::normal(from, to)
    }

    /// A pawn promotion.
    pub fn with_promotion(from: Square, to: Square, promotion: PieceType) -> (m: Move)
        ensures
            m@ == (MoveView { from: from@, to: to@, kind: MoveKind::Promotion(promotion) }),
    {
        Move::promotion(from, to, promotion)
    }

    /// A castling move, given by the king's squares.
    pub fn castling(from: Square, to: Square) -> (m: Move)
        ensures
            m@ == (MoveView { from: from@, to: to@, kind: MoveKind::Castle }),
    {
        Move::castle(from, to)
    }

    /// An en-passant capture.
    pub fn en_passant(from: Square, to: Square) -> (m: Move)
        ensures
            m@ == (MoveView { from: from@, to: to@, kind: MoveKind::EnPassant }),
    {
        Move { from, to, kind: MoveKind::EnPassant }
    }

    pub fn from(self) -> (s: Square)
        ensures
            s@ == self@.from,
            0 <= s@ < 64,
    {
        proof {
            use_type_invariant(&self.from);
        }
        self.from
    }

    pub fn to(self) -> (s: Square)
        ensures
            s@ == self@.to,
            0 <= s@ < 64,
    {
        proof {
            use_type_invariant(&self.to);
        }
        self.to
    }

    pub fn kind(self) -> (k: MoveKind)
        ensures
            k == self@.kind,
    {
        self.kind
    }

    /// The piece that the move promotes to, if it is a promotion.
    pub fn promotion_piece(&self) -> (p: Option<PieceType>)
        ensures
            p == self@.promotion(),
    {
        match self.kind {
            MoveKind::Promotion(pt) => Some(pt),
            _ => None,
        }
    }

    /// UCI text of the move, such as `e2e4` or `e7e8q`.
    pub fn to_uci(&self) -> (s: String)
        requires
            self@.kind matches MoveKind::Promotion(pt) ==> pt.promotable(),
        ensures
            s@ == self@.uci(),
    {
        let mut s = String::new();
        self.from.push_name(&mut s);
        self.to.push_name(&mut s);
        match self.kind {
            MoveKind::Promotion(pt) => {
                let ghost before = s@;
                s.push(pt.to_uci_char());
                assert(s@ == before + seq![pt.uci_letter()]);
            },
            _ => {
                assert(s@ == s@ + Seq::<char>::empty());
            },
        }
        assert(s@ == self@.uci());
        s
    }

    /// UCI text of the move.
    pub fn to_string(&self) -> (s: String)
        requires
            self@.kind matches MoveKind::Promotion(pt) ==> pt.promotable(),
        ensures
            s@ == self@.uci(),
    {
        self.to_uci()
    }

    /// Reads a move in UCI. The kind is `Normal` unless a promotion letter
    /// follows; which kind the move really is on a given board is for the
    /// board to say.
    pub fn from_uci(uci: &str) -> (r: Option<Move>)
        ensures
            match parse_uci_move(uci@) {
                Some(v) => r matches Some(m) && m@ == v,
                None => r is None,
            },
    {
        let n: usize = uci.unicode_len();
        if n < 4 || n > 5 {
            return None;
        }
        let ff: u32 = uci.get_char(0) as u32;
        let fr: u32 = uci.get_char(1) as u32;
        let tf: u32 = uci.get_char(2) as u32;
        let tr: u32 = uci.get_char(3) as u32;
        proof {
            assert(uci@.subrange(0, 2).len() == 2);
            assert(uci@.subrange(0, 2)[0] == uci@[0]);
            assert(uci@.subrange(0, 2)[1] == uci@[1]);
            assert(uci@.subrange(2, 4).len() == 2);
            assert(uci@.subrange(2, 4)[0] == uci@[2]);
            assert(uci@.subrange(2, 4)[1] == uci@[3]);
        }
        if !(ff >= 97 && ff <= 104 && fr >= 49 && fr <= 56 && tf >= 97 && tf <= 104 && tr >= 49
            && tr <= 56) {
            return None;
        }
        let from = Square::new((ff - 97) as u8, (fr - 49) as u8);
        let to = Square::new((tf - 97) as u8, (tr - 49) as u8);
        if n > 4 {
            match PieceType::promotion_of(uci.get_char(4)) {
                Some(pt) => Some(Move { from, to, kind: MoveKind::Promotion(pt) }),
                None => None,
            }
        } else {
            Some(Move { from, to, kind: MoveKind::Normal })
        }
    }
}

// ---------------------------------------------------------------------------
// CastlingRights
// ---------------------------------------------------------------------------
/// Which castling moves are still allowed, as a field of four bits.
#[derive(Clone, Copy, PartialEq, Eq, Debug, Structural)]
pub struct CastlingRights(u8);

/// The four castling rights.
pub struct Rights {
    pub white_kingside: bool,
    pub white_queenside: bool,
    pub black_kingside: bool,
    pub black_queenside: bool,
}

/// Mask bit of White's kingside right.
pub const WK: u8 = 1;

/// Mask bit of White's queenside right.
pub const WQ: u8 = 2;

/// Mask bit of Black's kingside right.
pub const BK: u8 = 4;

/// Mask bit of Black's queenside right.
pub const BQ: u8 = 8;

/// The rights that are lost when a piece leaves or enters the square with
/// index `sq`: those of a corner's rook, both of a king's home square.
pub open spec fn mask_of(sq: int) -> u8 {
    if sq == 0 {
        2
    } else if sq == 4 {
        3
    } else if sq == 7 {
        1
    } else if sq == 56 {
        8
    } else if sq == 60 {
        12
    } else if sq == 63 {
        4
    } else {
        0
    }
}

/// What the bits of the masks are.
proof fn lemma_mask_bits()
    ensures
        0u8 & 1 == 0 && 0u8 & 2 == 0 && 0u8 & 4 == 0 && 0u8 & 8 == 0,
        1u8 & 1 != 0 && 1u8 & 2 == 0 && 1u8 & 4 == 0 && 1u8 & 8 == 0,
        2u8 & 1 == 0 && 2u8 & 2 != 0 && 2u8 & 4 == 0 && 2u8 & 8 == 0,
        3u8 & 1 != 0 && 3u8 & 2 != 0 && 3u8 & 4 == 0 && 3u8 & 8 == 0,
        4u8 & 1 == 0 && 4u8 & 2 == 0 && 4u8 & 4 != 0 && 4u8 & 8 == 0,
        8u8 & 1 == 0 && 8u8 & 2 == 0 && 8u8 & 4 == 0 && 8u8 & 8 != 0,
        12u8 & 1 == 0 && 12u8 & 2 == 0 && 12u8 & 4 != 0 && 12u8 & 8 != 0,
        15u8 & 1 != 0 && 15u8 & 2 != 0 && 15u8 & 4 != 0 && 15u8 & 8 != 0,
        1u8 | 2u8 == 3,
        4u8 | 8u8 == 12,
{
    assert(0u8 & 1 == 0 && 0u8 & 2 == 0 && 0u8 & 4 == 0 && 0u8 & 8 == 0 && 1u8 & 1 != 0 && 1u8 & 2
        == 0 && 1u8 & 4 == 0 && 1u8 & 8 == 0 && 2u8 & 1 == 0 && 2u8 & 2 != 0 && 2u8 & 4 == 0 && 2u8
        & 8 == 0 && 3u8 & 1 != 0 && 3u8 & 2 != 0 && 3u8 & 4 == 0 && 3u8 & 8 == 0 && 4u8 & 1 == 0
        && 4u8 & 2 == 0 && 4u8 & 4 != 0 && 4u8 & 8 == 0 && 8u8 & 1 == 0 && 8u8 & 2 == 0 && 8u8 & 4
        == 0 && 8u8 & 8 != 0 && 12u8 & 1 == 0 && 12u8 & 2 == 0 && 12u8 & 4 != 0 && 12u8 & 8 != 0
        && 15u8 & 1 != 0 && 15u8 & 2 != 0 && 15u8 & 4 != 0 && 15u8 & 8 != 0 && 1u8 | 2u8 == 3 && 4u8
        | 8u8 == 12) by (bit_vector);
}

impl Rights {
    /// The rights that remain once those of `mask` are taken away.
    pub open spec fn without(self, mask: u8) -> Rights {
        Rights {
            white_kingside: self.white_kingside && mask & 1 == 0,
            white_queenside: self.white_queenside && mask & 2 == 0,
            black_kingside: self.black_kingside && mask & 4 == 0,
            black_queenside: self.black_queenside && mask & 8 == 0,
        }
    }

    /// The rights that remain once a piece has left or entered the square
    /// with index `sq`.
    pub open spec fn after_touch(self, sq: int) -> Rights {
        Rights {
            white_kingside: self.white_kingside && sq != 4 && sq != 7,
            white_queenside: self.white_queenside && sq != 4 && sq != 0,
            black_kingside: self.black_kingside && sq != 60 && sq != 63,
            black_queenside: self.black_queenside && sq != 60 && sq != 56,
        }
    }

    /// Taking away the mask of a square is what touching the square does.
    pub proof fn lemma_touch(self, sq: int)
        ensures
            self.without(mask_of(sq)) == self.after_touch(sq),
    {
        lemma_mask_bits();
    }
}

impl View for CastlingRights {
    type V = Rights;

    closed spec fn view(&self) -> Rights {
        Rights {
            white_kingside: self.0 & 1 != 0,
            white_queenside: self.0 & 2 != 0,
            black_kingside: self.0 & 4 != 0,
            black_queenside: self.0 & 8 != 0,
        }
    }
}

impl CastlingRights {
    /// No right for either side.
    pub fn none() -> (c: CastlingRights)
        ensures
            c@ == (Rights {
                white_kingside: false,
                white_queenside: false,
                black_kingside: false,
                black_queenside: false,
            }),
    {
        proof {
            lemma_mask_bits();
        }
        CastlingRights(0)
    }

    /// All four rights.
    pub fn all() -> (c: CastlingRights)
        ensures
            c@ == (Rights {
                white_kingside: true,
                white_queenside: true,
                black_kingside: true,
                black_queenside: true,
            }),
    {
        proof {
            lemma_mask_bits();
        }
        CastlingRights(15)
    }

    /// The rights with the given four answers.
    pub fn from_flags(
        white_kingside: bool,
        white_queenside: bool,
        black_kingside: bool,
        black_queenside: bool,
    ) -> (c: CastlingRights)
        ensures
            c@ == (Rights { white_kingside, white_queenside, black_kingside, black_queenside }),
    {
        let a: u8 = if white_kingside {
            WK
        } else {
            0
        };
        let b: u8 = if white_queenside {
            WQ
        } else {
            0
        };
        let c: u8 = if black_kingside {
            BK
        } else {
            0
        };
        let d: u8 = if black_queenside {
            BQ
        } else {
            0
        };
        let bits: u8 = a | b | c | d;
        assert(((bits & 1 != 0) == (a == 1)) && ((bits & 2 != 0) == (b == 2)) && ((bits & 4 != 0)
            == (c == 4)) && ((bits & 8 != 0) == (d == 8))) by (bit_vector)
            requires
                bits == a | b | c | d,
                a == 0 || a == 1,
                b == 0 || b == 2,
                c == 0 || c == 4,
                d == 0 || d == 8,
        ;
        CastlingRights(bits)
    }

    /// Can White castle kingside?
    pub fn white_kingside(self) -> (b: bool)
        ensures
            b == self@.white_kingside,
    {
        self.0 & WK != 0
    }

    /// Can White castle queenside?
    pub fn white_queenside(self) -> (b: bool)
        ensures
            b == self@.white_queenside,
    {
        self.0 & WQ != 0
    }

    /// Can Black castle kingside?
    pub fn black_kingside(self) -> (b: bool)
        ensures
            b == self@.black_kingside,
    {
        self.0 & BK != 0
    }

    /// Can Black castle queenside?
    pub fn black_queenside(self) -> (b: bool)
        ensures
            b == self@.black_queenside,
    {
        self.0 & BQ != 0
    }

    /// Takes away the rights whose bits are set in `mask`.
    pub fn clear(&mut self, mask: u8)
        ensures
            final(self)@ == old(self)@.without(mask),
    {
        let before: u8 = self.0;
        let after: u8 = before & !mask;
        assert(((after & 1 != 0) == (before & 1 != 0 && mask & 1 == 0)) && ((after & 2 != 0) == (
        before & 2 != 0 && mask & 2 == 0)) && ((after & 4 != 0) == (before & 4 != 0 && mask & 4
            == 0)) && ((after & 8 != 0) == (before & 8 != 0 && mask & 8 == 0))) by (bit_vector)
            requires
                after == before & !mask,
        ;
        self.0 = after;
    }

    /// The bits of the rights that a piece leaving or entering `sq` ends:
    /// those of a corner's rook, both of a king's home square, none elsewhere.
    pub fn mask_for_square(sq: u8) -> (mask: u8)
        ensures
            mask == mask_of(sq as int),
    {
        proof {
            lemma_mask_bits();
        }
        if sq == 0 {
            WQ
        } else if sq == 4 {
            WK | WQ
        } else if sq == 7 {
            WK
        } else if sq == 56 {
            BQ
        } else if sq == 60 {
            BK | BQ
        } else if sq == 63 {
            BK
        } else {
            0
        }
    }
}

impl Default for CastlingRights {
    fn default() -> (c: CastlingRights)
        ensures
            c@ == (Rights {
                white_kingside: true,
                white_queenside: true,
                black_kingside: true,
                black_queenside: true,
            }),
    {
        CastlingRights::all()
    }
}

// ---------------------------------------------------------------------------
// GameState
// ---------------------------------------------------------------------------
/// Outcome of a game, or that it goes on. Repetition of positions is not
/// tracked: a position reached three times is still in progress.
#[derive(Clone, Copy, PartialEq, Eq, Debug, Structural)]
pub enum GameState {
    /// The game goes on.
    InProgress,
    /// The side to move is in check and has no legal move.
    Checkmate,
    /// The side to move is not in check and has no legal move.
    Stalemate,
    /// Drawn by insufficient material or by the fifty-move rule.
    Draw,
}

} // verus!
