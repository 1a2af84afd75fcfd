//! The board of the engine: a position held in bitboards.

use crate::bits::{bit, lemma_bit_or, lemma_bit_xor, lemma_bit_zero};
use crate::position::{holds, owned, start_piece, start_position, Position};
use crate::types::{CastlingRights, Color, Move, MoveKind, Piece, PieceType, Square};
use vstd::prelude::*;

verus! {

/// A position of the game in bitboards: one per side and kind of piece, the
/// union of each side's, and the union of both.
#[derive(Clone, Copy)]
pub struct Board {
    pieces: [[u64; 6]; 2],
    occupancy: [u64; 2],
    all: u64,
    side_to_move: Color,
    castling: CastlingRights,
    en_passant: Option<Square>,
    halfmove_clock: u16,
    fullmove_number: u16,
}

impl View for Board {
    type V = Position;

    closed spec fn view(&self) -> Position {
        Position {
            squares: Seq::new(64, |i: int| self.piece_on(i)),
            side_to_move: self.side_to_move,
            castling: self.castling@,
            en_passant: match self.en_passant {
                Some(sq) => Some(sq@),
                None => None,
            },
            halfmove_clock: self.halfmove_clock as int,
            fullmove_number: self.fullmove_number as int,
        }
    }
}

impl Board {
    /// The bitboard of side `c` and kind `pt` holds square `i`.
    pub closed spec fn has(&self, c: Color, pt: PieceType, i: int) -> bool {
        bit(self.pieces[c.ord()][pt.ord()], i)
    }

    /// The kind of the piece of side `c` on square `i`, as the bitboards of
    /// that side give it.
    pub closed spec fn kind_on(&self, c: Color, i: int) -> Option<PieceType> {
        if self.has(c, PieceType::Pawn, i) {
            Some(PieceType::Pawn)
        } else if self.has(c, PieceType::Knight, i) {
            Some(PieceType::Knight)
        } else if self.has(c, PieceType::Bishop, i) {
            Some(PieceType::Bishop)
        } else if self.has(c, PieceType::Rook, i) {
            Some(PieceType::Rook)
        } else if self.has(c, PieceType::Queen, i) {
            Some(PieceType::Queen)
        } else if self.has(c, PieceType::King, i) {
            Some(PieceType::King)
        } else {
            None
        }
    }

    /// The piece on square `i`, as the bitboards give it.
    pub closed spec fn piece_on(&self, i: int) -> Option<Piece> {
        match self.kind_on(Color::White, i) {
            Some(pt) => Some(Piece { piece_type: pt, color: Color::White }),
            None => match self.kind_on(Color::Black, i) {
                Some(pt) => Some(Piece { piece_type: pt, color: Color::Black }),
                None => None,
            },
        }
    }

    /// The bitboards of the pieces are pairwise disjoint, and the bitboard of
    /// each side is the union of those of its pieces.
    pub closed spec fn placed(&self) -> bool {
        &&& forall|i: int, c: Color, pt: PieceType|
            #![trigger self.has(c, pt, i)]
            0 <= i < 64 && self.has(c, pt, i) ==> self.piece_on(i) == Some(
                Piece { piece_type: pt, color: c },
            )
        &&& forall|i: int, c: Color|
            #![trigger bit(self.occupancy[c.ord()], i)]
            0 <= i < 64 ==> (bit(self.occupancy[c.ord()], i) <==> (self.piece_on(i) matches Some(p)
                && p.color == c))
    }

    /// The bitboards are consistent: those of the pieces are pairwise
    /// disjoint, that of each side is the union of its pieces', and that of
    /// all pieces is the union of the two sides'.
    pub closed spec fn consistent(&self) -> bool {
        &&& self.placed()
        &&& forall|i: int| 0 <= i < 64 ==> (#[trigger] bit(self.all, i) <==> self.piece_on(i) is Some)
    }

    /// The invariant of a board: consistent bitboards that hold a
    /// well-formed position.
    pub open spec fn wf(&self) -> bool {
        self.consistent() && self@.well_formed()
    }

    /// The view has sixty-four squares and counters of sixteen bits.
    pub proof fn lemma_view(&self)
        ensures
            self@.squares.len() == 64,
            0 <= self@.halfmove_clock <= 0xffff,
            0 <= self@.fullmove_number <= 0xffff,
    {
    }

    /// A board with no piece on it.
    pub(crate) fn bare(
        side_to_move: Color,
        castling: CastlingRights,
        en_passant: Option<Square>,
        halfmove_clock: u16,
        fullmove_number: u16,
    ) -> (b: Board)
        ensures
            b.consistent(),
            b@ == (Position {
                squares: Seq::new(64, |i: int| None::<Piece>),
                side_to_move,
                castling: castling@,
                en_passant: match en_passant {
                    Some(sq) => Some(sq@),
                    None => None,
                },
                halfmove_clock: halfmove_clock as int,
                fullmove_number: fullmove_number as int,
            }),
    {
        let b = Board {
            pieces: [[0u64;6];2],
            occupancy: [0u64;2],
            all: 0,
            side_to_move,
            castling,
            en_passant,
            halfmove_clock,
            fullmove_number,
        };
        proof {
            lemma_bit_zero();
            assert(b@.squares =~= Seq::new(64, |i: int| None::<Piece>));
        }
        b
    }

    /// The board that holds the given squares.
    pub(crate) fn from_squares(
        squares: &Vec<Option<Piece>>,
        side_to_move: Color,
        castling: CastlingRights,
        en_passant: Option<Square>,
        halfmove_clock: u16,
        fullmove_number: u16,
    ) -> (b: Board)
        requires
            squares.len() == 64,
        ensures
            b.consistent(),
            b@ == (Position {
                squares: squares@,
                side_to_move,
                castling: castling@,
                en_passant: match en_passant {
                    Some(sq) => Some(sq@),
                    None => None,
                },
                halfmove_clock: halfmove_clock as int,
                fullmove_number: fullmove_number as int,
            }),
    {
        let mut b = Board::bare(
            side_to_move,
            castling,
            en_passant,
            halfmove_clock,
            fullmove_number,
        );
        let ghost blank = b@;
        let mut i: u8 = 0;
        proof {
            assert(b@.squares =~= Seq::new(
                64,
                |j: int|
                    if j < 0 {
                        squares[j]
                    } else {
                        None
                    },
            ));
        }
        while i < 64
            invariant
                squares.len() == 64,
                i <= 64,
                b.placed(),
                b@ == (Position {
                    squares: Seq::new(
                        64,
                        |j: int|
                            if j < i {
                                squares[j]
                            } else {
                                None
                            },
                    ),
                    ..blank
                }),
            decreases 64 - i,
        {
            let ghost before = b@.squares;
            match squares[i as usize] {
                Some(p) => {
                    b.put(p.color, p.piece_type, Square::from_index(i));
                },
                None => {},
            }
            i = i + 1;
            proof {
                assert(b@.squares =~= Seq::new(
                    64,
                    |j: int|
                        if j < i {
                            squares[j]
                        } else {
                            None
                        },
                ));
            }
        }
        b.sync();
        proof {
            assert(b@.squares =~= squares@);
        }
        b
    }

    /// The starting position.
    pub fn new() -> (b: Board)
        ensures
            b.wf(),
            b@ == start_position(),
            b@.playable(),
            b@.opponent_safe(),
    {
        let mut squares: Vec<Option<Piece>> = Vec::new();
        let mut i: u8 = 0;
        while i < 64
            invariant
                i <= 64,
                squares.len() == i,
                forall|j: int| 0 <= j < i ==> #[trigger] squares[j] == start_piece(j),
            decreases 64 - i,
        {
            let rank: u8 = i / 8;
            let file: u8 = i % 8;
            let back: PieceType = if file == 0 || file == 7 {
                PieceType::Rook
            } else if file == 1 || file == 6 {
                PieceType::Knight
            } else if file == 2 || file == 5 {
                PieceType::Bishop
            } else if file == 3 {
                PieceType::Queen
            } else {
                PieceType::King
            };
            let piece: Option<Piece> = if rank == 0 {
                Some(Piece::new(back, Color::White))
            } else if rank == 1 {
                Some(Piece::new(PieceType::Pawn, Color::White))
            } else if rank == 6 {
                Some(Piece::new(PieceType::Pawn, Color::Black))
            } else if rank == 7 {
                Some(Piece::new(back, Color::Black))
            } else {
                None
            };
            squares.push(piece);
            i = i + 1;
        }
        let b = Board::from_squares(&squares, Color::White, CastlingRights::all(), None, 0, 1);
        proof {
            assert(b@.squares =~= start_position().squares);
            crate::position::lemma_start_sound();
        }
        b
    }

    /// Takes the piece of side `c` and kind `pt` off `sq`.
    fn lift(&mut self, c: Color, pt: PieceType, sq: Square)
        requires
            old(self).placed(),
            holds(old(self)@.squares, sq@, c, pt),
        ensures
            final(self).placed(),
            final(self)@ == (Position {
                squares: old(self)@.squares.update(sq@, None),
                ..old(self)@
            }),
    {
        let bb: u64 = sq.bitboard();
        let ci: usize = c.index();
        let pi: usize = pt.index();
        proof {
            lemma_bit_xor(self.pieces[ci as int][pi as int], bb);
            lemma_bit_xor(self.occupancy[ci as int], bb);
            assert(self.piece_on(sq@) == Some(Piece { piece_type: pt, color: c }));
        }
        self.pieces[ci][pi] ^= bb;
        self.occupancy[ci] ^= bb;
        proof {
            assert forall|i: int, c2: Color, pt2: PieceType| 0 <= i < 64 implies (
            #[trigger] self.has(c2, pt2, i)) == (old(self).has(c2, pt2, i) && !(i == sq@ && c2 == c
                && pt2 == pt)) by {}
            assert forall|i: int| 0 <= i < 64 implies #[trigger] self.piece_on(i) == (if i == sq@ {
                None
            } else {
                old(self).piece_on(i)
            }) by {}
            assert(self@.squares =~= old(self)@.squares.update(sq@, None));
        }
    }

    /// Sets a piece of side `c` and kind `pt` on `sq`, which is vacant.
    fn put(&mut self, c: Color, pt: PieceType, sq: Square)
        requires
            old(self).placed(),
            old(self)@.squares[sq@] is None,
        ensures
            final(self).placed(),
            final(self)@ == (Position {
                squares: old(self)@.squares.update(
                    sq@,
                    Some(Piece { piece_type: pt, color: c }),
                ),
                ..old(self)@
            }),
    {
        let bb: u64 = sq.bitboard();
        let ci: usize = c.index();
        let pi: usize = pt.index();
        proof {
            lemma_bit_or(self.pieces[ci as int][pi as int], bb);
            lemma_bit_or(self.occupancy[ci as int], bb);
            assert(0 <= sq@ < 64);
            assert(self.piece_on(sq@) is None);
        }
        self.pieces[ci][pi] |= bb;
        self.occupancy[ci] |= bb;
        proof {
            assert forall|i: int, c2: Color, pt2: PieceType| 0 <= i < 64 implies (
            #[trigger] self.has(c2, pt2, i)) == (old(self).has(c2, pt2, i) || (i == sq@ && c2 == c
                && pt2 == pt)) by {}
            assert forall|i: int| 0 <= i < 64 implies #[trigger] self.piece_on(i) == (if i == sq@ {
                Some(Piece { piece_type: pt, color: c })
            } else {
                old(self).piece_on(i)
            }) by {}
            assert(self@.squares =~= old(self)@.squares.update(
                sq@,
                Some(Piece { piece_type: pt, color: c }),
            ));
        }
    }

    /// Brings the bitboard of all pieces up to date with those of the sides.
    fn sync(&mut self)
        requires
            old(self).placed(),
        ensures
            final(self).consistent(),
            final(self)@ == old(self)@,
    {
        proof {
            lemma_bit_or(self.occupancy[0], self.occupancy[1]);
            assert(Color::White.ord() == 0 && Color::Black.ord() == 1);
        }
        self.all = self.occupancy[0] | self.occupancy[1];
        proof {
            assert forall|i: int| 0 <= i < 64 implies #[trigger] self.piece_on(i) == old(
                self,
            ).piece_on(i) by {}
            assert(self@.squares =~= old(self)@.squares);
            assert forall|i: int, c: Color, pt: PieceType|
                #![trigger self.has(c, pt, i)]
                0 <= i < 64 && self.has(c, pt, i) implies self.piece_on(i) == Some(
                Piece { piece_type: pt, color: c },
            ) by {
                assert(old(self).has(c, pt, i));
            }
            assert forall|i: int, c: Color|
                #![trigger bit(self.occupancy[c.ord()], i)]
                0 <= i < 64 implies (bit(self.occupancy[c.ord()], i) <==> (self.piece_on(
                i,
            ) matches Some(p) && p.color == c)) by {
                assert(bit(old(self).occupancy[c.ord()], i) <==> (old(self).piece_on(
                    i,
                ) matches Some(p) && p.color == c));
            }
            assert forall|i: int| 0 <= i < 64 implies (#[trigger] bit(self.all, i)
                <==> self.piece_on(i) is Some) by {
                assert(bit(self.occupancy[Color::White.ord()], i) <==> (self.piece_on(i) matches Some(
                    p,
                ) && p.color == Color::White));
                assert(bit(self.occupancy[Color::Black.ord()], i) <==> (self.piece_on(i) matches Some(
                    p,
                ) && p.color == Color::Black));
            }
        }
    }

    /// The squares that hold a piece of side `c` and kind `pt`.
    pub(crate) fn bitboard(&self, c: Color, pt: PieceType) -> (bb: u64)
        requires
            self.consistent(),
        ensures
            forall|i: int| #[trigger] bit(bb, i) == holds(self@.squares, i, c, pt),
    {
        let bb: u64 = self.pieces[c.index()][pt.index()];
        proof {
            assert forall|i: int| #[trigger] bit(bb, i) == holds(self@.squares, i, c, pt) by {
                if 0 <= i < 64 {
                    assert(self.has(c, pt, i) == bit(bb, i));
                }
            }
        }
        bb
    }

    /// The squares that hold a piece of side `c`.
    pub(crate) fn occupancy(&self, c: Color) -> (bb: u64)
        requires
            self.consistent(),
        ensures
            forall|i: int| #[trigger] bit(bb, i) == owned(self@.squares, i, c),
    {
        self.occupancy[c.index()]
    }

    /// The bitboard of all pieces.
    pub closed spec fn all_spec(&self) -> u64 {
        self.all
    }

    /// The squares that hold a piece.
    pub(crate) fn all(&self) -> (bb: u64)
        requires
            self.consistent(),
        ensures
            bb == self.all_spec(),
            forall|i: int| #[trigger] bit(bb, i) == (0 <= i < 64 && self@.squares[i] is Some),
    {
        self.all
    }

    /// The piece on `sq`, if any.
    pub fn piece_at(&self, sq: Square) -> (p: Option<Piece>)
        requires
            self.consistent(),
        ensures
            p == self@.squares[sq@],
    {
        let bb: u64 = sq.bitboard();
        let ghost s = sq@;
        proof {
            lemma_bit_zero();
        }
        let mut c: usize = 0;
        while c < 2
            invariant
                self.placed(),
                0 <= s < 64,
                s == sq@,
                forall|i: int| #[trigger] bit(bb, i) == (i == s),
                c <= 2,
                c >= 1 ==> self.kind_on(Color::White, s) is None,
                c >= 2 ==> self.kind_on(Color::Black, s) is None,
            decreases 2 - c,
        {
            let color: Color = if c == 0 {
                Color::White
            } else {
                Color::Black
            };
            let occ: u64 = self.occupancy[c];
            proof {
                crate::bits::lemma_bit_and(occ, bb);
                crate::bits::lemma_nonzero_bit(occ & bb);
                assert(bit(occ, s) <==> (self.piece_on(s) matches Some(p) && p.color == color));
            }
            if occ & bb != 0 {
                let mut k: usize = 0;
                assert(bit(occ & bb, s));
                while k < 6
                    invariant
                        self.placed(),
                        0 <= s < 64,
                        s == sq@,
                        forall|i: int| #[trigger] bit(bb, i) == (i == s),
                        k <= 6,
                        c < 2,
                        color.ord() == c,
                        self.piece_on(s) matches Some(p) && p.color == color,
                        forall|pt: PieceType| pt.ord() < k ==> !self.has(color, pt, s),
                    decreases 6 - k,
                {
                    let pt: PieceType = PieceType::from_index(k);
                    let pbb: u64 = self.pieces[c][k];
                    proof {
                        crate::bits::lemma_bit_and(pbb, bb);
                        crate::bits::lemma_nonzero_bit(pbb & bb);
                    }
                    if pbb & bb != 0 {
                        assert(bit(pbb & bb, s));
                        assert(self.has(color, pt, s));
                        return Some(Piece::new(pt, color));
                    }
                    proof {
                        assert(!bit(pbb & bb, s));
                        assert(!self.has(color, pt, s));
                        assert forall|q: PieceType| q.ord() < k + 1 implies !self.has(
                            color,
                            q,
                            s,
                        ) by {
                            if q.ord() == k {
                                assert(q == pt);
                            }
                        }
                    }
                    k = k + 1;
                }
                proof {
                    assert(!self.has(color, PieceType::Pawn, s));
                    assert(!self.has(color, PieceType::Knight, s));
                    assert(!self.has(color, PieceType::Bishop, s));
                    assert(!self.has(color, PieceType::Rook, s));
                    assert(!self.has(color, PieceType::Queen, s));
                    assert(!self.has(color, PieceType::King, s));
                    assert(false);
                }
            }
            proof {
                assert(!bit(occ & bb, s));
                assert(self.kind_on(color, s) is None);
            }
            c = c + 1;
        }
        None
    }

    /// Moves the pieces as the move says: lifts the moving piece, removes
    /// what it captures, sets it (or what it promotes to) down, and brings
    /// the rook over when castling. Returns the kind of the moving piece and
    /// whether the move captures. The side to move, the rights, the
    /// en-passant target and the counters stay as they are.
    pub(crate) fn move_pieces(&mut self, mv: Move) -> (r: (PieceType, bool))
        requires
            old(self).wf(),
            old(self)@.playable(),
            old(self)@.pseudo_legal(mv@),
        ensures
            final(self).consistent(),
            final(self)@ == (Position {
                squares: old(self)@.apply_move(mv@).squares,
                ..old(self)@
            }),
            old(self)@.squares[mv@.from] matches Some(p) && p.piece_type == r.0,
            r.1 == (owned(old(self)@.squares, mv@.to, old(self)@.them()) || mv@.kind
                == MoveKind::EnPassant),
    {
        let ghost pos = self@;
        let us: Color = self.side_to_move;
        let them: Color = us.opposite();
        let from: Square = mv.from();
        let to: Square = mv.to();
        let kind: MoveKind = mv.kind();
        proof {
            self.lemma_view();
        }
        let moving: PieceType = match self.piece_at(from) {
            Some(p) => p.piece_type,
            None => PieceType::Pawn,
        };
        let target: Option<Piece> = self.piece_at(to);
        let en_passant: bool = match kind {
            MoveKind::EnPassant => true,
            _ => false,
        };
        let capture: bool = target.is_some() || en_passant;
        self.lift(us, moving, from);
        match target {
            Some(p) => {
                proof {
                    assert(owned(pos.squares, to@, them));
                }
                self.lift(p.color, p.piece_type, to);
            },
            None => {},
        }
        if en_passant {
            let victim = if us == Color::White {
                Square::from_index(to.raw() - 8)
            } else {
                Square::from_index(to.raw() + 8)
            };
            self.lift(them, PieceType::Pawn, victim);
        }
        let placed: PieceType = match kind {
            MoveKind::Promotion(pt) => pt,
            _ => moving,
        };
        self.put(us, placed, to);
        match kind {
            MoveKind::Castle => {
                let t: u8 = to.raw();
                let rook_from = Square::from_index(
                    if t == 6 {
                        7
                    } else if t == 2 {
                        0
                    } else if t == 62 {
                        63
                    } else {
                        56
                    },
                );
                let rook_to = Square::from_index(
                    if t == 6 {
                        5
                    } else if t == 2 {
                        3
                    } else if t == 62 {
                        61
                    } else {
                        59
                    },
                );
                self.lift(us, PieceType::Rook, rook_from);
                self.put(us, PieceType::Rook, rook_to);
            },
            _ => {},
        }
        self.sync();
        proof {
            assert(self@.squares =~= pos.apply_move(mv@).squares);
        }
        (moving, capture)
    }

    /// Makes a move that the generator has produced, without asking whether
    /// it leaves the own king attacked.
    pub fn apply_unchecked(&mut self, mv: Move)
        requires
            old(self).wf(),
            old(self)@.playable(),
            old(self)@.pseudo_legal(mv@),
            old(self)@.clock_has_room(mv@),
        ensures
            final(self).consistent(),
            final(self)@ == old(self)@.apply_move(mv@),
    {
        let ghost pos = self@;
        let from: Square = mv.from();
        let to: Square = mv.to();
        let (moving, capture) = self.move_pieces(mv);
        let ghost moved = *self;
        let pawn: bool = moving == PieceType::Pawn;
        // A pawn that has advanced two squares can be captured en passant on
        // the square it has passed.
        let mut target: Option<Square> = None;
        if pawn {
            let fr: u8 = from.rank();
            let tr: u8 = to.rank();
            if (fr == 1 && tr == 3) || (fr == 6 && tr == 4) {
                target = Some(Square::from_index((from.raw() + to.raw()) / 2));
            }
        }
        self.en_passant = target;
        // A piece that leaves or enters a corner or a king's home square ends
        // the rights that rest on that square.
        let mut rights: CastlingRights = self.castling;
        rights.clear(CastlingRights::mask_for_square(from.raw()));
        rights.clear(CastlingRights::mask_for_square(to.raw()));
        self.castling = rights;
        self.halfmove_clock = if pawn || capture {
            0
        } else {
            self.halfmove_clock + 1
        };
        self.side_to_move = self.side_to_move.opposite();
        if self.side_to_move == Color::White && self.fullmove_number < 0xffff {
            self.fullmove_number = self.fullmove_number + 1;
        }
        proof {
            pos.castling.lemma_touch(from@);
            pos.castling.after_touch(from@).lemma_touch(to@);
            assert forall|i: int, c: Color, pt: PieceType| 0 <= i < 64 implies (
            #[trigger] self.has(c, pt, i)) == moved.has(c, pt, i) by {}
            assert forall|i: int| 0 <= i < 64 implies #[trigger] self.piece_on(i) == moved.piece_on(
                i,
            ) by {}
            assert forall|i: int, c: Color|
                #![trigger bit(self.occupancy[c.ord()], i)]
                0 <= i < 64 implies (bit(self.occupancy[c.ord()], i) <==> (self.piece_on(
                i,
            ) matches Some(p) && p.color == c)) by {
                assert(bit(moved.occupancy[c.ord()], i) <==> (moved.piece_on(i) matches Some(p)
                    && p.color == c));
            }
            assert(self@.squares =~= moved@.squares);
            assert(self@ == pos.apply_move(mv@));
        }
    }

    /// Whose turn it is.
    pub fn side_to_move(&self) -> (c: Color)
        ensures
            c == self@.side_to_move,
    {
        self.side_to_move
    }

    /// The castling rights.
    pub fn castling(&self) -> (c: CastlingRights)
        ensures
            c@ == self@.castling,
    {
        self.castling
    }

    /// The en-passant target, if any.
    pub fn en_passant(&self) -> (e: Option<Square>)
        ensures
            match e {
                Some(sq) => self@.en_passant == Some(sq@),
                None => self@.en_passant is None,
            },
    {
        self.en_passant
    }

    /// Plies since the last capture or pawn move.
    pub fn halfmove_clock(&self) -> (n: u16)
        ensures
            n == self@.halfmove_clock,
    {
        self.halfmove_clock
    }

    /// Number of the move: 1 at the start, one more after each move of Black.
    pub fn fullmove_number(&self) -> (n: u16)
        ensures
            n == self@.fullmove_number,
    {
        self.fullmove_number
    }
}

impl Default for Board {
    /// The starting position.
    fn default() -> (b: Board)
        ensures
            b.wf(),
            b@ == start_position(),
    {
        Board::new()
    }
}

} // verus!
