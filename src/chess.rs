//! The chess values the board logic reads: sides, piece kinds, squares,
//! boards, positions and moves, held as plain values.
use vstd::prelude::*;

use crate::bitboard::{member, single};

verus! {

/// A square index `0..64`; `file = sq % 8`, `rank = sq / 8` (both 0-based,
/// square 0 is a1, square 63 is h8).
pub type SquareIndex = u8;

pub open spec fn file_of(sq: int) -> int {
    sq % 8
}

pub open spec fn rank_of(sq: int) -> int {
    sq / 8
}

/// The file of a square, 0-based (a = 0).
pub fn file(sq: SquareIndex) -> (r: u8)
    requires
        sq < 64,
    ensures
        r as int == file_of(sq as int),
        r < 8,
{
    sq % 8
}

/// The rank of a square, 0-based (first rank = 0).
pub fn rank(sq: SquareIndex) -> (r: u8)
    requires
        sq < 64,
    ensures
        r as int == rank_of(sq as int),
        r < 8,
{
    sq / 8
}

/// A side.
#[derive(Clone, Copy, Debug, PartialEq, Eq, Hash, Structural)]
pub enum Color {
    White,
    Black,
}

impl Color {
    pub open spec fn opposite(self) -> Color {
        match self {
            Color::White => Color::Black,
            Color::Black => Color::White,
        }
    }

    /// The other side.
    pub fn other(self) -> (r: Color)
        ensures
            r == self.opposite(),
    {
        match self {
            Color::White => Color::Black,
            Color::Black => Color::White,
        }
    }
}

/// A kind of piece.
#[derive(Clone, Copy, Debug, PartialEq, Eq, Hash, Structural)]
pub enum PieceKind {
    Pawn,
    Knight,
    Bishop,
    Rook,
    Queen,
    King,
}

/// Piece placement as one occupancy set per piece kind and per side.
#[derive(Clone, Copy, Debug, PartialEq, Eq, Hash, Structural)]
pub struct BoardSets {
    pub pawns: u64,
    pub knights: u64,
    pub bishops: u64,
    pub rooks: u64,
    pub queens: u64,
    pub kings: u64,
    pub white: u64,
    pub black: u64,
}

impl BoardSets {
    pub open spec fn color_set(self, c: Color) -> u64 {
        match c {
            Color::White => self.white,
            Color::Black => self.black,
        }
    }

    pub open spec fn role_set(self, r: PieceKind) -> u64 {
        match r {
            PieceKind::Pawn => self.pawns,
            PieceKind::Knight => self.knights,
            PieceKind::Bishop => self.bishops,
            PieceKind::Rook => self.rooks,
            PieceKind::Queen => self.queens,
            PieceKind::King => self.kings,
        }
    }

    pub open spec fn occupied_set(self) -> u64 {
        self.white | self.black
    }

    /// The piece kinds are disjoint, the sides are disjoint, and both cover
    /// the same squares.
    pub open spec fn wf(self) -> bool {
        &&& self.pawns & self.knights == 0 && self.pawns & self.bishops == 0
        &&& self.pawns & self.rooks == 0 && self.pawns & self.queens == 0
        &&& self.pawns & self.kings == 0 && self.knights & self.bishops == 0
        &&& self.knights & self.rooks == 0 && self.knights & self.queens == 0
        &&& self.knights & self.kings == 0 && self.bishops & self.rooks == 0
        &&& self.bishops & self.queens == 0 && self.bishops & self.kings == 0
        &&& self.rooks & self.queens == 0 && self.rooks & self.kings == 0
        &&& self.queens & self.kings == 0
        &&& self.white & self.black == 0
        &&& self.pawns | self.knights | self.bishops | self.rooks | self.queens | self.kings
            == self.white | self.black
    }

    /// The kind of the piece on `sq`, if a piece stands there.
    pub open spec fn role_on(self, sq: int) -> Option<PieceKind> {
        if !member(self.occupied_set(), sq) {
            None
        } else if member(self.pawns, sq) {
            Some(PieceKind::Pawn)
        } else if member(self.knights, sq) {
            Some(PieceKind::Knight)
        } else if member(self.bishops, sq) {
            Some(PieceKind::Bishop)
        } else if member(self.rooks, sq) {
            Some(PieceKind::Rook)
        } else if member(self.queens, sq) {
            Some(PieceKind::Queen)
        } else if member(self.kings, sq) {
            Some(PieceKind::King)
        } else {
            None
        }
    }

    /// The squares of one side.
    pub fn by_color(&self, c: Color) -> (r: u64)
        ensures
            r == self.color_set(c),
    {
        match c {
            Color::White => self.white,
            Color::Black => self.black,
        }
    }

    /// The occupied squares.
    pub fn occupied(&self) -> (r: u64)
        ensures
            r == self.occupied_set(),
    {
        self.white | self.black
    }

    /// The kind of the piece on `sq`, if any.
    pub fn role_at(&self, sq: SquareIndex) -> (r: Option<PieceKind>)
        requires
            sq < 64,
        ensures
            r == self.role_on(sq as int),
    {
        if !contains(self.occupied(), sq) {
            None
        } else if contains(self.pawns, sq) {
            Some(PieceKind::Pawn)
        } else if contains(self.knights, sq) {
            Some(PieceKind::Knight)
        } else if contains(self.bishops, sq) {
            Some(PieceKind::Bishop)
        } else if contains(self.rooks, sq) {
            Some(PieceKind::Rook)
        } else if contains(self.queens, sq) {
            Some(PieceKind::Queen)
        } else if contains(self.kings, sq) {
            Some(PieceKind::King)
        } else {
            None
        }
    }
}

/// A piece of either side stands on every square of a side's set, and its
/// kind is known on a consistent board.
pub proof fn lemma_side_square_has_role(b: BoardSets, c: Color, s: int)
    requires
        b.wf(),
        member(b.color_set(c), s),
    ensures
        member(b.occupied_set(), s),
        b.role_on(s).is_some(),
{
    let t = s as u64;
    let (w, bl) = (b.white, b.black);
    assert(((w >> t) & 1u64 == 1u64 || (bl >> t) & 1u64 == 1u64) ==> ((w | bl) >> t) & 1u64
        == 1u64) by (bit_vector);
    let (p, n, bi, r, q, k) = (b.pawns, b.knights, b.bishops, b.rooks, b.queens, b.kings);
    assert((((p | n | bi | r | q | k) >> t) & 1u64 == 1u64) ==> ((p >> t) & 1u64 == 1u64 || (n
        >> t) & 1u64 == 1u64 || (bi >> t) & 1u64 == 1u64 || (r >> t) & 1u64 == 1u64 || (q >> t)
        & 1u64 == 1u64 || (k >> t) & 1u64 == 1u64)) by (bit_vector);
}

/// Whether square `sq` is in the set `b`.
pub fn contains(b: u64, sq: SquareIndex) -> (r: bool)
    requires
        sq < 64,
    ensures
        r == member(b, sq as int),
{
    (b >> sq) & 1u64 == 1u64
}

/// The set holding only `sq`.
pub fn from_square(sq: SquareIndex) -> (r: u64)
    requires
        sq < 64,
    ensures
        r == single(sq as int),
        member(r, sq as int),
        forall|i: int| 0 <= i < 64 && i != sq ==> !member(r, i),
{
    proof {
        lemma_single(sq as u64);
    }
    1u64 << sq
}

pub proof fn lemma_single(s: u64)
    requires
        s < 64,
    ensures
        member(1u64 << s, s as int),
        forall|i: int| 0 <= i < 64 && i != s ==> !member(1u64 << s, i),
{
    assert(((1u64 << s) >> s) & 1u64 == 1u64) by (bit_vector)
        requires
            s < 64,
    ;
    assert forall|i: int| 0 <= i < 64 && i != s implies !member(1u64 << s, i) by {
        let t = i as u64;
        assert(((1u64 << s) >> t) & 1u64 != 1u64) by (bit_vector)
            requires
                s < 64,
                t < 64,
                s != t,
        ;
    }
}

proof fn lemma_initial_board_wf()
    ensures
        (BoardSets {
            pawns: 0x00ff_0000_0000_ff00u64,
            knights: 0x4200_0000_0000_0042u64,
            bishops: 0x2400_0000_0000_0024u64,
            rooks: 0x8100_0000_0000_0081u64,
            queens: 0x0800_0000_0000_0008u64,
            kings: 0x1000_0000_0000_0010u64,
            white: 0xffffu64,
            black: 0xffff_0000_0000_0000u64,
        }).wf(),
{
    let (p, n, b, r, q, k, w, bl) = (
        0x00ff_0000_0000_ff00u64,
        0x4200_0000_0000_0042u64,
        0x2400_0000_0000_0024u64,
        0x8100_0000_0000_0081u64,
        0x0800_0000_0000_0008u64,
        0x1000_0000_0000_0010u64,
        0xffffu64,
        0xffff_0000_0000_0000u64,
    );
    assert(p & n == 0 && p & b == 0 && p & r == 0 && p & q == 0 && p & k == 0 && n & b == 0 && n
        & r == 0 && n & q == 0 && n & k == 0 && b & r == 0 && b & q == 0 && b & k == 0 && r & q
        == 0 && r & k == 0 && q & k == 0 && w & bl == 0 && p | n | b | r | q | k == w | bl)
        by (bit_vector)
        requires
            p == 0x00ff_0000_0000_ff00u64,
            n == 0x4200_0000_0000_0042u64,
            b == 0x2400_0000_0000_0024u64,
            r == 0x8100_0000_0000_0081u64,
            q == 0x0800_0000_0000_0008u64,
            k == 0x1000_0000_0000_0010u64,
            w == 0xffffu64,
            bl == 0xffff_0000_0000_0000u64,
    ;
}

/// A chess position: placement, side to move, castling rights (as the set
/// of the rooks that may still castle), en passant target square and the
/// move counters.
#[derive(Clone, Copy, Debug, PartialEq, Eq, Hash, Structural)]
pub struct Position {
    pub board: BoardSets,
    pub turn: Color,
    pub castling_rights: u64,
    pub ep_square: Option<SquareIndex>,
    pub halfmoves: u32,
    pub fullmoves: u32,
}

impl Position {
    /// A consistent board and an en passant square on the board.
    pub open spec fn wf(self) -> bool {
        &&& self.board.wf()
        &&& self.ep_square matches Some(s) ==> s < 64
    }

    /// The squares of the side to move.
    pub open spec fn us_set(self) -> u64 {
        self.board.color_set(self.turn)
    }

    /// The squares of the side not to move.
    pub open spec fn them_set(self) -> u64 {
        self.board.color_set(self.turn.opposite())
    }

    /// The standard starting position, white to move.
    pub open spec fn initial_spec() -> Position {
        Position {
            board: BoardSets {
                pawns: 0x00ff_0000_0000_ff00u64,
                knights: 0x4200_0000_0000_0042u64,
                bishops: 0x2400_0000_0000_0024u64,
                rooks: 0x8100_0000_0000_0081u64,
                queens: 0x0800_0000_0000_0008u64,
                kings: 0x1000_0000_0000_0010u64,
                white: 0xffffu64,
                black: 0xffff_0000_0000_0000u64,
            },
            turn: Color::White,
            castling_rights: 0x8100_0000_0000_0081u64,
            ep_square: None,
            halfmoves: 0,
            fullmoves: 1,
        }
    }

    /// The standard starting position, white to move.
    pub fn initial() -> (r: Position)
        ensures
            r == Position::initial_spec(),
            r.turn == Color::White,
            r.board.occupied_set() == 0xffff_0000_0000_ffffu64,
            r.board.white == 0xffffu64,
            r.board.black == 0xffff_0000_0000_0000u64,
            r.castling_rights == 0x8100_0000_0000_0081u64,
            r.ep_square.is_none(),
            r.halfmoves == 0,
            r.fullmoves == 1,
            r.wf(),
    {
        let board = BoardSets {
            pawns: 0x00ff_0000_0000_ff00u64,
            knights: 0x4200_0000_0000_0042u64,
            bishops: 0x2400_0000_0000_0024u64,
            rooks: 0x8100_0000_0000_0081u64,
            queens: 0x0800_0000_0000_0008u64,
            kings: 0x1000_0000_0000_0010u64,
            white: 0xffffu64,
            black: 0xffff_0000_0000_0000u64,
        };
        assert(0xffffu64 | 0xffff_0000_0000_0000u64 == 0xffff_0000_0000_ffffu64) by (bit_vector);
        proof {
            lemma_initial_board_wf();
        }
        Position {
            board,
            turn: Color::White,
            castling_rights: 0x8100_0000_0000_0081u64,
            ep_square: None,
            halfmoves: 0,
            fullmoves: 1,
        }
    }

    /// The side to move.
    pub fn side_to_move(&self) -> (r: Color)
        ensures
            r == self.turn,
    {
        self.turn
    }

    /// The squares of the side to move.
    pub fn us(&self) -> (r: u64)
        ensures
            r == self.us_set(),
    {
        self.board.by_color(self.turn)
    }

    /// The squares of the side not to move.
    pub fn them(&self) -> (r: u64)
        ensures
            r == self.them_set(),
    {
        self.board.by_color(self.turn.other())
    }
}

/// A move of standard chess.
#[derive(Clone, Copy, Debug, PartialEq, Eq, Hash, Structural)]
pub enum ChessMove {
    /// A piece moves from `from` to `to`, maybe taking a piece there, and a
    /// pawn on the last rank may turn into `promotion`.
    Normal { role: PieceKind, from: SquareIndex, capture: Option<PieceKind>, to: SquareIndex, promotion: Option<PieceKind> },
    /// A pawn takes en passant.
    EnPassant { from: SquareIndex, to: SquareIndex },
    /// The king castles with the rook on `rook`.
    Castle { king: SquareIndex, rook: SquareIndex },
}

impl ChessMove {
    pub open spec fn origin(self) -> int {
        match self {
            ChessMove::Normal { from, .. } => from as int,
            ChessMove::EnPassant { from, .. } => from as int,
            ChessMove::Castle { king, .. } => king as int,
        }
    }

    /// The target square; a castle is written as the king taking its rook.
    pub open spec fn target(self) -> int {
        match self {
            ChessMove::Normal { to, .. } => to as int,
            ChessMove::EnPassant { to, .. } => to as int,
            ChessMove::Castle { rook, .. } => rook as int,
        }
    }

    pub open spec fn is_capture_spec(self) -> bool {
        match self {
            ChessMove::Normal { capture, .. } => capture.is_some(),
            ChessMove::EnPassant { .. } => true,
            ChessMove::Castle { .. } => false,
        }
    }

    pub open spec fn squares_in_range(self) -> bool {
        0 <= self.origin() < 64 && 0 <= self.target() < 64
    }

    /// Whether the move takes a piece.
    pub fn is_capture(&self) -> (r: bool)
        ensures
            r == self.is_capture_spec(),
    {
        match self {
            ChessMove::Normal { capture, .. } => capture.is_some(),
            ChessMove::EnPassant { .. } => true,
            ChessMove::Castle { .. } => false,
        }
    }
}

} // verus!
