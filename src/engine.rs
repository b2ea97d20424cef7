//! The rules engine: attack sets, legality and playing moves come from the
//! shakmaty crate. Each item here converts the library's plain values to
//! shakmaty's and back; what a call returns is named by a spec function.
use vstd::prelude::*;

use shakmaty::Position as _;

use crate::bitboard::member;
use crate::chess::{file_of, rank_of, BoardSets, ChessMove, Color, PieceKind, Position, SquareIndex};
use crate::commands::digit_char;

verus! {

#[verifier::external_type_specification]
#[verifier::external_body]
pub struct ExBoard(shakmaty::Board);

#[verifier::external_type_specification]
#[verifier::external_body]
pub struct ExChess(shakmaty::Chess);

#[verifier::external_type_specification]
#[verifier::external_body]
pub struct ExMove(shakmaty::Move);

#[verifier::external_type_specification]
#[verifier::external_body]
pub struct ExRole(shakmaty::Role);

#[verifier::external_type_specification]
#[verifier::external_body]
pub struct ExSquare(shakmaty::Square);

/// Converts a square index (below 64) with shakmaty's Square::new.
#[verifier::external_body]
fn outside_square(sq: SquareIndex) -> shakmaty::Square
    requires
        sq < 64,
{
    shakmaty::Square::new(u32::from(sq))
}

/// Converts a piece kind into shakmaty's Role.
#[verifier::external_body]
fn outside_role(r: PieceKind) -> shakmaty::Role {
    match r {
        PieceKind::Pawn => shakmaty::Role::Pawn,
        PieceKind::Knight => shakmaty::Role::Knight,
        PieceKind::Bishop => shakmaty::Role::Bishop,
        PieceKind::Rook => shakmaty::Role::Rook,
        PieceKind::Queen => shakmaty::Role::Queen,
        PieceKind::King => shakmaty::Role::King,
    }
}

/// Converts shakmaty's Role into a piece kind.
#[verifier::external_body]
fn inside_role(r: shakmaty::Role) -> PieceKind {
    match r {
        shakmaty::Role::Pawn => PieceKind::Pawn,
        shakmaty::Role::Knight => PieceKind::Knight,
        shakmaty::Role::Bishop => PieceKind::Bishop,
        shakmaty::Role::Rook => PieceKind::Rook,
        shakmaty::Role::Queen => PieceKind::Queen,
        shakmaty::Role::King => PieceKind::King,
    }
}

/// Converts a consistent board with shakmaty's Board::from_bitboards.
#[verifier::external_body]
fn outside_board(b: &BoardSets) -> shakmaty::Board
    requires
        b.wf(),
{
    let bb = shakmaty::Bitboard;
    shakmaty::Board::from_bitboards(
        shakmaty::ByRole {
            pawn: bb(b.pawns),
            knight: bb(b.knights),
            bishop: bb(b.bishops),
            rook: bb(b.rooks),
            queen: bb(b.queens),
            king: bb(b.kings),
        },
        shakmaty::ByColor { white: bb(b.white), black: bb(b.black) },
    )
}

/// Converts a move whose squares are below 64 into shakmaty's Move.
#[verifier::external_body]
fn outside_move(m: &ChessMove) -> shakmaty::Move
    requires
        m.squares_in_range(),
{
    let sq = outside_square;
    match *m {
        ChessMove::Normal { role, from, capture, to, promotion } => shakmaty::Move::Normal {
            role: outside_role(role),
            from: sq(from),
            capture: capture.map(outside_role),
            to: sq(to),
            promotion: promotion.map(outside_role),
        },
        ChessMove::EnPassant { from, to } => shakmaty::Move::EnPassant { from: sq(from), to: sq(to) },
        ChessMove::Castle { king, rook } => shakmaty::Move::Castle { king: sq(king), rook: sq(rook) },
    }
}

/// Converts shakmaty's Move into a move; a drop has no counterpart.
#[verifier::external_body]
fn inside_move(m: &shakmaty::Move) -> Option<ChessMove> {
    let sq = |s: shakmaty::Square| s as u8;
    match *m {
        shakmaty::Move::Normal { role, from, capture, to, promotion } => Some(ChessMove::Normal {
            role: inside_role(role),
            from: sq(from),
            capture: capture.map(inside_role),
            to: sq(to),
            promotion: promotion.map(inside_role),
        }),
        shakmaty::Move::EnPassant { from, to } => Some(ChessMove::EnPassant { from: sq(from), to: sq(to) }),
        shakmaty::Move::Castle { king, rook } => Some(ChessMove::Castle { king: sq(king), rook: sq(rook) }),
        shakmaty::Move::Put { .. } => None,
    }
}

/// Converts a position with shakmaty's Chess::from_setup (standard
/// castling); `None` where the move counter is 0 or shakmaty refuses the
/// setup.
#[verifier::external_body]
fn outside_position(p: &Position) -> Option<shakmaty::Chess>
    requires
        p.wf(),
{
    let setup = shakmaty::Setup {
        board: outside_board(&p.board),
        turn: shakmaty::Color::from_white(p.turn == Color::White),
        castling_rights: shakmaty::Bitboard(p.castling_rights),
        ep_square: p.ep_square.map(outside_square),
        halfmoves: p.halfmoves,
        fullmoves: std::num::NonZeroU32::new(p.fullmoves)?,
        ..shakmaty::Setup::empty()
    };
    <shakmaty::Chess as shakmaty::FromSetup>::from_setup(setup, shakmaty::CastlingMode::Standard).ok()
}

/// Converts shakmaty's Chess into a position.
#[verifier::external_body]
fn inside_position(c: &shakmaty::Chess) -> Position {
    let b = c.board();
    let board = BoardSets {
        pawns: b.pawns().0,
        knights: b.knights().0,
        bishops: b.bishops().0,
        rooks: b.rooks().0,
        queens: b.queens().0,
        kings: b.kings().0,
        white: b.white().0,
        black: b.black().0,
    };
    let turn = if c.turn().is_white() { Color::White } else { Color::Black };
    let ep_square = c.maybe_ep_square().map(|s| s as u8);
    let castling_rights = c.castles().castling_rights().0;
    Position { board, turn, castling_rights, ep_square, halfmoves: c.halfmoves(), fullmoves: c.fullmoves().get() }
}

/// What shakmaty's Board::attacks_from returns for a board and a square.
pub uninterp spec fn attacks_from_of(b: BoardSets, sq: int) -> u64;

/// Relies on shakmaty's Board::attacks_from: the squares attacked by the
/// piece on `sq` (none where the square is empty), a function of the board
/// and the square alone.
#[verifier::external_body]
pub(crate) fn attacks_from(b: &BoardSets, sq: SquareIndex) -> (r: u64)
    requires
        b.wf(),
        sq < 64,
    ensures
        r == attacks_from_of(*b, sq as int),
{
    outside_board(b).attacks_from(outside_square(sq)).0
}

/// What shakmaty's Board::attacks_to returns.
pub uninterp spec fn attacks_to_of(b: BoardSets, sq: int, attacker: Color, occupied: u64) -> u64;

/// Relies on shakmaty's Board::attacks_to: the pieces of `attacker` that
/// attack `sq` through `occupied`. The source intersects the result with
/// the attacker's pieces. A standard chess position's `king_attackers` is
/// this same call.
#[verifier::external_body]
pub(crate) fn attacks_to(b: &BoardSets, sq: SquareIndex, attacker: Color, occupied: u64) -> (r: u64)
    requires
        b.wf(),
        sq < 64,
    ensures
        r == attacks_to_of(*b, sq as int, attacker, occupied),
        forall|i: int| member(r, i) ==> member(b.color_set(attacker), i),
{
    let c = shakmaty::Color::from_white(attacker == Color::White);
    outside_board(b).attacks_to(outside_square(sq), c, shakmaty::Bitboard(occupied)).0
}

/// Whether shakmaty accepts the position and finds the move legal in it.
pub uninterp spec fn legal_in(p: Position, m: ChessMove) -> bool;

/// Relies on shakmaty's Position::is_legal, on the position that
/// Chess::from_setup builds; a setup that it refuses has no legal move.
#[verifier::external_body]
pub(crate) fn is_legal(p: &Position, m: &ChessMove) -> (r: bool)
    requires
        p.wf(),
        m.squares_in_range(),
    ensures
        r == legal_in(*p, *m),
{
    match outside_position(p) {
        Some(c) => c.is_legal(&outside_move(m)),
        None => false,
    }
}

/// The position that shakmaty's Position::play reaches.
pub uninterp spec fn played(p: Position, m: ChessMove) -> Option<Position>;

/// Relies on shakmaty's Position::play: it plays a legal move and refuses
/// any other; the side to move changes.
#[verifier::external_body]
pub(crate) fn play(p: &Position, m: &ChessMove) -> (r: Option<Position>)
    requires
        p.wf(),
        m.squares_in_range(),
    ensures
        r == played(*p, *m),
        r.is_some() == legal_in(*p, *m),
        r matches Some(q) ==> q.wf() && q.turn == p.turn.opposite(),
{
    let c = outside_position(p)?;
    c.play(&outside_move(m)).ok().map(|q| inside_position(&q))
}

/// What shakmaty's San parser and San::to_move make of a text in a position.
pub uninterp spec fn san_move(p: Position, text: Seq<char>) -> Option<ChessMove>;

/// Relies on shakmaty's San::from_str and San::to_move: the unique legal
/// move that the text names, if any.
#[verifier::external_body]
pub(crate) fn parse_san(p: &Position, text: &str) -> (r: Option<ChessMove>)
    requires
        p.wf(),
    ensures
        r == san_move(*p, text@),
        r matches Some(m) ==> m.squares_in_range() && legal_in(*p, m),
{
    let c = outside_position(p)?;
    let san = text.parse::<shakmaty::san::San>().ok()?;
    inside_move(&san.to_move(&c).ok()?)
}

/// Whether shakmaty's Position::outcome reports the game as decided or
/// drawn (a setup that shakmaty refuses counts as ended).
pub uninterp spec fn has_outcome(p: Position) -> bool;

/// Relies on shakmaty's Position::outcome: checkmate, stalemate or
/// insufficient material end the game.
#[verifier::external_body]
pub(crate) fn game_over(p: &Position) -> (r: bool)
    requires
        p.wf(),
    ensures
        r == has_outcome(*p),
{
    outside_position(p).map_or(true, |c| c.outcome().is_some())
}

pub open spec fn file_char(f: int) -> char {
    if f == 0 {
        'a'
    } else if f == 1 {
        'b'
    } else if f == 2 {
        'c'
    } else if f == 3 {
        'd'
    } else if f == 4 {
        'e'
    } else if f == 5 {
        'f'
    } else if f == 6 {
        'g'
    } else {
        'h'
    }
}

/// The name of a square, such as `e4`.
pub open spec fn square_name(sq: int) -> Seq<char> {
    seq![file_char(file_of(sq)), digit_char((rank_of(sq) + 1) as nat)]
}

/// The lower-case letter of a piece kind.
pub open spec fn role_char(r: PieceKind) -> char {
    match r {
        PieceKind::Pawn => 'p',
        PieceKind::Knight => 'n',
        PieceKind::Bishop => 'b',
        PieceKind::Rook => 'r',
        PieceKind::Queen => 'q',
        PieceKind::King => 'k',
    }
}

/// A move in UCI notation with standard castling: origin, destination and
/// the letter of a promotion; a castle is written as the king's own step.
pub open spec fn uci_of(m: ChessMove) -> Seq<char> {
    match m {
        ChessMove::Normal { from, to, promotion, .. } => square_name(from as int) + square_name(to as int)
            + match promotion {
            Some(r) => seq![role_char(r)],
            None => Seq::empty(),
        },
        ChessMove::EnPassant { from, to } => square_name(from as int) + square_name(to as int),
        ChessMove::Castle { king, rook } => square_name(king as int) + square_name(
            8 * rank_of(king as int) + if king < rook { 6int } else { 2int },
        ),
    }
}

/// Relies on shakmaty's Uci::from_move (standard castling) and its
/// `Display`: origin and destination square names and a lower-case
/// promotion letter; a castle goes to the king's landing square.
#[verifier::external_body]
pub(crate) fn uci_text(m: &ChessMove) -> (r: String)
    requires
        m.squares_in_range(),
    ensures
        r@ == uci_of(*m),
{
    shakmaty::uci::Uci::from_move(&outside_move(m), shakmaty::CastlingMode::Standard).to_string()
}

} // verus!
