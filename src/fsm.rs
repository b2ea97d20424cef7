//! The pickup/dropout protocol: one changed square at a time turns a
//! waiting state into another, or completes a move.
use vstd::prelude::*;

use crate::bitboard::member;
use crate::chess::{
    contains, lemma_side_square_has_role, rank, rank_of, ChessMove, Color, PieceKind, Position,
    SquareIndex,
};
use crate::engine::{attacks_from, attacks_from_of, attacks_to, attacks_to_of, is_legal, legal_in};

verus! {

/// Where the human is in lifting and placing pieces.
#[derive(Clone, Copy, Debug, PartialEq, Eq, Hash, Structural)]
pub enum PickupState {
    /// Nothing is lifted.
    Idle,
    /// A piece of the side to move is lifted from the square.
    FriendlyPickedUp(SquareIndex),
    /// An enemy piece that can be taken is lifted from the square.
    EnemyPickedUp(SquareIndex),
    /// A friendly piece and the enemy piece it takes are both lifted.
    FriendlyAndEnemyPickedUp(SquareIndex, SquareIndex),
    /// King and rook are both lifted for castling.
    Castling(SquareIndex, SquareIndex),
    /// The king stands on its castling square; the rook is to go on the last
    /// square.
    CastlingRookPending(SquareIndex, SquareIndex, SquareIndex),
    /// A piece was lifted that may not be; the first square is what was
    /// lifted before it.
    InvalidPickup(Option<SquareIndex>, SquareIndex),
    /// The piece lifted from the first square was put on the second, which is
    /// not a legal move.
    InvalidMove(SquareIndex, SquareIndex),
    /// The board no longer matches the position.
    Error,
}

/// A square holds a piece of the side to move.
pub open spec fn friendly(p: Position, sq: int) -> bool {
    member(p.us_set(), sq)
}

/// A square holds a piece of the side not to move.
pub open spec fn enemy(p: Position, sq: int) -> bool {
    member(p.them_set(), sq)
}

/// The enemy pieces that the piece on `from` attacks.
pub open spec fn capture_targets(p: Position, from: int) -> u64 {
    attacks_from_of(p.board, from) & p.them_set()
}

/// The pieces of the side to move that attack `sq`.
pub open spec fn friendly_attackers(p: Position, sq: int) -> u64 {
    attacks_to_of(p.board, sq, p.turn, p.board.occupied_set())
}

/// The pieces of the side not to move that would attack a king on `sq`.
pub open spec fn king_attackers_of(p: Position, sq: int) -> u64 {
    attacks_to_of(p.board, sq, p.turn.opposite(), p.board.occupied_set())
}

pub open spec fn on_back_rank(sq: int) -> bool {
    rank_of(sq) == 0 || rank_of(sq) == 7
}

/// A pawn that reaches the last rank becomes a queen.
pub open spec fn promotion_for(role: PieceKind, to: int) -> Option<PieceKind> {
    if role == PieceKind::Pawn && on_back_rank(to) {
        Some(PieceKind::Queen)
    } else {
        None
    }
}

/// The square the king lands on when castling with the rook on `rook`, and
/// the square the rook then goes to.
pub open spec fn castle_squares(c: Color, rook: SquareIndex) -> (SquareIndex, SquareIndex) {
    match (c, rook % 8 == 0) {
        (Color::White, true) => (2, 3),
        (Color::White, false) => (6, 5),
        (Color::Black, true) => (58, 59),
        (Color::Black, false) => (62, 61),
    }
}

/// The square the king lands on when castling with the rook on `rook`, and
/// the square the rook then goes to.
pub fn castle_targets(c: Color, rook: SquareIndex) -> (r: (SquareIndex, SquareIndex))
    ensures
        r == castle_squares(c, rook),
{
    match (c, rook % 8 == 0) {
        (Color::White, true) => (2, 3),
        (Color::White, false) => (6, 5),
        (Color::Black, true) => (58, 59),
        (Color::Black, false) => (62, 61),
    }
}

/// The transition from `FriendlyPickedUp(prev)` on a change at `sq`.
pub open spec fn after_friendly(p: Position, prev: SquareIndex, sq: SquareIndex) -> (
    PickupState,
    Option<ChessMove>,
) {
    let role = p.board.role_on(prev as int).unwrap();
    let there = p.board.role_on(sq as int);
    if prev == sq {
        (PickupState::Idle, None)
    } else if role == PieceKind::Rook && there == Some(PieceKind::King) {
        if legal_in(p, ChessMove::Castle { king: sq, rook: prev }) {
            (PickupState::Castling(sq, prev), None)
        } else {
            (PickupState::InvalidPickup(Some(prev), sq), None)
        }
    } else if role == PieceKind::King && there == Some(PieceKind::Rook) {
        if legal_in(p, ChessMove::Castle { king: prev, rook: sq }) {
            (PickupState::Castling(prev, sq), None)
        } else {
            (PickupState::InvalidPickup(Some(prev), sq), None)
        }
    } else if friendly(p, sq as int) || (enemy(p, sq as int) && !member(
        capture_targets(p, prev as int),
        sq as int,
    )) {
        (PickupState::InvalidPickup(Some(prev), sq), None)
    } else if member(capture_targets(p, prev as int), sq as int) {
        (PickupState::FriendlyAndEnemyPickedUp(prev, sq), None)
    } else if role == PieceKind::Pawn && on_back_rank(sq as int) {
        (
            PickupState::Idle,
            Some(
                ChessMove::Normal {
                    role: PieceKind::Pawn,
                    from: prev,
                    capture: None,
                    to: sq,
                    promotion: Some(PieceKind::Queen),
                },
            ),
        )
    } else {
        let mv = ChessMove::Normal { role, from: prev, capture: None, to: sq, promotion: None };
        if legal_in(p, mv) {
            (PickupState::Idle, Some(mv))
        } else {
            (PickupState::InvalidMove(prev, sq), None)
        }
    }
}

/// The transition from `EnemyPickedUp(prev)` on a change at `sq`.
pub open spec fn after_enemy(p: Position, prev: SquareIndex, sq: SquareIndex) -> (
    PickupState,
    Option<ChessMove>,
) {
    let takers = friendly_attackers(p, prev as int);
    if prev == sq {
        (PickupState::Idle, None)
    } else if !member(takers, sq as int) || enemy(p, sq as int) || (p.board.role_on(sq as int)
        == Some(PieceKind::King) && king_attackers_of(p, prev as int) != 0) {
        (PickupState::InvalidPickup(Some(prev), sq), None)
    } else if member(takers, sq as int) {
        (PickupState::FriendlyAndEnemyPickedUp(sq, prev), None)
    } else {
        (PickupState::Error, None)
    }
}

/// The next state, and the completed move if there is one, when the
/// occupancy of `sq` changes in state `s`.
pub open spec fn next_state(p: Position, sq: SquareIndex, s: PickupState) -> (
    PickupState,
    Option<ChessMove>,
) {
    match s {
        PickupState::Idle => {
            if friendly(p, sq as int) {
                (PickupState::FriendlyPickedUp(sq), None)
            } else if enemy(p, sq as int) {
                if friendly_attackers(p, sq as int) != 0 {
                    (PickupState::EnemyPickedUp(sq), None)
                } else {
                    (PickupState::InvalidPickup(None, sq), None)
                }
            } else {
                (PickupState::Error, None)
            }
        },
        PickupState::FriendlyPickedUp(prev) => after_friendly(p, prev, sq),
        PickupState::EnemyPickedUp(prev) => after_enemy(p, prev, sq),
        PickupState::FriendlyAndEnemyPickedUp(f, e) => {
            if sq == f {
                (PickupState::EnemyPickedUp(e), None)
            } else if sq == e {
                let role = p.board.role_on(f as int).unwrap();
                (
                    PickupState::Idle,
                    Some(
                        ChessMove::Normal {
                            role,
                            from: f,
                            capture: p.board.role_on(e as int),
                            to: sq,
                            promotion: promotion_for(role, sq as int),
                        },
                    ),
                )
            } else {
                (PickupState::Error, None)
            }
        },
        PickupState::Castling(king, rook) => {
            let (king_to, rook_to) = castle_squares(p.turn, rook);
            if sq == king_to {
                (PickupState::CastlingRookPending(king, rook, rook_to), None)
            } else {
                (PickupState::Error, None)
            }
        },
        PickupState::CastlingRookPending(king, rook, target) => {
            if sq == target {
                (PickupState::Idle, Some(ChessMove::Castle { king, rook }))
            } else {
                (PickupState::Error, None)
            }
        },
        PickupState::InvalidPickup(before, prev) => {
            if sq != prev {
                (PickupState::Error, None)
            } else {
                match before {
                    None => (PickupState::Idle, None),
                    Some(b) => {
                        if friendly(p, b as int) {
                            (PickupState::FriendlyPickedUp(b), None)
                        } else if enemy(p, b as int) {
                            (PickupState::EnemyPickedUp(b), None)
                        } else {
                            (PickupState::Error, None)
                        }
                    },
                }
            }
        },
        PickupState::InvalidMove(before, prev) => {
            if sq == prev {
                (PickupState::FriendlyPickedUp(before), None)
            } else {
                (PickupState::Error, None)
            }
        },
        PickupState::Error => (PickupState::Error, None),
    }
}

impl PickupState {
    /// Every square of the state is on the board, and a piece stands on each
    /// square that the state takes for a lifted friendly piece.
    pub open spec fn fits(self, p: Position) -> bool {
        match self {
            PickupState::Idle => true,
            PickupState::FriendlyPickedUp(s) => s < 64 && p.board.role_on(s as int).is_some(),
            PickupState::EnemyPickedUp(s) => s < 64,
            PickupState::FriendlyAndEnemyPickedUp(f, e) => f < 64 && e < 64 && p.board.role_on(
                f as int,
            ).is_some(),
            PickupState::Castling(k, r) => k < 64 && r < 64,
            PickupState::CastlingRookPending(k, r, t) => k < 64 && r < 64 && t < 64,
            PickupState::InvalidPickup(b, s) => s < 64 && (b matches Some(x) ==> x < 64),
            PickupState::InvalidMove(b, s) => b < 64 && s < 64 && p.board.role_on(
                b as int,
            ).is_some(),
            PickupState::Error => true,
        }
    }
}

/// The transition table is total: every state and square give exactly one
/// next state (that it again fits the position is part of `update_state`'s
/// contract), and a completed move is emitted only on the way back to
/// `Idle`, from a lifted friendly piece, a capture in progress or a castling
/// rook being put down. `Error` is never left.
pub proof fn lemma_transition_total(p: Position, sq: SquareIndex, s: PickupState)
    requires
        p.wf(),
        sq < 64,
        s.fits(p),
    ensures
        next_state(p, sq, s).1 matches Some(m) ==> m.squares_in_range(),
        next_state(p, sq, s).1.is_some() ==> next_state(p, sq, s).0 == PickupState::Idle,
        next_state(p, sq, s).1.is_some() ==> (s is FriendlyPickedUp || s is FriendlyAndEnemyPickedUp
            || s is CastlingRookPending),
        s == PickupState::Error ==> next_state(p, sq, s) == (PickupState::Error, None::<ChessMove>),
{
}

/// With an enemy piece lifted, the last branch of the table (to `Error`) is
/// never taken: a square that does not attack the lifted piece is already an
/// invalid pickup.
pub proof fn lemma_enemy_pickup_never_errs(p: Position, prev: SquareIndex, sq: SquareIndex)
    ensures
        after_enemy(p, prev, sq).0 != PickupState::Error,
{
}

/// Putting a lifted piece straight back on its square cancels the pickup.
pub proof fn lemma_put_back_cancels(p: Position, sq: SquareIndex)
    ensures
        next_state(p, sq, PickupState::FriendlyPickedUp(sq)) == (PickupState::Idle, None::<ChessMove>),
        next_state(p, sq, PickupState::EnemyPickedUp(sq)) == (PickupState::Idle, None::<ChessMove>),
{
}

/// Moves the protocol on by one changed square: `instruction` is the index
/// of the square whose occupancy changed. The position is only read.
pub fn update_state(position: &Position, instruction: u32, state: PickupState) -> (r: (
    PickupState,
    Option<ChessMove>,
))
    requires
        position.wf(),
        instruction < 64,
        state.fits(*position),
    ensures
        r == next_state(*position, instruction as SquareIndex, state),
        r.0.fits(*position),
        r.1 matches Some(m) ==> m.squares_in_range(),
{
    let sq: SquareIndex = instruction as SquareIndex;
    let board = &position.board;
    let occupied = board.occupied();
    let friendlies = position.us();
    let enemies = position.them();
    match state {
        PickupState::Idle => {
            if contains(friendlies, sq) {
                proof {
                    lemma_side_square_has_role(position.board, position.turn, sq as int);
                }
                (PickupState::FriendlyPickedUp(sq), None)
            } else if contains(enemies, sq) {
                if attacks_to(board, sq, position.turn, occupied) != 0 {
                    (PickupState::EnemyPickedUp(sq), None)
                } else {
                    (PickupState::InvalidPickup(None, sq), None)
                }
            } else {
                (PickupState::Error, None)
            }
        },
        PickupState::FriendlyPickedUp(prev) => {
            let role = board.role_at(prev).unwrap();
            let there = board.role_at(sq);
            let can_capture = attacks_from(board, prev) & enemies;
            if prev == sq {
                (PickupState::Idle, None)
            } else if role == PieceKind::Rook && there == Some(PieceKind::King) {
                if is_legal(position, &ChessMove::Castle { king: sq, rook: prev }) {
                    (PickupState::Castling(sq, prev), None)
                } else {
                    (PickupState::InvalidPickup(Some(prev), sq), None)
                }
            } else if role == PieceKind::King && there == Some(PieceKind::Rook) {
                if is_legal(position, &ChessMove::Castle { king: prev, rook: sq }) {
                    (PickupState::Castling(prev, sq), None)
                } else {
                    (PickupState::InvalidPickup(Some(prev), sq), None)
                }
            } else if contains(friendlies, sq) || (contains(enemies, sq) && !contains(
                can_capture,
                sq,
            )) {
                (PickupState::InvalidPickup(Some(prev), sq), None)
            } else if contains(can_capture, sq) {
                (PickupState::FriendlyAndEnemyPickedUp(prev, sq), None)
            } else if role == PieceKind::Pawn && (rank(sq) == 0 || rank(sq) == 7) {
                let mv = ChessMove::Normal {
                    role: PieceKind::Pawn,
                    from: prev,
                    capture: None,
                    to: sq,
                    promotion: Some(PieceKind::Queen),
                };
                (PickupState::Idle, Some(mv))
            } else {
                let mv = ChessMove::Normal { role, from: prev, capture: None, to: sq, promotion: None };
                if is_legal(position, &mv) {
                    (PickupState::Idle, Some(mv))
                } else {
                    (PickupState::InvalidMove(prev, sq), None)
                }
            }
        },
        PickupState::EnemyPickedUp(prev) => {
            let takers = attacks_to(board, prev, position.turn, occupied);
            if prev == sq {
                (PickupState::Idle, None)
            } else if !contains(takers, sq) || contains(enemies, sq) {
                (PickupState::InvalidPickup(Some(prev), sq), None)
            } else {
                proof {
                    lemma_side_square_has_role(position.board, position.turn, sq as int);
                }
                let is_king = board.role_at(sq).unwrap() == PieceKind::King;
                if is_king && attacks_to(board, prev, position.turn.other(), occupied) != 0 {
                    (PickupState::InvalidPickup(Some(prev), sq), None)
                } else if contains(takers, sq) {
                    (PickupState::FriendlyAndEnemyPickedUp(sq, prev), None)
                } else {
                    (PickupState::Error, None)
                }
            }
        },
        PickupState::FriendlyAndEnemyPickedUp(f, e) => {
            let role = board.role_at(f).unwrap();
            if sq == f {
                (PickupState::EnemyPickedUp(e), None)
            } else if sq == e {
                let promotion = if role == PieceKind::Pawn && (rank(sq) == 0 || rank(sq) == 7) {
                    Some(PieceKind::Queen)
                } else {
                    None
                };
                let mv = ChessMove::Normal {
                    role,
                    from: f,
                    capture: board.role_at(e),
                    to: sq,
                    promotion,
                };
                (PickupState::Idle, Some(mv))
            } else {
                (PickupState::Error, None)
            }
        },
        PickupState::Castling(king, rook) => {
            let (king_to, rook_to) = castle_targets(position.turn, rook);
            if sq == king_to {
                (PickupState::CastlingRookPending(king, rook, rook_to), None)
            } else {
                (PickupState::Error, None)
            }
        },
        PickupState::CastlingRookPending(king, rook, target) => {
            if sq == target {
                (PickupState::Idle, Some(ChessMove::Castle { king, rook }))
            } else {
                (PickupState::Error, None)
            }
        },
        PickupState::InvalidPickup(before, prev) => {
            if sq != prev {
                (PickupState::Error, None)
            } else {
                match before {
                    None => (PickupState::Idle, None),
                    Some(b) => {
                        if contains(friendlies, b) {
                            proof {
                                lemma_side_square_has_role(position.board, position.turn, b as int);
                            }
                            (PickupState::FriendlyPickedUp(b), None)
                        } else if contains(enemies, b) {
                            (PickupState::EnemyPickedUp(b), None)
                        } else {
                            (PickupState::Error, None)
                        }
                    },
                }
            }
        },
        PickupState::InvalidMove(before, prev) => {
            if sq == prev {
                (PickupState::FriendlyPickedUp(before), None)
            } else {
                (PickupState::Error, None)
            }
        },
        PickupState::Error => (PickupState::Error, None),
    }
}

} // verus!
