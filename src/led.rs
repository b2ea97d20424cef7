//! Square highlights: three occupancy-style sets, one per colour channel.
use vstd::prelude::*;

use crate::bitboard::single;
use crate::chess::{from_square, rank, rank_of, Color, PieceKind, Position, SquareIndex};
use crate::engine::{attacks_from, attacks_from_of};
use crate::fsm::{castle_squares, castle_targets, PickupState};

verus! {

/// One set of squares per channel of the square lights.
#[derive(Clone, Copy, Debug, PartialEq, Eq, Hash, Structural)]
pub struct Rgb {
    pub r: u64,
    pub g: u64,
    pub b: u64,
}

/// Moves a set one rank up (`up`) or down, by `n` squares of index.
pub open spec fn shifted(b: u64, up: bool, n: u64) -> u64 {
    if up {
        b << n
    } else {
        b >> n
    }
}

/// The empty squares that the pawn of the side to move on `sq` can push
/// to: one rank ahead, and two from its starting rank when the first is
/// free.
pub open spec fn pawn_pushes(p: Position, sq: int) -> u64 {
    let white = p.turn == Color::White;
    let occ = p.board.occupied_set();
    let one = shifted(single(sq), white, 8);
    let start = (rank_of(sq) == 1 && white) || (rank_of(sq) == 6 && !white);
    let both = if start && one & !occ != 0 {
        one | shifted(single(sq), white, 16)
    } else {
        one
    };
    both & !occ
}

/// Whether the pawn on `sq` can push onto its last rank.
pub open spec fn pawn_promotes(p: Position, sq: int) -> bool {
    let white = p.turn == Color::White;
    let near = (rank_of(sq) == 1 && !white) || (rank_of(sq) == 6 && white);
    near && pawn_pushes(p, sq) & !p.board.occupied_set() != 0
}

/// The highlights for a state.
pub open spec fn rgb_for(p: Position, s: PickupState) -> Rgb {
    let occ = p.board.occupied_set();
    match s {
        PickupState::Idle => Rgb { r: 0, g: 0, b: 0 },
        PickupState::FriendlyPickedUp(sq) => {
            let pawn = p.board.role_on(sq as int) == Some(PieceKind::Pawn);
            let moves = if pawn {
                pawn_pushes(p, sq as int)
            } else {
                attacks_from_of(p.board, sq as int) & !occ
            };
            let captures = attacks_from_of(p.board, sq as int) & p.them_set();
            if pawn && pawn_promotes(p, sq as int) {
                Rgb { r: moves | captures, g: captures, b: moves }
            } else {
                Rgb { r: captures, g: moves | captures, b: single(sq as int) }
            }
        },
        PickupState::EnemyPickedUp(sq) => Rgb {
            r: 0,
            g: crate::fsm::friendly_attackers(p, sq as int),
            b: single(sq as int),
        },
        PickupState::FriendlyAndEnemyPickedUp(f, e) => Rgb {
            r: 0,
            g: single(e as int),
            b: single(f as int),
        },
        PickupState::Castling(_, rook) => Rgb {
            r: single(castle_squares(p.turn, rook).0 as int),
            g: 0,
            b: single(castle_squares(p.turn, rook).0 as int),
        },
        PickupState::CastlingRookPending(_, _, t) => Rgb { r: single(t as int), g: 0, b: single(t as int) },
        PickupState::InvalidPickup(_, sq) => Rgb { r: single(sq as int), g: 0, b: 0 },
        PickupState::InvalidMove(_, sq) => Rgb { r: single(sq as int), g: 0, b: 0 },
        PickupState::Error => Rgb { r: 0xffff_ffff_ffff_ffffu64, g: 0, b: 0 },
    }
}

/// The highlights to show for a state of the protocol.
pub fn get_rgb(position: &Position, state: PickupState) -> (r: Rgb)
    requires
        position.wf(),
        state.fits(*position),
    ensures
        r == rgb_for(*position, state),
{
    let board = &position.board;
    let occupied = board.occupied();
    let enemies = position.them();
    match state {
        PickupState::Idle => Rgb { r: 0, g: 0, b: 0 },
        PickupState::FriendlyPickedUp(sq) => {
            let pawn = board.role_at(sq) == Some(PieceKind::Pawn);
            let white = position.turn == Color::White;
            let mut moves: u64;
            let mut is_promotion = false;
            if pawn {
                let origin = from_square(sq);
                let one = if white { origin << 8u64 } else { origin >> 8u64 };
                moves = one;
                let start = (rank(sq) == 1 && white) || (rank(sq) == 6 && !white);
                if start && one & !occupied != 0 {
                    let two = if white { origin << 16u64 } else { origin >> 16u64 };
                    moves = one | two;
                }
                moves = moves & !occupied;
                let near = (rank(sq) == 1 && !white) || (rank(sq) == 6 && white);
                if near && moves & !occupied != 0 {
                    is_promotion = true;
                }
            } else {
                moves = attacks_from(board, sq) & !occupied;
            }
            let captures = attacks_from(board, sq) & enemies;
            if is_promotion {
                Rgb { r: moves | captures, g: captures, b: moves }
            } else {
                Rgb { r: captures, g: moves | captures, b: from_square(sq) }
            }
        },
        PickupState::EnemyPickedUp(sq) => {
            let attackers = crate::engine::attacks_to(board, sq, position.turn, occupied);
            Rgb { r: 0, g: attackers, b: from_square(sq) }
        },
        PickupState::FriendlyAndEnemyPickedUp(f, e) => Rgb {
            r: 0,
            g: from_square(e),
            b: from_square(f),
        },
        PickupState::Castling(_, rook) => {
            let (target, _) = castle_targets(position.turn, rook);
            Rgb { r: from_square(target), g: 0, b: from_square(target) }
        },
        PickupState::CastlingRookPending(_, _, t) => Rgb {
            r: from_square(t),
            g: 0,
            b: from_square(t),
        },
        PickupState::InvalidPickup(_, sq) => Rgb { r: from_square(sq), g: 0, b: 0 },
        PickupState::InvalidMove(_, sq) => Rgb { r: from_square(sq), g: 0, b: 0 },
        PickupState::Error => Rgb { r: 0xffff_ffff_ffff_ffffu64, g: 0, b: 0 },
    }
}

} // verus!
