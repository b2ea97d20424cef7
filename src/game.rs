//! The decisions of the game loop: what a sensor scan or an opponent's move
//! does to the game, and what is to be sent in reply. The loop itself, with
//! its waiting on the hardware and the opponent, runs outside the library.
use vstd::prelude::*;

use crate::bitboard::{get_changed_square_number, member};
use crate::chess::{ChessMove, Color, Position};
use crate::engine::{game_over, has_outcome, parse_san, play, played, san_move, uci_of, uci_text};
use crate::fsm::{next_state, update_state, PickupState};
use crate::kinematics::{move_to_steps, steps_for, Step};
use crate::led::{get_rgb, rgb_for, Rgb};

verus! {

/// The occupancy of the starting position.
pub const START_OCCUPANCY: u64 = 0xffff_0000_0000_ffff;

/// Everything the game loop keeps between two events.
#[derive(Clone, Copy, Debug, PartialEq, Eq, Structural)]
pub struct Game {
    pub position: Position,
    pub state: PickupState,
    /// The last sensor scan that changed something (after the opponent's
    /// move: the occupancy of the position).
    pub last_scan: u64,
    pub captured_whites: u32,
    pub captured_blacks: u32,
    /// The side the person at the board plays.
    pub human: Color,
}

/// What a sensor scan leads to.
#[derive(Clone, Debug, PartialEq, Eq)]
pub enum ScanOutcome {
    /// No square changed.
    Unchanged,
    /// The protocol moved on; show these highlights.
    Feedback(Rgb),
    /// A move was completed and played; show the highlights and send the
    /// move, in UCI notation, to the opponent.
    Committed(Rgb, ChessMove, String),
    /// A move was completed but the rules engine refused it; the protocol
    /// is now in `Error`.
    Refused(Rgb, ChessMove),
}

/// Why an opponent's move could not be applied.
#[derive(Clone, Copy, Debug, PartialEq, Eq, Structural)]
pub enum OpponentMoveError {
    /// The text does not name a legal move in the position.
    IllegalMove,
}

/// The lowest square of a set.
pub open spec fn lowest_member(b: u64) -> int {
    choose|i: int| member(b, i) && forall|j: int| 0 <= j < i ==> !member(b, j)
}

/// The capture counters after a capture that left `q` to move: the pieces
/// of the side to move in `q` were taken from.
pub open spec fn counts_after(g: Game, m: ChessMove, q: Position) -> (u32, u32) {
    if !m.is_capture_spec() {
        (g.captured_whites, g.captured_blacks)
    } else if q.turn == Color::Black {
        (g.captured_whites, if g.captured_blacks == u32::MAX { u32::MAX } else { (g.captured_blacks + 1) as u32 })
    } else {
        (if g.captured_whites == u32::MAX { u32::MAX } else { (g.captured_whites + 1) as u32 }, g.captured_blacks)
    }
}

impl Game {
    pub open spec fn wf(self) -> bool {
        self.position.wf() && self.state.fits(self.position)
    }

    /// A new game from the starting position, nothing lifted.
    pub fn new(human: Color) -> (r: Game)
        ensures
            r.wf(),
            r.position == Position::initial_spec(),
            r.state == PickupState::Idle,
            r.last_scan == START_OCCUPANCY,
            r.captured_whites == 0,
            r.captured_blacks == 0,
            r.human == human,
    {
        Game {
            position: Position::initial(),
            state: PickupState::Idle,
            last_scan: START_OCCUPANCY,
            captured_whites: 0,
            captured_blacks: 0,
            human,
        }
    }

    /// Whether the person at the board is to move.
    pub fn humans_turn(&self) -> (r: bool)
        ensures
            r == (self.position.turn == self.human),
    {
        self.position.turn == self.human
    }

    /// Whether the rules engine reports the game as ended.
    pub fn is_over(&self) -> (r: bool)
        requires
            self.wf(),
        ensures
            r == has_outcome(self.position),
    {
        game_over(&self.position)
    }

    fn count_capture(&mut self, m: &ChessMove, q: &Position)
        ensures
            (final(self).captured_whites, final(self).captured_blacks) == counts_after(*old(self), *m, *q),
            final(self).position == old(self).position,
            final(self).state == old(self).state,
            final(self).last_scan == old(self).last_scan,
            final(self).human == old(self).human,
    {
        if m.is_capture() {
            if q.turn == Color::Black {
                self.captured_blacks = self.captured_blacks.saturating_add(1);
            } else {
                self.captured_whites = self.captured_whites.saturating_add(1);
            }
        }
    }

    /// Takes a sensor scan on the person's turn. Only the lowest changed
    /// square is acted on: the scan is stored whole, so other squares that
    /// changed in the same scan are not acted on.
    pub fn on_scan(&mut self, scan: u64) -> (r: ScanOutcome)
        requires
            old(self).wf(),
        ensures
            final(self).wf(),
            final(self).human == old(self).human,
            old(self).last_scan == scan ==> r == ScanOutcome::Unchanged && *final(self) == *old(self),
            old(self).last_scan != scan ==> ({
                let g = *old(self);
                let sq = lowest_member(g.last_scan ^ scan);
                let (s, mv) = next_state(g.position, sq as u8, g.state);
                let led = rgb_for(g.position, s);
                &&& final(self).last_scan == scan
                &&& mv is None ==> r == ScanOutcome::Feedback(led) && final(self).state == s
                    && final(self).position == g.position
                    && final(self).captured_whites == g.captured_whites
                    && final(self).captured_blacks == g.captured_blacks
                &&& mv matches Some(m) ==> match played(g.position, m) {
                    Some(q) => {
                        &&& r matches ScanOutcome::Committed(l, m2, text) && l == led && m2 == m
                            && text@ == uci_of(m)
                        &&& final(self).position == q
                        &&& final(self).state == s
                        &&& (final(self).captured_whites, final(self).captured_blacks) == counts_after(g, m, q)
                    },
                    None => {
                        &&& r == ScanOutcome::Refused(led, m)
                        &&& final(self).position == g.position
                        &&& final(self).state == PickupState::Error
                        &&& final(self).captured_whites == g.captured_whites
                        &&& final(self).captured_blacks == g.captured_blacks
                    },
                }
            }),
    {
        let changed = get_changed_square_number(self.last_scan, scan);
        if changed.len() == 0 {
            proof {
                if old(self).last_scan != scan {
                    let d = old(self).last_scan ^ scan;
                    lemma_xor_zero(old(self).last_scan, scan);
                    let i = choose_member(d);
                    assert(changed@.contains(i as u32));
                }
            }
            return ScanOutcome::Unchanged;
        }
        let sq = changed[0];
        proof {
            let d = old(self).last_scan ^ scan;
            lemma_first_is_lowest(changed@, d);
            if old(self).last_scan == scan {
                lemma_xor_zero(old(self).last_scan, scan);
                assert(!member(0, sq as int)) by {
                    let t = sq as u64;
                    assert((0u64 >> t) & 1u64 != 1u64) by (bit_vector);
                }
            }
        }
        self.last_scan = scan;
        let (state, mv) = update_state(&self.position, sq, self.state);
        let led = get_rgb(&self.position, state);
        self.state = state;
        match mv {
            None => ScanOutcome::Feedback(led),
            Some(m) => match play(&self.position, &m) {
                Some(q) => {
                    let text = uci_text(&m);
                    self.count_capture(&m, &q);
                    self.position = q;
                    ScanOutcome::Committed(led, m, text)
                },
                None => {
                    self.state = PickupState::Error;
                    ScanOutcome::Refused(led, m)
                },
            },
        }
    }

    /// Applies the opponent's move, given in standard algebraic notation,
    /// and returns the gantry waypoints that carry it out. The stored scan
    /// becomes the occupancy of the new position, and the protocol waits
    /// in `Idle` for the person's move.
    pub fn on_opponent_move(&mut self, notation: &str) -> (r: Result<Vec<Step>, OpponentMoveError>)
        requires
            old(self).wf(),
        ensures
            final(self).wf(),
            final(self).human == old(self).human,
            san_move(old(self).position, notation@) is Some ==> final(self).state == PickupState::Idle,
            san_move(old(self).position, notation@) is None ==> r == Err::<Vec<Step>, OpponentMoveError>(
                OpponentMoveError::IllegalMove,
            ) && *final(self) == *old(self),
            san_move(old(self).position, notation@) matches Some(m) ==> ({
                let g = *old(self);
                let q = played(g.position, m).unwrap();
                &&& played(g.position, m).is_some()
                &&& final(self).position == q
                &&& final(self).last_scan == q.board.occupied_set()
                &&& r matches Ok(steps) && steps@ == steps_for(m, g.position.turn, g.captured_whites as int, g.captured_blacks as int)
                &&& (final(self).captured_whites, final(self).captured_blacks) == counts_after(g, m, q)
            }),
    {
        let m = match parse_san(&self.position, notation) {
            Some(m) => m,
            None => return Err(OpponentMoveError::IllegalMove),
        };
        let mover = self.position.turn;
        let q = match play(&self.position, &m) {
            Some(q) => q,
            None => return Err(OpponentMoveError::IllegalMove),
        };
        let steps = move_to_steps(m, mover, self.captured_whites, self.captured_blacks);
        self.count_capture(&m, &q);
        self.position = q;
        self.last_scan = q.board.occupied();
        self.state = PickupState::Idle;
        Ok(steps)
    }
}

proof fn lemma_xor_zero(a: u64, b: u64)
    ensures
        (a ^ b == 0) == (a == b),
{
    assert((a ^ b == 0) == (a == b)) by (bit_vector);
}

/// Some member of a non-empty set.
proof fn choose_member(d: u64) -> (i: int)
    requires
        d != 0,
    ensures
        0 <= i < 64,
        member(d, i),
{
    assert(
        (d >> 0u64) & 1u64 == 1u64 || (d >> 1u64) & 1u64 == 1u64 || (d >> 2u64) & 1u64 == 1u64 || (d >> 3u64) & 1u64 == 1u64 ||
        (d >> 4u64) & 1u64 == 1u64 || (d >> 5u64) & 1u64 == 1u64 || (d >> 6u64) & 1u64 == 1u64 || (d >> 7u64) & 1u64 == 1u64 ||
        (d >> 8u64) & 1u64 == 1u64 || (d >> 9u64) & 1u64 == 1u64 || (d >> 10u64) & 1u64 == 1u64 || (d >> 11u64) & 1u64 == 1u64 ||
        (d >> 12u64) & 1u64 == 1u64 || (d >> 13u64) & 1u64 == 1u64 || (d >> 14u64) & 1u64 == 1u64 || (d >> 15u64) & 1u64 == 1u64 ||
        (d >> 16u64) & 1u64 == 1u64 || (d >> 17u64) & 1u64 == 1u64 || (d >> 18u64) & 1u64 == 1u64 || (d >> 19u64) & 1u64 == 1u64 ||
        (d >> 20u64) & 1u64 == 1u64 || (d >> 21u64) & 1u64 == 1u64 || (d >> 22u64) & 1u64 == 1u64 || (d >> 23u64) & 1u64 == 1u64 ||
        (d >> 24u64) & 1u64 == 1u64 || (d >> 25u64) & 1u64 == 1u64 || (d >> 26u64) & 1u64 == 1u64 || (d >> 27u64) & 1u64 == 1u64 ||
        (d >> 28u64) & 1u64 == 1u64 || (d >> 29u64) & 1u64 == 1u64 || (d >> 30u64) & 1u64 == 1u64 || (d >> 31u64) & 1u64 == 1u64 ||
        (d >> 32u64) & 1u64 == 1u64 || (d >> 33u64) & 1u64 == 1u64 || (d >> 34u64) & 1u64 == 1u64 || (d >> 35u64) & 1u64 == 1u64 ||
        (d >> 36u64) & 1u64 == 1u64 || (d >> 37u64) & 1u64 == 1u64 || (d >> 38u64) & 1u64 == 1u64 || (d >> 39u64) & 1u64 == 1u64 ||
        (d >> 40u64) & 1u64 == 1u64 || (d >> 41u64) & 1u64 == 1u64 || (d >> 42u64) & 1u64 == 1u64 || (d >> 43u64) & 1u64 == 1u64 ||
        (d >> 44u64) & 1u64 == 1u64 || (d >> 45u64) & 1u64 == 1u64 || (d >> 46u64) & 1u64 == 1u64 || (d >> 47u64) & 1u64 == 1u64 ||
        (d >> 48u64) & 1u64 == 1u64 || (d >> 49u64) & 1u64 == 1u64 || (d >> 50u64) & 1u64 == 1u64 || (d >> 51u64) & 1u64 == 1u64 ||
        (d >> 52u64) & 1u64 == 1u64 || (d >> 53u64) & 1u64 == 1u64 || (d >> 54u64) & 1u64 == 1u64 || (d >> 55u64) & 1u64 == 1u64 ||
        (d >> 56u64) & 1u64 == 1u64 || (d >> 57u64) & 1u64 == 1u64 || (d >> 58u64) & 1u64 == 1u64 || (d >> 59u64) & 1u64 == 1u64 ||
        (d >> 60u64) & 1u64 == 1u64 || (d >> 61u64) & 1u64 == 1u64 || (d >> 62u64) & 1u64 == 1u64 || (d >> 63u64) & 1u64 == 1u64
    ) by (bit_vector)
        requires
            d != 0,
    ;
    assert(
        member(d, 0) || member(d, 1) || member(d, 2) || member(d, 3) || member(d, 4) || member(d, 5) || member(d, 6) || member(d, 7) ||
        member(d, 8) || member(d, 9) || member(d, 10) || member(d, 11) || member(d, 12) || member(d, 13) || member(d, 14) || member(d, 15) ||
        member(d, 16) || member(d, 17) || member(d, 18) || member(d, 19) || member(d, 20) || member(d, 21) || member(d, 22) || member(d, 23) ||
        member(d, 24) || member(d, 25) || member(d, 26) || member(d, 27) || member(d, 28) || member(d, 29) || member(d, 30) || member(d, 31) ||
        member(d, 32) || member(d, 33) || member(d, 34) || member(d, 35) || member(d, 36) || member(d, 37) || member(d, 38) || member(d, 39) ||
        member(d, 40) || member(d, 41) || member(d, 42) || member(d, 43) || member(d, 44) || member(d, 45) || member(d, 46) || member(d, 47) ||
        member(d, 48) || member(d, 49) || member(d, 50) || member(d, 51) || member(d, 52) || member(d, 53) || member(d, 54) || member(d, 55) ||
        member(d, 56) || member(d, 57) || member(d, 58) || member(d, 59) || member(d, 60) || member(d, 61) || member(d, 62) || member(d, 63)
    );
    choose|i: int| 0 <= i < 64 && member(d, i)
}

/// The first entry of an ascending list of a set's members is its lowest
/// member.
proof fn lemma_first_is_lowest(s: Seq<u32>, d: u64)
    requires
        crate::bitboard::lists_members(s, d),
        s.len() > 0,
    ensures
        lowest_member(d) == s[0] as int,
{
    let k = s[0] as int;
    assert(member(d, k));
    assert forall|j: int| 0 <= j < k implies !member(d, j) by {
        if member(d, j) {
            assert(s.contains(j as u32));
            let w = choose|w: int| 0 <= w < s.len() && s[w] == j as u32;
            if w > 0 {
                assert(s[0] < s[w]);
            }
        }
    }
    let c = lowest_member(d);
    assert(member(d, c) && forall|j: int| 0 <= j < c ==> !member(d, j));
    if c < k {
        assert(!member(d, c));
    }
    if k < c {
        assert(!member(d, k));
    }
}

} // verus!
