use flagfall::chess::{BoardSets, ChessMove, Color, PieceKind, Position};
use flagfall::fsm::{update_state, PickupState};
use flagfall::led::{get_rgb, Rgb};
use shakmaty::{fen::Fen, CastlingMode, Chess, EnPassantMode, Position as _};

fn position_from_fen(fen: &str) -> Position {
    let fen: Fen = fen.parse().unwrap();
    let chess: Chess = fen.into_position(CastlingMode::Standard).unwrap();
    let b = chess.board();
    let setup = chess.clone().into_setup(EnPassantMode::Always);
    Position {
        board: BoardSets {
            pawns: b.pawns().0,
            knights: b.knights().0,
            bishops: b.bishops().0,
            rooks: b.rooks().0,
            queens: b.queens().0,
            kings: b.kings().0,
            white: b.white().0,
            black: b.black().0,
        },
        turn: if chess.turn().is_white() { Color::White } else { Color::Black },
        castling_rights: setup.castling_rights.0,
        ep_square: setup.ep_square.map(|s| s as u8),
        halfmoves: setup.halfmoves,
        fullmoves: setup.fullmoves.get(),
    }
}

const E1: u32 = 4;
const F1: u32 = 5;
const G1: u32 = 6;
const H1: u32 = 7;
const E2: u32 = 12;
const E4: u32 = 28;
const A7: u32 = 48;
const A8: u32 = 56;

#[test]
fn idle_lifting_friendly_pawn_picks_it_up() {
    let p = Position::initial();
    let (s, m) = update_state(&p, E2, PickupState::Idle);
    assert_eq!(s, PickupState::FriendlyPickedUp(12));
    assert_eq!(m, None);
}

#[test]
fn pawn_double_step_completes_move() {
    let p = Position::initial();
    let (s, m) = update_state(&p, E4, PickupState::FriendlyPickedUp(12));
    assert_eq!(s, PickupState::Idle);
    assert_eq!(
        m,
        Some(ChessMove::Normal { role: PieceKind::Pawn, from: 12, capture: None, to: 28, promotion: None })
    );
}

#[test]
fn castling_king_then_rook_sequence() {
    let p = position_from_fen("r3k2r/pppppppp/8/8/8/8/PPPPPPPP/R3K2R w KQkq - 0 1");
    let (s, m) = update_state(&p, H1, PickupState::FriendlyPickedUp(4));
    assert_eq!(s, PickupState::Castling(4, 7));
    assert_eq!(m, None);
    let (s, m) = update_state(&p, G1, s);
    assert_eq!(s, PickupState::CastlingRookPending(4, 7, 5));
    assert_eq!(m, None);
    let (s, m) = update_state(&p, F1, s);
    assert_eq!(s, PickupState::Idle);
    assert_eq!(m, Some(ChessMove::Castle { king: 4, rook: 7 }));
}

#[test]
fn castling_without_rights_is_an_invalid_pickup() {
    let p = position_from_fen("r3k2r/pppppppp/8/8/8/8/PPPPPPPP/R3K2R w - - 0 1");
    let (s, m) = update_state(&p, H1, PickupState::FriendlyPickedUp(4));
    assert_eq!(s, PickupState::InvalidPickup(Some(4), 7));
    assert_eq!(m, None);
    let (s, _) = update_state(&p, H1, s);
    assert_eq!(s, PickupState::FriendlyPickedUp(4));
}

#[test]
fn pawn_to_last_rank_promotes_to_queen() {
    let p = position_from_fen("4k3/P7/8/8/8/8/8/4K3 w - - 0 1");
    let (s, m) = update_state(&p, A8, PickupState::FriendlyPickedUp(48));
    assert_eq!(s, PickupState::Idle);
    assert_eq!(
        m,
        Some(ChessMove::Normal {
            role: PieceKind::Pawn,
            from: 48,
            capture: None,
            to: 56,
            promotion: Some(PieceKind::Queen)
        })
    );
    let _ = A7;
}

#[test]
fn touching_the_same_square_twice_cancels() {
    let p = Position::initial();
    let (s, m) = update_state(&p, E2, PickupState::Idle);
    let (s, m2) = update_state(&p, E2, s);
    assert_eq!(s, PickupState::Idle);
    assert_eq!(m, None);
    assert_eq!(m2, None);
    let q = position_from_fen("4k3/8/8/3p4/4P3/8/8/4K3 w - - 0 1");
    let (s, _) = update_state(&q, 35, PickupState::Idle);
    assert_eq!(s, PickupState::EnemyPickedUp(35));
    let (s, m) = update_state(&q, 35, s);
    assert_eq!(s, PickupState::Idle);
    assert_eq!(m, None);
}

#[test]
fn capture_sequence_emits_capture() {
    let q = position_from_fen("4k3/8/8/3p4/4P3/8/8/4K3 w - - 0 1");
    let (s, _) = update_state(&q, 28, PickupState::Idle);
    assert_eq!(s, PickupState::FriendlyPickedUp(28));
    let (s, m) = update_state(&q, 35, s);
    assert_eq!(s, PickupState::FriendlyAndEnemyPickedUp(28, 35));
    assert_eq!(m, None);
    let (s, m) = update_state(&q, 35, s);
    assert_eq!(s, PickupState::Idle);
    assert_eq!(
        m,
        Some(ChessMove::Normal {
            role: PieceKind::Pawn,
            from: 28,
            capture: Some(PieceKind::Pawn),
            to: 35,
            promotion: None
        })
    );
}

#[test]
fn enemy_first_then_attacker() {
    let q = position_from_fen("4k3/8/8/3p4/4P3/8/8/4K3 w - - 0 1");
    let (s, _) = update_state(&q, 35, PickupState::Idle);
    let (s, _) = update_state(&q, 28, s);
    assert_eq!(s, PickupState::FriendlyAndEnemyPickedUp(28, 35));
    let (s, _) = update_state(&q, 28, s);
    assert_eq!(s, PickupState::EnemyPickedUp(35));
}

#[test]
fn enemy_without_attacker_is_invalid() {
    let p = Position::initial();
    let (s, m) = update_state(&p, 52, PickupState::Idle);
    assert_eq!(s, PickupState::InvalidPickup(None, 52));
    assert_eq!(m, None);
    let (s, _) = update_state(&p, 52, s);
    assert_eq!(s, PickupState::Idle);
}

#[test]
fn empty_square_from_idle_is_error_and_error_stays() {
    let p = Position::initial();
    let (s, m) = update_state(&p, E4, PickupState::Idle);
    assert_eq!(s, PickupState::Error);
    assert_eq!(m, None);
    let (s, m) = update_state(&p, E2, s);
    assert_eq!(s, PickupState::Error);
    assert_eq!(m, None);
}

#[test]
fn illegal_slide_is_invalid_move_and_undo() {
    let p = Position::initial();
    let (s, m) = update_state(&p, 36, PickupState::FriendlyPickedUp(12));
    assert_eq!(s, PickupState::InvalidMove(12, 36));
    assert_eq!(m, None);
    let (s, _) = update_state(&p, 36, s);
    assert_eq!(s, PickupState::FriendlyPickedUp(12));
    let (s, _) = update_state(&p, 20, PickupState::InvalidMove(12, 36));
    assert_eq!(s, PickupState::Error);
}

#[test]
fn lifting_friendly_onto_friendly_is_invalid_pickup() {
    let p = Position::initial();
    let (s, _) = update_state(&p, 13, PickupState::FriendlyPickedUp(12));
    assert_eq!(s, PickupState::InvalidPickup(Some(12), 13));
    let (s, _) = update_state(&p, 13, s);
    assert_eq!(s, PickupState::FriendlyPickedUp(12));
}

#[test]
fn led_idle_and_error() {
    let p = Position::initial();
    assert_eq!(get_rgb(&p, PickupState::Idle), Rgb { r: 0, g: 0, b: 0 });
    assert_eq!(get_rgb(&p, PickupState::Error), Rgb { r: u64::MAX, g: 0, b: 0 });
    assert_eq!(get_rgb(&p, PickupState::InvalidMove(12, 36)), Rgb { r: 1 << 36, g: 0, b: 0 });
}

#[test]
fn led_pawn_pushes_and_knight_moves() {
    let p = Position::initial();
    let rgb = get_rgb(&p, PickupState::FriendlyPickedUp(12));
    assert_eq!(rgb, Rgb { r: 0, g: (1 << 20) | (1 << 28), b: 1 << 12 });
    let rgb = get_rgb(&p, PickupState::FriendlyPickedUp(1));
    assert_eq!(rgb, Rgb { r: 0, g: (1 << 16) | (1 << 18), b: 1 << 1 });
}

#[test]
fn led_enemy_shows_attackers() {
    let q = position_from_fen("4k3/8/8/3p4/4P3/8/8/4K3 w - - 0 1");
    let rgb = get_rgb(&q, PickupState::EnemyPickedUp(35));
    assert_eq!(rgb, Rgb { r: 0, g: 1 << 28, b: 1 << 35 });
    let rgb = get_rgb(&q, PickupState::FriendlyPickedUp(28));
    assert_eq!(rgb, Rgb { r: 1 << 35, g: (1 << 35) | (1 << 36), b: 1 << 28 });
}

#[test]
fn led_promotion_swaps_channels() {
    let p = position_from_fen("4k3/P7/8/8/8/8/8/4K3 w - - 0 1");
    let rgb = get_rgb(&p, PickupState::FriendlyPickedUp(48));
    assert_eq!(rgb, Rgb { r: 1 << 56, g: 0, b: 1 << 56 });
}

#[test]
fn led_castling_marks_landing_square() {
    let p = position_from_fen("r3k2r/pppppppp/8/8/8/8/PPPPPPPP/R3K2R w KQkq - 0 1");
    assert_eq!(get_rgb(&p, PickupState::Castling(4, 7)), Rgb { r: 1 << 6, g: 0, b: 1 << 6 });
    assert_eq!(get_rgb(&p, PickupState::Castling(4, 0)), Rgb { r: 1 << 2, g: 0, b: 1 << 2 });
    assert_eq!(get_rgb(&p, PickupState::CastlingRookPending(4, 7, 5)), Rgb { r: 1 << 5, g: 0, b: 1 << 5 });
}
