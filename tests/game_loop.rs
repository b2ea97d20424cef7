use flagfall::chess::{BoardSets, ChessMove, Color, PieceKind, Position};
use flagfall::fsm::PickupState;
use flagfall::game::{Game, OpponentMoveError, ScanOutcome, START_OCCUPANCY};
use flagfall::kinematics::Step;
use flagfall::led::Rgb;
use shakmaty::{fen::Fen, CastlingMode, Chess, EnPassantMode, Position as _};

fn from_fen(fen: &str) -> Position {
    let fen: Fen = fen.parse().unwrap();
    let chess: Chess = fen.into_position(CastlingMode::Standard).unwrap();
    let b = chess.board();
    let setup = chess.clone().into_setup(EnPassantMode::Always);
    Position {
        board: BoardSets {
            pawns: b.pawns().0,
            knights: b.knights().0,
            bishops: b.bishops().0,
            rooks: b.rooks().0,
            queens: b.queens().0,
            kings: b.kings().0,
            white: b.white().0,
            black: b.black().0,
        },
        turn: if chess.turn().is_white() { Color::White } else { Color::Black },
        castling_rights: setup.castling_rights.0,
        ep_square: setup.ep_square.map(|s| s as u8),
        halfmoves: setup.halfmoves,
        fullmoves: setup.fullmoves.get(),
    }
}

fn game_at(fen: &str, human: Color) -> Game {
    let position = from_fen(fen);
    Game {
        position,
        state: PickupState::Idle,
        last_scan: position.board.white | position.board.black,
        captured_whites: 0,
        captured_blacks: 0,
        human,
    }
}

#[test]
fn human_move_is_committed_and_sent_as_uci() {
    let mut g = Game::new(Color::White);
    assert!(g.humans_turn());
    assert!(!g.is_over());
    assert_eq!(g.on_scan(START_OCCUPANCY), ScanOutcome::Unchanged);
    let lifted = START_OCCUPANCY & !(1 << 12);
    assert_eq!(
        g.on_scan(lifted),
        ScanOutcome::Feedback(Rgb { r: 0, g: (1 << 20) | (1 << 28), b: 1 << 12 })
    );
    assert_eq!(g.state, PickupState::FriendlyPickedUp(12));
    let placed = lifted | (1 << 28);
    let mv = ChessMove::Normal { role: PieceKind::Pawn, from: 12, capture: None, to: 28, promotion: None };
    assert_eq!(g.on_scan(placed), ScanOutcome::Committed(Rgb { r: 0, g: 0, b: 0 }, mv, "e2e4".to_string()));
    assert_eq!(g.position.turn, Color::Black);
    assert_eq!(g.last_scan, placed);
    assert!(!g.humans_turn());
}

#[test]
fn opponent_move_gives_steps_and_new_baseline() {
    let mut g = Game::new(Color::Black);
    assert!(!g.humans_turn());
    let steps = g.on_opponent_move("e4").unwrap();
    assert_eq!(steps, vec![Step { x: 10, y: 4, magnet: false }, Step { x: 10, y: 8, magnet: true }]);
    assert_eq!(g.last_scan, START_OCCUPANCY & !(1 << 12) | (1 << 28));
    assert_eq!(g.position.turn, Color::Black);
    assert!(g.humans_turn());
}

#[test]
fn opponent_illegal_or_unreadable_move_is_refused() {
    let mut g = Game::new(Color::Black);
    let before = g;
    assert_eq!(g.on_opponent_move("e5"), Err(OpponentMoveError::IllegalMove));
    assert_eq!(g.on_opponent_move("not a move"), Err(OpponentMoveError::IllegalMove));
    assert_eq!(g, before);
}

#[test]
fn opponent_capture_counts_and_uses_graveyard() {
    let mut g = game_at("4k3/8/8/3p4/4P3/8/8/4K3 b - - 0 1", Color::White);
    let steps = g.on_opponent_move("dxe4").unwrap();
    assert_eq!(steps.len(), 7);
    assert_eq!(steps[0], Step { x: 10, y: 8, magnet: false });
    assert_eq!(steps[4], Step { x: 0, y: 1, magnet: true });
    assert_eq!(g.captured_whites, 1);
    assert_eq!(g.captured_blacks, 0);
}

#[test]
fn human_capture_counts_black_piece() {
    let mut g = game_at("4k3/8/8/3p4/4P3/8/8/4K3 w - - 0 1", Color::White);
    let occ = g.last_scan;
    g.on_scan(occ & !(1 << 28));
    g.on_scan(occ & !(1 << 28) & !(1 << 35));
    let out = g.on_scan(occ & !(1 << 28));
    match out {
        ScanOutcome::Committed(_, _, text) => assert_eq!(text, "e4d5"),
        other => panic!("unexpected {:?}", other),
    }
    assert_eq!(g.captured_blacks, 1);
    assert_eq!(g.captured_whites, 0);
}

#[test]
fn refused_completed_move_enters_error() {
    let mut g = game_at("4k3/8/8/8/8/8/P7/4K3 w - - 0 1", Color::White);
    let occ = g.last_scan;
    g.on_scan(occ & !(1 << 8));
    let out = g.on_scan(occ & !(1 << 8) | 1);
    let mv = ChessMove::Normal { role: PieceKind::Pawn, from: 8, capture: None, to: 0, promotion: Some(PieceKind::Queen) };
    assert_eq!(out, ScanOutcome::Refused(Rgb { r: 0, g: 0, b: 0 }, mv));
    assert_eq!(g.state, PickupState::Error);
    assert_eq!(g.position.turn, Color::White);
}

#[test]
fn promotion_is_sent_with_queen_letter() {
    let mut g = game_at("4k3/P7/8/8/8/8/8/4K3 w - - 0 1", Color::White);
    let occ = g.last_scan;
    g.on_scan(occ & !(1 << 48));
    match g.on_scan(occ & !(1 << 48) | (1 << 56)) {
        ScanOutcome::Committed(_, _, text) => assert_eq!(text, "a7a8q"),
        other => panic!("unexpected {:?}", other),
    }
}

#[test]
fn castle_is_sent_as_king_step() {
    let mut g = game_at("r3k2r/pppppppp/8/8/8/8/PPPPPPPP/R3K2R w KQkq - 0 1", Color::White);
    let occ = g.last_scan;
    let a = occ & !(1 << 4);
    g.on_scan(a);
    let b = a & !(1 << 7);
    g.on_scan(b);
    let c = b | (1 << 6);
    g.on_scan(c);
    match g.on_scan(c | (1 << 5)) {
        ScanOutcome::Committed(_, m, text) => {
            assert_eq!(m, ChessMove::Castle { king: 4, rook: 7 });
            assert_eq!(text, "e1g1");
        }
        other => panic!("unexpected {:?}", other),
    }
    assert_eq!(g.position.board.kings & 0xff, 1 << 6);
}

#[test]
fn checkmate_ends_the_game() {
    let g = game_at("rnb1kbnr/pppp1ppp/8/4p3/6Pq/5P2/PPPPP2P/RNBQKBNR w KQkq - 1 3", Color::White);
    assert!(g.is_over());
}
