use flagfall::bitboard::get_changed_square_number;
use flagfall::chess::{ChessMove, Color, PieceKind};
use flagfall::commands::{rgb_to_str, steps_to_str};
use flagfall::kinematics::{capture_piece, move_to_steps, Step};
use flagfall::led::Rgb;

fn st(x: i64, y: i64, magnet: bool) -> Step {
    Step { x, y, magnet }
}

#[test]
fn diff_of_equal_boards_is_empty() {
    assert!(get_changed_square_number(0xffff_0000_0000_ffff, 0xffff_0000_0000_ffff).is_empty());
    assert!(get_changed_square_number(0, 0).is_empty());
}

#[test]
fn diff_lists_changed_squares_ascending() {
    assert_eq!(get_changed_square_number(0xffff_0000_0000_ffff, 0xffff_0000_0000_efff), vec![12]);
    assert_eq!(get_changed_square_number(0b1010, 0b0101), vec![0, 1, 2, 3]);
    assert_eq!(get_changed_square_number(0, 1 << 63 | 1), vec![0, 63]);
    let all = get_changed_square_number(0, u64::MAX);
    assert_eq!(all.len(), 64);
    assert!(all.windows(2).all(|w| w[0] < w[1]));
}

#[test]
fn knight_elbow_goes_along_the_rank_first() {
    let mv = ChessMove::Normal { role: PieceKind::Knight, from: 1, capture: None, to: 18, promotion: None };
    let steps = move_to_steps(mv, Color::White, 0, 0);
    assert_eq!(steps, vec![st(4, 2, false), st(5, 2, true), st(5, 6, true), st(6, 6, true)]);
}

#[test]
fn knight_elbow_goes_along_the_file_first() {
    let mv = ChessMove::Normal { role: PieceKind::Knight, from: 1, capture: None, to: 11, promotion: None };
    let steps = move_to_steps(mv, Color::White, 0, 0);
    assert_eq!(steps, vec![st(4, 2, false), st(4, 3, true), st(8, 3, true), st(8, 4, true)]);
}

#[test]
fn straight_slide_is_two_waypoints() {
    let mv = ChessMove::Normal { role: PieceKind::Pawn, from: 12, capture: None, to: 28, promotion: None };
    assert_eq!(move_to_steps(mv, Color::White, 0, 0), vec![st(10, 4, false), st(10, 8, true)]);
}

#[test]
fn graveyard_slot_follows_capture_count() {
    let mv = ChessMove::Normal {
        role: PieceKind::Knight,
        from: 45,
        capture: Some(PieceKind::Pawn),
        to: 28,
        promotion: None,
    };
    let three = move_to_steps(mv, Color::Black, 3, 0);
    let one = move_to_steps(mv, Color::Black, 1, 0);
    assert_eq!(&three[..5], &[st(10, 8, false), st(10, 7, true), st(1, 7, true), st(1, 4, true), st(0, 4, true)]);
    assert_eq!(one[4], st(0, 2, true));
    assert_ne!(three[4], one[4]);
    assert_eq!(three.last(), Some(&st(10, 8, true)));
}

#[test]
fn third_captured_white_piece_goes_to_row_two() {
    let mv = ChessMove::Normal {
        role: PieceKind::Queen,
        from: 59,
        capture: Some(PieceKind::Pawn),
        to: 11,
        promotion: None,
    };
    let steps = move_to_steps(mv, Color::Black, 3, 0);
    assert_eq!(
        steps,
        vec![
            st(8, 4, false),
            st(8, 3, true),
            st(1, 3, true),
            st(1, 4, true),
            st(0, 4, true),
            st(8, 16, false),
            st(8, 4, true)
        ]
    );
}

#[test]
fn white_graveyard_grows_upwards() {
    let steps = capture_piece(10, 10, Color::Black, 3, 0);
    assert_eq!(steps, vec![st(10, 10, false), st(10, 9, true), st(1, 9, true), st(1, 4, true), st(0, 4, true)]);
    let steps = capture_piece(10, 2, Color::Black, 5, 0);
    assert_eq!(steps[1], st(10, 3, true));
}

#[test]
fn black_graveyard_grows_upwards() {
    let steps = capture_piece(10, 10, Color::White, 0, 3);
    assert_eq!(steps, vec![st(10, 10, false), st(10, 9, true), st(17, 9, true), st(17, 4, true), st(18, 4, true)]);
    let steps = capture_piece(10, 2, Color::White, 0, 5);
    assert_eq!(steps[1], st(10, 3, true));
}

#[test]
fn en_passant_removes_pawn_behind_target() {
    let mv = ChessMove::EnPassant { from: 36, to: 43 };
    let steps = move_to_steps(mv, Color::White, 0, 0);
    assert_eq!(steps[0], st(8, 10, false));
    assert_eq!(steps[5], st(10, 10, false));
    assert_eq!(steps[6], st(8, 12, true));
    assert_eq!(steps.len(), 7);
}

#[test]
fn kingside_castle_choreography() {
    let mv = ChessMove::Castle { king: 4, rook: 7 };
    let steps = move_to_steps(mv, Color::White, 0, 0);
    assert_eq!(
        steps,
        vec![st(10, 2, false), st(14, 1, true), st(16, 2, false), st(12, 2, true), st(14, 1, false), st(14, 2, true)]
    );
}

#[test]
fn queenside_castle_choreography_for_black() {
    let mv = ChessMove::Castle { king: 60, rook: 56 };
    let steps = move_to_steps(mv, Color::Black, 0, 0);
    assert_eq!(
        steps,
        vec![st(10, 16, false), st(6, 17, true), st(2, 16, false), st(8, 16, true), st(6, 17, false), st(6, 16, true)]
    );
}

#[test]
fn waypoint_command_text() {
    let steps = vec![st(4, 2, false), st(5, 2, true), st(-1, 0, true)];
    assert_eq!(steps_to_str(&steps), "WRITE MAGNET 2 1 false 2.5 1 true -0.5 0 true");
    assert_eq!(steps_to_str(&vec![]), "WRITE MAGNET");
}

#[test]
fn led_command_text() {
    let text = rgb_to_str(Rgb { r: 1 << 63, g: 1 << 63 | 1, b: 1 });
    let words: Vec<&str> = text.split(' ').collect();
    assert_eq!(words.len(), 66);
    assert_eq!(words[0], "WRITE");
    assert_eq!(words[1], "LED");
    assert_eq!(words[2], "16753920");
    assert_eq!(words[3], "0");
    assert_eq!(words[65], "4251856");
    let text = rgb_to_str(Rgb { r: 1, g: 2, b: 4 | 8 | 16 | 32 | 64 });
    let words: Vec<&str> = text.split(' ').collect();
    assert_eq!(&words[59..66], &["255", "255", "255", "255", "255", "32768", "16711680"]);
}
