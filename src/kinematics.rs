//! Gantry waypoints for a committed move. Coordinates are counted in half
//! board units: a square on file `f` and rank `r` (1-based) sits at
//! `(2 f, 2 r)`, and the graveyard columns lie at 0, 1 (captured white
//! pieces) and 17, 18 (captured black pieces).
use vstd::prelude::*;

use crate::chess::{file, file_of, rank, rank_of, ChessMove, Color, PieceKind, SquareIndex};

verus! {

/// One gantry waypoint; `x` and `y` are twice the board coordinate, and the
/// magnet holds a piece while travelling to it when `magnet` is set.
#[derive(Clone, Copy, Debug, PartialEq, Eq, Hash, Structural)]
pub struct Step {
    pub x: i64,
    pub y: i64,
    pub magnet: bool,
}

pub open spec fn step(x: int, y: int, magnet: bool) -> Step {
    Step { x: x as i64, y: y as i64, magnet }
}

/// Twice the 1-based file coordinate of a square.
pub open spec fn x_of(sq: int) -> int {
    2 * (file_of(sq) + 1)
}

/// Twice the 1-based rank coordinate of a square.
pub open spec fn y_of(sq: int) -> int {
    2 * (rank_of(sq) + 1)
}

/// The waypoints that take a captured piece standing at `(x, y)` to its
/// graveyard slot. `mover` is the side that captures.
pub open spec fn removal_steps(x: int, y: int, mover: Color, captured_white: int, captured_black: int) -> Seq<Step> {
    match mover {
        Color::White => {
            let dy = if captured_black < y { -1int } else { 1int };
            let slot = 1 + captured_black;
            seq![
                step(x, y, false),
                step(x, y + dy, true),
                step(17, y + dy, true),
                step(17, slot, true),
                step(18, slot, true),
            ]
        },
        Color::Black => {
            let dy = if captured_white < y { -1int } else { 1int };
            let slot = 1 + captured_white;
            seq![
                step(x, y, false),
                step(x, y + dy, true),
                step(1, y + dy, true),
                step(1, slot, true),
                step(0, slot, true),
            ]
        },
    }
}

/// The kind of the moving piece.
pub open spec fn mover_role(m: ChessMove) -> PieceKind {
    match m {
        ChessMove::Normal { role, .. } => role,
        ChessMove::EnPassant { .. } => PieceKind::Pawn,
        ChessMove::Castle { .. } => PieceKind::King,
    }
}

/// The slide of the moving piece: a straight run, or for a knight an elbow
/// along the rank first (when it crosses more than one rank) or along the
/// file first.
pub open spec fn slide_steps(m: ChessMove) -> Seq<Step> {
    let (fx, fy) = (x_of(m.origin()), y_of(m.origin()));
    let (tx, ty) = (x_of(m.target()), y_of(m.target()));
    if mover_role(m) == PieceKind::Knight {
        if fy - ty > 2 || ty - fy > 2 {
            seq![
                step(fx, fy, false),
                step((fx + tx) / 2, fy, true),
                step((fx + tx) / 2, ty, true),
                step(tx, ty, true),
            ]
        } else {
            seq![
                step(fx, fy, false),
                step(fx, (fy + ty) / 2, true),
                step(tx, (fy + ty) / 2, true),
                step(tx, ty, true),
            ]
        }
    } else {
        seq![step(fx, fy, false), step(tx, ty, true)]
    }
}

/// The castling choreography. The king is lifted half a rank off the board
/// edge, onto its destination file, so that the rook can slide along the
/// rank to its square; the king is then set down on its destination square.
/// The king lands on the g-file for a castle with the rook on its right
/// (a higher square), on the c-file otherwise; the rook on the f- or d-file.
pub open spec fn castle_steps(m: ChessMove, mover: Color) -> Seq<Step> {
    let (fx, fy) = (x_of(m.origin()), y_of(m.origin()));
    let (tx, ty) = (x_of(m.target()), y_of(m.target()));
    let dy = if mover == Color::White { -1int } else { 1int };
    let kingside = m.target() > m.origin();
    let king_x = if kingside { 14int } else { 6int };
    let rook_x = if kingside { 12int } else { 8int };
    seq![
        step(fx, fy, false),
        step(king_x, fy + dy, true),
        step(tx, ty, false),
        step(rook_x, ty, true),
        step(king_x, fy + dy, false),
        step(king_x, fy, true),
    ]
}

/// All waypoints of a move by `mover`, with the graveyard counts before the
/// move.
pub open spec fn steps_for(m: ChessMove, mover: Color, captured_white: int, captured_black: int) -> Seq<Step> {
    let (tx, ty) = (x_of(m.target()), y_of(m.target()));
    match m {
        ChessMove::Castle { .. } => castle_steps(m, mover),
        ChessMove::EnPassant { .. } => {
            let behind = if mover == Color::White { -2int } else { 2int };
            removal_steps(tx, ty + behind, mover, captured_white, captured_black) + slide_steps(m)
        },
        ChessMove::Normal { capture, .. } => {
            if capture.is_some() {
                removal_steps(tx, ty, mover, captured_white, captured_black) + slide_steps(m)
            } else {
                slide_steps(m)
            }
        },
    }
}

/// The square a castling king lands on: the g-file square of its rank when
/// the rook stands on a higher square, the c-file square otherwise.
pub open spec fn king_landing_square(m: ChessMove) -> int {
    8 * rank_of(m.origin()) + if m.target() > m.origin() { 6int } else { 2int }
}

/// Every move gives waypoints. Apart from castling, the last one sets the
/// moving piece down on its destination, and a move that takes nothing
/// starts by placing the released magnet under the moving piece. A castle
/// starts with the released magnet under the king and ends by setting the
/// king down on its destination square.
pub proof fn lemma_steps_start_and_end(m: ChessMove, mover: Color, captured_white: int, captured_black: int)
    requires
        m.squares_in_range(),
    ensures
        steps_for(m, mover, captured_white, captured_black).len() > 0,
        !(m is Castle) ==> steps_for(m, mover, captured_white, captured_black).last() == step(
            x_of(m.target()),
            y_of(m.target()),
            true,
        ),
        !(m is Castle) && !m.is_capture_spec() ==> steps_for(m, mover, captured_white, captured_black)[0]
            == step(x_of(m.origin()), y_of(m.origin()), false),
        m is Castle ==> steps_for(m, mover, captured_white, captured_black)[0] == step(
            x_of(m.origin()),
            y_of(m.origin()),
            false,
        ),
        m is Castle ==> steps_for(m, mover, captured_white, captured_black).last() == step(
            x_of(king_landing_square(m)),
            y_of(king_landing_square(m)),
            true,
        ),
{
    let s = steps_for(m, mover, captured_white, captured_black);
    let slide = slide_steps(m);
    if !(m is Castle) {
        assert(slide.last() == step(x_of(m.target()), y_of(m.target()), true));
        if m.is_capture_spec() {
            let tx = x_of(m.target());
            let ty = y_of(m.target());
            let behind = if mover == Color::White { -2int } else { 2int };
            let removal = if m is EnPassant {
                removal_steps(tx, ty + behind, mover, captured_white, captured_black)
            } else {
                removal_steps(tx, ty, mover, captured_white, captured_black)
            };
            assert(s == removal + slide);
            assert(s.last() == slide.last());
        }
    }
}

/// Twice the 1-based file coordinate of a square.
fn file_to_coord(sq: SquareIndex) -> (r: i64)
    requires
        sq < 64,
    ensures
        r == x_of(sq as int),
{
    2 * (file(sq) as i64 + 1)
}

/// Twice the 1-based rank coordinate of a square.
fn rank_to_coord(sq: SquareIndex) -> (r: i64)
    requires
        sq < 64,
    ensures
        r == y_of(sq as int),
{
    2 * (rank(sq) as i64 + 1)
}

/// The waypoints that carry the piece captured at `(from_x, from_y)` to the
/// graveyard of its side; `current_color` is the side that captures.
pub fn capture_piece(
    from_x: i64,
    from_y: i64,
    current_color: Color,
    captured_whites: u32,
    captured_blacks: u32,
) -> (r: Vec<Step>)
    requires
        i64::MIN < from_y < i64::MAX,
    ensures
        r@ == removal_steps(
            from_x as int,
            from_y as int,
            current_color,
            captured_whites as int,
            captured_blacks as int,
        ),
{
    let mut steps: Vec<Step> = Vec::new();
    steps.push(Step { x: from_x, y: from_y, magnet: false });
    match current_color {
        Color::White => {
            let dy: i64 = if (captured_blacks as i64) < from_y { -1 } else { 1 };
            let slot: i64 = 1 + captured_blacks as i64;
            steps.push(Step { x: from_x, y: from_y + dy, magnet: true });
            steps.push(Step { x: 17, y: from_y + dy, magnet: true });
            steps.push(Step { x: 17, y: slot, magnet: true });
            steps.push(Step { x: 18, y: slot, magnet: true });
        },
        Color::Black => {
            let dy: i64 = if (captured_whites as i64) < from_y { -1 } else { 1 };
            let slot: i64 = 1 + captured_whites as i64;
            steps.push(Step { x: from_x, y: from_y + dy, magnet: true });
            steps.push(Step { x: 1, y: from_y + dy, magnet: true });
            steps.push(Step { x: 1, y: slot, magnet: true });
            steps.push(Step { x: 0, y: slot, magnet: true });
        },
    }
    assert(steps@ =~= removal_steps(
        from_x as int,
        from_y as int,
        current_color,
        captured_whites as int,
        captured_blacks as int,
    ));
    steps
}

/// The gantry waypoints that carry out `mv`, played by `current_color`;
/// `captured_whites` and `captured_blacks` count the pieces already in each
/// graveyard.
pub fn move_to_steps(mv: ChessMove, current_color: Color, captured_whites: u32, captured_blacks: u32) -> (r: Vec<Step>)
    requires
        mv.squares_in_range(),
    ensures
        r@ == steps_for(mv, current_color, captured_whites as int, captured_blacks as int),
{
    let (from, to, role): (SquareIndex, SquareIndex, PieceKind) = match mv {
        ChessMove::Normal { role, from, to, .. } => (from, to, role),
        ChessMove::EnPassant { from, to } => (from, to, PieceKind::Pawn),
        ChessMove::Castle { king, rook } => (king, rook, PieceKind::King),
    };
    let from_x = file_to_coord(from);
    let from_y = rank_to_coord(from);
    let to_x = file_to_coord(to);
    let to_y = rank_to_coord(to);
    if let ChessMove::Castle { .. } = mv {
        let dy: i64 = if current_color == Color::White { -1 } else { 1 };
        let kingside = to > from;
        let king_x: i64 = if kingside { 14 } else { 6 };
        let rook_x: i64 = if kingside { 12 } else { 8 };
        let mut steps: Vec<Step> = Vec::new();
        steps.push(Step { x: from_x, y: from_y, magnet: false });
        steps.push(Step { x: king_x, y: from_y + dy, magnet: true });
        steps.push(Step { x: to_x, y: to_y, magnet: false });
        steps.push(Step { x: rook_x, y: to_y, magnet: true });
        steps.push(Step { x: king_x, y: from_y + dy, magnet: false });
        steps.push(Step { x: king_x, y: from_y, magnet: true });
        assert(steps@ =~= castle_steps(mv, current_color));
        return steps;
    }
    let mut steps: Vec<Step> = match mv {
        ChessMove::EnPassant { .. } => {
            let behind: i64 = if current_color == Color::White { -2 } else { 2 };
            capture_piece(to_x, to_y + behind, current_color, captured_whites, captured_blacks)
        },
        _ => {
            if mv.is_capture() {
                capture_piece(to_x, to_y, current_color, captured_whites, captured_blacks)
            } else {
                Vec::new()
            }
        },
    };
    let ghost removal = steps@;
    steps.push(Step { x: from_x, y: from_y, magnet: false });
    if role == PieceKind::Knight {
        if from_y - to_y > 2 || to_y - from_y > 2 {
            let mid_x = (from_x + to_x) / 2;
            steps.push(Step { x: mid_x, y: from_y, magnet: true });
            steps.push(Step { x: mid_x, y: to_y, magnet: true });
        } else {
            let mid_y = (from_y + to_y) / 2;
            steps.push(Step { x: from_x, y: mid_y, magnet: true });
            steps.push(Step { x: to_x, y: mid_y, magnet: true });
        }
    }
    steps.push(Step { x: to_x, y: to_y, magnet: true });
    assert(steps@ =~= removal + slide_steps(mv));
    steps
}

} // verus!
