//! Board-interaction state machine and move-to-motion translator of a
//! sensor-grid chessboard robot.
pub mod bitboard;
pub mod challenge;
pub mod chess;
pub mod commands;
pub mod engine;
pub mod fsm;
pub mod game;
pub mod kinematics;
pub mod led;
pub mod request;
pub mod text;
