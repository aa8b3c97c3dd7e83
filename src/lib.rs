//! A chess rules engine: a bitboard position, pseudo-legal move generation,
//! attack detection, the legality filter and move application.

pub mod bits;
pub mod chess_piece;
pub mod chess_board;
pub mod chess_board_utils;
pub mod chess_move;
pub mod check_mate;
pub mod valid_moves;
pub mod fen;
pub mod game;
pub mod evaluation;
