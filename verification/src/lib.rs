//! A client-side model of the Universal Chess Interface: the handshake that
//! brings an engine to its ready state, the analysis sessions that turn engine
//! lines into events, and the blunder check that compares two sessions.
//!
//! The library decides and computes; reading from and writing to the engine
//! process is left to the caller, which hands in lines and carries out the
//! commands handed back.

pub mod blunder;
pub mod board;
pub mod board_widget;
pub mod chess_utils;
pub mod codec;
pub mod handshake;
pub mod scan;
pub mod session;
pub mod uci;
