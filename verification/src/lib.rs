//! Core of a small turn-based production game: a command vocabulary, line
//! normalization and number parsing, and the resource state machine that the
//! five command handlers drive.
//!
//! The surrounding binary only reads lines, prints reports, and paces the
//! production ticks; every decision and every state change is made here.

pub mod command;
pub mod game;
pub mod text;
