//! A word-guessing game engine.
//!
//! A player submits guesses against a hidden target word and gets one
//! verdict per letter. The crate holds the rules for scoring a guess
//! (with repeated letters handled by a per-letter budget), the
//! playing/won/lost state machine, and the proofs that the rules are
//! applied the same way on every turn.
//!
//! Around the engine stands what a chat bot needs to run it for many
//! players: a player's session with the words played and won, the
//! commands of the bot, and the way a board is written out.

pub mod commands;
pub mod laws;
pub mod letter;
pub mod render;
pub mod scoring;
pub mod session;
pub mod summary;
pub mod text;
pub mod wordle;
pub mod words;

pub use crate::letter::Letter;
pub use crate::session::{Move, Session, StartError};
pub use crate::wordle::{Game, State, Wordle, WordleError};
