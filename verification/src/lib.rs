//! Core of a two-player word-guessing game: the binary wire protocol shared by
//! client and server, the server's registries of players, games and
//! subscribers, the command dispatcher that enforces the game rules, and the
//! client-side session state machine.
use vstd::prelude::*;

pub mod client;
pub mod command;
pub mod dispatch;
pub mod packet;
pub mod state;
pub mod text;
pub mod wire;

verus! {

/// Failure taxonomy of the whole system. `Io` and `Serde` stand for failures
/// of the surrounding transport and serialization layers; the remaining
/// variants are produced by the protocol and dispatch logic itself.
#[derive(Clone, Copy, Debug, PartialEq, Eq, Structural)]
pub enum AppError {
    Io,
    Serde,
    InvalidCommand,
    InvalidAuth,
    TooLarge,
    InvalidConnection,
    Unauthorized,
}

pub type AppResult<T> = Result<T, AppError>;

} // verus!
