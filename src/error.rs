//! The errors of the game.
use vstd::prelude::*;

verus! {

/// What can go wrong while running a room and its game.
#[derive(Debug, Clone, PartialEq, Eq)]
pub enum GameError {
    /// A message named a player that is not in the room.
    PlayerNotFound(u128),
    /// A move or a tick arrived while no game runs.
    GameNotRunning,
    /// A malformed message, or one the sender's role may not send.
    InvalidMove(String),
    /// The room already holds the most players it admits.
    RoomFull,
    /// Another player already uses this name.
    NameTaken(String),
    /// The connection failed.
    WebSocket(String),
    /// An inbound frame did not decode.
    Serialization(String),
    /// The engine could not keep its invariants, such as finding a free cell.
    Internal(String),
}

} // verus!
