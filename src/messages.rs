//! The messages exchanged with clients and the events of the internal bus.
use vstd::prelude::*;
use crate::error::GameError;
use crate::grid::Direction;
use crate::ids::{id_text, uuid_text};
use crate::state::GameState;
use crate::world::LobbyPlayer;

verus! {

/// What a client sends.
#[derive(Debug, Clone)]
pub enum ClientMessage {
    /// Join the lobby, or rename oneself.
    JoinLobby { player_name: String },
    /// The move for the coming tick.
    SubmitMove { direction: Direction },
    /// Start the game (controllers only).
    StartGame,
    /// Keep the connection alive.
    Ping,
}

/// What the server sends.
#[derive(Debug)]
pub enum ServerMessage {
    LobbyJoined { player_id: u128, player_name: String },
    LobbyState { players: Vec<LobbyPlayer> },
    GameStarted { game_state: GameState, your_snake_id: u128 },
    GameUpdate { game_state: GameState },
    MoveRequest { valid_directions: Vec<Direction>, time_limit_ms: u64 },
    GameEnded { winner: Option<LobbyPlayer>, final_state: GameState },
    Error { message: String },
    Pong,
}

/// Notifications published on the event bus.
#[derive(Debug, Clone, PartialEq, Eq)]
pub enum GameEvent {
    PlayerJoined(u128, String),
    PlayerLeft(u128),
    GameStarted,
    MovesSubmitted,
    GameTick,
    GameEnded(Option<u128>),
}

/// The human-readable text of an error.
pub open spec fn error_text(e: GameError) -> Seq<char> {
    match e {
        GameError::PlayerNotFound(id) => "Player not found: "@ + uuid_text(id),
        GameError::GameNotRunning => "Game not running"@,
        GameError::InvalidMove(s) => "Invalid move: "@ + s@,
        GameError::RoomFull => "Room full"@,
        GameError::NameTaken(s) => "Name already taken: "@ + s@,
        GameError::WebSocket(s) => "WebSocket error: "@ + s@,
        GameError::Serialization(s) => "Serialization error: "@ + s@,
        GameError::Internal(s) => "Internal error: "@ + s@,
    }
}

impl GameError {
    /// The human-readable text of this error.
    pub fn describe(&self) -> (r: String)
        ensures
            r@ == error_text(*self),
    {
        match self {
            GameError::PlayerNotFound(id) => {
                let text = id_text(*id);
                String::from_str("Player not found: ").concat(text.as_str())
            },
            GameError::GameNotRunning => String::from_str("Game not running"),
            GameError::InvalidMove(s) => String::from_str("Invalid move: ").concat(s.as_str()),
            GameError::RoomFull => String::from_str("Room full"),
            GameError::NameTaken(s) => String::from_str("Name already taken: ").concat(s.as_str()),
            GameError::WebSocket(s) => String::from_str("WebSocket error: ").concat(s.as_str()),
            GameError::Serialization(s) => String::from_str("Serialization error: ").concat(
                s.as_str(),
            ),
            GameError::Internal(s) => String::from_str("Internal error: ").concat(s.as_str()),
        }
    }
}

} // verus!
