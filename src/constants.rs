//! Tunable parameters of the game.
use vstd::prelude::*;

verus! {

/// Default grid width in cells.
pub const GRID_WIDTH: i32 = 50;

/// Default grid height in cells.
pub const GRID_HEIGHT: i32 = 50;

/// A living snake of at least this length wins the game.
pub const WINNING_SNAKE_LENGTH: usize = 300;

/// Length of every snake when the game starts.
pub const INITIAL_SNAKE_LENGTH: usize = 1;

/// Ticks a fruit slot waits before it may place a fruit.
pub const FRUIT_SPAWN_DELAY_TICKS: u32 = 5;

/// Minimum visible duration of one tick.
pub const GAME_TICK_DURATION_MS: u64 = 200;

/// Port the server listens on.
pub const SERVER_PORT: u16 = 3000;

/// Most players a room admits.
pub const MAX_PLAYERS: usize = 8;

/// Fewest players with which a game may start.
pub const MIN_PLAYERS: usize = 2;

/// Largest accepted websocket frame, in bytes.
pub const MAX_FRAME_SIZE: usize = 16384;

/// Largest accepted websocket message, in bytes.
pub const MAX_MESSAGE_SIZE: usize = 16384;

/// Time a player has to submit a move before the tick goes ahead without it.
pub const MOVE_TIMEOUT_MS: u64 = 5000;

/// Interval at which the game loop checks for submitted moves.
pub const MOVE_POLL_INTERVAL_MS: u64 = 50;

/// Capacity of the event bus per subscriber.
pub const EVENT_BUFFER: usize = 1000;

} // verus!
