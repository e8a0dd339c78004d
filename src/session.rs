//! The decisions of player and controller sessions and of the game loop.
//! Each one takes the message, event or measurement that arrived and
//! returns what to send or do; the caller owns the connections and clocks.
use vstd::prelude::*;
use crate::constants::{GAME_TICK_DURATION_MS, MAX_PLAYERS, MIN_PLAYERS, MOVE_TIMEOUT_MS};
use crate::error::GameError;
use crate::game::{GameEngine, initial_world, placement_ok, snake_with_id, tick_outcome};
use crate::grid::{Direction, Position};
use crate::messages::{ClientMessage, GameEvent, ServerMessage, error_text};
use crate::room::{GameRoom, entry_index, joined, name_taken, roster};
use crate::world::valid_dirs;

verus! {

/// What a player session does after one inbound message.
pub struct PlayerReply {
    /// A message for this session only.
    pub reply: Option<ServerMessage>,
    /// Whether every session should get the new lobby state.
    pub broadcast_lobby: bool,
}

/// What a controller session does after one inbound message.
pub struct GuiReply {
    /// A message for this session only.
    pub reply: Option<ServerMessage>,
    /// Whether the engine was started and `GameStarted` is to be published.
    pub game_started: bool,
}

/// The next step of the game loop while it waits for moves.
#[derive(Debug, Clone, Copy, PartialEq, Eq, Structural)]
pub enum LoopStep {
    /// Poll again after the poll interval.
    Wait,
    /// Take the pending moves and advance the tick.
    Collect,
}

/// The text sent to a session whose `JoinLobby` was refused.
pub open spec fn join_refusal(e: GameError) -> Seq<char> {
    "Error: "@ + error_text(e)
}

/// A reply that is an `Error` message with text `text`.
pub open spec fn is_error_reply(reply: Option<ServerMessage>, text: Seq<char>) -> bool {
    reply matches Some(ServerMessage::Error { message }) && message@ == text
}

/// The `Error` message sent for a failure while handling a message.
pub fn error_reply(e: &GameError) -> (r: ServerMessage)
    ensures
        r matches ServerMessage::Error { message } && message@ == "Error processing message: "@
            + error_text(*e),
{
    let text = e.describe();
    let message = String::from_str("Error processing message: ").concat(text.as_str());
    ServerMessage::Error { message }
}

/// Handles one message of player `player_id`: joining or renaming, a move
/// for the coming tick, or a ping. Anything else is refused.
pub fn handle_player_message(room: &mut GameRoom, player_id: u128, message: ClientMessage) -> (r:
    Result<PlayerReply, GameError>)
    requires
        old(room).wf(),
    ensures
        final(room).wf(),
        match message {
            ClientMessage::JoinLobby { player_name } => r matches Ok(rep) && rep.broadcast_lobby
                && final(room).pending_moves@ == old(room).pending_moves@ && if old(room).players@.len()
                >= MAX_PLAYERS && entry_index(roster(old(room).players@), player_id) is None {
                is_error_reply(rep.reply, join_refusal(GameError::RoomFull)) && final(room).players@
                    == old(room).players@
            } else if name_taken(roster(old(room).players@), player_id, player_name@) {
                is_error_reply(rep.reply, join_refusal(GameError::NameTaken(player_name)))
                    && final(room).players@ == old(room).players@
            } else {
                rep.reply is None && roster(final(room).players@) == joined(
                    roster(old(room).players@),
                    player_id,
                    player_name@,
                )
            },
            ClientMessage::SubmitMove { direction } => r matches Ok(rep) && rep.reply is None
                && !rep.broadcast_lobby && final(room).players == old(room).players
                && final(room).pending_moves@ == old(room).pending_moves@.insert(player_id, direction),
            ClientMessage::Ping => r matches Ok(rep) && (rep.reply matches Some(ServerMessage::Pong))
                && !rep.broadcast_lobby && *final(room) == *old(room),
            ClientMessage::StartGame => (r matches Err(GameError::InvalidMove(s)) && s@
                == "Invalid message type for player: StartGame"@) && *final(room) == *old(room),
        },
{
    match message {
        ClientMessage::JoinLobby { player_name } => {
            let reply = match room.add_player(player_id, player_name) {
                Ok(_) => None,
                Err(e) => {
                    let text = e.describe();
                    Some(ServerMessage::Error { message: String::from_str("Error: ").concat(text.as_str()) })
                },
            };
            Ok(PlayerReply { reply, broadcast_lobby: true })
        },
        ClientMessage::SubmitMove { direction } => {
            room.record_move(player_id, direction);
            Ok(PlayerReply { reply: None, broadcast_lobby: false })
        },
        ClientMessage::Ping => Ok(PlayerReply { reply: Some(ServerMessage::Pong), broadcast_lobby: false }),
        ClientMessage::StartGame => Err(
            GameError::InvalidMove(String::from_str("Invalid message type for player: StartGame")),
        ),
    }
}

/// The message a controller gets when it tries to start too early.
pub open spec fn too_few_players_text() -> Seq<char> {
    "Need at least 2 players to start"@
}

/// Handles one message of a controller: `StartGame` starts the engine from
/// the room's players when enough joined; `JoinLobby` is refused with an
/// `Error` reply; anything else fails.
pub fn handle_gui_message(room: &GameRoom, engine: &mut GameEngine, message: ClientMessage) -> (r:
    Result<GuiReply, GameError>)
    requires
        room.wf(),
        old(engine).wf(),
    ensures
        final(engine).wf(),
        match message {
            ClientMessage::StartGame => if room.players@.len() >= MIN_PLAYERS {
                match r {
                    Ok(rep) => rep.game_started && rep.reply is None && final(engine).state@.running
                        && exists|cells: Seq<Position>|
                        placement_ok(
                            cells,
                            room.players@.len() as int,
                            old(engine).state@.width,
                            old(engine).state@.height,
                        ) && final(engine).state@ == #[trigger] initial_world(
                            room.players@,
                            cells,
                            old(engine).state@.width,
                            old(engine).state@.height,
                        ),
                    Err(e) => e is Internal && final(engine).state@ == old(engine).state@,
                }
            } else {
                r matches Ok(rep) && !rep.game_started && is_error_reply(rep.reply, too_few_players_text())
                    && final(engine).state@ == old(engine).state@
            },
            ClientMessage::JoinLobby { .. } => r matches Ok(rep) && !rep.game_started
                && is_error_reply(rep.reply, "Controllers cannot join the lobby"@)
                && final(engine).state@ == old(engine).state@,
            _ => (r matches Err(GameError::InvalidMove(s)) && s@ == "Invalid message type for GUI"@)
                && final(engine).state@ == old(engine).state@,
        },
{
    match message {
        ClientMessage::StartGame => {
            if room.can_start_game() {
                proof {
                    assert forall|i: int, j: int|
                        0 <= i < room.players@.len() && 0 <= j < room.players@.len() && i != j
                            implies (#[trigger] room.players@[i]).id != (#[trigger] room.players@[j]).id by {
                        assert(roster(room.players@)[i].id == room.players@[i].id);
                        assert(roster(room.players@)[j].id == room.players@[j].id);
                    }
                }
                match engine.initialize_game(&room.players) {
                    Ok(()) => Ok(GuiReply { reply: None, game_started: true }),
                    Err(e) => Err(e),
                }
            } else {
                Ok(
                    GuiReply {
                        reply: Some(
                            ServerMessage::Error {
                                message: String::from_str("Need at least 2 players to start"),
                            },
                        ),
                        game_started: false,
                    },
                )
            }
        },
        ClientMessage::JoinLobby { .. } => Ok(
            GuiReply {
                reply: Some(
                    ServerMessage::Error { message: String::from_str("Controllers cannot join the lobby") },
                ),
                game_started: false,
            },
        ),
        _ => Err(GameError::InvalidMove(String::from_str("Invalid message type for GUI"))),
    }
}

/// `msg` asks for a move among `dirs` within the move timeout.
pub open spec fn move_request_for(msg: ServerMessage, dirs: Seq<Direction>) -> bool {
    msg matches ServerMessage::MoveRequest { valid_directions, time_limit_ms } && valid_directions@
        == dirs && time_limit_ms == MOVE_TIMEOUT_MS
}

/// The message announcing the end of the game, with the winner's lobby
/// entry when the winner is still in the room.
fn game_ended_message(engine: &GameEngine, room: &GameRoom, winner_id: Option<u128>) -> (r: ServerMessage)
    ensures
        ended_message_ok(r, engine, room, winner_id),
{
    let winner = match winner_id {
        Some(id) => room.player_entry(id),
        None => None,
    };
    ServerMessage::GameEnded { winner, final_state: engine.state.snapshot() }
}

/// `msg` announces the end of the game: the final world, and the lobby
/// entry of the winner when there is one and it is still in the room.
pub open spec fn ended_message_ok(
    msg: ServerMessage,
    engine: &GameEngine,
    room: &GameRoom,
    winner_id: Option<u128>,
) -> bool {
    msg matches ServerMessage::GameEnded { winner, final_state } && final_state@ == engine.state@
        && match winner_id {
        Some(id) => match entry_index(roster(room.players@), id) {
            Some(i) => winner matches Some(p) && p@ == roster(room.players@)[i],
            None => winner is None,
        },
        None => winner is None,
    }
}

/// The messages a player session sends to its client for one bus event.
pub fn player_messages_for_event(
    engine: &GameEngine,
    room: &GameRoom,
    player_id: u128,
    event: &GameEvent,
) -> (r: Vec<ServerMessage>)
    ensures
        match *event {
            GameEvent::GameStarted => match snake_with_id(engine.state@.snakes, player_id) {
                Some(s) => r@.len() == (if s.alive {
                    2int
                } else {
                    1int
                }) && (r@[0] matches ServerMessage::GameStarted { game_state, your_snake_id }
                    && game_state@ == engine.state@ && your_snake_id == player_id)
                    && (s.alive ==> move_request_for(r@[1], valid_dirs(s))),
                None => r@.len() == 0,
            },
            GameEvent::GameTick => (r@[0] matches ServerMessage::GameUpdate { game_state }
                && game_state@ == engine.state@)
                && match snake_with_id(engine.state@.snakes, player_id) {
                    Some(s) => if s.alive {
                        r@.len() == 2 && move_request_for(r@[1], valid_dirs(s))
                    } else {
                        r@.len() == 1
                    },
                    None => r@.len() == 1,
                },
            GameEvent::GameEnded(w) => r@.len() == 1 && ended_message_ok(r@[0], engine, room, w),
            GameEvent::PlayerJoined(_, _) | GameEvent::PlayerLeft(_) => r@.len() == 1 && (
            r@[0] matches ServerMessage::LobbyState { players }
                && roster(players@) == roster(room.players@)),
            GameEvent::MovesSubmitted => r@.len() == 0,
        },
{
    let mut out: Vec<ServerMessage> = Vec::new();
    match event {
        GameEvent::GameStarted => {
            if snake_present(engine, player_id) {
                out.push(
                    ServerMessage::GameStarted {
                        game_state: engine.state.snapshot(),
                        your_snake_id: player_id,
                    },
                );
                if engine.is_snake_alive(player_id) {
                    let valid_directions = engine.get_valid_moves(player_id);
                    out.push(
                        ServerMessage::MoveRequest { valid_directions, time_limit_ms: MOVE_TIMEOUT_MS },
                    );
                }
            }
        },
        GameEvent::GameTick => {
            out.push(ServerMessage::GameUpdate { game_state: engine.state.snapshot() });
            if engine.is_snake_alive(player_id) {
                let valid_directions = engine.get_valid_moves(player_id);
                out.push(
                    ServerMessage::MoveRequest { valid_directions, time_limit_ms: MOVE_TIMEOUT_MS },
                );
            }
        },
        GameEvent::GameEnded(w) => {
            out.push(game_ended_message(engine, room, *w));
        },
        GameEvent::PlayerJoined(_, _) | GameEvent::PlayerLeft(_) => {
            out.push(ServerMessage::LobbyState { players: room.lobby_players() });
        },
        GameEvent::MovesSubmitted => {},
    }
    out
}

/// Whether the engine has a snake for `player_id`, alive or dead.
fn snake_present(engine: &GameEngine, player_id: u128) -> (r: bool)
    ensures
        r == snake_with_id(engine.state@.snakes, player_id) is Some,
{
    let mut i: usize = 0;
    let ghost sv = engine.state@.snakes;
    while i < engine.state.snakes.len()
        invariant
            sv == engine.state@.snakes,
            i <= sv.len(),
            snake_with_id(sv.take(i as int), player_id) is None,
        decreases sv.len() - i,
    {
        assert(sv.take(i as int + 1).drop_last() =~= sv.take(i as int));
        assert(sv[i as int] == engine.state.snakes@[i as int]@);
        if engine.state.snakes[i].id == player_id {
            proof {
                crate::game::lemma_snake_with_id_prefix(sv, player_id, i as int + 1);
            }
            return true;
        }
        i = i + 1;
    }
    assert(sv.take(i as int) =~= sv);
    false
}

/// The messages a controller session sends to its client for one bus event.
pub fn gui_messages_for_event(engine: &GameEngine, room: &GameRoom, event: &GameEvent) -> (r: Vec<
    ServerMessage,
>)
    ensures
        match *event {
            GameEvent::PlayerJoined(_, _) | GameEvent::PlayerLeft(_) => r@.len() == 1 && (
            r@[0] matches ServerMessage::LobbyState { players }
                && roster(players@) == roster(room.players@)),
            GameEvent::GameStarted | GameEvent::GameTick => r@.len() == 1 && (
            r@[0] matches ServerMessage::GameUpdate { game_state }
                && game_state@ == engine.state@),
            GameEvent::GameEnded(w) => r@.len() == 1 && ended_message_ok(r@[0], engine, room, w),
            GameEvent::MovesSubmitted => r@.len() == 0,
        },
{
    let mut out: Vec<ServerMessage> = Vec::new();
    match event {
        GameEvent::PlayerJoined(_, _) | GameEvent::PlayerLeft(_) => {
            out.push(ServerMessage::LobbyState { players: room.lobby_players() });
        },
        GameEvent::GameStarted | GameEvent::GameTick => {
            out.push(ServerMessage::GameUpdate { game_state: engine.state.snapshot() });
        },
        GameEvent::GameEnded(w) => {
            out.push(game_ended_message(engine, room, *w));
        },
        GameEvent::MovesSubmitted => {},
    }
    out
}

/// While waiting for moves: collect once every living snake has one or the
/// move timeout has passed, else wait.
pub fn next_step(all_submitted: bool, elapsed_ms: u64) -> (r: LoopStep)
    ensures
        r == (if all_submitted || elapsed_ms >= MOVE_TIMEOUT_MS {
            LoopStep::Collect
        } else {
            LoopStep::Wait
        }),
{
    if all_submitted || elapsed_ms >= MOVE_TIMEOUT_MS {
        LoopStep::Collect
    } else {
        LoopStep::Wait
    }
}

/// How long to sleep before advancing, so that a tick lasts at least the
/// minimum tick duration.
pub fn floor_wait_ms(elapsed_ms: u64) -> (r: u64)
    ensures
        r == (if elapsed_ms < GAME_TICK_DURATION_MS {
            GAME_TICK_DURATION_MS - elapsed_ms
        } else {
            0
        }),
{
    if elapsed_ms < GAME_TICK_DURATION_MS {
        GAME_TICK_DURATION_MS - elapsed_ms
    } else {
        0
    }
}

/// One step of the running game loop: takes the pending moves, advances the
/// engine by one tick and names the event to publish: `GameEnded` with the
/// winner once the game stopped, `GameTick` otherwise.
pub fn advance_game(room: &mut GameRoom, engine: &mut GameEngine) -> (r: Result<GameEvent, GameError>)
    requires
        old(engine).wf(),
    ensures
        final(engine).wf(),
        final(room).players == old(room).players,
        final(room).pending_moves@ == Map::<u128, Direction>::empty(),
        !old(engine).state@.running ==> (r matches Err(GameError::GameNotRunning))
            && final(engine).state@ == old(engine).state@,
        old(engine).state@.running && old(engine).state@.tick == u64::MAX ==> (r matches Err(GameError::Internal(_)))
            && final(engine).state@ == old(engine).state@,
        old(engine).state@.running && old(engine).state@.tick < u64::MAX ==> tick_outcome(
            old(engine).state@,
            old(room).pending_moves@,
            final(engine).state@,
        ) && r == Ok::<GameEvent, GameError>(if final(engine).state@.running {
            GameEvent::GameTick
        } else {
            GameEvent::GameEnded(final(engine).state@.winner)
        }),
{
    let moves = room.take_moves();
    if !engine.state.is_running {
        return Err(GameError::GameNotRunning);
    }
    if engine.state.tick == u64::MAX {
        return Err(GameError::Internal(String::from_str("Tick counter exhausted")));
    }
    match engine.process_tick(moves) {
        Ok(()) => {
            if engine.state.is_running {
                Ok(GameEvent::GameTick)
            } else {
                Ok(GameEvent::GameEnded(engine.state.winner))
            }
        },
        Err(e) => Err(e),
    }
}

} // verus!
