use snake_arena::constants::MOVE_TIMEOUT_MS;
use snake_arena::docs::generate_openapi_spec;
use snake_arena::error::GameError;
use snake_arena::game::GameEngine;
use snake_arena::grid::{Direction, Position};
use snake_arena::messages::{ClientMessage, GameEvent, ServerMessage};
use snake_arena::room::GameRoom;
use snake_arena::session::{
    advance_game, error_reply, floor_wait_ms, gui_messages_for_event, handle_gui_message,
    handle_player_message, next_step, player_messages_for_event, LoopStep,
};
use snake_arena::state::GameState;
use snake_arena::world::Snake;

fn two_player_room() -> GameRoom {
    let mut room = GameRoom::new();
    assert!(room.add_player(1, "alice".to_string()).is_ok());
    assert!(room.add_player(2, "bob".to_string()).is_ok());
    room
}

#[test]
fn solo_start_is_refused() {
    let mut room = GameRoom::new();
    assert!(room.add_player(1, "alice".to_string()).is_ok());
    let mut engine = GameEngine::with_seed(1);
    let reply = handle_gui_message(&room, &mut engine, ClientMessage::StartGame).unwrap();
    assert!(!reply.game_started);
    match reply.reply {
        Some(ServerMessage::Error { message }) => assert!(message.contains("at least 2")),
        _ => panic!("expected an error reply"),
    }
    assert!(!engine.state.is_running);
    assert!(engine.state.snakes.is_empty());
}

#[test]
fn start_with_enough_players_runs() {
    let room = two_player_room();
    let mut engine = GameEngine::with_seed(2);
    let reply = handle_gui_message(&room, &mut engine, ClientMessage::StartGame).unwrap();
    assert!(reply.game_started);
    assert!(reply.reply.is_none());
    assert!(engine.state.is_running);
    assert_eq!(engine.state.snakes.len(), 2);
    assert_eq!(engine.state.snakes[0].player_name, "alice");
    assert_eq!(engine.state.snakes[1].color_index, 1);
}

#[test]
fn controller_cannot_join_or_ping() {
    let room = two_player_room();
    let mut engine = GameEngine::with_seed(2);
    let join = ClientMessage::JoinLobby { player_name: "gui".to_string() };
    let reply = handle_gui_message(&room, &mut engine, join).unwrap();
    assert!(matches!(reply.reply, Some(ServerMessage::Error { .. })));
    assert!(!reply.game_started);
    let ping = handle_gui_message(&room, &mut engine, ClientMessage::Ping);
    assert_eq!(
        ping.err(),
        Some(GameError::InvalidMove("Invalid message type for GUI".to_string()))
    );
}

#[test]
fn name_collision_reports_error() {
    let mut room = GameRoom::new();
    assert!(room.add_player(1, "alice".to_string()).is_ok());
    assert!(room.add_player(2, "Player_2".to_string()).is_ok());
    let msg = ClientMessage::JoinLobby { player_name: "alice".to_string() };
    let rep = handle_player_message(&mut room, 2, msg).unwrap();
    match rep.reply {
        Some(ServerMessage::Error { message }) => {
            assert_eq!(message, "Error: Name already taken: alice")
        }
        _ => panic!("expected an error reply"),
    }
    assert_eq!(room.players.len(), 2);
    assert_eq!(room.players[0].name, "alice");
    assert_eq!(room.players[1].name, "Player_2");
}

#[test]
fn player_moves_pings_and_bad_messages() {
    let mut room = two_player_room();
    let rep = handle_player_message(
        &mut room,
        1,
        ClientMessage::SubmitMove { direction: Direction::Up },
    )
    .unwrap();
    assert!(rep.reply.is_none());
    assert!(!rep.broadcast_lobby);
    assert_eq!(room.pending_moves.get(&1), Some(&Direction::Up));
    let pong = handle_player_message(&mut room, 1, ClientMessage::Ping).unwrap();
    assert!(matches!(pong.reply, Some(ServerMessage::Pong)));
    let bad = handle_player_message(&mut room, 1, ClientMessage::StartGame);
    let err = bad.err().unwrap();
    assert_eq!(
        err,
        GameError::InvalidMove("Invalid message type for player: StartGame".to_string())
    );
    match error_reply(&err) {
        ServerMessage::Error { message } => assert_eq!(
            message,
            "Error processing message: Invalid move: Invalid message type for player: StartGame"
        ),
        _ => panic!("expected an error message"),
    }
}

#[test]
fn rename_broadcasts_lobby() {
    let mut room = two_player_room();
    let msg = ClientMessage::JoinLobby { player_name: "alicia".to_string() };
    let rep = handle_player_message(&mut room, 1, msg).unwrap();
    assert!(rep.reply.is_none());
    assert!(rep.broadcast_lobby);
    assert_eq!(room.players[0].name, "alicia");
}

#[test]
fn timeout_tick_kills_silent_players() {
    let mut room = two_player_room();
    let mut engine = GameEngine::with_seed(5);
    assert!(handle_gui_message(&room, &mut engine, ClientMessage::StartGame).unwrap().game_started);
    assert_eq!(next_step(false, 100), LoopStep::Wait);
    assert_eq!(next_step(false, MOVE_TIMEOUT_MS), LoopStep::Collect);
    let event = advance_game(&mut room, &mut engine).unwrap();
    assert_eq!(event, GameEvent::GameEnded(None));
    assert!(!engine.state.snakes[0].is_alive);
    assert!(!engine.state.snakes[1].is_alive);
    assert_eq!(engine.state.winner, None);
    assert_eq!(
        advance_game(&mut room, &mut engine),
        Err(GameError::GameNotRunning)
    );
}

#[test]
fn full_quorum_advances_game() {
    let mut room = two_player_room();
    let mut engine = GameEngine::with_seed(8);
    engine.state = GameState::with_grid(5, 5);
    engine.state.snakes = vec![
        Snake::new(1, "alice".to_string(), Position::new(0, 0), 0),
        Snake::new(2, "bob".to_string(), Position::new(3, 3), 1),
    ];
    engine.state.is_running = true;
    room.record_move(1, Direction::Down);
    room.record_move(2, Direction::Up);
    assert!(room.all_moves_submitted(&engine.state));
    assert_eq!(next_step(true, 0), LoopStep::Collect);
    assert_eq!(advance_game(&mut room, &mut engine), Ok(GameEvent::GameTick));
    assert_eq!(engine.state.tick, 1);
    assert!(room.pending_moves.is_empty());
    assert_eq!(engine.state.snakes[0].body, vec![Position::new(0, 1)]);
}

#[test]
fn tick_floor() {
    assert_eq!(floor_wait_ms(0), 200);
    assert_eq!(floor_wait_ms(150), 50);
    assert_eq!(floor_wait_ms(200), 0);
    assert_eq!(floor_wait_ms(4000), 0);
}

#[test]
fn player_outbound_messages() {
    let room = two_player_room();
    let mut engine = GameEngine::with_seed(9);
    assert!(handle_gui_message(&room, &mut engine, ClientMessage::StartGame).unwrap().game_started);
    let started = player_messages_for_event(&engine, &room, 1, &GameEvent::GameStarted);
    assert_eq!(started.len(), 2);
    match &started[0] {
        ServerMessage::GameStarted { game_state, your_snake_id } => {
            assert_eq!(*your_snake_id, 1);
            assert_eq!(game_state.snakes.len(), 2);
        }
        _ => panic!("expected GameStarted"),
    }
    match &started[1] {
        ServerMessage::MoveRequest { valid_directions, time_limit_ms } => {
            assert_eq!(valid_directions.len(), 4);
            assert_eq!(*time_limit_ms, MOVE_TIMEOUT_MS);
        }
        _ => panic!("expected MoveRequest"),
    }
    let stranger = player_messages_for_event(&engine, &room, 77, &GameEvent::GameStarted);
    assert!(stranger.is_empty());
    let tick = player_messages_for_event(&engine, &room, 2, &GameEvent::GameTick);
    assert_eq!(tick.len(), 2);
    assert!(matches!(tick[0], ServerMessage::GameUpdate { .. }));
    let ended = player_messages_for_event(&engine, &room, 2, &GameEvent::GameEnded(Some(2)));
    match &ended[0] {
        ServerMessage::GameEnded { winner, .. } => {
            assert_eq!(winner.as_ref().map(|p| p.name.clone()), Some("bob".to_string()))
        }
        _ => panic!("expected GameEnded"),
    }
    let lobby = player_messages_for_event(&engine, &room, 2, &GameEvent::PlayerLeft(9));
    assert!(matches!(&lobby[0], ServerMessage::LobbyState { players } if players.len() == 2));
    assert!(player_messages_for_event(&engine, &room, 2, &GameEvent::MovesSubmitted).is_empty());
}

#[test]
fn controller_outbound_messages() {
    let room = two_player_room();
    let engine = GameEngine::with_seed(9);
    let joined = gui_messages_for_event(&engine, &room, &GameEvent::PlayerJoined(2, "bob".to_string()));
    assert!(matches!(&joined[0], ServerMessage::LobbyState { players } if players.len() == 2));
    let tick = gui_messages_for_event(&engine, &room, &GameEvent::GameTick);
    assert!(matches!(tick[0], ServerMessage::GameUpdate { .. }));
    let ended = gui_messages_for_event(&engine, &room, &GameEvent::GameEnded(None));
    assert!(matches!(&ended[0], ServerMessage::GameEnded { winner: None, .. }));
}

#[test]
fn api_description_renders_pretty() {
    let info = utoipa::openapi::InfoBuilder::new().title("arena").version("1.0.0").build();
    let doc = utoipa::openapi::OpenApiBuilder::new().info(info).build();
    let text = generate_openapi_spec(&doc).unwrap();
    assert!(text.contains("\"title\": \"arena\""));
    assert!(text.contains('\n'));
}

#[test]
fn head_on_collision_ends_game() {
    let mut room = two_player_room();
    let mut engine = GameEngine::with_seed(4);
    engine.state = GameState::with_grid(5, 5);
    engine.state.snakes = vec![
        Snake::new(1, "alice".to_string(), Position::new(1, 2), 0),
        Snake::new(2, "bob".to_string(), Position::new(3, 2), 1),
    ];
    engine.state.is_running = true;
    room.record_move(1, Direction::Right);
    room.record_move(2, Direction::Left);
    assert_eq!(advance_game(&mut room, &mut engine), Ok(GameEvent::GameEnded(None)));
    assert!(!engine.state.snakes[0].is_alive);
    assert!(!engine.state.snakes[1].is_alive);
    assert!(!engine.state.is_running);
}

#[test]
fn rejoining_under_own_name_is_idempotent() {
    let mut room = GameRoom::new();
    assert!(room.add_player(1, "alice".to_string()).is_ok());
    let msg = ClientMessage::JoinLobby { player_name: "alice".to_string() };
    let rep = handle_player_message(&mut room, 1, msg).unwrap();
    assert!(rep.reply.is_none());
    assert_eq!(room.players.len(), 1);
    assert_eq!(room.players[0].name, "alice");
    assert_eq!(room.players[0].color_index, 0);
}
