use snake_arena::connection::ConnectParams;
use snake_arena::constants::MAX_PLAYERS;
use snake_arena::error::GameError;
use snake_arena::grid::{Direction, Position};
use snake_arena::room::GameRoom;
use snake_arena::state::GameState;
use snake_arena::world::Snake;

#[test]
fn players_get_successive_colors() {
    let mut room = GameRoom::new();
    assert_eq!(room.add_player(10, "alice".to_string()), Ok(0));
    assert_eq!(room.add_player(20, "bob".to_string()), Ok(1));
    assert_eq!(room.players.len(), 2);
    assert_eq!(room.players[1].color_index, 1);
    assert!(!room.players[1].is_ready);
}

#[test]
fn full_room_refuses() {
    let mut room = GameRoom::new();
    for i in 0..MAX_PLAYERS {
        assert!(room.add_player(i as u128, format!("p{}", i)).is_ok());
    }
    assert_eq!(room.add_player(99, "late".to_string()), Err(GameError::RoomFull));
    assert_eq!(room.players.len(), MAX_PLAYERS);
}

#[test]
fn taken_name_refuses() {
    let mut room = GameRoom::new();
    assert!(room.add_player(1, "alice".to_string()).is_ok());
    assert_eq!(
        room.add_player(2, "alice".to_string()),
        Err(GameError::NameTaken("alice".to_string()))
    );
    assert_eq!(room.players.len(), 1);
}

#[test]
fn rejoining_renames_in_place() {
    let mut room = GameRoom::new();
    assert!(room.add_player(1, "alice".to_string()).is_ok());
    assert!(room.add_player(2, "bob".to_string()).is_ok());
    room.players[0].is_ready = true;
    assert_eq!(room.add_player(1, "alice".to_string()), Ok(0));
    assert_eq!(room.players.len(), 2);
    assert_eq!(room.players[0].name, "alice");
    assert_eq!(room.players[0].color_index, 0);
    assert!(room.players[0].is_ready);
    assert_eq!(room.add_player(1, "carol".to_string()), Ok(0));
    assert_eq!(room.players.len(), 2);
    assert_eq!(room.players[0].name, "carol");
    assert_eq!(room.players[0].id, 1);
    assert_eq!(room.players[0].color_index, 0);
    assert!(room.players[0].is_ready);
}

#[test]
fn freed_colors_are_reused() {
    let mut room = GameRoom::new();
    assert_eq!(room.add_player(1, "a".to_string()), Ok(0));
    assert_eq!(room.add_player(2, "b".to_string()), Ok(1));
    assert_eq!(room.add_player(3, "c".to_string()), Ok(2));
    room.remove_player(1);
    assert_eq!(room.add_player(4, "d".to_string()), Ok(0));
    assert_eq!(room.add_player(5, "e".to_string()), Ok(3));
}

#[test]
fn member_of_full_room_may_rename() {
    let mut room = GameRoom::new();
    for i in 0..MAX_PLAYERS {
        assert!(room.add_player(i as u128, format!("p{}", i)).is_ok());
    }
    assert_eq!(room.add_player(3, "renamed".to_string()), Ok(3));
    assert_eq!(room.players[3].name, "renamed");
}

#[test]
fn removal_is_idempotent_and_drops_moves() {
    let mut room = GameRoom::new();
    assert!(room.add_player(1, "a".to_string()).is_ok());
    assert!(room.add_player(2, "b".to_string()).is_ok());
    room.record_move(1, Direction::Up);
    room.record_move(2, Direction::Down);
    room.remove_player(1);
    room.remove_player(1);
    assert_eq!(room.players.len(), 1);
    assert_eq!(room.players[0].id, 2);
    assert!(!room.pending_moves.contains_key(&1));
    assert_eq!(room.pending_moves.get(&2), Some(&Direction::Down));
}

#[test]
fn moves_are_overwritten_and_taken() {
    let mut room = GameRoom::new();
    room.record_move(1, Direction::Up);
    room.record_move(1, Direction::Left);
    let moves = room.take_moves();
    assert_eq!(moves.get(&1), Some(&Direction::Left));
    assert_eq!(moves.len(), 1);
    assert!(room.pending_moves.is_empty());
}

#[test]
fn start_needs_two_players() {
    let mut room = GameRoom::new();
    assert!(!room.can_start_game());
    assert!(room.add_player(1, "a".to_string()).is_ok());
    assert!(!room.can_start_game());
    assert!(room.add_player(2, "b".to_string()).is_ok());
    assert!(room.can_start_game());
}

#[test]
fn no_living_snakes_means_all_moves_in() {
    let room = GameRoom::new();
    let mut world = GameState::with_grid(5, 5);
    assert!(room.all_moves_submitted(&world));
    let mut dead = Snake::new(1, "d".to_string(), Position::new(0, 0), 0);
    dead.kill();
    world.snakes.push(dead);
    assert!(room.all_moves_submitted(&world));
}

#[test]
fn living_snakes_need_moves() {
    let mut room = GameRoom::new();
    let mut world = GameState::with_grid(5, 5);
    world.snakes.push(Snake::new(1, "a".to_string(), Position::new(0, 0), 0));
    world.snakes.push(Snake::new(2, "b".to_string(), Position::new(1, 1), 1));
    room.record_move(1, Direction::Up);
    assert!(!room.all_moves_submitted(&world));
    room.record_move(2, Direction::Up);
    assert!(room.all_moves_submitted(&world));
}

#[test]
fn lobby_copies_and_lookup() {
    let mut room = GameRoom::new();
    assert!(room.add_player(5, "e".to_string()).is_ok());
    let copies = room.lobby_players();
    assert_eq!(copies.len(), 1);
    assert_eq!(copies[0].name, "e");
    assert_eq!(room.player_entry(5).map(|p| p.color_index), Some(0));
    assert!(room.player_entry(6).is_none());
}

#[test]
fn default_player_name_uses_the_id() {
    let params = ConnectParams { player_name: None, is_gui: None };
    assert_eq!(
        params.player_name_or_default(0x0123_4567_89ab_cdef_0123_4567_89ab_cdef),
        "Player_01234567-89ab-cdef-0123-456789abcdef"
    );
    let named = ConnectParams { player_name: Some("zed".to_string()), is_gui: Some(false) };
    assert_eq!(named.player_name_or_default(1), "zed");
}

#[test]
fn error_texts() {
    assert_eq!(GameError::RoomFull.describe(), "Room full");
    assert_eq!(GameError::GameNotRunning.describe(), "Game not running");
    assert_eq!(GameError::NameTaken("x".to_string()).describe(), "Name already taken: x");
    assert_eq!(GameError::InvalidMove("m".to_string()).describe(), "Invalid move: m");
    assert_eq!(GameError::WebSocket("w".to_string()).describe(), "WebSocket error: w");
    assert_eq!(GameError::Serialization("s".to_string()).describe(), "Serialization error: s");
    assert_eq!(GameError::Internal("i".to_string()).describe(), "Internal error: i");
    assert_eq!(
        GameError::PlayerNotFound(0xff).describe(),
        "Player not found: 00000000-0000-0000-0000-0000000000ff"
    );
}
