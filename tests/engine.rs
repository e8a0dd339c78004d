use std::collections::HashMap;

use snake_arena::constants::{GRID_HEIGHT, GRID_WIDTH, WINNING_SNAKE_LENGTH};
use snake_arena::error::GameError;
use snake_arena::game::GameEngine;
use snake_arena::grid::{Direction, Position};
use snake_arena::state::GameState;
use snake_arena::world::{Fruit, LobbyPlayer, Snake};
use uuid::Uuid;

fn player(id: u128, name: &str, color_index: usize) -> LobbyPlayer {
    LobbyPlayer { id, name: name.to_string(), color_index, is_ready: true }
}

fn running_engine(width: i32, height: i32, snakes: Vec<Snake>) -> GameEngine {
    let mut engine = GameEngine::with_seed(7);
    engine.state = GameState::with_grid(width, height);
    engine.state.snakes = snakes;
    engine.state.is_running = true;
    engine
}

#[test]
fn test_game_initialization() {
    let mut engine = GameEngine::new();
    let mut players = Vec::new();
    players.push(LobbyPlayer {
        id: Uuid::new_v4().as_u128(),
        name: "Player1".to_string(),
        color_index: 0,
        is_ready: true,
    });

    let result = engine.initialize_game(&players);
    assert!(result.is_ok());
    assert_eq!(engine.state.snakes.len(), 1);
    assert!(engine.state.is_running);
}

#[test]
fn test_position_wrapping() {
    let pos = Position::new(0, 0);
    let new_pos = pos.move_in_direction(Direction::Left, 50, 50);
    assert_eq!(new_pos, Position::new(49, 0));

    let pos = Position::new(49, 49);
    let new_pos = pos.move_in_direction(Direction::Right, 50, 50);
    assert_eq!(new_pos, Position::new(0, 49));
}

#[test]
fn test_direction_opposite() {
    assert_eq!(Direction::Up.opposite(), Direction::Down);
    assert_eq!(Direction::Left.opposite(), Direction::Right);
}

#[test]
fn test_snake_valid_directions() {
    let snake = Snake::new(Uuid::new_v4().as_u128(), "Test".to_string(), Position::new(5, 5), 0);

    let valid_dirs = snake.valid_directions();
    assert_eq!(valid_dirs.len(), 4);
}

#[test]
fn wrapping_on_every_edge() {
    assert_eq!(Position::new(0, 0).move_in_direction(Direction::Up, 5, 5), Position::new(0, 4));
    assert_eq!(Position::new(4, 4).move_in_direction(Direction::Down, 5, 5), Position::new(4, 0));
    assert_eq!(Position::new(0, 0).move_in_direction(Direction::Left, 5, 5), Position::new(4, 0));
    assert_eq!(Position::new(4, 4).move_in_direction(Direction::Right, 5, 5), Position::new(0, 4));
    assert_eq!(Position::new(2, 2).move_in_direction(Direction::Up, 5, 5), Position::new(2, 1));
}

#[test]
fn all_directions_in_order() {
    assert_eq!(
        Direction::all(),
        [Direction::Up, Direction::Down, Direction::Left, Direction::Right]
    );
    assert_eq!(Direction::Right.opposite(), Direction::Left);
    assert_eq!(Direction::Down.opposite(), Direction::Up);
}

#[test]
fn snake_with_tail_cannot_reverse() {
    let mut snake = Snake::new(1, "s".to_string(), Position::new(2, 2), 0);
    snake.grow();
    snake.move_snake(Direction::Up, 5, 5, false);
    assert_eq!(snake.body, vec![Position::new(2, 1), Position::new(2, 2)]);
    let valid = snake.valid_directions();
    assert_eq!(valid, vec![Direction::Up, Direction::Left, Direction::Right]);
    assert!(!valid.contains(&Direction::Down));
    assert!(!snake.allows_move(Direction::Down));
}

#[test]
fn fresh_snake_may_move_anywhere() {
    let mut snake = Snake::new(1, "s".to_string(), Position::new(2, 2), 0);
    snake.last_direction = Some(Direction::Up);
    assert_eq!(
        snake.valid_directions(),
        vec![Direction::Up, Direction::Down, Direction::Left, Direction::Right]
    );
}

#[test]
fn snake_accessors() {
    let mut snake = Snake::new(9, "s".to_string(), Position::new(1, 1), 3);
    assert_eq!(snake.head(), Some(Position::new(1, 1)));
    assert!(snake.tail().is_empty());
    snake.grow();
    snake.move_snake(Direction::Right, 5, 5, false);
    assert_eq!(snake.head(), Some(Position::new(2, 1)));
    assert_eq!(snake.tail(), vec![Position::new(1, 1)]);
    assert!(snake.contains_position(Position::new(1, 1)));
    assert!(!snake.contains_position(Position::new(3, 1)));
    snake.kill();
    assert!(!snake.is_alive);
    assert_eq!(snake.body.len(), 2);
}

#[test]
fn move_with_growth_keeps_tail() {
    let mut snake = Snake::new(1, "s".to_string(), Position::new(0, 0), 0);
    snake.move_snake(Direction::Down, 5, 5, true);
    assert_eq!(snake.length, 2);
    assert_eq!(snake.body, vec![Position::new(0, 1), Position::new(0, 0)]);
    assert_eq!(snake.last_direction, Some(Direction::Down));
}

#[test]
fn head_on_collision_kills_both() {
    let a = Snake::new(1, "A".to_string(), Position::new(1, 2), 0);
    let b = Snake::new(2, "B".to_string(), Position::new(3, 2), 1);
    let mut engine = running_engine(5, 5, vec![a, b]);
    let mut moves = HashMap::new();
    moves.insert(1u128, Direction::Right);
    moves.insert(2u128, Direction::Left);
    assert!(engine.process_tick(moves).is_ok());
    assert!(!engine.state.snakes[0].is_alive);
    assert!(!engine.state.snakes[1].is_alive);
    assert_eq!(engine.state.snakes[0].body, vec![Position::new(2, 2)]);
    assert_eq!(engine.state.winner, None);
    assert!(!engine.state.is_running);
    assert_eq!(engine.state.tick, 1);
}

#[test]
fn fruit_consumption_extends_in_place() {
    let s = Snake::new(1, "S".to_string(), Position::new(2, 2), 0);
    let mut engine = running_engine(5, 5, vec![s]);
    engine.state.fruits = vec![Fruit::new(Position::new(2, 3), 0)];
    let mut moves = HashMap::new();
    moves.insert(1u128, Direction::Down);
    assert!(engine.process_tick(moves).is_ok());
    let snake = &engine.state.snakes[0];
    assert_eq!(snake.body, vec![Position::new(2, 3), Position::new(2, 3)]);
    assert_eq!(snake.length, 2);
    assert!(snake.is_alive);
    assert!(engine.state.fruits.is_empty());
}

#[test]
fn wrap_around_win() {
    let a = Snake::new(1, "A".to_string(), Position::new(3, 3), 0);
    let b = Snake::new(2, "B".to_string(), Position::new(0, 0), 1);
    let mut engine = running_engine(5, 5, vec![a, b]);
    let mut moves = HashMap::new();
    moves.insert(2u128, Direction::Left);
    assert!(engine.process_tick(moves).is_ok());
    assert_eq!(engine.state.snakes[1].body, vec![Position::new(4, 0)]);
    assert!(engine.state.snakes[1].is_alive);
    assert!(!engine.state.snakes[0].is_alive);
    assert!(!engine.state.is_running);
    assert_eq!(engine.state.winner, Some(2));
}

#[test]
fn missing_moves_kill_everyone() {
    let a = Snake::new(1, "A".to_string(), Position::new(0, 0), 0);
    let b = Snake::new(2, "B".to_string(), Position::new(4, 4), 1);
    let mut engine = running_engine(5, 5, vec![a, b]);
    assert!(engine.process_tick(HashMap::new()).is_ok());
    assert!(!engine.state.snakes[0].is_alive);
    assert!(!engine.state.snakes[1].is_alive);
    assert_eq!(engine.state.winner, None);
    assert!(!engine.state.is_running);
}

#[test]
fn reversing_move_kills() {
    let mut s = Snake::new(1, "S".to_string(), Position::new(2, 2), 0);
    s.grow();
    s.move_snake(Direction::Right, 5, 5, false);
    let other = Snake::new(2, "O".to_string(), Position::new(0, 4), 1);
    let third = Snake::new(3, "T".to_string(), Position::new(4, 4), 2);
    let mut engine = running_engine(5, 5, vec![s, other, third]);
    let mut moves = HashMap::new();
    moves.insert(1u128, Direction::Left);
    moves.insert(2u128, Direction::Up);
    moves.insert(3u128, Direction::Up);
    assert!(engine.process_tick(moves).is_ok());
    assert!(!engine.state.snakes[0].is_alive);
    assert_eq!(engine.state.snakes[0].body, vec![Position::new(3, 2), Position::new(2, 2)]);
    assert!(engine.state.is_running);
    assert_eq!(engine.state.tick, 1);
}

#[test]
fn running_into_a_dead_body_kills() {
    let mut dead = Snake::new(1, "D".to_string(), Position::new(2, 2), 0);
    dead.kill();
    let a = Snake::new(2, "A".to_string(), Position::new(1, 2), 1);
    let b = Snake::new(3, "B".to_string(), Position::new(4, 4), 2);
    let c = Snake::new(4, "C".to_string(), Position::new(0, 0), 3);
    let mut engine = running_engine(5, 5, vec![dead, a, b, c]);
    let mut moves = HashMap::new();
    moves.insert(2u128, Direction::Right);
    moves.insert(3u128, Direction::Up);
    moves.insert(4u128, Direction::Down);
    assert!(engine.process_tick(moves).is_ok());
    assert!(!engine.state.snakes[1].is_alive);
    assert!(engine.state.snakes[2].is_alive);
    assert!(engine.state.snakes[3].is_alive);
    assert!(engine.state.is_running);
}

#[test]
fn living_heads_stay_apart() {
    let a = Snake::new(1, "A".to_string(), Position::new(0, 1), 0);
    let b = Snake::new(2, "B".to_string(), Position::new(2, 1), 1);
    let c = Snake::new(3, "C".to_string(), Position::new(1, 0), 2);
    let d = Snake::new(4, "D".to_string(), Position::new(4, 4), 3);
    let e = Snake::new(5, "E".to_string(), Position::new(3, 3), 4);
    let mut engine = running_engine(5, 5, vec![a, b, c, d, e]);
    let mut moves = HashMap::new();
    moves.insert(1u128, Direction::Right);
    moves.insert(2u128, Direction::Left);
    moves.insert(3u128, Direction::Down);
    moves.insert(4u128, Direction::Up);
    moves.insert(5u128, Direction::Left);
    assert!(engine.process_tick(moves).is_ok());
    let living: Vec<Position> = engine
        .state
        .snakes
        .iter()
        .filter(|s| s.is_alive)
        .map(|s| s.body[0])
        .collect();
    assert_eq!(living.len(), 2);
    assert_ne!(living[0], living[1]);
    assert!(!engine.state.snakes[0].is_alive);
    assert!(!engine.state.snakes[1].is_alive);
    assert!(!engine.state.snakes[2].is_alive);
}

#[test]
fn stopped_game_is_not_advanced() {
    let a = Snake::new(1, "A".to_string(), Position::new(0, 0), 0);
    let mut engine = running_engine(5, 5, vec![a]);
    engine.state.is_running = false;
    let mut moves = HashMap::new();
    moves.insert(1u128, Direction::Right);
    assert_eq!(engine.process_tick(moves), Err(GameError::GameNotRunning));
    assert_eq!(engine.state.tick, 0);
    assert_eq!(engine.state.snakes[0].body, vec![Position::new(0, 0)]);
}

#[test]
fn seeded_initialization_is_reproducible() {
    let players = vec![player(1, "a", 0), player(2, "b", 1), player(3, "c", 2)];
    let mut first = GameEngine::with_seed(42);
    let mut second = GameEngine::with_seed(42);
    assert!(first.initialize_game(&players).is_ok());
    assert!(second.initialize_game(&players).is_ok());
    let heads_first: Vec<Position> = first.state.snakes.iter().map(|s| s.body[0]).collect();
    let heads_second: Vec<Position> = second.state.snakes.iter().map(|s| s.body[0]).collect();
    assert_eq!(heads_first, heads_second);
    let ids: Vec<u128> = first.state.snakes.iter().map(|s| s.id).collect();
    assert_eq!(ids, vec![1, 2, 3]);
    for s in &first.state.snakes {
        assert_eq!(s.length, 1);
        assert!(s.is_alive);
        assert_eq!(s.last_direction, None);
        assert!(s.body[0].x >= 0 && s.body[0].x < GRID_WIDTH);
        assert!(s.body[0].y >= 0 && s.body[0].y < GRID_HEIGHT);
    }
    assert_ne!(heads_first[0], heads_first[1]);
    assert_ne!(heads_first[1], heads_first[2]);
    assert_ne!(heads_first[0], heads_first[2]);
    assert_eq!(first.fruit_spawn_timer, vec![0, 1]);
    assert!(first.state.fruits.is_empty());
    assert_eq!(first.state.tick, 0);
}

#[test]
fn initialization_without_room_fails_cleanly() {
    let players = vec![player(1, "a", 0), player(2, "b", 1)];
    let mut engine = GameEngine::with_seed(3);
    engine.state = GameState::with_grid(1, 1);
    let result = engine.initialize_game(&players);
    assert!(matches!(result, Err(GameError::Internal(_))));
    assert!(engine.state.snakes.is_empty());
    assert!(!engine.state.is_running);
}

#[test]
fn fruits_spawn_on_free_cells_under_the_cap() {
    let players = vec![player(1, "a", 0), player(2, "b", 1), player(3, "c", 2)];
    let mut engine = GameEngine::with_seed(11);
    assert!(engine.initialize_game(&players).is_ok());
    let mut saw_fruit = false;
    for round in 0..6u64 {
        let before = engine.state.fruits.len();
        let mut moves = HashMap::new();
        for id in 1..=3u128 {
            moves.insert(id, Direction::Right);
        }
        assert!(engine.process_tick(moves).is_ok());
        assert_eq!(engine.state.tick, round + 1);
        assert!(engine.state.fruits.len() <= 2);
        for fruit in engine.state.fruits.iter().skip(before) {
            saw_fruit = true;
            assert_eq!(fruit.spawn_tick, round);
            for s in &engine.state.snakes {
                assert!(!s.contains_position(fruit.position));
            }
        }
    }
    assert!(saw_fruit);
}

#[test]
fn stats_and_queries() {
    let mut a = Snake::new(1, "A".to_string(), Position::new(0, 0), 0);
    a.grow();
    let mut b = Snake::new(2, "B".to_string(), Position::new(3, 3), 1);
    b.kill();
    let mut engine = running_engine(5, 5, vec![a, b]);
    engine.state.fruits = vec![Fruit::new(Position::new(1, 1), 0)];
    let stats = engine.get_game_stats();
    assert_eq!(stats.alive_snakes, 1);
    assert_eq!(stats.total_snakes, 2);
    assert_eq!(stats.fruits_on_board, 1);
    assert_eq!(stats.longest_snake_length, 2);
    assert!(stats.is_running);
    assert_eq!(stats.winner_id, None);
    assert!(engine.is_snake_alive(1));
    assert!(!engine.is_snake_alive(2));
    assert!(!engine.is_snake_alive(3));
    assert_eq!(engine.get_valid_moves(1).len(), 4);
    assert!(engine.get_valid_moves(2).is_empty());
    assert_eq!(engine.get_game_state().tick, 0);
}

#[test]
fn game_over_and_winner_rules() {
    let mut state = GameState::with_grid(5, 5);
    state.snakes = vec![
        Snake::new(1, "A".to_string(), Position::new(0, 0), 0),
        Snake::new(2, "B".to_string(), Position::new(1, 1), 1),
    ];
    assert!(!state.is_game_over());
    assert_eq!(state.get_winner(), None);
    state.snakes[1].length = WINNING_SNAKE_LENGTH;
    assert!(state.is_game_over());
    assert_eq!(state.get_winner(), Some(2));
    state.snakes[1].length = 1;
    state.snakes[0].kill();
    assert!(state.is_game_over());
    assert_eq!(state.get_winner(), Some(2));
    assert_eq!(state.living_ids(), vec![2]);
}

#[test]
fn default_engine_is_idle() {
    let engine = GameEngine::default();
    assert!(!engine.state.is_running);
    assert_eq!(engine.state.grid_width, 50);
    assert_eq!(engine.state.grid_height, 50);
    assert!(engine.fruit_spawn_timer.is_empty());
}

#[test]
fn occupied_and_empty_cells() {
    let mut state = GameState::with_grid(3, 2);
    let mut s = Snake::new(1, "A".to_string(), Position::new(0, 0), 0);
    s.grow();
    s.move_snake(Direction::Right, 3, 2, false);
    state.snakes.push(s);
    state.fruits.push(Fruit::new(Position::new(2, 1), 0));
    let occupied = state.occupied_positions();
    assert_eq!(
        occupied,
        vec![Position::new(1, 0), Position::new(0, 0), Position::new(2, 1)]
    );
    let empty = state.empty_positions();
    assert_eq!(
        empty,
        vec![Position::new(0, 1), Position::new(1, 1), Position::new(2, 0)]
    );
}

#[test]
fn no_fruit_before_a_slot_is_due() {
    let s = Snake::new(1, "S".to_string(), Position::new(2, 2), 0);
    let t = Snake::new(2, "T".to_string(), Position::new(0, 0), 1);
    let mut engine = running_engine(5, 5, vec![s, t]);
    engine.state.fruits = vec![Fruit::new(Position::new(2, 3), 0)];
    let mut moves = HashMap::new();
    moves.insert(1u128, Direction::Down);
    moves.insert(2u128, Direction::Up);
    assert!(engine.process_tick(moves).is_ok());
    assert_eq!(engine.state.snakes[0].body, vec![Position::new(2, 3), Position::new(2, 3)]);
    assert_eq!(engine.state.snakes[0].length, 2);
    assert_eq!(engine.state.snakes[1].body, vec![Position::new(0, 4)]);
    assert!(engine.state.fruits.is_empty());
    assert!(engine.state.is_running);
    assert_eq!(engine.state.tick, 1);
    assert_eq!(engine.fruit_spawn_timer, vec![0]);
}

#[test]
fn one_growth_per_fruit_eaten() {
    let mut s = Snake::new(1, "S".to_string(), Position::new(2, 3), 0);
    s.grow_by(2);
    assert_eq!(s.length, 3);
    assert_eq!(
        s.body,
        vec![Position::new(2, 3), Position::new(2, 3), Position::new(2, 3)]
    );
}

#[test]
fn single_player_start_succeeds_on_a_tiny_grid() {
    let players = vec![player(1, "solo", 0)];
    let mut engine = GameEngine::with_seed(0);
    engine.state = GameState::with_grid(1, 1);
    assert!(engine.initialize_game(&players).is_ok());
    assert_eq!(engine.state.snakes[0].body, vec![Position::new(0, 0)]);
    assert!(engine.fruit_spawn_timer.is_empty());
}
