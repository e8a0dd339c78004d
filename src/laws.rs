//! Laws that hold of every game: stated over the views that the engine's
//! and the room's contracts use, and proved from them.
use vstd::prelude::*;
use crate::constants::WINNING_SNAKE_LENGTH;
use crate::game::{initial_world, ticked_fruits, ticked_snakes, tick_outcome};
use crate::grid::{Direction, Position, all_directions, opposite_of, step};
use crate::room::{entry_index, joined, moves_complete};
use crate::rules::{
    alive_ids, bodies_ok, collision_phase, fruit_cap, heads_distinct, lemma_collisions_separate_heads,
    lemma_feed_phase_keeps, lemma_move_phase_keeps, lemma_winner_of_ok, move_phase, on_some_body,
    winner_ok,
};
use crate::state::{GameState, WorldView, world_ok};
use crate::world::{LobbyPlayer, LobbyPlayerView, SnakeView, valid_dirs};

verus! {

/// In every well-formed world each body is non-empty and as long as the
/// snake's length, so its size is the length or one less.
pub proof fn lemma_body_matches_length(world: WorldView)
    requires
        world_ok(world),
    ensures
        forall|i: int|
            0 <= i < world.snakes.len() ==> (#[trigger] world.snakes[i]).body.len() >= 1 && (
            world.snakes[i].body.len() == world.snakes[i].length || world.snakes[i].body.len()
                == world.snakes[i].length - 1),
{
}

/// After a tick no two living snakes have their heads on one cell.
pub proof fn lemma_tick_separates_heads(before: WorldView, moves: Map<u128, Direction>, after: WorldView)
    requires
        world_ok(before),
        tick_outcome(before, moves, after),
    ensures
        heads_distinct(after.snakes),
{
    let s1 = move_phase(before.snakes, moves, before.width, before.height);
    lemma_move_phase_keeps(before.snakes, moves, before.width, before.height);
    let s2 = collision_phase(s1);
    lemma_collisions_separate_heads(s1);
    assert(bodies_ok(s2, before.width, before.height)) by {
        assert forall|i: int| 0 <= i < s2.len() implies (#[trigger] s2[i]).body == s1[i].body
            && s2[i].length == s1[i].length by {}
    }
    lemma_feed_phase_keeps(s2, before.fruits, before.width, before.height);
    let s3 = ticked_snakes(before, moves);
    assert forall|a: int, b: int|
        0 <= a < s3.len() && 0 <= b < s3.len() && a != b && (#[trigger] s3[a]).alive && (
        #[trigger] s3[b]).alive implies crate::world::head_of(s3[a]) != crate::world::head_of(s3[b]) by {
        assert(s2[a].alive && s2[b].alive);
    }
}

/// A fruit placed during a tick lies on no snake's body.
pub proof fn lemma_new_fruit_off_bodies(before: WorldView, moves: Map<u128, Direction>, after: WorldView, k: int)
    requires
        tick_outcome(before, moves, after),
        ticked_fruits(before, moves).len() <= k < after.fruits.len(),
    ensures
        !on_some_body(after.snakes, after.fruits[k].position),
{
}

/// A tick keeps the number of snakes, so the fruit cap set when the game
/// started still bounds the fruits.
pub proof fn lemma_tick_keeps_fruit_cap(before: WorldView, moves: Map<u128, Direction>, after: WorldView)
    requires
        tick_outcome(before, moves, after),
    ensures
        after.snakes.len() == before.snakes.len(),
        after.fruits.len() <= fruit_cap(before.snakes.len() as int),
{
}

/// A game starts with one snake per player, hence with its fruit cap fixed
/// by the number of players.
pub proof fn lemma_start_sets_fruit_cap(players: Seq<LobbyPlayer>, cells: Seq<Position>, w: int, h: int)
    ensures
        initial_world(players, cells, w, h).snakes.len() == players.len(),
        initial_world(players, cells, w, h).fruits.len() == 0,
{
}

/// Each tick advances the counter by exactly one.
pub proof fn lemma_tick_counter_advances(before: WorldView, moves: Map<u128, Direction>, after: WorldView)
    requires
        tick_outcome(before, moves, after),
    ensures
        after.tick > before.tick,
        after.tick == before.tick + 1,
{
}

/// The winner is absent, or a living snake that reached the winning length
/// or outlived every other.
pub proof fn lemma_winner_is_valid(world: WorldView)
    requires
        world_ok(world),
    ensures
        world.winner matches Some(id) ==> exists|i: int|
            0 <= i < world.snakes.len() && (#[trigger] world.snakes[i]).id == id
                && world.snakes[i].alive && (world.snakes[i].length >= WINNING_SNAKE_LENGTH
                || alive_ids(world.snakes).len() == 1),
{
}

/// The winner recorded when a tick ends the game is valid.
pub proof fn lemma_tick_winner_is_valid(before: WorldView, moves: Map<u128, Direction>, after: WorldView)
    requires
        tick_outcome(before, moves, after),
        !after.running,
    ensures
        winner_ok(after.snakes, after.winner),
{
    lemma_winner_of_ok(after.snakes);
}

/// A snake with a tail and a last direction may never reverse it.
pub proof fn lemma_no_reversal(s: SnakeView)
    requires
        s.body.len() >= 2,
        s.last is Some,
    ensures
        !valid_dirs(s).contains(opposite_of(s.last->Some_0)),
{
    let o = opposite_of(s.last->Some_0);
    let v = valid_dirs(s);
    if v.contains(o) {
        let k = choose|k: int| 0 <= k < v.len() && v[k] == o;
        let ad = all_directions();
        assert(ad[0] == Direction::Up && ad[1] == Direction::Down && ad[2] == Direction::Left && ad[3]
            == Direction::Right);
    }
}

/// Stepping off an edge re-enters from the opposite one.
pub proof fn lemma_edges_wrap(w: int, h: int)
    requires
        0 < w <= i32::MAX,
        0 < h <= i32::MAX,
    ensures
        step(Position { x: 0, y: 0 }, Direction::Left, w, h) == (Position { x: (w - 1) as i32, y: 0 }),
        step(Position { x: (w - 1) as i32, y: (h - 1) as i32 }, Direction::Right, w, h) == (Position {
            x: 0,
            y: (h - 1) as i32,
        }),
        step(Position { x: 0, y: 0 }, Direction::Up, w, h) == (Position { x: 0, y: (h - 1) as i32 }),
        step(Position { x: (w - 1) as i32, y: (h - 1) as i32 }, Direction::Down, w, h) == (Position {
            x: (w - 1) as i32,
            y: 0,
        }),
{
}

/// A snake without a tail may move in any of the four directions.
pub proof fn lemma_short_snake_moves_freely(s: SnakeView)
    requires
        s.body.len() < 2,
    ensures
        valid_dirs(s) == all_directions(),
{
}

/// With no living snake, every move counts as submitted.
pub proof fn lemma_no_living_all_submitted(world: GameState, moves: Map<u128, Direction>)
    requires
        forall|i: int| 0 <= i < world@.snakes.len() ==> !(#[trigger] world@.snakes[i]).alive,
    ensures
        moves_complete(world, moves),
{
}

/// Joining again under one's own name leaves the lobby as it was.
pub proof fn lemma_rejoin_is_idempotent(players: Seq<LobbyPlayerView>, id: u128, name: Seq<char>)
    requires
        entry_index(players, id) matches Some(i) && players[i].name == name,
    ensures
        joined(players, id, name) == players,
{
    let i = entry_index(players, id)->Some_0;
    crate::room::lemma_entry_index_found(players, id);
    assert(joined(players, id, name) =~= players);
}

} // verus!
