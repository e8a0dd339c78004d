//! The simulation engine: starting a game and advancing it tick by tick.
use vstd::prelude::*;
use std::collections::HashMap;
use rand::rngs::StdRng;
use crate::constants::{FRUIT_SPAWN_DELAY_TICKS, INITIAL_SNAKE_LENGTH, WINNING_SNAKE_LENGTH};
use crate::error::GameError;
use crate::grid::{Direction, Position, in_grid};
use crate::random::{draw_below, rng_from_os, rng_from_seed};
use crate::rules::{
    alive_ids, bodies_ok, collision_phase, crashes, feed_phase, fed, fruit_at, fruits_at, fruit_cap,
    lemma_fruits_at_most_one,
    game_over, heads_distinct, lemma_collisions_separate_heads, lemma_feed_phase_keeps,
    lemma_move_phase_keeps, lemma_no_long_winner_short, lemma_winner_of_ok, living_head_at,
    living_short, move_phase, moved, on_some_body, uneaten, winner_of, winner_ok,
};
use crate::state::{
    listed, GameState, WorldView, fruits_ok, ids_unique, lemma_filter_fruits_ok, world_ok,
};
use crate::world::{Fruit, LobbyPlayer, Snake, SnakeView, advanced, head_of, valid_dirs};

verus! {

broadcast use vstd::std_specs::hash::group_hash_axioms;

/// Player ids are pairwise different.
pub open spec fn player_ids_unique(players: Seq<LobbyPlayer>) -> bool {
    forall|i: int, j: int|
        0 <= i < players.len() && 0 <= j < players.len() && i != j ==> (#[trigger] players[i]).id
            != (#[trigger] players[j]).id
}

/// Cells for the snakes' first heads: one per player, on the grid, all different.
pub open spec fn placement_ok(cells: Seq<Position>, n: int, w: int, h: int) -> bool {
    &&& cells.len() == n
    &&& forall|i: int| 0 <= i < cells.len() ==> in_grid(#[trigger] cells[i], w, h)
    &&& forall|i: int, j: int|
        0 <= i < cells.len() && 0 <= j < cells.len() && i != j ==> (#[trigger] cells[i])
            != (#[trigger] cells[j])
}

/// The snake a player starts with on `cell`.
pub open spec fn starting_snake(p: LobbyPlayer, cell: Position) -> SnakeView {
    SnakeView {
        id: p.id,
        name: p.name@,
        body: seq![cell],
        length: INITIAL_SNAKE_LENGTH as nat,
        alive: true,
        color: p.color_index as nat,
        last: None,
    }
}

/// The world at the start of a game: one snake per player, in the players'
/// order, with its head on the player's cell; no fruit; tick zero; running.
pub open spec fn initial_world(players: Seq<LobbyPlayer>, cells: Seq<Position>, w: int, h: int) -> WorldView {
    WorldView {
        snakes: Seq::new(players.len(), |i: int| starting_snake(players[i], cells[i])),
        fruits: Seq::empty(),
        tick: 0,
        running: true,
        winner: None,
        width: w,
        height: h,
    }
}

/// The spawn timers a game starts with: slot `i` begins at `i`.
pub open spec fn initial_timers(n_snakes: int) -> Seq<u32> {
    Seq::new(fruit_cap(n_snakes) as nat, |i: int| i as u32)
}

/// No cell of the grid is covered by a snake, a fruit, or one of `extra`.
pub open spec fn grid_free(world: WorldView, extra: Seq<Position>) -> bool {
    forall|p: Position| in_grid(p, world.width, world.height) ==> !#[trigger] taken(world, extra, p)
}

/// Whether a cell is covered by a snake, a fruit, or one of `extra`.
pub open spec fn taken(world: WorldView, extra: Seq<Position>, p: Position) -> bool {
    on_some_body(world.snakes, p) || fruit_at(world.fruits, p) || extra.contains(p)
}

/// How many fruits lie on `p`; exec form of `fruits_at`.
fn count_fruits_on(fruits: &Vec<Fruit>, p: Position) -> (r: usize)
    ensures
        r == fruits_at(fruits@, p),
{
    let mut count: usize = 0;
    let mut i: usize = 0;
    while i < fruits.len()
        invariant
            i <= fruits@.len(),
            count <= i,
            count == fruits_at(fruits@.take(i as int), p),
        decreases fruits@.len() - i,
    {
        assert(fruits@.take(i as int + 1).drop_last() =~= fruits@.take(i as int));
        if fruits[i].position == p {
            count = count + 1;
        }
        i = i + 1;
    }
    assert(fruits@.take(i as int) =~= fruits@);
    count
}

/// Draws cells at random until one is free of snakes, fruits and `extra`,
/// giving up after as many draws as the grid has cells.
fn find_random_empty_position(rng: &mut StdRng, world: &GameState, extra: &Vec<Position>) -> (r: Result<
    Position,
    GameError,
>)
    requires
        world@.width > 0,
        world@.height > 0,
    ensures
        r matches Ok(p) ==> in_grid(p, world@.width, world@.height) && !taken(world@, extra@, p),
        r matches Err(e) ==> e is Internal,
        grid_free(world@, extra@) ==> r is Ok,
{
    let gw = world.grid_width as u64;
    let gh = world.grid_height as u64;
    assert(1 <= gw * gh <= 0x4000_0000_0000_0000) by (nonlinear_arith)
        requires
            1 <= gw <= 0x8000_0000,
            1 <= gh <= 0x8000_0000,
    ;
    let max_attempts: u64 = gw * gh;
    let occupied = world.occupied_positions();
    let mut attempts: u64 = 0;
    while attempts < max_attempts
        invariant
            world@.width > 0,
            world@.height > 0,
            forall|p: Position| #[trigger] occupied@.contains(p) <==> world.occupied(p),
            grid_free(world@, extra@) ==> attempts == 0,
        decreases max_attempts - attempts,
    {
        let x = draw_below(rng, world.grid_width);
        let y = draw_below(rng, world.grid_height);
        let position = Position::new(x, y);
        let busy = listed(&occupied, position) || listed(extra, position);
        assert(in_grid(position, world@.width, world@.height));
        assert(grid_free(world@, extra@) ==> !taken(world@, extra@, position));
        assert(busy ==> world.occupied(position) || extra@.contains(position));
        if !busy {
            return Ok(position);
        }
        attempts = attempts + 1;
    }
    Err(GameError::Internal(String::from_str("No empty positions available")))
}

/// A spawn timer after one tick; it stops at its largest value.
pub open spec fn bumped(t: u32) -> u32 {
    if t < u32::MAX {
        (t + 1) as u32
    } else {
        t
    }
}

/// The fruits after `before.len()` were placed during this tick: each on the
/// grid, on no snake's body, apart from every earlier fruit, stamped `tick`.
pub open spec fn freshly_placed(before: Seq<Fruit>, after: Seq<Fruit>, snakes: Seq<SnakeView>, tick: nat, w: int, h: int) -> bool {
    &&& before.len() <= after.len()
    &&& after.take(before.len() as int) == before
    &&& forall|k: int|
        before.len() <= k < after.len() ==> {
            &&& in_grid((#[trigger] after[k]).position, w, h)
            &&& !on_some_body(snakes, after[k].position)
            &&& !fruit_at(after.take(k), after[k].position)
            &&& after[k].spawn_tick == tick
        }
}

/// The spawn timers after a tick: each one advanced, or reset to zero by a
/// slot that was due and placed a fruit; new slots, up to the fruit cap, at zero.
pub open spec fn timers_advanced(before: Seq<u32>, after: Seq<u32>, cap: int) -> bool {
    &&& after.len() == if before.len() < cap { cap } else { before.len() as int }
    &&& forall|i: int|
        0 <= i < before.len() ==> (#[trigger] after[i]) == bumped(before[i]) || (after[i] == 0
            && bumped(before[i]) >= FRUIT_SPAWN_DELAY_TICKS)
    &&& forall|i: int| before.len() <= i < after.len() ==> (#[trigger] after[i]) == 0
}

/// The snakes after movement, collisions and eating.
pub open spec fn ticked_snakes(world: WorldView, moves: Map<u128, Direction>) -> Seq<SnakeView> {
    feed_phase(
        collision_phase(move_phase(world.snakes, moves, world.width, world.height)),
        world.fruits,
    )
}

/// The fruits left after eating.
pub open spec fn ticked_fruits(world: WorldView, moves: Map<u128, Direction>) -> Seq<Fruit> {
    uneaten(collision_phase(move_phase(world.snakes, moves, world.width, world.height)), world.fruits)
}

/// `after` is `before` advanced by one tick under `moves`: snakes moved,
/// collided and fed; uneaten fruits kept and new ones placed on free cells;
/// the game ended with its winner when it is over; the counter advanced.
pub open spec fn tick_outcome(before: WorldView, moves: Map<u128, Direction>, after: WorldView) -> bool {
    let snakes = ticked_snakes(before, moves);
    &&& after.snakes == snakes
    &&& freshly_placed(ticked_fruits(before, moves), after.fruits, snakes, before.tick, before.width, before.height)
    &&& after.width == before.width
    &&& after.height == before.height
    &&& after.tick == before.tick + 1
    &&& after.fruits.len() <= fruit_cap(before.snakes.len() as int)
    &&& game_over(snakes) ==> !after.running && after.winner == winner_of(snakes)
    &&& !game_over(snakes) ==> after.running && after.winner == before.winner
}

/// The first snake with id `id`.
pub open spec fn snake_with_id(snakes: Seq<SnakeView>, id: u128) -> Option<SnakeView>
    decreases snakes.len(),
{
    if snakes.len() == 0 {
        None
    } else {
        match snake_with_id(snakes.drop_last(), id) {
            Some(s) => Some(s),
            None => if snakes.last().id == id {
                Some(snakes.last())
            } else {
                None
            },
        }
    }
}

/// The greatest length among the snakes, zero for none.
pub open spec fn longest(snakes: Seq<SnakeView>) -> nat
    decreases snakes.len(),
{
    if snakes.len() == 0 {
        0
    } else {
        let rest = longest(snakes.drop_last());
        if snakes.last().length > rest {
            snakes.last().length
        } else {
            rest
        }
    }
}

/// Figures for monitoring a game.
#[derive(Debug, Clone, Copy, PartialEq, Eq, Structural)]
pub struct GameStats {
    pub tick: u64,
    pub alive_snakes: usize,
    pub total_snakes: usize,
    pub fruits_on_board: usize,
    pub longest_snake_length: usize,
    pub is_running: bool,
    pub winner_id: Option<u128>,
}

/// How many of the first `n` slots stand at zero.
pub open spec fn reset_count(timers: Seq<u32>, n: int) -> nat
    decreases n,
{
    if n <= 0 {
        0
    } else {
        reset_count(timers, n - 1) + if timers[n - 1] == 0 {
            1nat
        } else {
            0nat
        }
    }
}

/// The outcome of the spawning phase, from timers `t0` and fruits `f0` to
/// timers `t1` and fruits `f1`, with `cap` fruits allowed: timers advanced;
/// a slot restarted exactly when it placed one of the new fruits; nothing
/// placed when the board was full or no slot was due.
pub open spec fn spawn_outcome(t0: Seq<u32>, t1: Seq<u32>, f0: Seq<Fruit>, f1: Seq<Fruit>, cap: int) -> bool {
    &&& timers_advanced(t0, t1, cap)
    &&& f1.len() == f0.len() + reset_count(t1, t0.len() as int)
    &&& f0.len() >= cap ==> f1 == f0
    &&& (forall|i: int| 0 <= i < t0.len() ==> bumped(#[trigger] t0[i]) < FRUIT_SPAWN_DELAY_TICKS) ==> f1 == f0
}

/// The count of restarted slots depends on the first `n` slots alone.
pub proof fn lemma_reset_count_prefix(a: Seq<u32>, b: Seq<u32>, n: int)
    requires
        0 <= n <= a.len(),
        n <= b.len(),
        forall|q: int| 0 <= q < n ==> a[q] == b[q],
    ensures
        reset_count(a, n) == reset_count(b, n),
    decreases n,
{
    if n > 0 {
        lemma_reset_count_prefix(a, b, n - 1);
    }
}

/// Without a slot at zero the count is zero.
pub proof fn lemma_reset_count_none(a: Seq<u32>, n: int)
    requires
        0 <= n <= a.len(),
        forall|q: int| 0 <= q < n ==> a[q] != 0,
    ensures
        reset_count(a, n) == 0,
    decreases n,
{
    if n > 0 {
        lemma_reset_count_none(a, n - 1);
    }
}

/// The view of a vector of snakes.
pub open spec fn snakes_view(snakes: Seq<Snake>) -> Seq<SnakeView> {
    snakes.map_values(|s: Snake| s@)
}

/// Whether a living snake other than `i` has its head on `p`.
fn other_living_head_at(snakes: &Vec<Snake>, i: usize, p: Position) -> (r: bool)
    requires
        forall|j: int| 0 <= j < snakes@.len() ==> (#[trigger] snakes@[j]).body@.len() >= 1,
    ensures
        r == exists|j: int|
            0 <= j < snakes@.len() && j != i && (#[trigger] snakes_view(snakes@)[j]).alive && head_of(
                snakes_view(snakes@)[j],
            ) == p,
{
    let ghost sv = snakes_view(snakes@);
    let mut j: usize = 0;
    while j < snakes.len()
        invariant
            sv == snakes_view(snakes@),
            j <= snakes@.len(),
            forall|q: int| 0 <= q < snakes@.len() ==> (#[trigger] snakes@[q]).body@.len() >= 1,
            forall|q: int|
                0 <= q < j && q != i ==> !((#[trigger] sv[q]).alive && head_of(sv[q]) == p),
        decreases snakes@.len() - j,
    {
        assert(sv[j as int] == snakes@[j as int]@);
        if j != i && snakes[j].is_alive && snakes[j].body[0] == p {
            return true;
        }
        j = j + 1;
    }
    false
}

/// Whether a dead snake other than `i` has its head on `p`.
fn other_dead_head_at(snakes: &Vec<Snake>, i: usize, p: Position) -> (r: bool)
    requires
        forall|j: int| 0 <= j < snakes@.len() ==> (#[trigger] snakes@[j]).body@.len() >= 1,
    ensures
        r == exists|j: int|
            0 <= j < snakes@.len() && j != i && !(#[trigger] snakes_view(snakes@)[j]).alive && head_of(
                snakes_view(snakes@)[j],
            ) == p,
{
    let ghost sv = snakes_view(snakes@);
    let mut j: usize = 0;
    while j < snakes.len()
        invariant
            sv == snakes_view(snakes@),
            j <= snakes@.len(),
            forall|q: int| 0 <= q < snakes@.len() ==> (#[trigger] snakes@[q]).body@.len() >= 1,
            forall|q: int|
                0 <= q < j && q != i ==> !(!(#[trigger] sv[q]).alive && head_of(sv[q]) == p),
        decreases snakes@.len() - j,
    {
        assert(sv[j as int] == snakes@[j as int]@);
        if j != i && !snakes[j].is_alive && snakes[j].body[0] == p {
            return true;
        }
        j = j + 1;
    }
    false
}

/// Whether some snake's tail covers `p`.
fn tail_covers(snakes: &Vec<Snake>, p: Position) -> (r: bool)
    ensures
        r == exists|j: int, k: int|
            0 <= j < snakes@.len() && 1 <= k < snakes_view(snakes@)[j].body.len()
                && #[trigger] snakes_view(snakes@)[j].body[k] == p,
{
    let ghost sv = snakes_view(snakes@);
    let mut j: usize = 0;
    while j < snakes.len()
        invariant
            sv == snakes_view(snakes@),
            j <= snakes@.len(),
            forall|q: int, k: int|
                0 <= q < j && 1 <= k < sv[q].body.len() ==> #[trigger] sv[q].body[k] != p,
        decreases snakes@.len() - j,
    {
        assert(sv[j as int] == snakes@[j as int]@);
        let body = &snakes[j].body;
        let mut k: usize = 1;
        while k < body.len()
            invariant
                sv == snakes_view(snakes@),
                j < snakes@.len(),
                body == snakes@[j as int].body,
                1 <= k,
                forall|q: int, c: int|
                    0 <= q < j && 1 <= c < sv[q].body.len() ==> #[trigger] sv[q].body[c] != p,
                forall|c: int| 1 <= c < k && c < body@.len() ==> body@[c] != p,
            decreases body@.len() - k,
        {
            if body[k] == p {
                assert(sv[j as int].body[k as int] == p);
                return true;
            }
            k = k + 1;
        }
        j = j + 1;
    }
    false
}

/// Whether a living snake's head is on `p`; exec form of `living_head_at`.
fn living_head_on(snakes: &Vec<Snake>, p: Position) -> (r: bool)
    requires
        forall|j: int| 0 <= j < snakes@.len() ==> (#[trigger] snakes@[j]).body@.len() >= 1,
    ensures
        r == living_head_at(snakes_view(snakes@), p),
{
    let ghost sv = snakes_view(snakes@);
    let mut j: usize = 0;
    while j < snakes.len()
        invariant
            sv == snakes_view(snakes@),
            j <= snakes@.len(),
            forall|q: int| 0 <= q < snakes@.len() ==> (#[trigger] snakes@[q]).body@.len() >= 1,
            forall|q: int| 0 <= q < j ==> !((#[trigger] sv[q]).alive && head_of(sv[q]) == p),
        decreases snakes@.len() - j,
    {
        assert(sv[j as int] == snakes@[j as int]@);
        if snakes[j].is_alive && snakes[j].body[0] == p {
            return true;
        }
        j = j + 1;
    }
    false
}

/// Whether snake `i` dies in the collision phase; exec form of `crashes`.
fn crashes_at(snakes: &Vec<Snake>, i: usize) -> (r: bool)
    requires
        i < snakes@.len(),
        forall|j: int| 0 <= j < snakes@.len() ==> (#[trigger] snakes@[j]).body@.len() >= 1,
    ensures
        r == crashes(snakes_view(snakes@), i as int),
{
    let ghost sv = snakes_view(snakes@);
    assert(sv[i as int] == snakes@[i as int]@);
    if !snakes[i].is_alive {
        return false;
    }
    let head = snakes[i].body[0];
    other_living_head_at(snakes, i, head) || tail_covers(snakes, head) || other_dead_head_at(
        snakes,
        i,
        head,
    )
}

/// The engine: the world, the generator that places snakes and fruits, and
/// one spawn timer per fruit slot.
pub struct GameEngine {
    pub state: GameState,
    pub rng: StdRng,
    /// Ticks since each fruit slot last placed a fruit.
    pub fruit_spawn_timer: Vec<u32>,
}

impl GameEngine {
    /// The engine's invariant: its world is well formed.
    pub open spec fn wf(&self) -> bool {
        world_ok(self.state@)
    }

    /// The fruit slots' timers.
    pub open spec fn timers(&self) -> Seq<u32> {
        self.fruit_spawn_timer@
    }

    /// An idle engine on the default grid, seeded by the operating system; when
    /// the operating system supplies no entropy, seeded by zero instead.
    pub fn new() -> (r: GameEngine)
        ensures
            r.wf(),
            r.state@ == GameState::new_view(),
            r.timers().len() == 0,
    {
        let rng = match rng_from_os() {
            Some(rng) => rng,
            None => rng_from_seed(0),
        };
        GameEngine { state: GameState::new(), rng, fruit_spawn_timer: Vec::new() }
    }

    /// An idle engine on the default grid whose random choices are fixed by `seed`.
    pub fn with_seed(seed: u64) -> (r: GameEngine)
        ensures
            r.wf(),
            r.state@ == GameState::new_view(),
            r.timers().len() == 0,
    {
        GameEngine { state: GameState::new(), rng: rng_from_seed(seed), fruit_spawn_timer: Vec::new() }
    }

    /// Starts a game: one length-one snake per player, in the players' order,
    /// each on a random free cell; no fruit; one spawn slot per fruit the
    /// board may hold, staggered. When no free cell turns up the world is
    /// left as it was.
    pub fn initialize_game(&mut self, players: &Vec<LobbyPlayer>) -> (r: Result<(), GameError>)
        requires
            old(self).wf(),
            player_ids_unique(players@),
        ensures
            final(self).wf(),
            r is Ok ==> exists|cells: Seq<Position>|
                placement_ok(cells, players@.len() as int, old(self).state@.width, old(self).state@.height)
                    && final(self).state@ == #[trigger] initial_world(
                    players@,
                    cells,
                    old(self).state@.width,
                    old(self).state@.height,
                ),
            r is Ok ==> final(self).timers() == initial_timers(players@.len() as int),
            players@.len() <= 1 ==> r is Ok,
            r matches Err(e) ==> e is Internal && final(self).state@ == old(self).state@
                && final(self).timers() == old(self).timers(),
    {
        let w = self.state.grid_width;
        let h = self.state.grid_height;
        let mut fresh = GameState::with_grid(w, h);
        let mut placed: Vec<Position> = Vec::new();
        let mut i: usize = 0;
        while i < players.len()
            invariant
                i <= players@.len(),
                placement_ok(placed@, i as int, w as int, h as int),
                fresh@.snakes.len() == 0,
                fresh@.fruits.len() == 0,
                fresh@.width == w,
                fresh@.height == h,
                w > 0,
                h > 0,
                w == old(self).state.grid_width,
                h == old(self).state.grid_height,
                self.state == old(self).state,
                self.fruit_spawn_timer == old(self).fruit_spawn_timer,
                world_ok(self.state@),
            decreases players@.len() - i,
        {
            proof {
                if i == 0 {
                    assert(grid_free(fresh@, placed@));
                }
            }
            match find_random_empty_position(&mut self.rng, &fresh, &placed) {
                Ok(position) => {
                    placed.push(position);
                },
                Err(e) => {
                    assert(players@.len() > 1);
                    return Err(e);
                },
            }
            i = i + 1;
        }
        let mut snakes: Vec<Snake> = Vec::new();
        let mut k: usize = 0;
        while k < players.len()
            invariant
                k <= players@.len(),
                placed@.len() == players@.len(),
                snakes@.len() == k,
                forall|j: int|
                    0 <= j < k ==> (#[trigger] snakes@[j])@ == starting_snake(players@[j], placed@[j]),
            decreases players@.len() - k,
        {
            let player = &players[k];
            let snake = Snake::new(player.id, player.name.clone(), placed[k], player.color_index);
            snakes.push(snake);
            k = k + 1;
        }
        fresh.snakes = snakes;
        fresh.is_running = true;
        self.state = fresh;
        self.initialize_fruit_spawning();
        proof {
            let iw = initial_world(players@, placed@, w as int, h as int);
            assert(self.state@.snakes =~= iw.snakes);
            assert(self.state@.fruits =~= iw.fruits);
            assert(self.state@ == iw);
            assert(self.wf()) by {
                assert forall|a: int, b: int|
                    0 <= a < iw.snakes.len() && 0 <= b < iw.snakes.len() && a != b
                        implies (#[trigger] iw.snakes[a]).id != (#[trigger] iw.snakes[b]).id by {
                    assert(players@[a].id != players@[b].id);
                }
                assert forall|a: int, b: int|
                    0 <= a < iw.snakes.len() && 0 <= b < iw.snakes.len() && a != b
                        && (#[trigger] iw.snakes[a]).alive && (#[trigger] iw.snakes[b]).alive
                        implies head_of(iw.snakes[a]) != head_of(iw.snakes[b]) by {
                    assert(placed@[a] != placed@[b]);
                }
                assert forall|a: int| 0 <= a < iw.snakes.len() implies {
                    &&& 1 <= (#[trigger] iw.snakes[a]).body.len() == iw.snakes[a].length
                    &&& forall|c: int| 0 <= c < iw.snakes[a].body.len() ==> in_grid(iw.snakes[a].body[c], w as int, h as int)
                } by {
                    assert(in_grid(placed@[a], w as int, h as int));
                }
            }
        }
        Ok(())
    }

    /// Opens one spawn slot per fruit the board may hold, slot `i` starting at `i`.
    fn initialize_fruit_spawning(&mut self)
        ensures
            final(self).state == old(self).state,
            final(self).timers() == initial_timers(old(self).state@.snakes.len() as int),
    {
        let player_count = self.state.snakes.len();
        let fruit_count: usize = if player_count > 1 {
            player_count - 1
        } else {
            0
        };
        let mut timers: Vec<u32> = Vec::new();
        let mut i: usize = 0;
        while i < fruit_count
            invariant
                i <= fruit_count,
                timers@ == Seq::new(i as nat, |j: int| j as u32),
            decreases fruit_count - i,
        {
            timers.push(i as u32);
            i = i + 1;
            assert(timers@ =~= Seq::new(i as nat, |j: int| j as u32));
        }
        self.fruit_spawn_timer = timers;
        assert(self.timers() =~= initial_timers(old(self).state@.snakes.len() as int));
    }

    /// Movement phase: each living snake advances in its submitted direction,
    /// or dies in place when its move is missing or reverses it.
    fn move_snakes(&mut self, moves: &HashMap<u128, Direction>)
        requires
            old(self).wf(),
        ensures
            final(self).state@ == (WorldView {
                snakes: move_phase(old(self).state@.snakes, moves@, old(self).state@.width, old(self).state@.height),
                ..old(self).state@
            }),
            final(self).fruit_spawn_timer == old(self).fruit_spawn_timer,
    {
        let ghost s0 = self.state@.snakes;
        let w = self.state.grid_width;
        let h = self.state.grid_height;
        let ghost target = move_phase(s0, moves@, w as int, h as int);
        let mut i: usize = 0;
        while i < self.state.snakes.len()
            invariant
                s0 == old(self).state@.snakes,
                target == move_phase(s0, moves@, w as int, h as int),
                w == old(self).state.grid_width,
                h == old(self).state.grid_height,
                world_ok(old(self).state@),
                i <= self.state.snakes@.len(),
                self.state.snakes@.len() == s0.len(),
                forall|k: int| 0 <= k < i ==> (#[trigger] self.state@.snakes[k]) == target[k],
                forall|k: int| i <= k < s0.len() ==> (#[trigger] self.state@.snakes[k]) == s0[k],
                self.state@ == (WorldView { snakes: self.state@.snakes, ..old(self).state@ }),
                self.fruit_spawn_timer == old(self).fruit_spawn_timer,
            decreases s0.len() - i,
        {
            assert(self.state@.snakes[i as int] == self.state.snakes@[i as int]@);
            let ghost before = self.state.snakes@;
            let id = self.state.snakes[i].id;
            if self.state.snakes[i].is_alive {
                match moves.get(&id) {
                    Some(d) => {
                        let d = *d;
                        if self.state.snakes[i].allows_move(d) {
                            proof {
                                assert(in_grid(s0[i as int].body[0], w as int, h as int));
                            }
                            self.state.snakes[i].move_snake(d, w, h, false);
                        } else {
                            self.state.snakes[i].kill();
                        }
                    },
                    None => {
                        self.state.snakes[i].kill();
                    },
                }
            }
            proof {
                assert(self.state@.snakes[i as int] == target[i as int]);
                assert forall|k: int| 0 <= k < s0.len() && k != i implies (#[trigger] self.state@.snakes[k])
                    == before.map_values(|s: Snake| s@)[k] by {
                    assert(self.state.snakes@[k] == before[k]);
                    assert(self.state@.snakes[k] == self.state.snakes@[k]@);
                }
            }
            i = i + 1;
        }
        assert(self.state@.snakes =~= target);
    }

    /// Collision phase: every living snake whose head meets another living
    /// head, a tail, or a dead snake's head dies; all are judged on the
    /// positions before any of them dies.
    fn handle_collisions(&mut self)
        requires
            forall|j: int| 0 <= j < old(self).state.snakes@.len() ==> (#[trigger] old(self).state.snakes@[j]).body@.len() >= 1,
        ensures
            final(self).state@ == (WorldView {
                snakes: collision_phase(old(self).state@.snakes),
                ..old(self).state@
            }),
            final(self).fruit_spawn_timer == old(self).fruit_spawn_timer,
    {
        let ghost s0 = self.state@.snakes;
        let ghost target = collision_phase(s0);
        let mut doomed: Vec<bool> = Vec::new();
        let mut i: usize = 0;
        while i < self.state.snakes.len()
            invariant
                s0 == old(self).state@.snakes,
                self.state == old(self).state,
                self.fruit_spawn_timer == old(self).fruit_spawn_timer,
                i <= s0.len(),
                doomed@.len() == i,
                forall|j: int| 0 <= j < self.state.snakes@.len() ==> (#[trigger] self.state.snakes@[j]).body@.len() >= 1,
                forall|k: int| 0 <= k < i ==> doomed@[k] == crashes(s0, k),
            decreases s0.len() - i,
        {
            let c = crashes_at(&self.state.snakes, i);
            doomed.push(c);
            i = i + 1;
        }
        let mut i: usize = 0;
        while i < self.state.snakes.len()
            invariant
                s0 == old(self).state@.snakes,
                target == collision_phase(s0),
                doomed@.len() == s0.len(),
                forall|k: int| 0 <= k < s0.len() ==> doomed@[k] == crashes(s0, k),
                i <= self.state.snakes@.len(),
                self.state.snakes@.len() == s0.len(),
                forall|k: int| 0 <= k < i ==> (#[trigger] self.state@.snakes[k]) == target[k],
                forall|k: int| i <= k < s0.len() ==> (#[trigger] self.state@.snakes[k]) == s0[k],
                self.state@ == (WorldView { snakes: self.state@.snakes, ..old(self).state@ }),
                self.fruit_spawn_timer == old(self).fruit_spawn_timer,
            decreases s0.len() - i,
        {
            assert(self.state@.snakes[i as int] == self.state.snakes@[i as int]@);
            let ghost before = self.state.snakes@;
            if doomed[i] {
                self.state.snakes[i].kill();
            }
            proof {
                assert(self.state@.snakes[i as int] == target[i as int]);
                assert forall|k: int| 0 <= k < s0.len() && k != i implies (#[trigger] self.state@.snakes[k])
                    == before.map_values(|s: Snake| s@)[k] by {
                    assert(self.state.snakes@[k] == before[k]);
                    assert(self.state@.snakes[k] == self.state.snakes@[k]@);
                }
            }
            i = i + 1;
        }
        assert(self.state@.snakes =~= target);
    }

    /// Eating phase: a fruit under a living head is removed and that snake
    /// grows by one.
    fn handle_fruit_consumption(&mut self)
        requires
            forall|j: int| 0 <= j < old(self).state.snakes@.len() ==> (#[trigger] old(self).state.snakes@[j]).body@.len() >= 1,
            living_short(old(self).state@.snakes),
            fruits_ok(old(self).state@.fruits, old(self).state@.width, old(self).state@.height),
        ensures
            final(self).state@ == (WorldView {
                snakes: feed_phase(old(self).state@.snakes, old(self).state@.fruits),
                fruits: uneaten(old(self).state@.snakes, old(self).state@.fruits),
                ..old(self).state@
            }),
            final(self).fruit_spawn_timer == old(self).fruit_spawn_timer,
    {
        let ghost s0 = self.state@.snakes;
        let ghost f0 = self.state@.fruits;
        let mut kept: Vec<Fruit> = Vec::new();
        let mut k: usize = 0;
        while k < self.state.fruits.len()
            invariant
                s0 == old(self).state@.snakes,
                f0 == old(self).state@.fruits,
                self.state == old(self).state,
                self.fruit_spawn_timer == old(self).fruit_spawn_timer,
                forall|j: int| 0 <= j < self.state.snakes@.len() ==> (#[trigger] self.state.snakes@[j]).body@.len() >= 1,
                k <= f0.len(),
                kept@ == uneaten(s0, f0.take(k as int)),
            decreases f0.len() - k,
        {
            let fruit = self.state.fruits[k];
            let on_head = living_head_on(&self.state.snakes, fruit.position);
            if !on_head {
                kept.push(fruit);
            }
            proof {
                assert(f0.take(k as int + 1) =~= f0.take(k as int).push(fruit));
                f0.take(k as int).lemma_filter_push(fruit, |f: Fruit| !living_head_at(s0, f.position));
            }
            k = k + 1;
        }
        assert(f0.take(k as int) =~= f0);
        let ghost target = feed_phase(s0, f0);
        let mut i: usize = 0;
        while i < self.state.snakes.len()
            invariant
                s0 == old(self).state@.snakes,
                f0 == old(self).state@.fruits,
                target == feed_phase(s0, f0),
                living_short(s0),
                fruits_ok(f0, old(self).state@.width, old(self).state@.height),
                forall|j: int| 0 <= j < s0.len() ==> (#[trigger] old(self).state.snakes@[j]).body@.len() >= 1,
                i <= self.state.snakes@.len(),
                self.state.snakes@.len() == s0.len(),
                forall|q: int| 0 <= q < i ==> (#[trigger] self.state@.snakes[q]) == target[q],
                forall|q: int| i <= q < s0.len() ==> (#[trigger] self.state@.snakes[q]) == s0[q],
                self.state@ == (WorldView { snakes: self.state@.snakes, ..old(self).state@ }),
                self.fruit_spawn_timer == old(self).fruit_spawn_timer,
            decreases s0.len() - i,
        {
            assert(self.state@.snakes[i as int] == self.state.snakes@[i as int]@);
            assert(old(self).state.snakes@[i as int]@ == s0[i as int]);
            let ghost before = self.state.snakes@;
            if self.state.snakes[i].is_alive {
                let head = self.state.snakes[i].body[0];
                let count = count_fruits_on(&self.state.fruits, head);
                proof {
                    lemma_fruits_at_most_one(f0, head);
                }
                if count > 0 {
                    self.state.snakes[i].grow_by(count);
                }
            }
            proof {
                assert(self.state@.snakes[i as int] == target[i as int]);
                assert forall|q: int| 0 <= q < s0.len() && q != i implies (#[trigger] self.state@.snakes[q])
                    == before.map_values(|s: Snake| s@)[q] by {
                    assert(self.state.snakes@[q] == before[q]);
                    assert(self.state@.snakes[q] == self.state.snakes@[q]@);
                }
            }
            i = i + 1;
        }
        assert(self.state@.snakes =~= target);
        self.state.fruits = kept;
    }

    /// Spawning phase: every timer advances; each due slot, while the board
    /// holds fewer fruits than the cap, places a fruit on a random free cell
    /// and restarts; slots are added up to the cap.
    fn spawn_fruits(&mut self)
        requires
            old(self).state@.width > 0,
            old(self).state@.height > 0,
            fruits_ok(old(self).state@.fruits, old(self).state@.width, old(self).state@.height),
        ensures
            final(self).state@ == (WorldView { fruits: final(self).state@.fruits, ..old(self).state@ }),
            freshly_placed(
                old(self).state@.fruits,
                final(self).state@.fruits,
                old(self).state@.snakes,
                old(self).state@.tick,
                old(self).state@.width,
                old(self).state@.height,
            ),
            fruits_ok(final(self).state@.fruits, old(self).state@.width, old(self).state@.height),
            final(self).state@.fruits.len() <= old(self).state@.fruits.len() || final(self).state@.fruits.len()
                <= fruit_cap(old(self).state@.snakes.len() as int),
            spawn_outcome(
                old(self).timers(),
                final(self).timers(),
                old(self).state@.fruits,
                final(self).state@.fruits,
                fruit_cap(old(self).state@.snakes.len() as int),
            ),
    {
        let ghost f0 = self.state@.fruits;
        let ghost t0 = self.fruit_spawn_timer@;
        let player_count = self.state.snakes.len();
        let max_fruits: usize = if player_count > 1 {
            player_count - 1
        } else {
            0
        };
        let mut i: usize = 0;
        while i < self.fruit_spawn_timer.len()
            invariant
                self.state == old(self).state,
                t0 == old(self).fruit_spawn_timer@,
                i <= t0.len(),
                self.fruit_spawn_timer@.len() == t0.len(),
                forall|q: int| 0 <= q < i ==> (#[trigger] self.fruit_spawn_timer@[q]) == bumped(t0[q]),
                forall|q: int| i <= q < t0.len() ==> (#[trigger] self.fruit_spawn_timer@[q]) == t0[q],
            decreases t0.len() - i,
        {
            let t = self.fruit_spawn_timer[i];
            let next: u32 = if t < u32::MAX {
                t + 1
            } else {
                t
            };
            self.fruit_spawn_timer.set(i, next);
            i = i + 1;
        }
        let ghost t1 = self.fruit_spawn_timer@;
        let no_extra: Vec<Position> = Vec::new();
        assert(f0.take(f0.len() as int) =~= f0);
        let mut i: usize = 0;
        while i < self.fruit_spawn_timer.len()
            invariant
                t0 == old(self).fruit_spawn_timer@,
                f0 == old(self).state@.fruits,
                no_extra@.len() == 0,
                old(self).state@.width > 0,
                old(self).state@.height > 0,
                max_fruits == fruit_cap(old(self).state@.snakes.len() as int),
                t1.len() == t0.len(),
                forall|q: int| 0 <= q < t0.len() ==> (#[trigger] t1[q]) == bumped(t0[q]),
                i <= t1.len(),
                self.fruit_spawn_timer@.len() == t1.len(),
                forall|q: int| 0 <= q < i ==> (#[trigger] self.fruit_spawn_timer@[q]) == t1[q] || (
                    self.fruit_spawn_timer@[q] == 0 && t1[q] >= FRUIT_SPAWN_DELAY_TICKS),
                forall|q: int| i <= q < t1.len() ==> (#[trigger] self.fruit_spawn_timer@[q]) == t1[q],
                self.state@ == (WorldView { fruits: self.state@.fruits, ..old(self).state@ }),
                freshly_placed(
                    f0,
                    self.state@.fruits,
                    old(self).state@.snakes,
                    old(self).state@.tick,
                    old(self).state@.width,
                    old(self).state@.height,
                ),
                fruits_ok(self.state@.fruits, old(self).state@.width, old(self).state@.height),
                self.state@.fruits.len() <= f0.len() || self.state@.fruits.len() <= max_fruits,
                self.state@.fruits.len() == f0.len() + reset_count(self.fruit_spawn_timer@, i as int),
                f0.len() >= max_fruits ==> self.state@.fruits.len() == f0.len(),
            decreases t1.len() - i,
        {
            let ghost tb = self.fruit_spawn_timer@;
            let ghost nb = self.state@.fruits.len();
            if self.fruit_spawn_timer[i] >= FRUIT_SPAWN_DELAY_TICKS && self.state.fruits.len() < max_fruits {
                match find_random_empty_position(&mut self.rng, &self.state, &no_extra) {
                    Ok(position) => {
                        let ghost fb = self.state@.fruits;
                        let fruit = Fruit::new(position, self.state.tick);
                        self.state.fruits.push(fruit);
                        self.fruit_spawn_timer.set(i, 0);
                        proof {
                            let fa = self.state@.fruits;
                            assert(fa.take(fb.len() as int) =~= fb);
                            assert(fa.take(f0.len() as int) =~= fb.take(f0.len() as int));
                            assert forall|k: int| f0.len() <= k < fa.len() implies {
                                &&& in_grid((#[trigger] fa[k]).position, old(self).state@.width, old(self).state@.height)
                                &&& !on_some_body(old(self).state@.snakes, fa[k].position)
                                &&& !fruit_at(fa.take(k), fa[k].position)
                                &&& fa[k].spawn_tick == old(self).state@.tick
                            } by {
                                if k < fb.len() {
                                    assert(fa.take(k) =~= fb.take(k));
                                    assert(fa[k] == fb[k]);
                                } else {
                                    assert(fa.take(k) =~= fb);
                                }
                            }
                            assert forall|a: int, b: int|
                                0 <= a < fa.len() && 0 <= b < fa.len() && a != b implies (#[trigger] fa[a]).position
                                    != (#[trigger] fa[b]).position by {
                                if a == fb.len() {
                                    assert(fb[b] == fa[b]);
                                } else if b == fb.len() {
                                    assert(fb[a] == fa[a]);
                                } else {
                                    assert(fb[a] == fa[a] && fb[b] == fa[b]);
                                }
                            }
                        }
                    },
                    Err(_) => {},
                }
            }
            proof {
                let ta = self.fruit_spawn_timer@;
                lemma_reset_count_prefix(ta, tb, i as int);
                assert(tb[i as int] == t1[i as int]);
                assert(t1[i as int] != 0);
                assert(self.state@.fruits.len() == nb + if ta[i as int] == 0 { 1int } else { 0int });
            }
            i = i + 1;
        }
        while self.fruit_spawn_timer.len() < max_fruits
            invariant
                t0 == old(self).fruit_spawn_timer@,
                t1.len() == t0.len(),
                forall|q: int| 0 <= q < t0.len() ==> (#[trigger] t1[q]) == bumped(t0[q]),
                t1.len() <= self.fruit_spawn_timer@.len(),
                self.fruit_spawn_timer@.len() <= t1.len() || self.fruit_spawn_timer@.len() <= max_fruits,
                forall|q: int| 0 <= q < t1.len() ==> (#[trigger] self.fruit_spawn_timer@[q]) == t1[q] || (
                    self.fruit_spawn_timer@[q] == 0 && t1[q] >= FRUIT_SPAWN_DELAY_TICKS),
                forall|q: int| t1.len() <= q < self.fruit_spawn_timer@.len() ==> (#[trigger] self.fruit_spawn_timer@[q]) == 0,
                self.state@.fruits.len() == f0.len() + reset_count(self.fruit_spawn_timer@, t0.len() as int),
                f0.len() >= max_fruits ==> self.state@.fruits.len() == f0.len(),
                self.state@ == (WorldView { fruits: self.state@.fruits, ..old(self).state@ }),
                freshly_placed(
                    f0,
                    self.state@.fruits,
                    old(self).state@.snakes,
                    old(self).state@.tick,
                    old(self).state@.width,
                    old(self).state@.height,
                ),
                f0 == old(self).state@.fruits,
                fruits_ok(self.state@.fruits, old(self).state@.width, old(self).state@.height),
                self.state@.fruits.len() <= f0.len() || self.state@.fruits.len() <= max_fruits,
            decreases max_fruits - self.fruit_spawn_timer@.len(),
        {
            let ghost tb = self.fruit_spawn_timer@;
            self.fruit_spawn_timer.push(0);
            proof {
                lemma_reset_count_prefix(self.fruit_spawn_timer@, tb, t0.len() as int);
            }
        }
        proof {
            let t2 = self.fruit_spawn_timer@;
            let f2 = self.state@.fruits;
            if f2.len() == f0.len() {
                assert(f2 =~= f0) by {
                    assert(f2.take(f0.len() as int) =~= f2);
                }
            }
            if forall|q: int| 0 <= q < t0.len() ==> bumped(#[trigger] t0[q]) < FRUIT_SPAWN_DELAY_TICKS {
                assert forall|q: int| 0 <= q < t0.len() implies t2[q] != 0 by {
                    assert(bumped(t0[q]) < FRUIT_SPAWN_DELAY_TICKS);
                }
                lemma_reset_count_none(t2, t0.len() as int);
            }
        }
    }

    /// Termination check: when the game is over, records the winner and stops.
    fn check_game_end(&mut self)
        ensures
            game_over(old(self).state@.snakes) ==> final(self).state@ == (WorldView {
                running: false,
                winner: winner_of(old(self).state@.snakes),
                ..old(self).state@
            }),
            !game_over(old(self).state@.snakes) ==> final(self).state == old(self).state,
            final(self).fruit_spawn_timer == old(self).fruit_spawn_timer,
    {
        if self.state.is_game_over() {
            self.state.winner = self.state.get_winner();
            self.state.is_running = false;
        }
    }

    /// Advances the running game by one tick: movement, collisions, eating,
    /// spawning, the termination check, then the counter. A stopped game is
    /// left untouched.
    pub fn process_tick(&mut self, moves: HashMap<u128, Direction>) -> (r: Result<(), GameError>)
        requires
            old(self).wf(),
            old(self).state@.tick < u64::MAX,
        ensures
            final(self).wf(),
            !old(self).state@.running ==> (r matches Err(GameError::GameNotRunning))
                && final(self).state@ == old(self).state@ && final(self).timers() == old(self).timers(),
            old(self).state@.running ==> r is Ok && tick_outcome(old(self).state@, moves@, final(self).state@)
                && spawn_outcome(
                old(self).timers(),
                final(self).timers(),
                ticked_fruits(old(self).state@, moves@),
                final(self).state@.fruits,
                fruit_cap(old(self).state@.snakes.len() as int),
            ),
            forall|i: int|
                0 <= i < final(self).state@.snakes.len() ==> (#[trigger] final(self).state@.snakes[i]).body.len()
                    >= 1 && final(self).state@.snakes[i].body.len() == final(self).state@.snakes[i].length,
            heads_distinct(final(self).state@.snakes),
            final(self).state@.snakes.len() == old(self).state@.snakes.len(),
            final(self).state@.fruits.len() <= fruit_cap(old(self).state@.snakes.len() as int),
            r is Ok ==> final(self).state@.tick == old(self).state@.tick + 1,
            winner_ok(final(self).state@.snakes, final(self).state@.winner),
    {
        if !self.state.is_running {
            return Err(GameError::GameNotRunning);
        }
        let ghost w0 = self.state@;
        let ghost t0 = self.fruit_spawn_timer@;
        let ghost w = w0.width;
        let ghost h = w0.height;
        proof {
            lemma_move_phase_keeps(w0.snakes, moves@, w, h);
        }
        self.move_snakes(&moves);
        let ghost s1 = self.state@.snakes;
        proof {
            assert forall|j: int| 0 <= j < self.state.snakes@.len() implies (#[trigger] self.state.snakes@[j]).body@.len() >= 1 by {
                assert(s1[j] == self.state.snakes@[j]@);
            }
        }
        self.handle_collisions();
        let ghost s2 = self.state@.snakes;
        proof {
            lemma_collisions_separate_heads(s1);
            assert(bodies_ok(s2, w, h)) by {
                assert forall|i: int| 0 <= i < s2.len() implies (#[trigger] s2[i]).body == s1[i].body && s2[i].length == s1[i].length by {}
            }
            assert(living_short(s2)) by {
                assert forall|i: int| 0 <= i < s2.len() && (#[trigger] s2[i]).alive implies s2[i].length < WINNING_SNAKE_LENGTH by {
                    assert(s1[i].alive);
                    assert(w0.snakes[i].alive);
                }
            }
            assert forall|j: int| 0 <= j < self.state.snakes@.len() implies (#[trigger] self.state.snakes@[j]).body@.len() >= 1 by {
                assert(s2[j] == self.state.snakes@[j]@);
            }
        }
        self.handle_fruit_consumption();
        let ghost s3 = self.state@.snakes;
        proof {
            lemma_feed_phase_keeps(s2, w0.fruits, w, h);
            lemma_filter_fruits_ok(w0.fruits, |f: Fruit| !living_head_at(s2, f.position), w, h);
        }
        self.spawn_fruits();
        let ghost s4 = self.state@;
        self.check_game_end();
        self.state.tick = self.state.tick + 1;
        proof {
            let fin = self.state@;
            assert(s3 == ticked_snakes(w0, moves@));
            assert(ids_unique(s3)) by {
                assert forall|a: int, b: int| 0 <= a < s3.len() && 0 <= b < s3.len() && a != b
                    implies (#[trigger] s3[a]).id != (#[trigger] s3[b]).id by {
                    assert(s3[a].id == w0.snakes[a].id);
                    assert(s3[b].id == w0.snakes[b].id);
                }
            }
            assert(heads_distinct(s3)) by {
                assert forall|a: int, b: int| 0 <= a < s3.len() && 0 <= b < s3.len() && a != b
                    && (#[trigger] s3[a]).alive && (#[trigger] s3[b]).alive
                    implies head_of(s3[a]) != head_of(s3[b]) by {
                    assert(s2[a].alive && s2[b].alive);
                }
            }
            if game_over(s3) {
                lemma_winner_of_ok(s3);
            } else {
                lemma_no_long_winner_short(s3);
            }
            assert(world_ok(fin));
        }
        Ok(())
    }

    /// Index of the first snake with id `snake_id`.
    fn find_snake(&self, snake_id: u128) -> (r: Option<usize>)
        ensures
            r matches Some(i) ==> i < self.state@.snakes.len() && snake_with_id(self.state@.snakes, snake_id)
                == Some(self.state@.snakes[i as int]),
            r is None ==> snake_with_id(self.state@.snakes, snake_id) is None,
    {
        let ghost sv = self.state@.snakes;
        let mut i: usize = 0;
        while i < self.state.snakes.len()
            invariant
                sv == self.state@.snakes,
                i <= sv.len(),
                snake_with_id(sv.take(i as int), snake_id) is None,
            decreases sv.len() - i,
        {
            assert(sv.take(i as int + 1).drop_last() =~= sv.take(i as int));
            assert(sv[i as int] == self.state.snakes@[i as int]@);
            if self.state.snakes[i].id == snake_id {
                proof {
                    lemma_snake_with_id_prefix(sv, snake_id, i as int + 1);
                }
                return Some(i);
            }
            i = i + 1;
        }
        assert(sv.take(i as int) =~= sv);
        None
    }

    /// The directions the snake `snake_id` may take; none when it is dead or absent.
    pub fn get_valid_moves(&self, snake_id: u128) -> (r: Vec<Direction>)
        ensures
            match snake_with_id(self.state@.snakes, snake_id) {
                Some(s) => if s.alive {
                    r@ == valid_dirs(s)
                } else {
                    r@.len() == 0
                },
                None => r@.len() == 0,
            },
    {
        match self.find_snake(snake_id) {
            Some(i) => {
                assert(self.state@.snakes[i as int] == self.state.snakes@[i as int]@);
                if self.state.snakes[i].is_alive {
                    self.state.snakes[i].valid_directions()
                } else {
                    Vec::new()
                }
            },
            None => Vec::new(),
        }
    }

    /// Whether the snake `snake_id` exists and lives.
    pub fn is_snake_alive(&self, snake_id: u128) -> (r: bool)
        ensures
            r == (snake_with_id(self.state@.snakes, snake_id) matches Some(s) && s.alive),
    {
        match self.find_snake(snake_id) {
            Some(i) => {
                assert(self.state@.snakes[i as int] == self.state.snakes@[i as int]@);
                self.state.snakes[i].is_alive
            },
            None => false,
        }
    }

    /// The current world.
    pub fn get_game_state(&self) -> (r: &GameState)
        ensures
            r == &self.state,
    {
        &self.state
    }

    /// Counts and flags describing the current game.
    pub fn get_game_stats(&self) -> (r: GameStats)
        ensures
            r.tick == self.state.tick,
            r.alive_snakes == alive_ids(self.state@.snakes).len(),
            r.total_snakes == self.state@.snakes.len(),
            r.fruits_on_board == self.state@.fruits.len(),
            r.longest_snake_length == longest(self.state@.snakes),
            r.is_running == self.state.is_running,
            r.winner_id == self.state.winner,
    {
        let ghost sv = self.state@.snakes;
        let alive = self.state.living_ids();
        let mut best: usize = 0;
        let mut i: usize = 0;
        while i < self.state.snakes.len()
            invariant
                sv == self.state@.snakes,
                i <= sv.len(),
                best == longest(sv.take(i as int)),
            decreases sv.len() - i,
        {
            assert(sv.take(i as int + 1).drop_last() =~= sv.take(i as int));
            assert(sv[i as int] == self.state.snakes@[i as int]@);
            if self.state.snakes[i].length > best {
                best = self.state.snakes[i].length;
            }
            i = i + 1;
        }
        assert(sv.take(i as int) =~= sv);
        GameStats {
            tick: self.state.tick,
            alive_snakes: alive.len(),
            total_snakes: self.state.snakes.len(),
            fruits_on_board: self.state.fruits.len(),
            longest_snake_length: best,
            is_running: self.state.is_running,
            winner_id: self.state.winner,
        }
    }
}

/// A snake found in a prefix is the one found in the whole sequence.
pub proof fn lemma_snake_with_id_prefix(snakes: Seq<SnakeView>, id: u128, n: int)
    requires
        0 <= n <= snakes.len(),
        snake_with_id(snakes.take(n), id) is Some,
    ensures
        snake_with_id(snakes, id) == snake_with_id(snakes.take(n), id),
    decreases snakes.len() - n,
{
    if n < snakes.len() {
        assert(snakes.take(n + 1).drop_last() =~= snakes.take(n));
        lemma_snake_with_id_prefix(snakes, id, n + 1);
    } else {
        assert(snakes.take(n) =~= snakes);
    }
}

} // verus!

verus! {

impl Default for GameEngine {
    /// The same engine as `GameEngine::new()`.
    fn default() -> (r: GameEngine)
        ensures
            r.wf(),
            r.state@ == GameState::new_view(),
            r.timers().len() == 0,
    {
        GameEngine::new()
    }
}

} // verus!
