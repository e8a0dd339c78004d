//! The rules of a tick, stated over views: movement, collisions, eating,
//! and the end of the game.
use vstd::prelude::*;
use crate::constants::WINNING_SNAKE_LENGTH;
use crate::grid::{Direction, Position, in_grid};
use crate::grid::{lemma_step_stays_on_grid, step};
use crate::world::{SnakeView, advanced, allows, head_of};
use crate::world::Fruit;

verus! {

/// Most fruits the board holds at once for `n` snakes.
pub open spec fn fruit_cap(n: int) -> int {
    if n > 1 {
        n - 1
    } else {
        0
    }
}

/// A snake after the movement phase: it advances in its submitted direction,
/// or dies in place when the move is missing or reverses it.
pub open spec fn moved(s: SnakeView, moves: Map<u128, Direction>, w: int, h: int) -> SnakeView {
    if !s.alive {
        s
    } else if moves.contains_key(s.id) && allows(s, moves[s.id]) {
        advanced(s, moves[s.id], w, h, false)
    } else {
        SnakeView { alive: false, ..s }
    }
}

/// All snakes after the movement phase.
pub open spec fn move_phase(snakes: Seq<SnakeView>, moves: Map<u128, Direction>, w: int, h: int) -> Seq<
    SnakeView,
> {
    snakes.map_values(|s: SnakeView| moved(s, moves, w, h))
}

/// Another living snake's head is on the same cell as snake `i`'s head.
pub open spec fn head_on(snakes: Seq<SnakeView>, i: int) -> bool {
    exists|j: int|
        0 <= j < snakes.len() && j != i && (#[trigger] snakes[j]).alive && head_of(snakes[j])
            == head_of(snakes[i])
}

/// Snake `i`'s head is on some snake's tail, or on the head of a dead snake.
pub open spec fn hits_body(snakes: Seq<SnakeView>, i: int) -> bool {
    (exists|j: int, k: int|
        0 <= j < snakes.len() && 1 <= k < snakes[j].body.len() && #[trigger] snakes[j].body[k]
            == head_of(snakes[i])) || (exists|j: int|
        0 <= j < snakes.len() && j != i && !(#[trigger] snakes[j]).alive && head_of(snakes[j])
            == head_of(snakes[i]))
}

/// Snake `i` is alive and dies in the collision phase.
pub open spec fn crashes(snakes: Seq<SnakeView>, i: int) -> bool {
    snakes[i].alive && (head_on(snakes, i) || hits_body(snakes, i))
}

/// All snakes after the collision phase.
pub open spec fn collision_phase(snakes: Seq<SnakeView>) -> Seq<SnakeView> {
    Seq::new(
        snakes.len(),
        |i: int|
            if crashes(snakes, i) {
                SnakeView { alive: false, ..snakes[i] }
            } else {
                snakes[i]
            },
    )
}

/// Some fruit lies on `p`.
pub open spec fn fruit_at(fruits: Seq<Fruit>, p: Position) -> bool {
    exists|k: int| 0 <= k < fruits.len() && (#[trigger] fruits[k]).position == p
}

/// A living snake's head is on `p`.
pub open spec fn living_head_at(snakes: Seq<SnakeView>, p: Position) -> bool {
    exists|i: int| 0 <= i < snakes.len() && (#[trigger] snakes[i]).alive && head_of(snakes[i]) == p
}

/// The snake one cell longer, its last cell doubled until the next move.
pub open spec fn grown(s: SnakeView) -> SnakeView {
    SnakeView { length: s.length + 1, body: s.body.push(s.body.last()), ..s }
}

/// How many fruits lie on `p`.
pub open spec fn fruits_at(fruits: Seq<Fruit>, p: Position) -> nat
    decreases fruits.len(),
{
    if fruits.len() == 0 {
        0
    } else {
        fruits_at(fruits.drop_last(), p) + if fruits.last().position == p {
            1nat
        } else {
            0nat
        }
    }
}

/// The snake `k` cells longer, its last cell repeated `k` times.
pub open spec fn grown_by(s: SnakeView, k: nat) -> SnakeView {
    SnakeView {
        length: s.length + k,
        body: s.body + Seq::new(k, |i: int| s.body.last()),
        ..s
    }
}

/// A snake after the eating phase: a living snake grows by one for every
/// fruit under its head.
pub open spec fn fed(s: SnakeView, fruits: Seq<Fruit>) -> SnakeView {
    if s.alive && fruits_at(fruits, head_of(s)) > 0 {
        grown_by(s, fruits_at(fruits, head_of(s)))
    } else {
        s
    }
}

/// All snakes after the eating phase.
pub open spec fn feed_phase(snakes: Seq<SnakeView>, fruits: Seq<Fruit>) -> Seq<SnakeView> {
    snakes.map_values(|s: SnakeView| fed(s, fruits))
}

/// The fruits no living head is on.
pub open spec fn uneaten(snakes: Seq<SnakeView>, fruits: Seq<Fruit>) -> Seq<Fruit> {
    fruits.filter(|f: Fruit| !living_head_at(snakes, f.position))
}

/// Ids of the living snakes, in order.
pub open spec fn alive_ids(snakes: Seq<SnakeView>) -> Seq<u128>
    decreases snakes.len(),
{
    if snakes.len() == 0 {
        Seq::empty()
    } else {
        alive_ids(snakes.drop_last()) + if snakes.last().alive {
            seq![snakes.last().id]
        } else {
            Seq::empty()
        }
    }
}

/// Id of the first living snake that reached the winning length.
pub open spec fn long_winner(snakes: Seq<SnakeView>) -> Option<u128>
    decreases snakes.len(),
{
    if snakes.len() == 0 {
        None
    } else {
        match long_winner(snakes.drop_last()) {
            Some(id) => Some(id),
            None => if snakes.last().alive && snakes.last().length >= WINNING_SNAKE_LENGTH {
                Some(snakes.last().id)
            } else {
                None
            },
        }
    }
}

/// The game is over: at most one snake lives, or one reached the winning length.
pub open spec fn game_over(snakes: Seq<SnakeView>) -> bool {
    alive_ids(snakes).len() <= 1 || long_winner(snakes) is Some
}

/// The winner: the first living snake of winning length, else the sole survivor.
pub open spec fn winner_of(snakes: Seq<SnakeView>) -> Option<u128> {
    if long_winner(snakes) is Some {
        long_winner(snakes)
    } else if alive_ids(snakes).len() == 1 {
        Some(alive_ids(snakes)[0])
    } else {
        None
    }
}

/// No two living snakes have their heads on one cell.
pub open spec fn heads_distinct(snakes: Seq<SnakeView>) -> bool {
    forall|i: int, j: int|
        0 <= i < snakes.len() && 0 <= j < snakes.len() && i != j && (#[trigger] snakes[i]).alive
            && (#[trigger] snakes[j]).alive ==> head_of(snakes[i]) != head_of(snakes[j])
}

/// Some snake's body covers `p`.
pub open spec fn on_some_body(snakes: Seq<SnakeView>, p: Position) -> bool {
    exists|i: int| 0 <= i < snakes.len() && (#[trigger] snakes[i]).body.contains(p)
}

/// Every body is non-empty, as long as the snake's length, and on the grid.
pub open spec fn bodies_ok(snakes: Seq<SnakeView>, w: int, h: int) -> bool {
    forall|i: int|
        0 <= i < snakes.len() ==> {
            &&& 1 <= (#[trigger] snakes[i]).body.len() == snakes[i].length
            &&& forall|k: int| 0 <= k < snakes[i].body.len() ==> in_grid(snakes[i].body[k], w, h)
        }
}

/// Lengths bounded below the winning length while the game runs.
pub open spec fn living_short(snakes: Seq<SnakeView>) -> bool {
    forall|i: int|
        0 <= i < snakes.len() && (#[trigger] snakes[i]).alive ==> snakes[i].length
            < WINNING_SNAKE_LENGTH
}

/// The winner is a living snake that reached the winning length or
/// outlived every other.
pub open spec fn winner_ok(snakes: Seq<SnakeView>, winner: Option<u128>) -> bool {
    winner matches Some(id) ==> exists|i: int|
        0 <= i < snakes.len() && (#[trigger] snakes[i]).id == id && snakes[i].alive && (
        snakes[i].length >= WINNING_SNAKE_LENGTH || alive_ids(snakes).len() == 1)
}

/// Every id in `alive_ids` belongs to a living snake.
pub proof fn lemma_alive_ids_alive(snakes: Seq<SnakeView>, k: int)
    requires
        0 <= k < alive_ids(snakes).len(),
    ensures
        exists|i: int|
            0 <= i < snakes.len() && (#[trigger] snakes[i]).id == alive_ids(snakes)[k]
                && snakes[i].alive,
    decreases snakes.len(),
{
    let init = snakes.drop_last();
    if k < alive_ids(init).len() {
        lemma_alive_ids_alive(init, k);
        let i = choose|i: int|
            0 <= i < init.len() && (#[trigger] init[i]).id == alive_ids(init)[k] && init[i].alive;
        assert(snakes[i] == init[i]);
    } else {
        assert(snakes[snakes.len() - 1] == snakes.last());
    }
}

/// A long winner is a living snake of winning length.
pub proof fn lemma_long_winner_alive(snakes: Seq<SnakeView>)
    requires
        long_winner(snakes) is Some,
    ensures
        exists|i: int|
            0 <= i < snakes.len() && (#[trigger] snakes[i]).id == long_winner(snakes)->Some_0
                && snakes[i].alive && snakes[i].length >= WINNING_SNAKE_LENGTH,
    decreases snakes.len(),
{
    let init = snakes.drop_last();
    if long_winner(init) is Some {
        lemma_long_winner_alive(init);
        let i = choose|i: int|
            0 <= i < init.len() && (#[trigger] init[i]).id == long_winner(init)->Some_0
                && init[i].alive && init[i].length >= WINNING_SNAKE_LENGTH;
        assert(snakes[i] == init[i]);
    } else {
        assert(snakes[snakes.len() - 1] == snakes.last());
    }
}

/// The winner chosen at the end of a game satisfies `winner_ok`.
pub proof fn lemma_winner_of_ok(snakes: Seq<SnakeView>)
    ensures
        winner_ok(snakes, winner_of(snakes)),
{
    if long_winner(snakes) is Some {
        lemma_long_winner_alive(snakes);
    } else if alive_ids(snakes).len() == 1 {
        lemma_alive_ids_alive(snakes, 0);
    }
}

/// After the collision phase no two living snakes share a head cell.
pub proof fn lemma_collisions_separate_heads(snakes: Seq<SnakeView>)
    requires
        forall|i: int| 0 <= i < snakes.len() ==> (#[trigger] snakes[i]).body.len() >= 1,
    ensures
        heads_distinct(collision_phase(snakes)),
{
    let after = collision_phase(snakes);
    assert forall|i: int, j: int|
        0 <= i < after.len() && 0 <= j < after.len() && i != j && (#[trigger] after[i]).alive
            && (#[trigger] after[j]).alive implies head_of(after[i]) != head_of(after[j]) by {
        assert(!crashes(snakes, i));
        assert(snakes[j].alive);
        if head_of(after[i]) == head_of(after[j]) {
            assert(head_on(snakes, i));
        }
    }
}

/// The movement phase keeps ids, keeps lengths and well-formed bodies, and
/// raises no dead snake.
pub proof fn lemma_move_phase_keeps(snakes: Seq<SnakeView>, moves: Map<u128, Direction>, w: int, h: int)
    requires
        bodies_ok(snakes, w, h),
        0 < w <= i32::MAX,
        0 < h <= i32::MAX,
    ensures
        move_phase(snakes, moves, w, h).len() == snakes.len(),
        bodies_ok(move_phase(snakes, moves, w, h), w, h),
        forall|i: int|
            0 <= i < snakes.len() ==> {
                &&& (#[trigger] move_phase(snakes, moves, w, h)[i]).id == snakes[i].id
                &&& move_phase(snakes, moves, w, h)[i].length == snakes[i].length
                &&& move_phase(snakes, moves, w, h)[i].alive ==> snakes[i].alive
            },
{
    let after = move_phase(snakes, moves, w, h);
    assert forall|i: int| 0 <= i < after.len() implies {
        &&& 1 <= (#[trigger] after[i]).body.len() == after[i].length
        &&& forall|k: int| 0 <= k < after[i].body.len() ==> in_grid(after[i].body[k], w, h)
    } by {
        let s = snakes[i];
        if s.alive && moves.contains_key(s.id) && allows(s, moves[s.id]) {
            let d = moves[s.id];
            lemma_step_stays_on_grid(s.body[0], d, w, h);
            let b = seq![step(s.body[0], d, w, h)] + s.body;
            assert(after[i].body == b.drop_last());
            assert forall|k: int| 0 <= k < after[i].body.len() implies in_grid(after[i].body[k], w, h) by {
                if k > 0 {
                    assert(after[i].body[k] == s.body[k - 1]);
                }
            }
        }
    }
}

/// The eating phase keeps ids, heads and who is alive, and keeps bodies
/// well formed.
pub proof fn lemma_feed_phase_keeps(snakes: Seq<SnakeView>, fruits: Seq<Fruit>, w: int, h: int)
    requires
        bodies_ok(snakes, w, h),
    ensures
        feed_phase(snakes, fruits).len() == snakes.len(),
        bodies_ok(feed_phase(snakes, fruits), w, h),
        forall|i: int|
            0 <= i < snakes.len() ==> {
                &&& (#[trigger] feed_phase(snakes, fruits)[i]).id == snakes[i].id
                &&& feed_phase(snakes, fruits)[i].alive == snakes[i].alive
                &&& head_of(feed_phase(snakes, fruits)[i]) == head_of(snakes[i])
                &&& !snakes[i].alive ==> feed_phase(snakes, fruits)[i] == snakes[i]
            },
{
    let after = feed_phase(snakes, fruits);
    assert forall|i: int| 0 <= i < after.len() implies {
        &&& 1 <= (#[trigger] after[i]).body.len() == after[i].length
        &&& forall|k: int| 0 <= k < after[i].body.len() ==> in_grid(after[i].body[k], w, h)
    } by {
        let s = snakes[i];
        if s.alive && fruits_at(fruits, head_of(s)) > 0 {
            assert forall|k: int| 0 <= k < after[i].body.len() implies in_grid(after[i].body[k], w, h) by {
                if k < s.body.len() {
                    assert(after[i].body[k] == s.body[k]);
                } else {
                    assert(after[i].body[k] == s.body[s.body.len() - 1]);
                }
            }
        }
    }
    assert forall|i: int| 0 <= i < snakes.len() implies head_of(#[trigger] after[i]) == head_of(snakes[i]) by {
        assert(snakes[i].body.len() >= 1);
    }
}

/// Without a long winner every living snake is shorter than the winning length.
pub proof fn lemma_no_long_winner_short(snakes: Seq<SnakeView>)
    requires
        long_winner(snakes) is None,
    ensures
        living_short(snakes),
    decreases snakes.len(),
{
    if snakes.len() > 0 {
        let init = snakes.drop_last();
        lemma_no_long_winner_short(init);
        assert forall|i: int| 0 <= i < snakes.len() && (#[trigger] snakes[i]).alive implies snakes[i].length
            < WINNING_SNAKE_LENGTH by {
            if i < snakes.len() - 1 {
                assert(init[i] == snakes[i]);
            }
        }
    }
}

/// A fruit counted on `p` lies on `p`.
pub proof fn lemma_fruits_at_positive(fruits: Seq<Fruit>, p: Position)
    requires
        fruits_at(fruits, p) > 0,
    ensures
        fruit_at(fruits, p),
    decreases fruits.len(),
{
    let init = fruits.drop_last();
    if fruits_at(init, p) > 0 {
        lemma_fruits_at_positive(init, p);
        let k = choose|k: int| 0 <= k < init.len() && (#[trigger] init[k]).position == p;
        assert(fruits[k] == init[k]);
    } else {
        assert(fruits[fruits.len() - 1] == fruits.last());
    }
}

/// Fruits on pairwise different cells put at most one on any cell.
pub proof fn lemma_fruits_at_most_one(fruits: Seq<Fruit>, p: Position)
    requires
        forall|a: int, b: int|
            0 <= a < fruits.len() && 0 <= b < fruits.len() && a != b ==> (#[trigger] fruits[a]).position
                != (#[trigger] fruits[b]).position,
    ensures
        fruits_at(fruits, p) <= 1,
    decreases fruits.len(),
{
    if fruits.len() > 0 {
        let init = fruits.drop_last();
        assert forall|a: int, b: int|
            0 <= a < init.len() && 0 <= b < init.len() && a != b implies (#[trigger] init[a]).position
                != (#[trigger] init[b]).position by {
            assert(init[a] == fruits[a] && init[b] == fruits[b]);
        }
        lemma_fruits_at_most_one(init, p);
        if fruits.last().position == p && fruits_at(init, p) > 0 {
            lemma_fruits_at_positive(init, p);
            let k = choose|k: int| 0 <= k < init.len() && (#[trigger] init[k]).position == p;
            assert(fruits[k] == init[k]);
            assert(fruits[fruits.len() - 1] == fruits.last());
        }
    }
}

} // verus!
