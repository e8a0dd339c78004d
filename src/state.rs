//! The world state of one game.
use vstd::prelude::*;
use crate::constants::{GRID_HEIGHT, GRID_WIDTH, WINNING_SNAKE_LENGTH};
use crate::grid::{Position, in_grid};
use crate::rules::{
    fruit_at, on_some_body, alive_ids, bodies_ok, fruit_cap, game_over, heads_distinct, living_short, long_winner, winner_of,
    winner_ok,
};
use crate::world::{Fruit, Snake, SnakeView};

verus! {

/// The world, as the rules see it.
pub struct WorldView {
    pub snakes: Seq<SnakeView>,
    pub fruits: Seq<Fruit>,
    pub tick: nat,
    pub running: bool,
    pub winner: Option<u128>,
    pub width: int,
    pub height: int,
}

/// Snake ids are pairwise different.
pub open spec fn ids_unique(snakes: Seq<SnakeView>) -> bool {
    forall|i: int, j: int|
        0 <= i < snakes.len() && 0 <= j < snakes.len() && i != j ==> (#[trigger] snakes[i]).id
            != (#[trigger] snakes[j]).id
}

/// Fruits lie on the grid, on pairwise different cells.
pub open spec fn fruits_ok(fruits: Seq<Fruit>, w: int, h: int) -> bool {
    &&& forall|k: int| 0 <= k < fruits.len() ==> in_grid((#[trigger] fruits[k]).position, w, h)
    &&& forall|a: int, b: int|
        0 <= a < fruits.len() && 0 <= b < fruits.len() && a != b ==> (#[trigger] fruits[a]).position
            != (#[trigger] fruits[b]).position
}

/// The invariant of every world the engine produces.
pub open spec fn world_ok(v: WorldView) -> bool {
    &&& 0 < v.width <= i32::MAX
    &&& 0 < v.height <= i32::MAX
    &&& ids_unique(v.snakes)
    &&& bodies_ok(v.snakes, v.width, v.height)
    &&& fruits_ok(v.fruits, v.width, v.height)
    &&& v.fruits.len() <= fruit_cap(v.snakes.len() as int)
    &&& heads_distinct(v.snakes)
    &&& winner_ok(v.snakes, v.winner)
    &&& v.running ==> living_short(v.snakes) && v.winner is None
}

/// The state of a game: snakes in the order they were placed, fruits, the
/// tick counter, and the grid's size.
#[derive(Debug, Clone)]
pub struct GameState {
    pub snakes: Vec<Snake>,
    pub fruits: Vec<Fruit>,
    pub tick: u64,
    pub is_running: bool,
    pub winner: Option<u128>,
    pub grid_width: i32,
    pub grid_height: i32,
}

impl View for GameState {
    type V = WorldView;

    open spec fn view(&self) -> WorldView {
        WorldView {
            snakes: self.snakes@.map_values(|s: Snake| s@),
            fruits: self.fruits@,
            tick: self.tick as nat,
            running: self.is_running,
            winner: self.winner,
            width: self.grid_width as int,
            height: self.grid_height as int,
        }
    }
}

impl GameState {
    /// The view of `GameState::new()`.
    pub open spec fn new_view() -> WorldView {
        WorldView {
            snakes: Seq::empty(),
            fruits: Seq::empty(),
            tick: 0,
            running: false,
            winner: None,
            width: GRID_WIDTH as int,
            height: GRID_HEIGHT as int,
        }
    }

    /// An empty, idle world on the default grid.
    pub fn new() -> (r: GameState)
        ensures
            r@.snakes.len() == 0,
            r@.fruits.len() == 0,
            r@.tick == 0,
            !r@.running,
            r@.winner is None,
            r@.width == GRID_WIDTH,
            r@.height == GRID_HEIGHT,
            r@ == GameState::new_view(),
            world_ok(r@),
    {
        let r = GameState::with_grid(GRID_WIDTH, GRID_HEIGHT);
        assert(r@.snakes =~= Seq::<SnakeView>::empty());
        assert(r@.fruits =~= Seq::<Fruit>::empty());
        r
    }

    /// An empty, idle world on a `grid_width` by `grid_height` grid.
    pub fn with_grid(grid_width: i32, grid_height: i32) -> (r: GameState)
        requires
            grid_width > 0,
            grid_height > 0,
        ensures
            r@.snakes.len() == 0,
            r@.fruits.len() == 0,
            r@.tick == 0,
            !r@.running,
            r@.winner is None,
            r@.width == grid_width,
            r@.height == grid_height,
            world_ok(r@),
    {
        GameState {
            snakes: Vec::new(),
            fruits: Vec::new(),
            tick: 0,
            is_running: false,
            winner: None,
            grid_width,
            grid_height,
        }
    }

    /// A copy of this world.
    pub fn snapshot(&self) -> (r: GameState)
        ensures
            r@ == self@,
    {
        let mut snakes: Vec<Snake> = Vec::new();
        let mut i: usize = 0;
        while i < self.snakes.len()
            invariant
                i <= self.snakes@.len(),
                snakes@.len() == i,
                forall|k: int| 0 <= k < i ==> (#[trigger] snakes@[k])@ == self.snakes@[k]@,
            decreases self.snakes@.len() - i,
        {
            snakes.push(self.snakes[i].duplicate());
            i = i + 1;
        }
        let mut fruits: Vec<Fruit> = Vec::new();
        let mut k: usize = 0;
        while k < self.fruits.len()
            invariant
                k <= self.fruits@.len(),
                fruits@ == self.fruits@.take(k as int),
            decreases self.fruits@.len() - k,
        {
            fruits.push(self.fruits[k]);
            k = k + 1;
            assert(fruits@ =~= self.fruits@.take(k as int));
        }
        assert(fruits@ =~= self.fruits@);
        let r = GameState {
            snakes,
            fruits,
            tick: self.tick,
            is_running: self.is_running,
            winner: self.winner,
            grid_width: self.grid_width,
            grid_height: self.grid_height,
        };
        assert(r@.snakes =~= self@.snakes);
        r
    }

    /// Whether `p` is covered by a snake or a fruit.
    pub open spec fn occupied(&self, p: Position) -> bool {
        on_some_body(self@.snakes, p) || fruit_at(self@.fruits, p)
    }

    /// Every cell covered by a snake's body or a fruit: bodies in snake
    /// order, then fruits.
    pub fn occupied_positions(&self) -> (r: Vec<Position>)
        ensures
            forall|p: Position| r@.contains(p) <==> self.occupied(p),
    {
        let ghost sv = self@.snakes;
        let mut positions: Vec<Position> = Vec::new();
        let mut i: usize = 0;
        while i < self.snakes.len()
            invariant
                sv == self@.snakes,
                i <= sv.len(),
                forall|p: Position|
                    positions@.contains(p) <==> exists|j: int| 0 <= j < i && (#[trigger] sv[j]).body.contains(p),
            decreases sv.len() - i,
        {
            assert(sv[i as int] == self.snakes@[i as int]@);
            let body = &self.snakes[i].body;
            let ghost start = positions@;
            let mut k: usize = 0;
            while k < body.len()
                invariant
                    k <= body@.len(),
                    positions@ == start + body@.take(k as int),
                decreases body@.len() - k,
            {
                positions.push(body[k]);
                k = k + 1;
                assert(positions@ =~= start + body@.take(k as int));
            }
            assert(body@.take(k as int) =~= body@);
            proof {
                assert forall|p: Position| positions@.contains(p) <==> exists|j: int| 0 <= j < i + 1 && (#[trigger] sv[j]).body.contains(p) by {
                    if positions@.contains(p) {
                        let c = choose|c: int| 0 <= c < positions@.len() && positions@[c] == p;
                        if c < start.len() {
                            assert(start[c] == p);
                            assert(start.contains(p));
                        } else {
                            assert(body@[c - start.len()] == p);
                            assert(sv[i as int].body.contains(p));
                        }
                    }
                    if exists|j: int| 0 <= j < i + 1 && (#[trigger] sv[j]).body.contains(p) {
                        let j = choose|j: int| 0 <= j < i + 1 && (#[trigger] sv[j]).body.contains(p);
                        if j < i {
                            assert(start.contains(p));
                            let c = choose|c: int| 0 <= c < start.len() && start[c] == p;
                            assert(positions@[c] == p);
                        } else {
                            let c = choose|c: int| 0 <= c < body@.len() && body@[c] == p;
                            assert(positions@[start.len() + c] == p);
                        }
                    }
                }
            }
            i = i + 1;
        }
        let ghost from_bodies = positions@;
        let mut k: usize = 0;
        while k < self.fruits.len()
            invariant
                k <= self.fruits@.len(),
                positions@ == from_bodies + self.fruits@.take(k as int).map_values(|f: Fruit| f.position),
            decreases self.fruits@.len() - k,
        {
            positions.push(self.fruits[k].position);
            k = k + 1;
            assert(positions@ =~= from_bodies + self.fruits@.take(k as int).map_values(|f: Fruit| f.position));
        }
        proof {
            let fp = self.fruits@.map_values(|f: Fruit| f.position);
            assert(self.fruits@.take(k as int) =~= self.fruits@);
            assert forall|p: Position| positions@.contains(p) <==> self.occupied(p) by {
                if positions@.contains(p) {
                    let c = choose|c: int| 0 <= c < positions@.len() && positions@[c] == p;
                    if c < from_bodies.len() {
                        assert(from_bodies[c] == p);
                        assert(from_bodies.contains(p));
                    } else {
                        assert(self.fruits@[c - from_bodies.len()].position == p);
                    }
                }
                if on_some_body(sv, p) {
                    assert(from_bodies.contains(p));
                    let c = choose|c: int| 0 <= c < from_bodies.len() && from_bodies[c] == p;
                    assert(positions@[c] == p);
                }
                if fruit_at(self@.fruits, p) {
                    let c = choose|c: int| 0 <= c < self.fruits@.len() && (#[trigger] self.fruits@[c]).position == p;
                    assert(positions@[from_bodies.len() + c] == p);
                }
            }
        }
        positions
    }

    /// Every cell of the grid that no snake or fruit covers, column by column.
    pub fn empty_positions(&self) -> (r: Vec<Position>)
        requires
            self.grid_width >= 0,
            self.grid_height >= 0,
        ensures
            forall|p: Position| r@.contains(p) <==> in_grid(p, self@.width, self@.height) && !self.occupied(p),
    {
        let occupied = self.occupied_positions();
        let h = self.grid_height;
        let mut free: Vec<Position> = Vec::new();
        let mut x: i32 = 0;
        while x < self.grid_width
            invariant
                0 <= x <= self.grid_width,
                h == self.grid_height,
                h >= 0,
                forall|p: Position| #[trigger] occupied@.contains(p) <==> self.occupied(p),
                forall|p: Position| #[trigger] free@.contains(p) <==> scanned(p, x as int, 0, h as int) && !self.occupied(p),
            decreases self.grid_width - x,
        {
            let mut y: i32 = 0;
            while y < h
                invariant
                    0 <= x < self.grid_width,
                    0 <= y <= h,
                    forall|p: Position| #[trigger] occupied@.contains(p) <==> self.occupied(p),
                    forall|p: Position| #[trigger] free@.contains(p) <==> scanned(p, x as int, y as int, h as int) && !self.occupied(p),
                decreases h - y,
            {
                let pos = Position::new(x, y);
                let seen = listed(&occupied, pos);
                let ghost before = free@;
                if !seen {
                    free.push(pos);
                }
                proof {
                    assert forall|p: Position| #[trigger] free@.contains(p) <==> scanned(p, x as int, y + 1, h as int) && !self.occupied(p) by {
                        if free@.contains(p) && p != pos {
                            let c = choose|c: int| 0 <= c < free@.len() && free@[c] == p;
                            if c < before.len() {
                                assert(before[c] == p);
                                assert(before.contains(p));
                            }
                        }
                        if !seen && p == pos {
                            assert(free@[before.len() as int] == p);
                        } else if before.contains(p) {
                            let c = choose|c: int| 0 <= c < before.len() && before[c] == p;
                            assert(free@[c] == p);
                        }
                    }
                }
                y = y + 1;
            }
            proof {
                assert forall|p: Position| scanned(p, x as int, h as int, h as int) == scanned(p, x + 1, 0, h as int) by {}
            }
            x = x + 1;
        }
        proof {
            assert forall|p: Position| scanned(p, x as int, 0, h as int) == in_grid(p, self@.width, self@.height) by {}
        }
        free
    }

    /// Ids of the living snakes, in order.
    pub fn living_ids(&self) -> (r: Vec<u128>)
        ensures
            r@ == alive_ids(self@.snakes),
    {
        let ghost sv = self@.snakes;
        let mut ids: Vec<u128> = Vec::new();
        let mut i: usize = 0;
        while i < self.snakes.len()
            invariant
                sv == self@.snakes,
                i <= self.snakes@.len(),
                ids@ == alive_ids(sv.take(i as int)),
            decreases self.snakes@.len() - i,
        {
            assert(sv.take(i as int + 1).drop_last() =~= sv.take(i as int));
            assert(sv.take(i as int + 1).last() == self.snakes@[i as int]@);
            if self.snakes[i].is_alive {
                ids.push(self.snakes[i].id);
            }
            i = i + 1;
            assert(ids@ =~= alive_ids(sv.take(i as int)));
        }
        assert(sv.take(i as int) =~= sv);
        ids
    }

    /// Id of the first living snake that reached the winning length.
    pub fn first_long_snake(&self) -> (r: Option<u128>)
        ensures
            r == long_winner(self@.snakes),
    {
        let ghost sv = self@.snakes;
        let mut i: usize = 0;
        while i < self.snakes.len()
            invariant
                sv == self@.snakes,
                i <= self.snakes@.len(),
                long_winner(sv.take(i as int)) is None,
            decreases self.snakes@.len() - i,
        {
            assert(sv.take(i as int + 1).drop_last() =~= sv.take(i as int));
            assert(sv.take(i as int + 1).last() == self.snakes@[i as int]@);
            if self.snakes[i].is_alive && self.snakes[i].length >= WINNING_SNAKE_LENGTH {
                let id = self.snakes[i].id;
                proof {
                    lemma_long_winner_prefix(sv, i as int + 1);
                }
                return Some(id);
            }
            i = i + 1;
        }
        assert(sv.take(i as int) =~= sv);
        None
    }

    /// Whether the game is over: at most one snake lives, or one reached the
    /// winning length.
    pub fn is_game_over(&self) -> (r: bool)
        ensures
            r == game_over(self@.snakes),
    {
        let ids = self.living_ids();
        if ids.len() <= 1 {
            return true;
        }
        let long = self.first_long_snake();
        long.is_some()
    }

    /// The winner: the first living snake of winning length, else the only
    /// living snake, else none.
    pub fn get_winner(&self) -> (r: Option<u128>)
        ensures
            r == winner_of(self@.snakes),
    {
        let long = self.first_long_snake();
        if long.is_some() {
            return long;
        }
        let ids = self.living_ids();
        if ids.len() == 1 {
            Some(ids[0])
        } else {
            None
        }
    }
}

/// Whether a column-by-column scan that reached cell (`x`, `y`) of a grid
/// `h` cells high has passed `p`.
pub open spec fn scanned(p: Position, x: int, y: int, h: int) -> bool {
    (0 <= p.x && p.x < x && 0 <= p.y && p.y < h) || (p.x == x && 0 <= p.y && p.y < y)
}

/// Whether `p` is one of `cells`.
pub(crate) fn listed(cells: &Vec<Position>, p: Position) -> (r: bool)
    ensures
        r == cells@.contains(p),
{
    let mut i: usize = 0;
    while i < cells.len()
        invariant
            i <= cells@.len(),
            forall|k: int| 0 <= k < i ==> cells@[k] != p,
        decreases cells@.len() - i,
    {
        if cells[i] == p {
            return true;
        }
        i = i + 1;
    }
    false
}

/// A long winner found in a prefix is the long winner of the whole sequence.
pub proof fn lemma_long_winner_prefix(snakes: Seq<SnakeView>, n: int)
    requires
        0 <= n <= snakes.len(),
        long_winner(snakes.take(n)) is Some,
    ensures
        long_winner(snakes) == long_winner(snakes.take(n)),
    decreases snakes.len() - n,
{
    if n < snakes.len() {
        assert(snakes.take(n + 1).drop_last() =~= snakes.take(n));
        lemma_long_winner_prefix(snakes, n + 1);
    } else {
        assert(snakes.take(n) =~= snakes);
    }
}

/// Keeping some of the fruits keeps them on the grid and apart.
pub proof fn lemma_filter_fruits_ok(fruits: Seq<Fruit>, keep: spec_fn(Fruit) -> bool, w: int, h: int)
    requires
        fruits_ok(fruits, w, h),
    ensures
        fruits_ok(fruits.filter(keep), w, h),
        fruits.filter(keep).len() <= fruits.len(),
    decreases fruits.len(),
{
    reveal(Seq::filter);
    broadcast use vstd::seq_lib::group_filter_ensures;

    if fruits.len() > 0 {
        let init = fruits.drop_last();
        assert(fruits_ok(init, w, h)) by {
            assert forall|a: int, b: int|
                0 <= a < init.len() && 0 <= b < init.len() && a != b implies (#[trigger] init[a]).position
                    != (#[trigger] init[b]).position by {
                assert(init[a] == fruits[a] && init[b] == fruits[b]);
            }
        }
        lemma_filter_fruits_ok(init, keep, w, h);
        let g = init.filter(keep);
        let last = fruits.last();
        if keep(last) {
            let r = g.push(last);
            assert(fruits.filter(keep) == r);
            assert forall|a: int, b: int|
                0 <= a < r.len() && 0 <= b < r.len() && a != b implies (#[trigger] r[a]).position
                    != (#[trigger] r[b]).position by {
                if a == g.len() {
                    assert(g.contains(g[b]));
                    init.lemma_filter_contains_rev(keep, g[b]);
                    let j = choose|j: int| 0 <= j < init.len() && init[j] == g[b];
                    assert(fruits[j] == init[j]);
                } else if b == g.len() {
                    assert(g.contains(g[a]));
                    init.lemma_filter_contains_rev(keep, g[a]);
                    let j = choose|j: int| 0 <= j < init.len() && init[j] == g[a];
                    assert(fruits[j] == init[j]);
                } else {
                    assert(r[a] == g[a] && r[b] == g[b]);
                }
            }
        }
    }
}

} // verus!
