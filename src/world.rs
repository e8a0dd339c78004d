//! Snakes, fruits and the world they live in, with their mathematical views.
use vstd::prelude::*;
use crate::constants::INITIAL_SNAKE_LENGTH;
use crate::rules::{grown, grown_by};
use crate::grid::{Direction, Position, all_directions, opposite_of, step, steppable};

verus! {

/// What a snake is, as the rules see it.
pub struct SnakeView {
    pub id: u128,
    pub name: Seq<char>,
    /// Head first, tail last.
    pub body: Seq<Position>,
    pub length: nat,
    pub alive: bool,
    pub color: nat,
    pub last: Option<Direction>,
}

/// A player's snake.
#[derive(Debug, Clone)]
pub struct Snake {
    pub id: u128,
    pub player_name: String,
    /// Occupied cells, head first and tail last.
    pub body: Vec<Position>,
    /// The length the body is kept at.
    pub length: usize,
    pub is_alive: bool,
    pub color_index: usize,
    /// The direction of the last move, absent before the first one.
    pub last_direction: Option<Direction>,
}

impl View for Snake {
    type V = SnakeView;

    open spec fn view(&self) -> SnakeView {
        SnakeView {
            id: self.id,
            name: self.player_name@,
            body: self.body@,
            length: self.length as nat,
            alive: self.is_alive,
            color: self.color_index as nat,
            last: self.last_direction,
        }
    }
}

/// Position of `d` in the order of `all_directions`.
pub open spec fn dir_index(d: Direction) -> int {
    match d {
        Direction::Up => 0,
        Direction::Down => 1,
        Direction::Left => 2,
        Direction::Right => 3,
    }
}

/// The first cell of the body.
pub open spec fn head_of(s: SnakeView) -> Position {
    s.body[0]
}

/// Whether the snake may move in `d`: a snake with a tail cannot reverse.
pub open spec fn allows(s: SnakeView, d: Direction) -> bool {
    !(s.body.len() > 1 && s.last == Some(opposite_of(d)))
}

/// The directions the snake may choose, in the order of `all_directions`.
pub open spec fn valid_dirs(s: SnakeView) -> Seq<Direction> {
    if s.body.len() > 1 && s.last is Some {
        all_directions().remove(dir_index(opposite_of(s.last->Some_0)))
    } else {
        all_directions()
    }
}

/// The snake after its head moved one cell in `d`; the tail cell is dropped
/// when the body would exceed the length, unless the snake grows.
pub open spec fn advanced(s: SnakeView, d: Direction, w: int, h: int, grow: bool) -> SnakeView {
    if s.body.len() == 0 {
        s
    } else {
        let b = seq![step(s.body[0], d, w, h)] + s.body;
        SnakeView {
            body: if !grow && b.len() > s.length {
                b.drop_last()
            } else {
                b
            },
            length: if grow {
                s.length + 1
            } else {
                s.length
            },
            last: Some(d),
            ..s
        }
    }
}

impl Snake {
    /// A living snake of the initial length on `initial_position`.
    pub fn new(id: u128, player_name: String, initial_position: Position, color_index: usize) -> (r:
        Snake)
        ensures
            r@ == (SnakeView {
                id,
                name: player_name@,
                body: seq![initial_position],
                length: INITIAL_SNAKE_LENGTH as nat,
                alive: true,
                color: color_index as nat,
                last: None,
            }),
    {
        let mut body: Vec<Position> = Vec::new();
        body.push(initial_position);
        Snake {
            id,
            player_name,
            body,
            length: INITIAL_SNAKE_LENGTH,
            is_alive: true,
            color_index,
            last_direction: None,
        }
    }

    /// A copy of this snake.
    pub fn duplicate(&self) -> (r: Snake)
        ensures
            r@ == self@,
    {
        let mut body: Vec<Position> = Vec::new();
        let mut i: usize = 0;
        while i < self.body.len()
            invariant
                i <= self.body@.len(),
                body@ == self.body@.take(i as int),
            decreases self.body@.len() - i,
        {
            body.push(self.body[i]);
            i = i + 1;
            assert(body@ =~= self.body@.take(i as int));
        }
        assert(body@ =~= self.body@);
        Snake {
            id: self.id,
            player_name: self.player_name.clone(),
            body,
            length: self.length,
            is_alive: self.is_alive,
            color_index: self.color_index,
            last_direction: self.last_direction,
        }
    }

    /// The head cell, absent for an empty body.
    pub fn head(&self) -> (r: Option<Position>)
        ensures
            r == (if self.body@.len() > 0 {
                Some(self.body@[0])
            } else {
                None::<Position>
            }),
    {
        if self.body.len() > 0 {
            Some(self.body[0])
        } else {
            None
        }
    }

    /// The body without its head.
    pub fn tail(&self) -> (r: Vec<Position>)
        ensures
            r@ == (if self.body@.len() > 0 {
                self.body@.skip(1)
            } else {
                Seq::<Position>::empty()
            }),
    {
        let mut r: Vec<Position> = Vec::new();
        if self.body.len() == 0 {
            assert(r@ =~= Seq::<Position>::empty());
            return r;
        }
        let mut i: usize = 1;
        while i < self.body.len()
            invariant
                1 <= i <= self.body@.len(),
                r@ == self.body@.subrange(1, i as int),
            decreases self.body@.len() - i,
        {
            r.push(self.body[i]);
            i = i + 1;
            assert(r@ =~= self.body@.subrange(1, i as int));
        }
        assert(r@ =~= self.body@.skip(1));
        r
    }

    /// Whether the body covers `pos`.
    pub fn contains_position(&self, pos: Position) -> (r: bool)
        ensures
            r == self.body@.contains(pos),
    {
        let mut i: usize = 0;
        while i < self.body.len()
            invariant
                i <= self.body@.len(),
                forall|k: int| 0 <= k < i ==> self.body@[k] != pos,
            decreases self.body@.len() - i,
        {
            if self.body[i] == pos {
                return true;
            }
            i = i + 1;
        }
        false
    }

    /// The directions this snake may move in: all four, but the reverse of the
    /// last move once the snake has a tail.
    pub fn valid_directions(&self) -> (r: Vec<Direction>)
        ensures
            r@ == valid_dirs(self@),
            forall|d: Direction| r@.contains(d) <==> allows(self@, d),
    {
        let mut valid: Vec<Direction> = Vec::new();
        valid.push(Direction::Up);
        valid.push(Direction::Down);
        valid.push(Direction::Left);
        valid.push(Direction::Right);
        assert(valid@ =~= all_directions());
        if self.body.len() > 1 {
            if let Some(last_dir) = self.last_direction {
                let opp = last_dir.opposite();
                let idx: usize = match opp {
                    Direction::Up => 0,
                    Direction::Down => 1,
                    Direction::Left => 2,
                    Direction::Right => 3,
                };
                valid.remove(idx);
            }
        }
        proof {
            assert forall|d: Direction| valid@.contains(d) <==> allows(self@, d) by {
                let ad = all_directions();
                assert(ad[dir_index(d)] == d);
                if valid@.contains(d) {
                    let k = choose|k: int| 0 <= k < valid@.len() && valid@[k] == d;
                    assert(valid@[k] == d);
                } else {
                    if allows(self@, d) {
                        if self.body@.len() > 1 && self.last_direction is Some {
                            let o = dir_index(opposite_of(self.last_direction->Some_0));
                            if dir_index(d) < o {
                                assert(valid@[dir_index(d)] == d);
                            } else {
                                assert(valid@[dir_index(d) - 1] == d);
                            }
                        } else {
                            assert(valid@[dir_index(d)] == d);
                        }
                    }
                }
            }
        }
        valid
    }

    /// Whether the snake may move in `direction`: anything but reversing once
    /// it has a tail.
    pub fn allows_move(&self, direction: Direction) -> (r: bool)
        ensures
            r == allows(self@, direction),
    {
        if self.body.len() > 1 {
            match self.last_direction {
                Some(last) => last != direction.opposite(),
                None => true,
            }
        } else {
            true
        }
    }

    /// Moves the head one cell in `direction`; the tail follows unless the
    /// snake grows.
    pub fn move_snake(&mut self, direction: Direction, grid_width: i32, grid_height: i32, grow: bool)
        requires
            grid_width > 0,
            grid_height > 0,
            old(self).body@.len() > 0 ==> steppable(old(self).body@[0]),
            grow ==> old(self).length < usize::MAX,
        ensures
            final(self)@ == advanced(old(self)@, direction, grid_width as int, grid_height as int, grow),
            old(self).body@.len() >= 1 ==> final(self).body@.len() >= 1,
            old(self).body@.len() == old(self).length || old(self).body@.len() + 1 == old(self).length
                ==> final(self).body@.len() == final(self).length || final(self).body@.len() + 1
                == final(self).length,
    {
        if let Some(head) = self.head() {
            let new_head = head.move_in_direction(direction, grid_width, grid_height);
            self.body.insert(0, new_head);
            self.last_direction = Some(direction);
            if grow {
                self.length = self.length + 1;
            } else {
                if self.body.len() > self.length {
                    self.body.pop();
                }
            }
            proof {
                let b = seq![new_head] + old(self).body@;
                assert(b =~= old(self).body@.insert(0, new_head));
            }
        }
        assert(self@.body =~= advanced(old(self)@, direction, grid_width as int, grid_height as int, grow).body);
    }

    /// Lengthens the snake by one, doubling its last cell so that the next
    /// move keeps the tail where it is.
    pub fn grow(&mut self)
        requires
            old(self).body@.len() >= 1,
            old(self).length < usize::MAX,
        ensures
            final(self)@ == grown(old(self)@),
    {
        self.length = self.length + 1;
        let last = self.body[self.body.len() - 1];
        self.body.push(last);
    }

    /// Lengthens the snake by `k`, repeating its last cell `k` times.
    pub fn grow_by(&mut self, k: usize)
        requires
            old(self).body@.len() >= 1,
            old(self).length + k <= usize::MAX,
        ensures
            final(self)@ == grown_by(old(self)@, k as nat),
    {
        self.length = self.length + k;
        let last = self.body[self.body.len() - 1];
        let ghost b0 = self.body@;
        let mut j: usize = 0;
        while j < k
            invariant
                j <= k,
                b0.len() >= 1,
                last == b0.last(),
                self.body@ == b0 + Seq::new(j as nat, |i: int| last),
                b0 == old(self).body@,
                self@ == (SnakeView { body: self.body@, ..grown_by(old(self)@, k as nat) }),
            decreases k - j,
        {
            self.body.push(last);
            j = j + 1;
            assert(self.body@ =~= b0 + Seq::new(j as nat, |i: int| last));
        }
        assert(self@.body =~= grown_by(old(self)@, k as nat).body);
    }

    /// Marks the snake dead; its body stays on the grid.
    pub fn kill(&mut self)
        ensures
            final(self)@ == (SnakeView { alive: false, ..old(self)@ }),
    {
        self.is_alive = false;
    }
}

/// A piece of fruit and the tick it appeared at.
#[derive(Debug, Clone, Copy, PartialEq, Eq, Structural)]
pub struct Fruit {
    pub position: Position,
    pub spawn_tick: u64,
}

impl Fruit {
    pub fn new(position: Position, spawn_tick: u64) -> (r: Fruit)
        ensures
            r == (Fruit { position, spawn_tick }),
    {
        Fruit { position, spawn_tick }
    }
}

/// A lobby entry, as the rules see it.
pub struct LobbyPlayerView {
    pub id: u128,
    pub name: Seq<char>,
    pub color: nat,
    pub ready: bool,
}

/// A player waiting in the lobby.
#[derive(Debug, Clone)]
pub struct LobbyPlayer {
    pub id: u128,
    pub name: String,
    pub color_index: usize,
    /// Carried for clients; starting a game does not consult it.
    pub is_ready: bool,
}

impl View for LobbyPlayer {
    type V = LobbyPlayerView;

    open spec fn view(&self) -> LobbyPlayerView {
        LobbyPlayerView {
            id: self.id,
            name: self.name@,
            color: self.color_index as nat,
            ready: self.is_ready,
        }
    }
}

impl LobbyPlayer {
    /// A copy of this entry.
    pub fn duplicate(&self) -> (r: LobbyPlayer)
        ensures
            r@ == self@,
    {
        LobbyPlayer {
            id: self.id,
            name: self.name.clone(),
            color_index: self.color_index,
            is_ready: self.is_ready,
        }
    }
}

} // verus!
