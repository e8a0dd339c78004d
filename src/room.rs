//! The lobby room: who plays, with which color, and the moves submitted for
//! the coming tick.
use vstd::prelude::*;
use std::collections::HashMap;
use crate::constants::{MAX_PLAYERS, MIN_PLAYERS};
use crate::error::GameError;
use crate::grid::Direction;
use crate::state::GameState;
use crate::world::{LobbyPlayer, LobbyPlayerView};

verus! {

broadcast use vstd::std_specs::hash::group_hash_axioms;

/// The views of a list of lobby entries.
pub open spec fn roster(players: Seq<LobbyPlayer>) -> Seq<LobbyPlayerView> {
    players.map_values(|p: LobbyPlayer| p@)
}

/// Lobby ids are pairwise different.
pub open spec fn roster_ids_unique(players: Seq<LobbyPlayerView>) -> bool {
    forall|i: int, j: int|
        0 <= i < players.len() && 0 <= j < players.len() && i != j ==> (#[trigger] players[i]).id
            != (#[trigger] players[j]).id
}

/// Whether an entry for a player other than `id` already uses `name`.
pub open spec fn name_taken(players: Seq<LobbyPlayerView>, id: u128, name: Seq<char>) -> bool {
    exists|i: int| 0 <= i < players.len() && (#[trigger] players[i]).id != id && players[i].name == name
}

/// Index of the entry for `id`.
pub open spec fn entry_index(players: Seq<LobbyPlayerView>, id: u128) -> Option<int>
    decreases players.len(),
{
    if players.len() == 0 {
        None
    } else {
        match entry_index(players.drop_last(), id) {
            Some(i) => Some(i),
            None => if players.last().id == id {
                Some(players.len() - 1)
            } else {
                None
            },
        }
    }
}

/// Some entry uses color `c`.
pub open spec fn color_used(players: Seq<LobbyPlayerView>, c: int) -> bool {
    exists|i: int| 0 <= i < players.len() && (#[trigger] players[i]).color == c
}

/// `c` is the lowest color no entry uses.
pub open spec fn lowest_free_color(players: Seq<LobbyPlayerView>, c: int) -> bool {
    &&& 0 <= c
    &&& !color_used(players, c)
    &&& forall|d: int| 0 <= d < c ==> color_used(players, d)
}

/// The color a newcomer gets: the lowest one no entry uses, so that colors
/// freed by leaving players are handed out again.
pub open spec fn free_color(players: Seq<LobbyPlayerView>) -> int {
    choose|c: int| lowest_free_color(players, c)
}

/// The roster after `id` joined as `name`: a player already present keeps
/// its entry, color and readiness, and only takes the new name; a newcomer
/// is appended, not ready, with the lowest free color.
pub open spec fn joined(players: Seq<LobbyPlayerView>, id: u128, name: Seq<char>) -> Seq<LobbyPlayerView> {
    match entry_index(players, id) {
        Some(i) => players.update(i, LobbyPlayerView { name, ..players[i] }),
        None => players.push(
            LobbyPlayerView { id, name, color: free_color(players) as nat, ready: false },
        ),
    }
}

/// The color `id` holds after joining.
pub open spec fn joined_color(players: Seq<LobbyPlayerView>, id: u128) -> int {
    match entry_index(players, id) {
        Some(i) => players[i].color as int,
        None => free_color(players),
    }
}

/// The roster without `id`.
pub open spec fn without(players: Seq<LobbyPlayerView>, id: u128) -> Seq<LobbyPlayerView> {
    players.filter(|p: LobbyPlayerView| p.id != id)
}

/// Every living snake has a pending move.
pub open spec fn moves_complete(world: GameState, moves: Map<u128, Direction>) -> bool {
    forall|i: int|
        0 <= i < world@.snakes.len() && (#[trigger] world@.snakes[i]).alive ==> moves.contains_key(
            world@.snakes[i].id,
        )
}

/// The single room of this server.
pub struct GameRoom {
    /// Entries in the order players joined.
    pub players: Vec<LobbyPlayer>,
    /// Moves submitted for the coming tick.
    pub pending_moves: HashMap<u128, Direction>,
}

impl GameRoom {
    /// The room's invariant: one entry per player.
    pub open spec fn wf(&self) -> bool {
        roster_ids_unique(roster(self.players@))
    }

    /// An empty room.
    pub fn new() -> (r: GameRoom)
        ensures
            r.wf(),
            r.players@.len() == 0,
            r.pending_moves@ == Map::<u128, Direction>::empty(),
    {
        GameRoom { players: Vec::new(), pending_moves: HashMap::new() }
    }

    /// Position of the entry for `id`.
    fn find_player(&self, id: u128) -> (r: Option<usize>)
        ensures
            r matches Some(i) ==> entry_index(roster(self.players@), id) == Some(i as int),
            r is None ==> entry_index(roster(self.players@), id) is None,
    {
        let ghost pv = roster(self.players@);
        let mut i: usize = 0;
        while i < self.players.len()
            invariant
                pv == roster(self.players@),
                i <= pv.len(),
                entry_index(pv.take(i as int), id) is None,
            decreases pv.len() - i,
        {
            assert(pv.take(i as int + 1).drop_last() =~= pv.take(i as int));
            assert(pv[i as int] == self.players@[i as int]@);
            if self.players[i].id == id {
                proof {
                    lemma_entry_index_prefix(pv, id, i as int + 1);
                }
                return Some(i);
            }
            i = i + 1;
        }
        assert(pv.take(i as int) =~= pv);
        None
    }

    /// Whether another player than `id` already uses `name`.
    fn name_in_use(&self, id: u128, name: &String) -> (r: bool)
        ensures
            r == name_taken(roster(self.players@), id, name@),
    {
        let ghost pv = roster(self.players@);
        let mut i: usize = 0;
        while i < self.players.len()
            invariant
                pv == roster(self.players@),
                i <= pv.len(),
                forall|k: int| 0 <= k < i ==> !((#[trigger] pv[k]).id != id && pv[k].name == name@),
            decreases pv.len() - i,
        {
            assert(pv[i as int] == self.players@[i as int]@);
            if self.players[i].id != id && self.players[i].name == *name {
                return true;
            }
            i = i + 1;
        }
        false
    }

    /// Whether some entry uses color `c`.
    fn color_in_use(&self, c: usize) -> (r: bool)
        ensures
            r == color_used(roster(self.players@), c as int),
    {
        let ghost pv = roster(self.players@);
        let mut i: usize = 0;
        while i < self.players.len()
            invariant
                pv == roster(self.players@),
                i <= pv.len(),
                forall|k: int| 0 <= k < i ==> (#[trigger] pv[k]).color != c,
            decreases pv.len() - i,
        {
            assert(pv[i as int] == self.players@[i as int]@);
            if self.players[i].color_index == c {
                return true;
            }
            i = i + 1;
        }
        false
    }

    /// The lowest color no entry uses.
    fn next_color(&self) -> (r: usize)
        ensures
            r as int == free_color(roster(self.players@)),
            r <= self.players@.len(),
    {
        let ghost pv = roster(self.players@);
        proof {
            lemma_some_color_free(pv);
        }
        let ghost w = choose|w: int| 0 <= w <= pv.len() && !color_used(pv, w);
        let n = self.players.len();
        let mut c: usize = 0;
        let mut used = self.color_in_use(c);
        while used
            invariant
                used == color_used(pv, c as int),
                pv == roster(self.players@),
                pv.len() == n,
                0 <= w <= pv.len(),
                !color_used(pv, w),
                c <= w,
                forall|d: int| 0 <= d < c ==> color_used(pv, d),
            decreases w - c,
        {
            assert(c < w);
            c = c + 1;
            used = self.color_in_use(c);
        }
        proof {
            lemma_free_color_unique(pv, c as int);
        }
        c
    }

    /// Admits player `id` as `name`. A player already in the room only takes
    /// the new name and keeps its color. Fails for a newcomer when the room is
    /// full, and for anyone when another player has the name. Returns the
    /// player's color.
    pub fn add_player(&mut self, id: u128, name: String) -> (r: Result<usize, GameError>)
        requires
            old(self).wf(),
        ensures
            final(self).wf(),
            final(self).pending_moves@ == old(self).pending_moves@,
            old(self).players@.len() >= MAX_PLAYERS && entry_index(roster(old(self).players@), id) is None
                ==> (r matches Err(GameError::RoomFull)) && final(self).players@ == old(self).players@,
            !(old(self).players@.len() >= MAX_PLAYERS && entry_index(roster(old(self).players@), id) is None)
                && name_taken(roster(old(self).players@), id, name@) ==> (r matches Err(
                GameError::NameTaken(n),
            ) && n@ == name@) && final(self).players@ == old(self).players@,
            !(old(self).players@.len() >= MAX_PLAYERS && entry_index(roster(old(self).players@), id) is None)
                && !name_taken(roster(old(self).players@), id, name@) ==> (r matches Ok(c) && c
                == joined_color(roster(old(self).players@), id)) && roster(final(self).players@)
                == joined(roster(old(self).players@), id, name@),
    {
        let ghost pv = roster(self.players@);
        let found = self.find_player(id);
        if found.is_none() && self.players.len() >= MAX_PLAYERS {
            return Err(GameError::RoomFull);
        }
        if self.name_in_use(id, &name) {
            return Err(GameError::NameTaken(name));
        }
        match found {
            Some(i) => {
                proof {
                    lemma_entry_index_found(pv, id);
                }
                let color_index = self.players[i].color_index;
                let is_ready = self.players[i].is_ready;
                let player = LobbyPlayer { id, name, color_index, is_ready };
                self.players.set(i, player);
                proof {
                    assert(roster(self.players@) =~= joined(pv, id, player.name@));
                }
                Ok(color_index)
            },
            None => {
                let color_index = self.next_color();
                let player = LobbyPlayer { id, name, color_index, is_ready: false };
                self.players.push(player);
                proof {
                    lemma_entry_index_absent(pv, id);
                    assert(roster(self.players@) =~= joined(pv, id, player.name@));
                }
                Ok(color_index)
            },
        }
    }

    /// Removes player `id` and its pending move; nothing happens when it is absent.
    pub fn remove_player(&mut self, id: u128)
        requires
            old(self).wf(),
        ensures
            final(self).wf(),
            roster(final(self).players@) == without(roster(old(self).players@), id),
            final(self).pending_moves@ == old(self).pending_moves@.remove(id),
    {
        let ghost pv = roster(self.players@);
        let mut kept: Vec<LobbyPlayer> = Vec::new();
        let mut i: usize = 0;
        while i < self.players.len()
            invariant
                pv == roster(self.players@),
                self.players == old(self).players,
                self.pending_moves == old(self).pending_moves,
                i <= pv.len(),
                roster(kept@) == without(pv.take(i as int), id),
            decreases pv.len() - i,
        {
            assert(pv[i as int] == self.players@[i as int]@);
            assert(pv.take(i as int + 1) =~= pv.take(i as int).push(pv[i as int]));
            proof {
                pv.take(i as int).lemma_filter_push(pv[i as int], |p: LobbyPlayerView| p.id != id);
            }
            if self.players[i].id != id {
                let entry = self.players[i].duplicate();
                kept.push(entry);
                assert(roster(kept@) =~= without(pv.take(i as int + 1), id));
            }
            i = i + 1;
        }
        assert(pv.take(i as int) =~= pv);
        self.players = kept;
        self.pending_moves.remove(&id);
        proof {
            lemma_without_unique(pv, id);
        }
    }

    /// Records `direction` as the pending move of `id`, replacing an earlier one.
    pub fn record_move(&mut self, id: u128, direction: Direction)
        ensures
            final(self).players == old(self).players,
            final(self).pending_moves@ == old(self).pending_moves@.insert(id, direction),
    {
        self.pending_moves.insert(id, direction);
    }

    /// Hands out the pending moves and clears them.
    pub fn take_moves(&mut self) -> (r: HashMap<u128, Direction>)
        ensures
            r@ == old(self).pending_moves@,
            final(self).players == old(self).players,
            final(self).pending_moves@ == Map::<u128, Direction>::empty(),
    {
        let mut moves: HashMap<u128, Direction> = HashMap::new();
        std::mem::swap(&mut moves, &mut self.pending_moves);
        moves
    }

    /// Whether enough players joined to start.
    pub fn can_start_game(&self) -> (r: bool)
        ensures
            r == (self.players@.len() >= MIN_PLAYERS),
    {
        self.players.len() >= MIN_PLAYERS
    }

    /// Whether every living snake of `world` has a pending move.
    pub fn all_moves_submitted(&self, world: &GameState) -> (r: bool)
        ensures
            r == moves_complete(*world, self.pending_moves@),
    {
        let mut i: usize = 0;
        while i < world.snakes.len()
            invariant
                i <= world@.snakes.len(),
                forall|k: int|
                    0 <= k < i && (#[trigger] world@.snakes[k]).alive ==> self.pending_moves@.contains_key(
                        world@.snakes[k].id,
                    ),
            decreases world@.snakes.len() - i,
        {
            assert(world@.snakes[i as int] == world.snakes@[i as int]@);
            if world.snakes[i].is_alive && !self.pending_moves.contains_key(&world.snakes[i].id) {
                return false;
            }
            i = i + 1;
        }
        true
    }

    /// A copy of the entry for `id`, if there is one.
    pub fn player_entry(&self, id: u128) -> (r: Option<LobbyPlayer>)
        ensures
            match entry_index(roster(self.players@), id) {
                Some(i) => r matches Some(p) && p@ == roster(self.players@)[i],
                None => r is None,
            },
    {
        match self.find_player(id) {
            Some(i) => {
                proof {
                    lemma_entry_index_found(roster(self.players@), id);
                }
                Some(self.players[i].duplicate())
            },
            None => None,
        }
    }

    /// Copies of the entries, in joining order.
    pub fn lobby_players(&self) -> (r: Vec<LobbyPlayer>)
        ensures
            roster(r@) == roster(self.players@),
    {
        let mut out: Vec<LobbyPlayer> = Vec::new();
        let mut i: usize = 0;
        while i < self.players.len()
            invariant
                i <= self.players@.len(),
                out@.len() == i,
                forall|k: int| 0 <= k < i ==> (#[trigger] out@[k])@ == self.players@[k]@,
            decreases self.players@.len() - i,
        {
            out.push(self.players[i].duplicate());
            i = i + 1;
        }
        assert(roster(out@) =~= roster(self.players@));
        out
    }
}

/// Among `n` entries one of the colors `0..=n` is free.
pub proof fn lemma_some_color_free(players: Seq<LobbyPlayerView>)
    ensures
        exists|w: int| 0 <= w <= players.len() && !color_used(players, w),
{
    if forall|w: int| 0 <= w <= players.len() ==> color_used(players, w) {
        let colors = players.map_values(|p: LobbyPlayerView| p.color as int);
        let range = vstd::set_lib::set_int_range(0, players.len() as int + 1);
        vstd::set_lib::lemma_int_range(0, players.len() as int + 1);
        colors.lemma_cardinality_of_set();
        assert(range.subset_of(colors.to_set())) by {
            assert forall|c: int| range.contains(c) implies colors.to_set().contains(c) by {
                assert(color_used(players, c));
                let i = choose|i: int| 0 <= i < players.len() && (#[trigger] players[i]).color == c;
                assert(colors[i] == c);
            }
        }
        vstd::set_lib::lemma_len_subset(range, colors.to_set());
    }
}

/// The lowest free color is `free_color`.
pub proof fn lemma_free_color_unique(players: Seq<LobbyPlayerView>, c: int)
    requires
        lowest_free_color(players, c),
    ensures
        free_color(players) == c,
{
    let f = free_color(players);
    assert(lowest_free_color(players, f));
    if f < c {
        assert(color_used(players, f));
    } else if c < f {
        assert(color_used(players, c));
    }
}

/// An entry found in a prefix is the one found in the whole roster.
pub proof fn lemma_entry_index_prefix(players: Seq<LobbyPlayerView>, id: u128, n: int)
    requires
        0 <= n <= players.len(),
        entry_index(players.take(n), id) is Some,
    ensures
        entry_index(players, id) == entry_index(players.take(n), id),
    decreases players.len() - n,
{
    if n < players.len() {
        assert(players.take(n + 1).drop_last() =~= players.take(n));
        lemma_entry_index_prefix(players, id, n + 1);
    } else {
        assert(players.take(n) =~= players);
    }
}

/// A found index is in range and holds `id`.
pub proof fn lemma_entry_index_found(players: Seq<LobbyPlayerView>, id: u128)
    requires
        entry_index(players, id) is Some,
    ensures
        0 <= entry_index(players, id)->Some_0 < players.len(),
        players[entry_index(players, id)->Some_0].id == id,
    decreases players.len(),
{
    if entry_index(players.drop_last(), id) is Some {
        lemma_entry_index_found(players.drop_last(), id);
    }
}

/// Without an index no entry holds `id`.
pub proof fn lemma_entry_index_absent(players: Seq<LobbyPlayerView>, id: u128)
    requires
        entry_index(players, id) is None,
    ensures
        forall|i: int| 0 <= i < players.len() ==> (#[trigger] players[i]).id != id,
    decreases players.len(),
{
    if players.len() > 0 {
        lemma_entry_index_absent(players.drop_last(), id);
        assert forall|i: int| 0 <= i < players.len() implies (#[trigger] players[i]).id != id by {
            if i < players.len() - 1 {
                assert(players.drop_last()[i] == players[i]);
            }
        }
    }
}

/// Removing entries keeps ids unique.
pub proof fn lemma_without_unique(players: Seq<LobbyPlayerView>, id: u128)
    requires
        roster_ids_unique(players),
    ensures
        roster_ids_unique(without(players, id)),
    decreases players.len(),
{
    reveal(Seq::filter);
    broadcast use vstd::seq_lib::group_filter_ensures;

    if players.len() > 0 {
        let init = players.drop_last();
        assert(roster_ids_unique(init)) by {
            assert forall|a: int, b: int|
                0 <= a < init.len() && 0 <= b < init.len() && a != b implies (#[trigger] init[a]).id
                    != (#[trigger] init[b]).id by {
                assert(init[a] == players[a] && init[b] == players[b]);
            }
        }
        lemma_without_unique(init, id);
        let g = without(init, id);
        let last = players.last();
        if last.id != id {
            let r = g.push(last);
            assert(without(players, id) == r);
            assert forall|a: int, b: int|
                0 <= a < r.len() && 0 <= b < r.len() && a != b implies (#[trigger] r[a]).id
                    != (#[trigger] r[b]).id by {
                if a == g.len() {
                    assert(g.contains(g[b]));
                    init.lemma_filter_contains_rev(|p: LobbyPlayerView| p.id != id, g[b]);
                    let j = choose|j: int| 0 <= j < init.len() && init[j] == g[b];
                    assert(players[j] == init[j]);
                } else if b == g.len() {
                    assert(g.contains(g[a]));
                    init.lemma_filter_contains_rev(|p: LobbyPlayerView| p.id != id, g[a]);
                    let j = choose|j: int| 0 <= j < init.len() && init[j] == g[a];
                    assert(players[j] == init[j]);
                } else {
                    assert(r[a] == g[a] && r[b] == g[b]);
                }
            }
        }
    }
}

} // verus!
