//! The server's shared registries: players, games and broadcast
//! subscribers, with two strictly increasing id counters. Registry
//! membership and per-entity fields are guarded by one combined lock around
//! the whole state, held by the caller; the functions here are the
//! operations performed under it.
//!
//! The well-formedness invariant `wf` ties everything together: ids are
//! allocated below the counters and never repeat, a game's position in the
//! registry is its id, and a player's `in_game` field points at a
//! non-finished game holding a seat for it, and only then.
use vstd::prelude::*;

verus! {

/// One connected player: its server-assigned id, the game it currently sits
/// in (if any), and whether it has presented the shared password. The
/// connection itself is owned by the surrounding transport layer.
#[derive(Clone, Copy, Debug)]
pub struct Player {
    pub id: u32,
    pub in_game: Option<u32>,
    pub authenticated: bool,
}

impl Player {
    /// A freshly accepted player: not authenticated, in no game.
    pub fn new(id: u32) -> (p: Player)
        ensures
            p.id == id,
            p.in_game is None,
            !p.authenticated,
    {
        Player { id, in_game: None, authenticated: false }
    }
}

/// One match between a hinter and a guesser. Once `finished` is true the
/// game is immutable and stays in the registry indefinitely, so it can be
/// broadcast and replayed to late subscribers.
#[derive(Clone, Debug)]
pub struct Game {
    pub id: u32,
    pub hinter: u32,
    pub guesser: u32,
    pub word: Option<String>,
    pub guesses: Vec<String>,
    pub hints: Vec<String>,
    pub winner: Option<u32>,
    pub finished: bool,
    pub timestamp: u64,
}

impl Game {
    /// A newly created match: no word yet, no guesses, no hints, unfinished.
    pub fn new(id: u32, hinter: u32, guesser: u32) -> (g: Game)
        ensures
            g.id == id,
            g.hinter == hinter,
            g.guesser == guesser,
            g.word is None,
            g.guesses@ == Seq::<String>::empty(),
            g.hints@ == Seq::<String>::empty(),
            g.winner is None,
            !g.finished,
            g.timestamp == 0,
    {
        Game {
            id,
            hinter,
            guesser,
            word: None,
            guesses: Vec::new(),
            hints: Vec::new(),
            winner: None,
            finished: false,
            timestamp: 0,
        }
    }
}

/// One entry of the subscriber registry. `ready` false means "reserved,
/// handoff pending"; `ready` true means the connection has been handed over
/// and broadcasts can be written to it.
#[derive(Clone, Copy, Debug)]
pub struct Subscriber {
    pub id: u32,
    pub ready: bool,
}

/// The server's configuration: the shared password clients must present.
pub struct ServerConfig {
    pub password: String,
}

impl ServerConfig {
    pub fn new(password: String) -> (c: ServerConfig)
        ensures
            c.password@ == password@,
    {
        ServerConfig { password }
    }
}

/// A game whose fields are mutually consistent: distinct seats, a winner
/// exactly when finished, a timestamp exactly when finished, and no guess
/// or hint before the word is set.
pub open spec fn wf_game(g: Game) -> bool {
    &&& g.hinter != g.guesser
    &&& g.finished <==> g.winner is Some
    &&& g.finished ==> g.timestamp >= 1
    &&& !g.finished ==> g.timestamp == 0
    &&& match g.winner {
        Some(w) => w == g.hinter || w == g.guesser,
        None => true,
    }
    &&& g.guesses@.len() > 0 ==> g.word is Some
    &&& g.hints@.len() > 0 ==> g.word is Some
}

/// The server's registries and id counters.
pub struct ServerState {
    pub players: Vec<Player>,
    pub games: Vec<Game>,
    pub subscribers: Vec<Subscriber>,
    pub next_player_id: u32,
    pub next_game_id: u32,
}

impl ServerState {
    /// The state invariant; every operation here preserves it.
    pub open spec fn wf(&self) -> bool {
        &&& self.next_player_id >= 1
        &&& self.next_game_id >= 1
        &&& self.games@.len() == self.next_game_id - 1
        &&& forall|i: int|
            0 <= i < self.players@.len() ==> 1 <= (#[trigger] self.players@[i]).id
                < self.next_player_id
        &&& forall|i: int, j: int|
            0 <= i < j < self.players@.len() ==> (#[trigger] self.players@[i]).id < (
            #[trigger] self.players@[j]).id
        &&& forall|i: int|
            0 <= i < self.games@.len() ==> (#[trigger] self.games@[i]).id == i + 1
        &&& forall|i: int| 0 <= i < self.games@.len() ==> wf_game(#[trigger] self.games@[i])
        &&& forall|i: int|
            0 <= i < self.games@.len() ==> 1 <= (#[trigger] self.games@[i]).hinter
                < self.next_player_id && 1 <= self.games@[i].guesser < self.next_player_id
        &&& forall|i: int|
            0 <= i < self.subscribers@.len() ==> 1 <= (#[trigger] self.subscribers@[i]).id
                < self.next_player_id
        &&& forall|i: int|
            0 <= i < self.players@.len() ==> self.player_link(#[trigger] self.players@[i])
        &&& forall|i: int, j: int|
            0 <= i < self.players@.len() && 0 <= j < self.games@.len() && !(
            #[trigger] self.games@[j]).finished && (self.games@[j].hinter == (
            #[trigger] self.players@[i]).id || self.games@[j].guesser == self.players@[i].id)
                ==> self.players@[i].in_game == Some(self.games@[j].id)
        &&& forall|i: int, j: int|
            0 <= i < j < self.subscribers@.len() ==> (#[trigger] self.subscribers@[i]).id != (
            #[trigger] self.subscribers@[j]).id
        &&& forall|i: int, j: int|
            0 <= i < self.subscribers@.len() && 0 <= j < self.players@.len() && (
            #[trigger] self.subscribers@[i]).ready ==> (#[trigger] self.players@[j]).id
                != self.subscribers@[i].id
    }

    /// A player's `in_game` field points at an existing, non-finished game
    /// in which it holds a seat.
    pub open spec fn player_link(&self, p: Player) -> bool {
        match p.in_game {
            Some(g) => 1 <= g < self.next_game_id && !self.games@[g - 1].finished && (
            self.games@[g - 1].hinter == p.id || self.games@[g - 1].guesser == p.id),
            None => true,
        }
    }

    /// Some registered player carries this id.
    pub open spec fn has_player(&self, id: u32) -> bool {
        exists|i: int| 0 <= i < self.players@.len() && (#[trigger] self.players@[i]).id == id
    }

    /// The registry index of the player with this id.
    pub open spec fn player_idx(&self, id: u32) -> int {
        choose|i: int| 0 <= i < self.players@.len() && (#[trigger] self.players@[i]).id == id
    }

    /// The player with this id.
    pub open spec fn player(&self, id: u32) -> Player {
        self.players@[self.player_idx(id)]
    }

    /// A game with this id exists.
    pub open spec fn has_game(&self, id: u32) -> bool {
        1 <= id < self.next_game_id
    }

    /// The game with this id (its registry slot is `id - 1`).
    pub open spec fn game(&self, id: u32) -> Game {
        self.games@[id - 1]
    }

    /// Some subscriber entry carries this id.
    pub open spec fn has_subscriber(&self, id: u32) -> bool {
        exists|i: int| 0 <= i < self.subscribers@.len() && (#[trigger] self.subscribers@[i]).id
            == id
    }

    /// Fresh state: no players, no games, no subscribers, both counters
    /// starting at one.
    pub fn new() -> (s: ServerState)
        ensures
            s.wf(),
            s.players@ == Seq::<Player>::empty(),
            s.games@ == Seq::<Game>::empty(),
            s.subscribers@ == Seq::<Subscriber>::empty(),
            s.next_player_id == 1,
            s.next_game_id == 1,
    {
        ServerState {
            players: Vec::new(),
            games: Vec::new(),
            subscribers: Vec::new(),
            next_player_id: 1,
            next_game_id: 1,
        }
    }

    /// In a well-formed state, an index holding an id is the index of that
    /// id's player.
    pub proof fn lemma_player_at(&self, i: int, id: u32)
        requires
            self.wf(),
            0 <= i < self.players@.len(),
            self.players@[i].id == id,
        ensures
            self.has_player(id),
            self.player_idx(id) == i,
            self.player(id) == self.players@[i],
    {
        assert(self.has_player(id));
        let j = self.player_idx(id);
        assert(0 <= j < self.players@.len() && self.players@[j].id == id);
        if i < j {
            assert(self.players@[i].id < self.players@[j].id);
        }
        if j < i {
            assert(self.players@[j].id < self.players@[i].id);
        }
    }

    /// Finds the registry index of a player id.
    pub fn find_player(&self, id: u32) -> (r: Option<usize>)
        requires
            self.wf(),
        ensures
            match r {
                Some(i) => self.has_player(id) && self.player_idx(id) == i
                    && i < self.players@.len() && self.players@[i as int].id == id,
                None => !self.has_player(id),
            },
    {
        let mut i: usize = 0;
        while i < self.players.len()
            invariant
                self.wf(),
                i <= self.players@.len(),
                forall|k: int| 0 <= k < i ==> (#[trigger] self.players@[k]).id != id,
            decreases self.players@.len() - i,
        {
            if self.players[i].id == id {
                proof {
                    self.lemma_player_at(i as int, id);
                }
                return Some(i);
            }
            i = i + 1;
        }
        None
    }

    /// Looks a player up by id.
    pub fn get_player(&self, id: u32) -> (r: Option<Player>)
        requires
            self.wf(),
        ensures
            self.has_player(id) ==> r == Some(self.player(id)),
            !self.has_player(id) ==> r is None,
    {
        match self.find_player(id) {
            Some(i) => Some(self.players[i]),
            None => None,
        }
    }

    /// Allocates the next player id and registers a fresh player under it.
    /// The id is strictly greater than every id handed out before, so no id
    /// is ever reused.
    pub fn create_player(&mut self) -> (id: u32)
        requires
            old(self).wf(),
            old(self).next_player_id < u32::MAX,
        ensures
            final(self).wf(),
            id == old(self).next_player_id,
            !old(self).has_player(id),
            final(self).players@ == old(self).players@.push(
                Player { id, in_game: None, authenticated: false },
            ),
            final(self).next_player_id == old(self).next_player_id + 1,
            final(self).games@ == old(self).games@,
            final(self).subscribers@ == old(self).subscribers@,
            final(self).next_game_id == old(self).next_game_id,
    {
        let id = self.next_player_id;
        self.next_player_id = self.next_player_id + 1;
        let p = Player::new(id);
        self.players.push(p);
        id
    }

    /// Removes the player with this id, if present; every other entry and
    /// registry is untouched. Afterwards the id is not reachable through
    /// the player registry.
    pub fn remove_player(&mut self, id: u32)
        requires
            old(self).wf(),
        ensures
            final(self).wf(),
            old(self).has_player(id) ==> final(self).players@ == old(self).players@.remove(
                old(self).player_idx(id),
            ),
            !old(self).has_player(id) ==> final(self).players@ == old(self).players@,
            !final(self).has_player(id),
            final(self).games@ == old(self).games@,
            final(self).subscribers@ == old(self).subscribers@,
            final(self).next_player_id == old(self).next_player_id,
            final(self).next_game_id == old(self).next_game_id,
    {
        match self.find_player(id) {
            None => {},
            Some(i) => {
                self.players.remove(i);
                proof {
                    assert(forall|k: int|
                        0 <= k < self.players@.len() ==> #[trigger] self.players@[k] == (
                        if k < i as int {
                            old(self).players@[k]
                        } else {
                            old(self).players@[k + 1]
                        }));
                    assert(!self.has_player(id)) by {
                        assert(forall|k: int|
                            0 <= k < self.players@.len() ==> (#[trigger] self.players@[k]).id
                                != id);
                    }
                }
            },
        }
    }

    /// Allocates the next game id, inserts the match and seats both
    /// players, atomically: both `in_game` fields are set together with the
    /// insertion, keeping the registries consistent.
    pub fn create_game(&mut self, hinter: u32, guesser: u32) -> (id: u32)
        requires
            old(self).wf(),
            old(self).next_game_id < u32::MAX,
            hinter != guesser,
            old(self).has_player(hinter),
            old(self).has_player(guesser),
            old(self).player(hinter).in_game is None,
            old(self).player(guesser).in_game is None,
        ensures
            final(self).wf(),
            id == old(self).next_game_id,
            final(self).games@.len() == old(self).games@.len() + 1,
            forall|k: int|
                0 <= k < old(self).games@.len() ==> #[trigger] final(self).games@[k] == old(
                    self,
                ).games@[k],
            final(self).games@.last().id == id,
            final(self).games@.last().hinter == hinter,
            final(self).games@.last().guesser == guesser,
            final(self).games@.last().word is None,
            final(self).games@.last().guesses@ == Seq::<String>::empty(),
            final(self).games@.last().hints@ == Seq::<String>::empty(),
            final(self).games@.last().winner is None,
            !final(self).games@.last().finished,
            final(self).games@.last().timestamp == 0,
            final(self).next_game_id == old(self).next_game_id + 1,
            final(self).players@.len() == old(self).players@.len(),
            forall|k: int|
                0 <= k < final(self).players@.len() ==> #[trigger] final(self).players@[k] == (
                if old(self).players@[k].id == hinter || old(self).players@[k].id == guesser {
                    Player {
                        id: old(self).players@[k].id,
                        in_game: Some(id),
                        authenticated: old(self).players@[k].authenticated,
                    }
                } else {
                    old(self).players@[k]
                }),
            final(self).subscribers@ == old(self).subscribers@,
            final(self).next_player_id == old(self).next_player_id,
    {
        let hi = self.find_player_unchecked(hinter);
        let gi = self.find_player_unchecked(guesser);
        let id = self.next_game_id;
        self.next_game_id = self.next_game_id + 1;
        let g = Game::new(id, hinter, guesser);
        self.games.push(g);
        self.players[hi].in_game = Some(id);
        let p = self.players[gi];
        self.players[gi] = Player { id: p.id, in_game: Some(id), authenticated: p.authenticated };
        proof {
            assert(hi != gi);
            assert(forall|k: int|
                0 <= k < self.players@.len() ==> (#[trigger] self.players@[k]).id == old(
                    self,
                ).players@[k].id && self.players@[k].authenticated == old(
                    self,
                ).players@[k].authenticated);
            assert(forall|k: int|
                0 <= k < self.players@.len() && k != hi as int && k != gi as int
                    ==> #[trigger] self.players@[k] == old(self).players@[k]);
            assert forall|k: int|
                0 <= k < self.players@.len() && (old(self).players@[k].id == hinter || old(
                    self,
                ).players@[k].id == guesser) implies k == hi as int || k == gi as int by {
                if old(self).players@[k].id == hinter {
                    old(self).lemma_player_at(k, hinter);
                } else {
                    old(self).lemma_player_at(k, guesser);
                }
            }
            assert(forall|k: int|
                0 <= k < old(self).games@.len() ==> #[trigger] self.games@[k] == old(
                    self,
                ).games@[k]);
            assert(self.games@.last().id == id);
            assert(self.wf());
        }
        id
    }

    /// Registers an id in the subscriber registry as reserved (no
    /// connection handed over yet). Re-subscribing demotes an existing
    /// entry back to reserved.
    pub fn add_subscriber(&mut self, id: u32)
        requires
            old(self).wf(),
            old(self).has_player(id),
        ensures
            final(self).wf(),
            final(self).has_subscriber(id),
            !old(self).has_subscriber(id) ==> final(self).subscribers@ == old(
                self,
            ).subscribers@.push(Subscriber { id, ready: false }),
            old(self).has_subscriber(id) ==> final(self).subscribers@.len() == old(
                self,
            ).subscribers@.len() && forall|k: int|
                0 <= k < final(self).subscribers@.len() ==> #[trigger] final(self).subscribers@[k]
                    == (if old(self).subscribers@[k].id == id {
                    Subscriber { id, ready: false }
                } else {
                    old(self).subscribers@[k]
                }),
            final(self).players@ == old(self).players@,
            final(self).games@ == old(self).games@,
            final(self).next_player_id == old(self).next_player_id,
            final(self).next_game_id == old(self).next_game_id,
    {
        let mut i: usize = 0;
        while i < self.subscribers.len()
            invariant
                old(self).wf(),
                old(self).has_player(id),
                self == old(self),
                i <= self.subscribers@.len(),
                forall|k: int| 0 <= k < i ==> (#[trigger] self.subscribers@[k]).id != id,
            decreases self.subscribers@.len() - i,
        {
            if self.subscribers[i].id == id {
                self.subscribers[i] = Subscriber { id, ready: false };
                proof {
                    assert forall|k: int|
                        0 <= k < self.subscribers@.len() && k != i as int implies old(
                        self,
                    ).subscribers@[k].id != id by {
                        if k < i as int {
                            assert(old(self).subscribers@[k].id != old(self).subscribers@[i as int].id);
                        } else {
                            assert(old(self).subscribers@[i as int].id != old(self).subscribers@[k].id);
                        }
                    }
                    assert(self.subscribers@[i as int].id == id);
                    assert(self.has_subscriber(id));
                }
                return ;
            }
            i = i + 1;
        }
        self.subscribers.push(Subscriber { id, ready: false });
        proof {
            assert(self.subscribers@.last().id == id);
            assert(self.has_subscriber(id));
        }
    }

    /// Marks a subscriber's connection as handed over and ready for
    /// broadcasts. The id must no longer be an active player: a connection
    /// is owned by the player registry or the subscriber registry, never
    /// both.
    pub fn set_subscriber_ready(&mut self, id: u32)
        requires
            old(self).wf(),
            !old(self).has_player(id),
        ensures
            final(self).wf(),
            final(self).subscribers@.len() == old(self).subscribers@.len(),
            forall|k: int|
                0 <= k < final(self).subscribers@.len() ==> #[trigger] final(self).subscribers@[k]
                    == (if old(self).subscribers@[k].id == id {
                    Subscriber { id, ready: true }
                } else {
                    old(self).subscribers@[k]
                }),
            final(self).players@ == old(self).players@,
            final(self).games@ == old(self).games@,
            final(self).next_player_id == old(self).next_player_id,
            final(self).next_game_id == old(self).next_game_id,
    {
        let mut i: usize = 0;
        while i < self.subscribers.len()
            invariant
                old(self).wf(),
                !old(self).has_player(id),
                i <= self.subscribers@.len(),
                self.players@ == old(self).players@,
                self.games@ == old(self).games@,
                self.next_player_id == old(self).next_player_id,
                self.next_game_id == old(self).next_game_id,
                self.subscribers@.len() == old(self).subscribers@.len(),
                forall|k: int|
                    0 <= k < self.subscribers@.len() ==> #[trigger] self.subscribers@[k] == (
                    if old(self).subscribers@[k].id == id && k < i {
                        Subscriber { id, ready: true }
                    } else {
                        old(self).subscribers@[k]
                    }),
            decreases self.subscribers@.len() - i,
        {
            if self.subscribers[i].id == id {
                self.subscribers[i] = Subscriber { id, ready: true };
            }
            i = i + 1;
        }
    }

    /// Demotes a subscriber back to reserved, after a failed broadcast
    /// write: the registration stays, the connection is dropped.
    pub fn clear_subscriber(&mut self, id: u32)
        requires
            old(self).wf(),
        ensures
            final(self).wf(),
            final(self).subscribers@.len() == old(self).subscribers@.len(),
            forall|k: int|
                0 <= k < final(self).subscribers@.len() ==> #[trigger] final(self).subscribers@[k]
                    == (if old(self).subscribers@[k].id == id {
                    Subscriber { id, ready: false }
                } else {
                    old(self).subscribers@[k]
                }),
            final(self).players@ == old(self).players@,
            final(self).games@ == old(self).games@,
            final(self).next_player_id == old(self).next_player_id,
            final(self).next_game_id == old(self).next_game_id,
    {
        let mut i: usize = 0;
        while i < self.subscribers.len()
            invariant
                old(self).wf(),
                i <= self.subscribers@.len(),
                self.players@ == old(self).players@,
                self.games@ == old(self).games@,
                self.next_player_id == old(self).next_player_id,
                self.next_game_id == old(self).next_game_id,
                self.subscribers@.len() == old(self).subscribers@.len(),
                forall|k: int|
                    0 <= k < self.subscribers@.len() ==> #[trigger] self.subscribers@[k] == (
                    if old(self).subscribers@[k].id == id && k < i {
                        Subscriber { id, ready: false }
                    } else {
                        old(self).subscribers@[k]
                    }),
            decreases self.subscribers@.len() - i,
        {
            if self.subscribers[i].id == id {
                self.subscribers[i] = Subscriber { id, ready: false };
            }
            i = i + 1;
        }
    }

    /// The registry index of a player known to be present.
    pub(crate) fn find_player_unchecked(&self, id: u32) -> (i: usize)
        requires
            self.wf(),
            self.has_player(id),
        ensures
            i < self.players@.len(),
            self.players@[i as int].id == id,
            i == self.player_idx(id),
            self.players@[i as int] == self.player(id),
    {
        match self.find_player(id) {
            Some(i) => i,
            None => {
                proof {
                    assert(false);
                }
                0
            },
        }
    }

    /// The ids of the subscribers whose connections are ready, in registry
    /// order: the targets of one broadcast round.
    pub fn subscriber_ready_ids(&self) -> (r: Vec<u32>)
        ensures
            r@ == spec_ready_ids(self.subscribers@),
    {
        let mut r: Vec<u32> = Vec::new();
        let mut i: usize = 0;
        while i < self.subscribers.len()
            invariant
                i <= self.subscribers@.len(),
                r@ == spec_ready_ids(self.subscribers@.take(i as int)),
            decreases self.subscribers@.len() - i,
        {
            proof {
                assert(self.subscribers@.take(i as int + 1).drop_last() =~= self.subscribers@.take(
                    i as int,
                ));
            }
            if self.subscribers[i].ready {
                r.push(self.subscribers[i].id);
            }
            i = i + 1;
        }
        proof {
            assert(self.subscribers@.take(self.subscribers@.len() as int) =~= self.subscribers@);
        }
        r
    }

    /// The ids of every finished game with a word set, in registry order:
    /// the backlog a new subscriber is brought up to date with.
    pub fn finished_game_ids(&self) -> (r: Vec<u32>)
        ensures
            r@ == spec_finished_ids(self.games@),
    {
        let mut r: Vec<u32> = Vec::new();
        let mut i: usize = 0;
        while i < self.games.len()
            invariant
                i <= self.games@.len(),
                r@ == spec_finished_ids(self.games@.take(i as int)),
            decreases self.games@.len() - i,
        {
            proof {
                assert(self.games@.take(i as int + 1).drop_last() =~= self.games@.take(i as int));
            }
            if self.games[i].finished && self.games[i].word.is_some() {
                r.push(self.games[i].id);
            }
            i = i + 1;
        }
        proof {
            assert(self.games@.take(self.games@.len() as int) =~= self.games@);
        }
        r
    }
}

/// Ids are strictly increasing and never reused: in a well-formed state
/// every registered player id and game id lies strictly below its counter,
/// so the id the next allocation returns (the counter itself) differs from
/// every id handed out before; each allocation bumps its counter, so
/// successive allocations return strictly increasing ids.
pub proof fn lemma_ids_fresh(s: ServerState)
    requires
        s.wf(),
    ensures
        forall|i: int|
            0 <= i < s.players@.len() ==> (#[trigger] s.players@[i]).id < s.next_player_id,
        forall|i: int| 0 <= i < s.games@.len() ==> (#[trigger] s.games@[i]).id < s.next_game_id,
        !s.has_player(s.next_player_id),
        !s.has_game(s.next_game_id),
{
}

/// The ids of the ready entries of a subscriber registry, in order.
pub open spec fn spec_ready_ids(subs: Seq<Subscriber>) -> Seq<u32>
    decreases subs.len(),
{
    if subs.len() == 0 {
        Seq::empty()
    } else {
        spec_ready_ids(subs.drop_last()) + (if subs.last().ready {
            seq![subs.last().id]
        } else {
            Seq::empty()
        })
    }
}

/// The ids of the finished games with a word set, in order.
pub open spec fn spec_finished_ids(games: Seq<Game>) -> Seq<u32>
    decreases games.len(),
{
    if games.len() == 0 {
        Seq::empty()
    } else {
        spec_finished_ids(games.drop_last()) + (if games.last().finished
            && games.last().word is Some {
            seq![games.last().id]
        } else {
            Seq::empty()
        })
    }
}

} // verus!
