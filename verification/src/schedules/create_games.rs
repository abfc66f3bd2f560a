use vstd::prelude::*;

use crate::db::{Database, DbModel};
use crate::types::game::{game_ids_unique, has_game, Game, GameState};
use crate::types::participant::{
    find_participant, fresh_participant, has_participant, lemma_push_participant, lemma_participant_index, lookup_participant,
    participant_ids_unique, participant_index, Participant,
};
use crate::types::player::{
    has_player, in_state_filter, lemma_player_index, player_ids_unique, player_index, Player,
    PlayerModel,
    PlayerState,
};
use crate::GAME_SIZE;

verus! {

/// Holds of players who wait for a game.
pub open spec fn searching() -> spec_fn(PlayerModel) -> bool {
    in_state_filter(PlayerState::SearchingForGame)
}

impl DbModel {
    /// The players who wait for a game, in table order.
    pub open spec fn queue(self) -> Seq<PlayerModel> {
        self.players_in_state(PlayerState::SearchingForGame)
    }

    /// How many games one round of matchmaking creates: one for each full
    /// `GAME_SIZE` of waiting players.
    pub open spec fn lobby_count(self) -> nat {
        self.queue().len() / (GAME_SIZE as nat)
    }

    /// How many waiting players one round of matchmaking places in games.
    pub open spec fn matched_count(self) -> nat {
        self.lobby_count() * (GAME_SIZE as nat)
    }

    /// How many waiting players stand before position `i` of the player table.
    pub open spec fn searching_before(self, i: int) -> nat {
        self.players.take(i).filter(searching()).len()
    }

    /// The player at position `i` is among those placed in a game.
    pub open spec fn is_matched(self, i: int) -> bool {
        &&& self.players[i].state == PlayerState::SearchingForGame
        &&& self.searching_before(i) < self.matched_count()
    }

    /// The game of the `k`-th placed player: each game takes `GAME_SIZE`
    /// consecutive players of the queue, and the games take the next ids.
    pub open spec fn lobby_game_id(self, k: int) -> u64 {
        (self.next_game_id + k / (GAME_SIZE as int)) as u64
    }

    /// A round of matchmaking can run: the game ids it hands out fit in a
    /// `u64`, and none of the players it places has a participant row yet.
    pub open spec fn matchmaking_can_run(self) -> bool {
        &&& self.next_game_id + self.lobby_count() <= u64::MAX
        &&& forall|k: int|
            0 <= k < self.matched_count() ==> !has_participant(
                self.participants,
                (#[trigger] self.queue()[k]).steam_id,
            )
    }

    /// The tables after one round of matchmaking: a new game for each full
    /// `GAME_SIZE` of waiting players, taken in table order; each of them is in
    /// that game and has a participant row there with a blank grid.
    pub open spec fn create_game(self) -> DbModel {
        DbModel {
            players: Seq::new(
                self.players.len(),
                |i: int|
                    if self.is_matched(i) {
                        PlayerModel {
                            state: PlayerState::InGame(
                                self.lobby_game_id(self.searching_before(i) as int),
                            ),
                            ..self.players[i]
                        }
                    } else {
                        self.players[i]
                    },
            ),
            games: self.games + Seq::new(
                self.lobby_count(),
                |j: int| Game { id: (self.next_game_id + j) as u64, state: GameState::Todo },
            ),
            participants: self.participants + Seq::new(
                self.matched_count(),
                |k: int| fresh_participant(self.queue()[k].steam_id, self.lobby_game_id(k)),
            ),
            next_game_id: (self.next_game_id + self.lobby_count()) as u64,
            ..self
        }
    }
}

/// Filtering a sequence filters its two halves.
pub proof fn lemma_filter_split<A>(s: Seq<A>, i: int, pred: spec_fn(A) -> bool)
    requires
        0 <= i <= s.len(),
    ensures
        s.filter(pred) == s.take(i).filter(pred) + s.skip(i).filter(pred),
{
    assert(s =~= s.take(i) + s.skip(i));
    Seq::<A>::filter_distributes_over_add(s.take(i), s.skip(i), pred);
}

/// Filtering one more element of a sequence keeps it where the predicate holds.
pub proof fn lemma_filter_step<A>(s: Seq<A>, i: int, pred: spec_fn(A) -> bool)
    requires
        0 <= i < s.len(),
    ensures
        s.take(i + 1).filter(pred) == (if pred(s[i]) {
            s.take(i).filter(pred).push(s[i])
        } else {
            s.take(i).filter(pred)
        }),
{
    reveal(Seq::filter);
    assert(s.take(i + 1).drop_last() =~= s.take(i));
}

/// A longer prefix has at least as many elements that pass the filter.
pub proof fn lemma_filter_prefix_len<A>(s: Seq<A>, i: int, x: int, pred: spec_fn(A) -> bool)
    requires
        0 <= i <= x <= s.len(),
    ensures
        s.take(i).filter(pred).len() <= s.take(x).filter(pred).len(),
        s.take(x).filter(pred).len() <= s.filter(pred).len(),
{
    lemma_filter_split(s.take(x), i, pred);
    assert(s.take(x).take(i) =~= s.take(i));
    lemma_filter_split(s, x, pred);
}

/// The waiting player at position `i` stands in the queue at the place that
/// counts the waiting players before it.
pub proof fn lemma_queue_position(s: DbModel, i: int)
    requires
        0 <= i < s.players.len(),
    ensures
        s.searching_before(i + 1) == s.searching_before(i) + (if s.players[i].state
            == PlayerState::SearchingForGame {
            1nat
        } else {
            0nat
        }),
        s.searching_before(i + 1) <= s.queue().len(),
        s.players[i].state == PlayerState::SearchingForGame ==> s.queue()[s.searching_before(
            i,
        ) as int] == s.players[i],
{
    lemma_filter_step(s.players, i, searching());
    lemma_filter_split(s.players, i + 1, searching());
    lemma_filter_prefix_len(s.players, i + 1, i + 1, searching());
}

/// Replacing one player row changes the number of waiting players by what the
/// old and the new row contribute.
pub proof fn lemma_update_queue_len(s: DbModel, p: PlayerModel)
    requires
        has_player(s.players, p.steam_id),
    ensures
        s.update_player(p).queue().len() + (if s.players[player_index(s.players, p.steam_id)].state
            == PlayerState::SearchingForGame {
            1int
        } else {
            0int
        }) == s.queue().len() + (if p.state == PlayerState::SearchingForGame {
            1int
        } else {
            0int
        }),
        s.update_player(p).queue().len() <= s.players.len(),
{
    let i = player_index(s.players, p.steam_id);
    let t = s.update_player(p).players;
    lemma_filter_split(s.players, i + 1, searching());
    lemma_filter_split(t, i + 1, searching());
    lemma_filter_step(s.players, i, searching());
    lemma_filter_step(t, i, searching());
    assert(t.take(i) =~= s.players.take(i));
    assert(t.skip(i + 1) =~= s.players.skip(i + 1));
    t.lemma_filter_len(searching());
}

/// Filtering a player sequence keeps Steam ids unique.
pub proof fn lemma_filter_ids_unique(players: Seq<PlayerModel>, pred: spec_fn(PlayerModel) -> bool)
    requires
        player_ids_unique(players),
    ensures
        player_ids_unique(players.filter(pred)),
    decreases players.len(),
{
    reveal(Seq::filter);
    if players.len() > 0 {
        let rest = players.drop_last();
        let last = players.last();
        assert(player_ids_unique(rest)) by {
            assert forall|a: int, b: int|
                0 <= a < rest.len() && 0 <= b < rest.len() && (#[trigger] rest[a]).steam_id
                    == (#[trigger] rest[b]).steam_id implies a == b by {
                assert(rest[a] == players[a] && rest[b] == players[b]);
            }
        }
        lemma_filter_ids_unique(rest, pred);
        let fr = rest.filter(pred);
        if pred(last) {
            let f = fr.push(last);
            assert(players.filter(pred) == f);
            assert forall|a: int, b: int|
                0 <= a < f.len() && 0 <= b < f.len() && (#[trigger] f[a]).steam_id
                    == (#[trigger] f[b]).steam_id implies a == b by {
                if a < fr.len() && b == fr.len() {
                    assert(fr.contains(fr[a]));
                    rest.lemma_filter_contains_rev(pred, fr[a]);
                    let x = choose|x: int| 0 <= x < rest.len() && rest[x] == fr[a];
                    assert(players[x].steam_id == players[players.len() - 1].steam_id);
                }
                if b < fr.len() && a == fr.len() {
                    assert(fr.contains(fr[b]));
                    rest.lemma_filter_contains_rev(pred, fr[b]);
                    let x = choose|x: int| 0 <= x < rest.len() && rest[x] == fr[b];
                    assert(players[x].steam_id == players[players.len() - 1].steam_id);
                }
            }
        }
    }
}

/// One round of matchmaking keeps the tables' invariant.
pub proof fn lemma_create_game_wf(s: DbModel)
    requires
        s.wf(),
        s.matchmaking_can_run(),
    ensures
        s.create_game().wf(),
{
    let t = s.create_game();
    let q = s.queue();
    let n0 = s.participants.len();
    let g0 = s.games.len();
    lemma_filter_prefix_len(s.players, s.players.len() as int, s.players.len() as int, searching());
    assert(s.players.take(s.players.len() as int) =~= s.players);
    assert(s.matched_count() <= q.len());
    assert(forall|x: int| 0 <= x < s.players.len() ==> #[trigger] t.players[x].steam_id == s.players[x].steam_id);
    assert forall|id: u64| has_player(t.players, id) == has_player(s.players, id) by {
        if has_player(s.players, id) {
            let k = choose|k: int| 0 <= k < s.players.len() && (#[trigger] s.players[k]).steam_id == id;
            assert(t.players[k].steam_id == id);
        }
        if has_player(t.players, id) {
            let k = choose|k: int| 0 <= k < t.players.len() && (#[trigger] t.players[k]).steam_id == id;
            assert(s.players[k].steam_id == id);
        }
    }
    assert(player_ids_unique(t.players)) by {
        assert forall|a: int, b: int|
            0 <= a < t.players.len() && 0 <= b < t.players.len() && (#[trigger] t.players[a]).steam_id
                == (#[trigger] t.players[b]).steam_id implies a == b by {
            assert(s.players[a].steam_id == s.players[b].steam_id);
        }
    }
    assert(forall|g: int| 0 <= g < t.games.len() ==> (#[trigger] t.games[g]).id < t.next_game_id);
    assert(game_ids_unique(t.games)) by {
        assert forall|a: int, b: int|
            0 <= a < t.games.len() && 0 <= b < t.games.len() && (#[trigger] t.games[a]).id
                == (#[trigger] t.games[b]).id implies a == b by {
            if a < g0 {
                assert(s.games[a].id < s.next_game_id);
            }
            if b < g0 {
                assert(s.games[b].id < s.next_game_id);
            }
        }
    }
    lemma_filter_ids_unique(s.players, searching());
    assert(participant_ids_unique(t.participants)) by {
        assert forall|a: int, b: int|
            0 <= a < t.participants.len() && 0 <= b < t.participants.len()
                && (#[trigger] t.participants[a]).steam_id == (#[trigger] t.participants[b]).steam_id
                implies a == b by {
            if a >= n0 && b >= n0 {
                assert(q[a - n0].steam_id == q[b - n0].steam_id);
            } else if a >= n0 {
                assert(s.participants[b].steam_id == q[a - n0].steam_id);
                assert(!has_participant(s.participants, q[a - n0].steam_id));
            } else if b >= n0 {
                assert(s.participants[a].steam_id == q[b - n0].steam_id);
                assert(!has_participant(s.participants, q[b - n0].steam_id));
            }
        }
    }
    assert forall|id: u64| has_game(s.games, id) implies has_game(t.games, id) by {
        let k = choose|k: int| 0 <= k < s.games.len() && (#[trigger] s.games[k]).id == id;
        assert(t.games[k].id == id);
    }
    assert(t.participants_have_games()) by {
        assert forall|i: int| 0 <= i < t.participants.len() implies has_game(
            t.games,
            (#[trigger] t.participants[i]).game_id,
        ) by {
            if i >= n0 {
                let k = i - n0;
                let j = k / (GAME_SIZE as int);
                assert(t.games[g0 + j].id == t.participants[i].game_id);
            } else {
                assert(t.participants[i] == s.participants[i]);
            }
        }
    }
    assert(t.clients_have_players()) by {
        assert forall|i: int|
            0 <= i < t.clients.len() && (#[trigger] t.clients[i]).player_steam_id is Some
                implies has_player(t.players, t.clients[i].player_steam_id->0) by {
            assert(has_player(s.players, s.clients[i].player_steam_id->0));
        }
    }
    assert(t.players_in_game_take_part()) by {
        assert forall|i: int|
            0 <= i < t.players.len() && (#[trigger] t.players[i]).state is InGame implies {
                let steam_id = t.players[i].steam_id;
                &&& has_participant(t.participants, steam_id)
                &&& lookup_participant(t.participants, steam_id)->0.game_id
                    == t.players[i].state->InGame_0
            } by {
            let steam_id = t.players[i].steam_id;
            if s.is_matched(i) {
                let k = s.searching_before(i) as int;
                lemma_queue_position(s, i);
                assert(t.participants[n0 + k].steam_id == steam_id);
                lemma_participant_index(t.participants, n0 + k);
            } else {
                assert(t.players[i] == s.players[i]);
                let w = participant_index(s.participants, steam_id);
                assert(has_participant(s.participants, steam_id));
                assert(t.participants[w] == s.participants[w]);
                lemma_participant_index(t.participants, w);
            }
        }
    }
}

/// How many games the first `k` placed players open.
pub open spec fn lobbies_opened(k: nat) -> nat {
    ((k + GAME_SIZE) as nat - 1) as nat / (GAME_SIZE as nat)
}

/// Tells whether a round of matchmaking can run: the game ids it hands out
/// fit in a `u64`, and none of the players it places has a participant row yet.
pub fn can_create_game(db: &Database) -> (r: bool)
    requires
        db@.wf(),
    ensures
        r == db@.matchmaking_can_run(),
{
    let queue = Player::in_state(db, PlayerState::SearchingForGame);
    let ghost q = db@.queue();
    assert(queue@.len() == q.len()) by {
        assert(queue@.map_values(|p: Player| p@).len() == queue@.len());
    }
    let lobbies = queue.len() / GAME_SIZE;
    if db.next_game_id > u64::MAX - (lobbies as u64) {
        return false;
    }
    let matched = lobbies * GAME_SIZE;
    let mut k: usize = 0;
    while k < matched
        invariant
            db@.wf(),
            q == db@.queue(),
            queue@.map_values(|p: Player| p@) == q,
            queue@.len() == q.len(),
            matched == db@.matched_count(),
            matched <= q.len(),
            k <= matched,
            forall|t: int| 0 <= t < k ==> !has_participant(db@.participants, (#[trigger] q[t]).steam_id),
        decreases matched - k,
    {
        assert(q[k as int] == queue@[k as int]@);
        if find_participant(db, queue[k].steam_id).is_some() {
            return false;
        }
        k = k + 1;
    }
    true
}

/// One round of matchmaking: opens a game for each full `GAME_SIZE` of
/// waiting players, in table order, and seats them in it.
#[verifier::rlimit(50)]
pub fn create_game(db: &mut Database)
    requires
        old(db)@.wf(),
        old(db)@.matchmaking_can_run(),
    ensures
        final(db)@ == old(db)@.create_game(),
        final(db)@.wf(),
{
    proof {
        lemma_create_game_wf(db@);
    }
    let ghost s0 = db@;
    let ghost q = s0.queue();
    let ghost target = s0.create_game();
    let queue = Player::in_state(db, PlayerState::SearchingForGame);
    let player_count = queue.len();
    assert(player_count == q.len()) by {
        assert(queue@.map_values(|p: Player| p@).len() == queue@.len());
    }
    let lobbies_to_create = player_count / GAME_SIZE;
    let matched = lobbies_to_create * GAME_SIZE;
    let mut placed: usize = 0;
    let mut game_id: u64 = 0;
    let mut i: usize = 0;
    while i < db.players.len() && placed < matched
        invariant
            s0.wf(),
            s0.next_game_id + s0.lobby_count() <= u64::MAX,
            forall|k: int|
                0 <= k < s0.matched_count() ==> !has_participant(
                    s0.participants,
                    (#[trigger] q[k]).steam_id,
                ),
            q == s0.queue(),
            target == s0.create_game(),
            matched == s0.matched_count(),
            matched <= q.len(),
            i <= s0.players.len(),
            db@.players.len() == s0.players.len(),
            placed == s0.searching_before(i as int),
            placed <= matched,
            forall|x: int|
                0 <= x < s0.players.len() ==> #[trigger] db@.players[x] == if x < i {
                    target.players[x]
                } else {
                    s0.players[x]
                },
            player_ids_unique(db@.players),
            db@.clients == s0.clients,
            db@.auth_requests == s0.auth_requests,
            db@.games == s0.games + Seq::new(
                lobbies_opened(placed as nat),
                |j: int| Game { id: (s0.next_game_id + j) as u64, state: GameState::Todo },
            ),
            db@.next_game_id == s0.next_game_id + lobbies_opened(placed as nat),
            placed > 0 ==> game_id == s0.lobby_game_id(placed - 1),
            db@.participants == s0.participants + Seq::new(
                placed as nat,
                |k: int| fresh_participant(q[k].steam_id, s0.lobby_game_id(k)),
            ),
            game_ids_unique(db@.games),
            forall|g: int| 0 <= g < db@.games.len() ==> (#[trigger] db@.games[g]).id < db@.next_game_id,
            participant_ids_unique(db@.participants),
            forall|t: int|
                0 <= t < placed ==> exists|x: int|
                    0 <= x < i && #[trigger] s0.players[x].steam_id == (#[trigger] q[t]).steam_id,
        decreases s0.players.len() - i,
    {
        proof {
            lemma_queue_position(s0, i as int);
            assert(db@.players[i as int] == s0.players[i as int]);
            assert(db.players@[i as int]@ == db@.players[i as int]);
        }
        if db.players[i].state == PlayerState::SearchingForGame {
            let ghost k = placed as int;
            assert(q[k] == s0.players[i as int]);
            if placed % GAME_SIZE == 0 {
                let ghost before = db@;
                proof {
                    if has_game(before.games, before.next_game_id) {
                        let g = choose|g: int|
                            0 <= g < before.games.len() && (#[trigger] before.games[g]).id
                                == before.next_game_id;
                        assert(before.games[g].id < before.next_game_id);
                    }
                }
                let game = Game::insert(db, Game::new());
                game_id = game.id;
                proof {
                    assert(db@.games == before.games.push(game));
                    assert(game_ids_unique(db@.games)) by {
                        assert forall|a: int, b: int|
                            0 <= a < db@.games.len() && 0 <= b < db@.games.len() && (#[trigger] db@.games[a]).id
                                == (#[trigger] db@.games[b]).id implies a == b by {
                            if a < before.games.len() {
                                assert(before.games[a].id < before.next_game_id);
                            }
                            if b < before.games.len() {
                                assert(before.games[b].id < before.next_game_id);
                            }
                        }
                    }
                    assert(db@.games =~= s0.games + Seq::new(
                        lobbies_opened((placed + 1) as nat),
                        |j: int| Game { id: (s0.next_game_id + j) as u64, state: GameState::Todo },
                    ));
                }
            }
            assert(game_id == s0.lobby_game_id(k));
            let ghost before = db@;
            let steam_id = db.players[i].steam_id;
            proof {
                assert(!has_participant(before.participants, steam_id)) by {
                    if has_participant(before.participants, steam_id) {
                        let w = choose|w: int|
                            0 <= w < before.participants.len() && (#[trigger] before.participants[w]).steam_id
                                == steam_id;
                        if w >= s0.participants.len() {
                            let t = w - s0.participants.len();
                            assert(before.participants[w] == fresh_participant(q[t].steam_id, s0.lobby_game_id(t)));
                            let x = choose|x: int| 0 <= x < i && #[trigger] s0.players[x].steam_id == (#[trigger] q[t]).steam_id;
                            assert(s0.players[x].steam_id == s0.players[i as int].steam_id);
                        } else {
                            assert(s0.participants[w].steam_id == steam_id);
                            assert(!has_participant(s0.participants, q[k].steam_id));
                        }
                    }
                }
            }
            Participant::insert(db, Participant::new(steam_id, game_id));
            proof {
                let after = db@;
                assert(after.participants == before.participants.push(fresh_participant(steam_id, game_id)));
                lemma_push_participant(before.participants, fresh_participant(steam_id, game_id));
                assert(after.participants =~= s0.participants + Seq::new(
                    (placed + 1) as nat,
                    |t: int| fresh_participant(q[t].steam_id, s0.lobby_game_id(t)),
                ));
            }
            let mut player = db.players[i].clone();
            player.state = PlayerState::InGame(game_id);
            proof {
                assert(db@.players[i as int].steam_id == steam_id);
                lemma_player_index(db@.players, i as int);
            }
            let ghost mid = db@;
            Player::update(db, player);
            placed = placed + 1;
            proof {
                assert(db@.players == mid.players.update(i as int, player@));
                assert(s0.is_matched(i as int));
                assert(target.players[i as int] == player@);
                assert forall|a: int, b: int|
                    0 <= a < db@.players.len() && 0 <= b < db@.players.len() && (#[trigger] db@.players[a]).steam_id
                        == (#[trigger] db@.players[b]).steam_id implies a == b by {
                    assert(mid.players[a].steam_id == db@.players[a].steam_id);
                    assert(mid.players[b].steam_id == db@.players[b].steam_id);
                }
                assert forall|t: int|
                    0 <= t < placed implies exists|x: int|
                        0 <= x < i + 1 && #[trigger] s0.players[x].steam_id == (#[trigger] q[t]).steam_id by {
                    if t == k {
                        assert(s0.players[i as int].steam_id == q[t].steam_id);
                    } else {
                        let x = choose|x: int| 0 <= x < i && #[trigger] s0.players[x].steam_id == (#[trigger] q[t]).steam_id;
                        assert(s0.players[x].steam_id == q[t].steam_id);
                    }
                }
            }
        } else {
            proof {
                assert(!s0.is_matched(i as int));
                assert(target.players[i as int] == s0.players[i as int]);
            }
        }
        i = i + 1;
    }
    proof {
        if i < s0.players.len() {
            assert(placed == matched);
        } else {
            assert(s0.players.take(i as int) =~= s0.players);
        }
        assert forall|x: int| i <= x < s0.players.len() implies !s0.is_matched(x) by {
            lemma_filter_prefix_len(s0.players, i as int, x, searching());
        }
        assert(db@.players =~= target.players);
        assert(db@.games =~= target.games);
        assert(db@.participants =~= target.participants);
    }
}

} // verus!
