use vstd::prelude::*;

use crate::db::{Database, DbModel, ReducerError};
use crate::identity::Identity;
use crate::types::client::{client_ids_unique, client_index, has_client, lookup_client, Client};
use crate::schedules::create_games::{
    create_game, lemma_queue_position, lemma_update_queue_len,
};
use crate::types::participant::{
    find_participant, has_participant, lookup_participant, participant_ids_unique,
};
use crate::GAME_SIZE;

verus! {

/// Where a player is in the flow from lobby to game.
#[derive(Clone, Copy, Debug, PartialEq, Eq, Structural)]
pub enum PlayerState {
    Offline,
    Idle,
    SearchingForGame,
    InGame(u64),
}

/// A player account, keyed by its Steam id.
#[derive(Debug)]
pub struct Player {
    pub steam_id: u64,
    pub name: String,
    pub state: PlayerState,
}

/// A player row as a value.
pub struct PlayerModel {
    pub steam_id: u64,
    pub name: Seq<char>,
    pub state: PlayerState,
}

impl View for Player {
    type V = PlayerModel;

    open spec fn view(&self) -> PlayerModel {
        PlayerModel { steam_id: self.steam_id, name: self.name@, state: self.state }
    }
}

impl Clone for Player {
    fn clone(&self) -> (res: Self)
        ensures
            res == *self,
    {
        Player { steam_id: self.steam_id, name: self.name.clone(), state: self.state }
    }
}

/// No two players share a Steam id.
pub open spec fn player_ids_unique(players: Seq<PlayerModel>) -> bool {
    forall|i: int, j: int|
        0 <= i < players.len() && 0 <= j < players.len() && (#[trigger] players[i]).steam_id
            == (#[trigger] players[j]).steam_id ==> i == j
}

/// Some player has this Steam id.
pub open spec fn has_player(players: Seq<PlayerModel>, steam_id: u64) -> bool {
    exists|i: int| 0 <= i < players.len() && (#[trigger] players[i]).steam_id == steam_id
}

/// The position of the player with this Steam id.
pub open spec fn player_index(players: Seq<PlayerModel>, steam_id: u64) -> int {
    choose|i: int| 0 <= i < players.len() && (#[trigger] players[i]).steam_id == steam_id
}

/// The player with this Steam id, if there is one.
pub open spec fn lookup_player(players: Seq<PlayerModel>, steam_id: u64) -> Option<PlayerModel> {
    if has_player(players, steam_id) {
        Some(players[player_index(players, steam_id)])
    } else {
        None
    }
}

/// Holds of the players in `state`.
pub open spec fn in_state_filter(state: PlayerState) -> spec_fn(PlayerModel) -> bool {
    |p: PlayerModel| p.state == state
}

/// The player row that a new account starts with: no name yet, and idle.
pub open spec fn fresh_player(steam_id: u64) -> PlayerModel {
    PlayerModel { steam_id, name: Seq::empty(), state: PlayerState::Idle }
}

/// Where `players` holds a row with the Steam id that the row at `i` has, it is that row.
pub proof fn lemma_player_index(players: Seq<PlayerModel>, i: int)
    requires
        player_ids_unique(players),
        0 <= i < players.len(),
    ensures
        has_player(players, players[i].steam_id),
        player_index(players, players[i].steam_id) == i,
        lookup_player(players, players[i].steam_id) == Some(players[i]),
{
    assert(has_player(players, players[i].steam_id));
}

/// Appending a player under a new Steam id keeps Steam ids unique, and keeps
/// every Steam id that was present.
pub proof fn lemma_push_player(players: Seq<PlayerModel>, p: PlayerModel)
    requires
        player_ids_unique(players),
        !has_player(players, p.steam_id),
    ensures
        player_ids_unique(players.push(p)),
        has_player(players.push(p), p.steam_id),
        forall|id: u64| has_player(players, id) ==> has_player(players.push(p), id),
{
    let t = players.push(p);
    let n = players.len() as int;
    assert forall|a: int, b: int|
        0 <= a < t.len() && 0 <= b < t.len() && (#[trigger] t[a]).steam_id == (#[trigger] t[b]).steam_id
            implies a == b by {
        if a < n && b == n {
            assert(players[a].steam_id == p.steam_id);
        }
        if b < n && a == n {
            assert(players[b].steam_id == p.steam_id);
        }
    }
    assert(t[n].steam_id == p.steam_id);
    assert forall|id: u64| has_player(players, id) implies has_player(t, id) by {
        let k = choose|k: int| 0 <= k < players.len() && (#[trigger] players[k]).steam_id == id;
        assert(t[k].steam_id == id);
    }
}

impl DbModel {
    /// The tables after inserting a player row: unchanged where a row with its
    /// Steam id is present already.
    pub open spec fn insert_player(self, p: PlayerModel) -> DbModel {
        if has_player(self.players, p.steam_id) {
            self
        } else {
            DbModel { players: self.players.push(p), ..self }
        }
    }

    /// The tables after replacing the player row that has the Steam id of `p`.
    pub open spec fn update_player(self, p: PlayerModel) -> DbModel {
        DbModel { players: self.players.update(player_index(self.players, p.steam_id), p), ..self }
    }

    /// The players in `state`, in table order.
    pub open spec fn players_in_state(self, state: PlayerState) -> Seq<PlayerModel> {
        self.players.filter(in_state_filter(state))
    }

    /// The player that the calling client is logged in as, or why there is none.
    pub open spec fn authenticate(self, sender: Identity) -> Result<PlayerModel, ReducerError> {
        match lookup_client(self.clients, sender)->0.player_steam_id {
            None => Err(ReducerError::NotAuthenticated),
            Some(steam_id) => match lookup_player(self.players, steam_id) {
                None => Err(ReducerError::PlayerNotFound),
                Some(p) => Ok(p),
            },
        }
    }

    /// What `set_name` answers and leaves behind.
    pub open spec fn set_name(self, sender: Identity, name: Seq<char>) -> (
        Result<(), ReducerError>,
        DbModel,
    ) {
        match lookup_client(self.clients, sender)->0.player_steam_id {
            None => (Err(ReducerError::NotAuthenticated), self),
            Some(steam_id) => {
                let p = lookup_player(self.players, steam_id)->0;
                if p.name.len() != 0 {
                    (Err(ReducerError::NameAlreadySet), self)
                } else {
                    (Ok(()), self.update_player(PlayerModel { name, ..p }))
                }
            },
        }
    }

    /// The tables once the idle player `p` waits for a game.
    pub open spec fn join_queue(self, p: PlayerModel) -> DbModel {
        self.update_player(PlayerModel { state: PlayerState::SearchingForGame, ..p })
    }

    /// What `enter_queue` answers and leaves behind: the caller's idle player
    /// waits for a game, and once more than `GAME_SIZE` players wait, a round
    /// of matchmaking creates the games.
    pub open spec fn enter_queue(self, sender: Identity) -> (Result<(), ReducerError>, DbModel) {
        match self.authenticate(sender) {
            Err(e) => (Err(e), self),
            Ok(p) => if p.state != PlayerState::Idle {
                (Err(ReducerError::NotIdle), self)
            } else if self.join_queue(p).queue().len() > GAME_SIZE {
                (Ok(()), self.join_queue(p).create_game())
            } else {
                (Ok(()), self.join_queue(p))
            },
        }
    }

    /// Where `enter_queue` starts a round of matchmaking, that round can run.
    pub open spec fn enter_queue_can_run(self, sender: Identity) -> bool {
        match self.authenticate(sender) {
            Err(_) => true,
            Ok(p) => p.state == PlayerState::Idle && self.join_queue(p).queue().len() > GAME_SIZE
                ==> self.join_queue(p).matchmaking_can_run(),
        }
    }

    /// What `exit_queue` answers and leaves behind.
    pub open spec fn exit_queue(self, sender: Identity) -> (Result<(), ReducerError>, DbModel) {
        match self.authenticate(sender) {
            Err(e) => (Err(e), self),
            Ok(p) => if p.state != PlayerState::SearchingForGame {
                (Err(ReducerError::NotSearching), self)
            } else {
                (Ok(()), self.update_player(PlayerModel { state: PlayerState::Idle, ..p }))
            },
        }
    }
}

/// Replacing a player row by one with the same Steam id keeps the invariant,
/// as long as a row that says the player is in a game has a participant row there.
pub proof fn lemma_update_player_wf(s: DbModel, p: PlayerModel)
    requires
        s.wf(),
        has_player(s.players, p.steam_id),
        p.state is InGame ==> has_participant(s.participants, p.steam_id) && lookup_participant(
            s.participants,
            p.steam_id,
        )->0.game_id == p.state->InGame_0,
    ensures
        s.update_player(p).wf(),
        forall|id: u64| has_player(s.update_player(p).players, id) == has_player(s.players, id),
{
    let t = s.update_player(p);
    let idx = player_index(s.players, p.steam_id);
    assert(forall|k: int| 0 <= k < s.players.len() ==> #[trigger] t.players[k].steam_id == s.players[k].steam_id);
    assert forall|id: u64| has_player(t.players, id) == has_player(s.players, id) by {
        if has_player(s.players, id) {
            let k = choose|k: int| 0 <= k < s.players.len() && (#[trigger] s.players[k]).steam_id == id;
            assert(t.players[k].steam_id == id);
        }
        if has_player(t.players, id) {
            let k = choose|k: int| 0 <= k < t.players.len() && (#[trigger] t.players[k]).steam_id == id;
            assert(s.players[k].steam_id == id);
        }
    }
    assert(player_ids_unique(t.players)) by {
        assert forall|i: int, j: int|
            0 <= i < t.players.len() && 0 <= j < t.players.len() && (#[trigger] t.players[i]).steam_id
                == (#[trigger] t.players[j]).steam_id implies i == j by {
            assert(s.players[i].steam_id == s.players[j].steam_id);
        }
    }
    assert(t.clients_have_players()) by {
        assert forall|i: int|
            0 <= i < t.clients.len() && (#[trigger] t.clients[i]).player_steam_id is Some
                implies has_player(t.players, t.clients[i].player_steam_id->0) by {
            assert(has_player(s.players, s.clients[i].player_steam_id->0));
        }
    }
    assert(t.players_in_game_take_part()) by {
        assert forall|i: int|
            0 <= i < t.players.len() && (#[trigger] t.players[i]).state is InGame implies {
                let steam_id = t.players[i].steam_id;
                &&& has_participant(t.participants, steam_id)
                &&& lookup_participant(t.participants, steam_id)->0.game_id
                    == t.players[i].state->InGame_0
            } by {
            if i != idx {
                assert(t.players[i] == s.players[i]);
            }
        }
    }
}

/// Where the player with this Steam id stands, if anywhere.
pub(crate) fn find_player(db: &Database, steam_id: u64) -> (r: Option<usize>)
    requires
        player_ids_unique(db@.players),
    ensures
        match r {
            Some(i) => i < db.players@.len() && db@.players[i as int].steam_id == steam_id
                && has_player(db@.players, steam_id) && i == player_index(db@.players, steam_id),
            None => !has_player(db@.players, steam_id),
        },
{
    let mut i: usize = 0;
    while i < db.players.len()
        invariant
            i <= db.players@.len(),
            player_ids_unique(db@.players),
            forall|k: int| 0 <= k < i ==> (#[trigger] db@.players[k]).steam_id != steam_id,
        decreases db.players@.len() - i,
    {
        if db.players[i].steam_id == steam_id {
            proof {
                lemma_player_index(db@.players, i as int);
            }
            return Some(i);
        }
        i = i + 1;
    }
    proof {
        if has_player(db@.players, steam_id) {
            let k = choose|k: int| 0 <= k < db@.players.len() && (#[trigger] db@.players[k]).steam_id == steam_id;
            assert(db@.players[k].steam_id != steam_id);
        }
    }
    None
}

/// Tells whether no two player rows share a Steam id.
pub(crate) fn player_ids_are_unique(db: &Database) -> (r: bool)
    ensures
        r == player_ids_unique(db@.players),
{
    let n = db.players.len();
    let mut i: usize = 0;
    while i < n
        invariant
            n == db@.players.len(),
            i <= n,
            forall|a: int, b: int|
                0 <= a < i && 0 <= b < i && (#[trigger] db@.players[a]).steam_id
                    == (#[trigger] db@.players[b]).steam_id ==> a == b,
        decreases n - i,
    {
        let mut j: usize = 0;
        while j < i
            invariant
                n == db@.players.len(),
                j <= i < n,
                forall|b: int| 0 <= b < j ==> (#[trigger] db@.players[b]).steam_id != db@.players[i as int].steam_id,
            decreases i - j,
        {
            if db.players[j].steam_id == db.players[i].steam_id {
                assert(db@.players[j as int].steam_id == db@.players[i as int].steam_id);
                return false;
            }
            j = j + 1;
        }
        i = i + 1;
    }
    true
}

impl Player {
    /// A new account for this Steam id: no name yet, and idle.
    pub fn new(steam_id: u64) -> (p: Self)
        ensures
            p@ == fresh_player(steam_id),
            p.steam_id == steam_id,
            p.name@.len() == 0,
            p.state == PlayerState::Idle,
    {
        Player { steam_id, name: String::new(), state: PlayerState::Idle }
    }

    /// The player with this Steam id, if there is one.
    pub fn get(db: &Database, steam_id: u64) -> (r: Option<Self>)
        requires
            player_ids_unique(db@.players),
        ensures
            match r {
                Some(p) => lookup_player(db@.players, steam_id) == Some(p@),
                None => lookup_player(db@.players, steam_id) is None,
            },
    {
        match find_player(db, steam_id) {
            Some(i) => Some(db.players[i].clone()),
            None => None,
        }
    }

    /// Inserts a player row and hands it back. Inserting a row equal to one
    /// already present changes nothing.
    pub fn insert(db: &mut Database, player: Self) -> (r: Self)
        requires
            player_ids_unique(old(db)@.players),
            lookup_player(old(db)@.players, player.steam_id) is Some ==> lookup_player(
                old(db)@.players,
                player.steam_id,
            ) == Some(player@),
        ensures
            r == player,
            final(db)@ == old(db)@.insert_player(player@),
    {
        let r = player.clone();
        match find_player(db, player.steam_id) {
            Some(_) => {},
            None => {
                db.players.push(player);
                assert(db@.players =~= old(db)@.players.push(r@));
            },
        }
        r
    }

    /// Replaces the row that has this player's Steam id and hands the new row back.
    pub fn update(db: &mut Database, player: Self) -> (r: Self)
        requires
            player_ids_unique(old(db)@.players),
            has_player(old(db)@.players, player.steam_id),
        ensures
            r == player,
            final(db)@ == old(db)@.update_player(player@),
    {
        let r = player.clone();
        let i = find_player(db, player.steam_id).unwrap();
        db.players.set(i, player);
        assert(db@.players =~= old(db)@.players.update(i as int, r@));
        r
    }

    /// The player that the calling client is logged in as, or why there is none.
    pub fn authenticate(db: &Database, sender: Identity) -> (r: Result<Self, ReducerError>)
        requires
            player_ids_unique(db@.players),
            client_ids_unique(db@.clients),
            has_client(db@.clients, sender),
        ensures
            match r {
                Ok(p) => db@.authenticate(sender) == Ok::<PlayerModel, ReducerError>(p@),
                Err(e) => db@.authenticate(sender) == Err::<PlayerModel, ReducerError>(e),
            },
    {
        let client = Client::get_sender(db, sender);
        let steam_id = match client.player_steam_id {
            Some(id) => id,
            None => {
                return Err(ReducerError::NotAuthenticated);
            },
        };
        match Player::get(db, steam_id) {
            Some(p) => Ok(p),
            None => Err(ReducerError::PlayerNotFound),
        }
    }

    /// The players in `state`, in table order.
    pub fn in_state(db: &Database, state: PlayerState) -> (r: Vec<Self>)
        ensures
            r@.map_values(|p: Player| p@) == db@.players_in_state(state),
    {
        let mut r: Vec<Player> = Vec::new();
        let mut i: usize = 0;
        let ghost pred = in_state_filter(state);
        while i < db.players.len()
            invariant
                i <= db.players@.len(),
                pred == in_state_filter(state),
                r@.map_values(|p: Player| p@) == db@.players.take(i as int).filter(pred),
            decreases db.players@.len() - i,
        {
            proof {
                reveal(Seq::filter);
                assert(db@.players.take(i + 1).drop_last() =~= db@.players.take(i as int));
            }
            if db.players[i].state == state {
                let p = db.players[i].clone();
                r.push(p);
            }
            i = i + 1;
            assert(r@.map_values(|p: Player| p@) =~= db@.players.take(i as int).filter(pred));
        }
        assert(db@.players.take(i as int) =~= db@.players);
        r
    }
}

/// Gives the calling client's player a name, once.
pub fn set_name(db: &mut Database, sender: Identity, name: String) -> (r: Result<(), ReducerError>)
    requires
        old(db)@.wf(),
        has_client(old(db)@.clients, sender),
    ensures
        (r, final(db)@) == old(db)@.set_name(sender, name@),
        final(db)@.wf(),
{
    let steam_id = match Client::get_sender(db, sender).player_steam_id {
        Some(id) => id,
        None => {
            return Err(ReducerError::NotAuthenticated);
        },
    };
    proof {
        let c = client_index(old(db)@.clients, sender);
        assert(old(db)@.clients[c].player_steam_id is Some);
    }
    let mut player = Player::get(db, steam_id).unwrap();
    if !player.name.as_str().is_empty() {
        return Err(ReducerError::NameAlreadySet);
    }
    player.name = name;
    proof {
        lemma_update_player_wf(db@, player@);
    }
    Player::update(db, player);
    Ok(())
}

/// Sets the calling client's idle player to searching for a game. If more
/// players than `GAME_SIZE` are then searching, creates the games for them.
pub fn enter_queue(db: &mut Database, sender: Identity) -> (r: Result<(), ReducerError>)
    requires
        old(db)@.wf(),
        has_client(old(db)@.clients, sender),
        old(db)@.enter_queue_can_run(sender),
    ensures
        (r, final(db)@) == old(db)@.enter_queue(sender),
        final(db)@.wf(),
{
    let mut player = Player::authenticate(db, sender)?;
    if player.state != PlayerState::Idle {
        return Err(ReducerError::NotIdle);
    }
    player.state = PlayerState::SearchingForGame;
    proof {
        lemma_update_player_wf(db@, player@);
    }
    Player::update(db, player);
    let waiting = Player::in_state(db, PlayerState::SearchingForGame);
    assert(waiting@.len() == db@.queue().len()) by {
        assert(waiting@.map_values(|p: Player| p@).len() == waiting@.len());
    }
    if waiting.len() > GAME_SIZE {
        create_game(db);
    }
    Ok(())
}

/// Tells whether `enter_queue` can run for the calling client: where it would
/// start a round of matchmaking, that round can run.
pub fn can_enter_queue(db: &Database, sender: Identity) -> (r: bool)
    requires
        db@.wf(),
        has_client(db@.clients, sender),
    ensures
        r == db@.enter_queue_can_run(sender),
{
    let player = match Player::authenticate(db, sender) {
        Ok(p) => p,
        Err(_) => {
            return true;
        },
    };
    if player.state != PlayerState::Idle {
        return true;
    }
    let idx = find_player(db, player.steam_id).unwrap();
    let ghost p2 = PlayerModel { state: PlayerState::SearchingForGame, ..player@ };
    let ghost queued = db@.join_queue(player@);
    proof {
        lemma_update_queue_len(db@, p2);
        lemma_player_index(db@.players, idx as int);
    }
    let waiting = Player::in_state(db, PlayerState::SearchingForGame);
    assert(waiting@.len() == db@.queue().len()) by {
        assert(waiting@.map_values(|p: Player| p@).len() == waiting@.len());
    }
    let n_players = db.players.len();
    assert(queued.players.len() == n_players);
    let total = waiting.len() + 1;
    assert(total == queued.queue().len());
    if total <= GAME_SIZE {
        return true;
    }
    let lobbies = total / GAME_SIZE;
    if db.next_game_id > u64::MAX - (lobbies as u64) {
        return false;
    }
    let matched = lobbies * GAME_SIZE;
    let mut k: usize = 0;
    let mut i: usize = 0;
    while i < db.players.len() && k < matched
        invariant
            queued == db@.join_queue(player@),
            db@.authenticate(sender) == Ok::<PlayerModel, ReducerError>(player@),
            player@.state == PlayerState::Idle,
            p2 == (PlayerModel { state: PlayerState::SearchingForGame, ..player@ }),
            queued.queue().len() > GAME_SIZE,
            queued.players == db@.players.update(idx as int, p2),
            queued.participants == db@.participants,
            p2.steam_id == db@.players[idx as int].steam_id,
            idx < db@.players.len(),
            participant_ids_unique(db@.participants),
            matched == queued.matched_count(),
            matched <= queued.queue().len(),
            i <= db@.players.len(),
            k == queued.searching_before(i as int),
            k <= matched,
            forall|t: int|
                0 <= t < k ==> !has_participant(queued.participants, (#[trigger] queued.queue()[t]).steam_id),
        decreases db@.players.len() - i,
    {
        proof {
            lemma_queue_position(queued, i as int);
            assert(db.players@[i as int]@ == db@.players[i as int]);
        }
        if i == idx || db.players[i].state == PlayerState::SearchingForGame {
            if i == idx {
                assert(queued.players[i as int] == p2);
            } else {
                assert(db@.players[i as int].state == PlayerState::SearchingForGame);
                assert(queued.players[i as int] == db@.players[i as int]);
            }
            assert(queued.players[i as int].state == PlayerState::SearchingForGame);
            assert(queued.players[i as int].steam_id == db@.players[i as int].steam_id);
            assert(queued.queue()[k as int].steam_id == db@.players[i as int].steam_id);
            if find_participant(db, db.players[i].steam_id).is_some() {
                return false;
            }
            k = k + 1;
        }
        i = i + 1;
    }
    proof {
        if k < matched {
            assert(queued.players.take(i as int) =~= queued.players);
        }
    }
    true
}

/// Takes the calling client's player out of the queue.
pub fn exit_queue(db: &mut Database, sender: Identity) -> (r: Result<(), ReducerError>)
    requires
        old(db)@.wf(),
        has_client(old(db)@.clients, sender),
    ensures
        (r, final(db)@) == old(db)@.exit_queue(sender),
        final(db)@.wf(),
{
    let mut player = Player::authenticate(db, sender)?;
    if player.state != PlayerState::SearchingForGame {
        return Err(ReducerError::NotSearching);
    }
    player.state = PlayerState::Idle;
    proof {
        lemma_update_player_wf(db@, player@);
    }
    Player::update(db, player);
    Ok(())
}

} // verus!
