use vstd::prelude::*;

use crate::db::{DbModel, ReducerError};
use crate::identity::Identity;
use crate::types::auth_request::{auth_request_index, has_auth_request};
use crate::types::client::{
    client_ids_unique, client_index, fresh_client, has_client, lemma_client_index, lemma_push_client, lookup_client, Client,
};
use crate::schedules::create_games::{lemma_filter_step, lemma_update_queue_len, searching};
use crate::types::game::{has_game, lemma_game_index, lookup_game, Game, GameState};
use crate::screen::{screen_for, ScreenState};
use crate::types::grid::blank_grid;
use crate::types::participant::{fresh_participant, in_game_filter, ParticipantModel};
use crate::GRID_SIZE;
use crate::GAME_SIZE;
use crate::types::player::{
    fresh_player, has_player, lemma_player_index, lemma_push_player, lemma_update_player_wf, lookup_player,
    player_ids_unique, player_index, PlayerModel, PlayerState,
};

verus! {

/// A refused request leaves every table as it was.
pub proof fn law_refusal_changes_nothing(
    s: DbModel,
    sender: Identity,
    name: Seq<char>,
    steam_id: u64,
    identity: Identity,
    err_msg: String,
)
    ensures
        s.set_name(sender, name).0 is Err ==> s.set_name(sender, name).1 == s,
        s.enter_queue(sender).0 is Err ==> s.enter_queue(sender).1 == s,
        s.exit_queue(sender).0 is Err ==> s.exit_queue(sender).1 == s,
        s.auth_server_response(steam_id, identity, err_msg).0 is Err ==> s.auth_server_response(
            steam_id,
            identity,
            err_msg,
        ).1 == s,
{
}

/// Reading a player back after replacing its row gives the new row, and
/// reading back a player just inserted under a new Steam id gives that row.
pub proof fn law_player_read_after_write(s: DbModel, p: PlayerModel)
    requires
        player_ids_unique(s.players),
    ensures
        has_player(s.players, p.steam_id) ==> lookup_player(
            s.update_player(p).players,
            p.steam_id,
        ) == Some(p),
        !has_player(s.players, p.steam_id) ==> lookup_player(
            s.insert_player(p).players,
            p.steam_id,
        ) == Some(p),
{
    if has_player(s.players, p.steam_id) {
        let i = player_index(s.players, p.steam_id);
        let t = s.update_player(p);
        assert forall|a: int, b: int|
            0 <= a < t.players.len() && 0 <= b < t.players.len() && (#[trigger] t.players[a]).steam_id
                == (#[trigger] t.players[b]).steam_id implies a == b by {
            assert(s.players[a].steam_id == t.players[a].steam_id);
            assert(s.players[b].steam_id == t.players[b].steam_id);
        }
        lemma_player_index(t.players, i);
    } else {
        let t = s.insert_player(p);
        lemma_push_player(s.players, p);
        lemma_player_index(t.players, s.players.len() as int);
    }
}

/// Reading a client back after replacing its row gives the new row.
pub proof fn law_client_read_after_write(s: DbModel, c: Client)
    requires
        client_ids_unique(s.clients),
        has_client(s.clients, c.identity),
    ensures
        lookup_client(s.update_client(c).clients, c.identity) == Some(c),
{
    let t = s.update_client(c);
    let i = client_index(s.clients, c.identity);
    assert forall|a: int, b: int|
        0 <= a < t.clients.len() && 0 <= b < t.clients.len() && (#[trigger] t.clients[a]).identity
            == (#[trigger] t.clients[b]).identity implies a == b by {
        assert(s.clients[a].identity == t.clients[a].identity);
        assert(s.clients[b].identity == t.clients[b].identity);
    }
    lemma_client_index(t.clients, i);
}

/// A game inserted with id 0 receives the next id and can be read back under it.
pub proof fn law_game_insert_then_get(s: DbModel, g: Game)
    requires
        s.wf(),
        g.id == 0,
    ensures
        s.game_as_inserted(g).id == s.next_game_id,
        lookup_game(s.insert_game(g).games, s.next_game_id) == Some(s.game_as_inserted(g)),
{
    let t = s.insert_game(g);
    let n = s.games.len() as int;
    assert forall|a: int, b: int|
        0 <= a < t.games.len() && 0 <= b < t.games.len() && (#[trigger] t.games[a]).id
            == (#[trigger] t.games[b]).id implies a == b by {
        if a < n {
            assert(s.games[a].id < s.next_game_id);
        }
        if b < n {
            assert(s.games[b].id < s.next_game_id);
        }
    }
    lemma_game_index(t.games, n);
}

/// Where entering the queue starts no game (fewer than `GAME_SIZE` players
/// waited before), leaving it right after succeeds and restores the tables.
pub proof fn law_enter_then_exit_queue(s: DbModel, sender: Identity)
    requires
        s.wf(),
        has_client(s.clients, sender),
        s.enter_queue(sender).0 is Ok,
        s.queue().len() < GAME_SIZE,
    ensures
        s.enter_queue(sender).1.exit_queue(sender) == (Ok::<(), ReducerError>(()), s),
{
    let p = s.authenticate(sender)->Ok_0;
    let q = PlayerModel { state: PlayerState::SearchingForGame, ..p };
    let i = player_index(s.players, p.steam_id);
    lemma_update_queue_len(s, q);
    lemma_update_player_wf(s, q);
    let t = s.update_player(q);
    lemma_player_index(t.players, i);
    assert(t.authenticate(sender) == Ok::<PlayerModel, ReducerError>(q));
    assert(t.update_player(p).players =~= s.players);
}

/// Where no more than `GAME_SIZE` players wait, entering the queue right after
/// leaving it succeeds and restores the tables.
pub proof fn law_exit_then_enter_queue(s: DbModel, sender: Identity)
    requires
        s.wf(),
        has_client(s.clients, sender),
        s.exit_queue(sender).0 is Ok,
        s.queue().len() <= GAME_SIZE,
    ensures
        s.exit_queue(sender).1.enter_queue(sender) == (Ok::<(), ReducerError>(()), s),
{
    let p = s.authenticate(sender)->Ok_0;
    let q = PlayerModel { state: PlayerState::Idle, ..p };
    let i = player_index(s.players, p.steam_id);
    lemma_update_queue_len(s, q);
    lemma_update_player_wf(s, q);
    let t = s.update_player(q);
    lemma_player_index(t.players, i);
    assert(t.authenticate(sender) == Ok::<PlayerModel, ReducerError>(q));
    assert(PlayerModel { state: PlayerState::SearchingForGame, ..q } == p);
    lemma_update_queue_len(t, p);
    assert(t.update_player(p).players =~= s.players);
}

/// Entering the queue while at least `GAME_SIZE` other players wait creates
/// games: one for each full `GAME_SIZE` of the players then waiting.
pub proof fn law_enter_queue_creates_games(s: DbModel, sender: Identity)
    requires
        s.wf(),
        has_client(s.clients, sender),
        s.enter_queue(sender).0 is Ok,
        s.queue().len() >= GAME_SIZE,
    ensures
        s.enter_queue(sender).1.games.len() == s.games.len() + (s.queue().len() + 1) / (
        GAME_SIZE as nat),
        s.enter_queue(sender).1.games.len() > s.games.len(),
{
    let p = s.authenticate(sender)->Ok_0;
    let q = PlayerModel { state: PlayerState::SearchingForGame, ..p };
    lemma_update_queue_len(s, q);
}

/// Once a player has a non-empty name, it cannot be set again, and the
/// refusal changes nothing.
pub proof fn law_name_is_set_once(s: DbModel, sender: Identity, name: Seq<char>, other: Seq<char>)
    requires
        s.wf(),
        has_client(s.clients, sender),
        s.set_name(sender, name).0 is Ok,
        name.len() != 0,
    ensures
        s.set_name(sender, name).1.set_name(sender, other) == (
            Err::<(), ReducerError>(ReducerError::NameAlreadySet),
            s.set_name(sender, name).1,
        ),
{
    let steam_id = lookup_client(s.clients, sender)->0.player_steam_id->0;
    let p = lookup_player(s.players, steam_id)->0;
    let q = PlayerModel { name, ..p };
    let i = player_index(s.players, steam_id);
    assert(has_player(s.players, steam_id));
    lemma_update_player_wf(s, q);
    let t = s.update_player(q);
    lemma_player_index(t.players, i);
}

/// After a successful verdict the client is logged in to the player, which is
/// idle, and the request is gone.
pub proof fn law_authentication_logs_in(s: DbModel, steam_id: u64, identity: Identity, err_msg: String)
    requires
        s.wf(),
        has_client(s.clients, identity),
        err_msg@.len() == 0,
    ensures
        ({
            let t = s.auth_server_response(steam_id, identity, err_msg).1;
            &&& lookup_client(t.clients, identity) == Some(
                Client { identity, player_steam_id: Some(steam_id) },
            )
            &&& has_player(t.players, steam_id)
            &&& lookup_player(t.players, steam_id)->0.state == PlayerState::Idle
            &&& !has_auth_request(t.auth_requests, steam_id)
            &&& has_player(s.players, steam_id) ==> lookup_player(t.players, steam_id)->0.name
                == lookup_player(s.players, steam_id)->0.name
            &&& !has_player(s.players, steam_id) ==> lookup_player(t.players, steam_id)->0.name.len()
                == 0
            &&& t.games == s.games
            &&& t.participants == s.participants
        }),
{
    let s1 = s.remove_auth_request(steam_id);
    if has_auth_request(s.auth_requests, steam_id) {
        let j = auth_request_index(s.auth_requests, steam_id);
        s.auth_requests.remove_ensures(j);
        if has_auth_request(s1.auth_requests, steam_id) {
            let k = choose|k: int|
                0 <= k < s1.auth_requests.len() && (#[trigger] s1.auth_requests[k]).steam_id == steam_id;
            let k0 = if k < j { k } else { k + 1 };
            assert(s.auth_requests[k0].steam_id == steam_id);
            assert(s.auth_requests[j].steam_id == steam_id);
        }
    }
    let c = Client { identity, player_steam_id: Some(steam_id) };
    law_client_read_after_write(s1, c);
    let s2 = s1.update_client(c);
    let t = s.auth_server_response(steam_id, identity, err_msg).1;
    assert(player_ids_unique(s2.players));
    match lookup_player(s2.players, steam_id) {
        Some(p) => {
            law_player_read_after_write(s2, PlayerModel { state: PlayerState::Idle, ..p });
        },
        None => {
            law_player_read_after_write(s2, fresh_player(steam_id));
        },
    }
}

/// A client that connects and disconnects again leaves the tables as they were.
pub proof fn law_connect_then_disconnect(s: DbModel, sender: Identity)
    requires
        s.wf(),
        !has_client(s.clients, sender),
    ensures
        s.on_client_connected(sender).on_client_disconnected(sender) == s,
{
    let t = s.on_client_connected(sender);
    let n = s.clients.len() as int;
    assert(t.clients == s.clients.push(fresh_client(sender)));
    lemma_push_client(s.clients, fresh_client(sender));
    lemma_client_index(t.clients, n);
    assert(t.clients.remove(n) =~= s.clients);
}

/// Counting waiting players position by position: after matchmaking, the
/// waiting players before position `i` are those before it in the old table
/// that were not placed.
proof fn lemma_matchmaking_count(s: DbModel, i: int)
    requires
        0 <= i <= s.players.len(),
    ensures
        s.create_game().searching_before(i) + (if s.searching_before(i) < s.matched_count() {
            s.searching_before(i)
        } else {
            s.matched_count()
        }) == s.searching_before(i),
    decreases i,
{
    let t = s.create_game();
    if i == 0 {
        assert(s.players.take(0) =~= Seq::<PlayerModel>::empty());
        assert(t.players.take(0) =~= Seq::<PlayerModel>::empty());
        reveal(Seq::filter);
    } else {
        lemma_matchmaking_count(s, i - 1);
        lemma_filter_step(s.players, i - 1, searching());
        lemma_filter_step(t.players, i - 1, searching());
    }
}

/// One round of matchmaking leaves fewer than `GAME_SIZE` players waiting:
/// exactly those left over after filling whole games.
pub proof fn law_matchmaking_drains_queue(s: DbModel)
    ensures
        s.create_game().queue().len() == s.queue().len() % (GAME_SIZE as nat),
        s.create_game().queue().len() < GAME_SIZE,
{
    let t = s.create_game();
    let n = s.players.len() as int;
    lemma_matchmaking_count(s, n);
    assert(s.players.take(n) =~= s.players);
    assert(t.players.take(n) =~= t.players);
}

/// Counting the new participants of one new game, seat by seat.
proof fn lemma_new_seats(s: DbModel, j: int, m: int)
    requires
        s.next_game_id + s.lobby_count() <= u64::MAX,
        0 <= j < s.lobby_count(),
        0 <= m <= s.matched_count(),
    ensures
        ({
            let seats = Seq::new(
                s.matched_count(),
                |k: int| fresh_participant(s.queue()[k].steam_id, s.lobby_game_id(k)),
            );
            seats.take(m).filter(in_game_filter((s.next_game_id + j) as u64)).len() == (if m
                <= j * (GAME_SIZE as int) {
                0
            } else if m >= (j + 1) * (GAME_SIZE as int) {
                GAME_SIZE as int
            } else {
                m - j * (GAME_SIZE as int)
            })
        }),
    decreases m,
{
    let seats = Seq::new(
        s.matched_count(),
        |k: int| fresh_participant(s.queue()[k].steam_id, s.lobby_game_id(k)),
    );
    if m == 0 {
        reveal(Seq::filter);
        assert(seats.take(0) =~= Seq::<ParticipantModel>::empty());
    } else {
        lemma_new_seats(s, j, m - 1);
        lemma_filter_step(seats, m - 1, in_game_filter((s.next_game_id + j) as u64));
    }
}

/// Each game that one round of matchmaking creates has exactly `GAME_SIZE`
/// participants.
pub proof fn law_new_games_are_full(s: DbModel, j: int)
    requires
        s.wf(),
        s.next_game_id + s.lobby_count() <= u64::MAX,
        0 <= j < s.lobby_count(),
    ensures
        s.create_game().games[s.games.len() + j].id == s.next_game_id + j,
        s.create_game().participants.filter(in_game_filter((s.next_game_id + j) as u64)).len()
            == GAME_SIZE,
{
    let t = s.create_game();
    let pred = in_game_filter((s.next_game_id + j) as u64);
    let seats = Seq::new(
        s.matched_count(),
        |k: int| fresh_participant(s.queue()[k].steam_id, s.lobby_game_id(k)),
    );
    assert(t.participants == s.participants + seats);
    Seq::<ParticipantModel>::filter_distributes_over_add(s.participants, seats, pred);
    assert forall|i: int| 0 <= i < s.participants.len() implies !pred(
        #[trigger] s.participants[i],
    ) by {
        assert(has_game(s.games, s.participants[i].game_id));
        let g = choose|g: int| 0 <= g < s.games.len() && (#[trigger] s.games[g]).id == s.participants[i].game_id;
        assert(s.games[g].id < s.next_game_id);
    }
    s.participants.lemma_all_neg_filter_empty(pred);
    lemma_new_seats(s, j, s.matched_count() as int);
    assert(seats.take(s.matched_count() as int) =~= seats);
}

/// Deleting the client row with an identity leaves no row with that identity.
proof fn lemma_removed_client_is_gone(clients: Seq<Client>, identity: Identity)
    requires
        client_ids_unique(clients),
        has_client(clients, identity),
    ensures
        !has_client(clients.remove(client_index(clients, identity)), identity),
        clients.remove(client_index(clients, identity)).len() + 1 == clients.len(),
{
    let j = client_index(clients, identity);
    let t = clients.remove(j);
    clients.remove_ensures(j);
    if has_client(t, identity) {
        let k = choose|k: int| 0 <= k < t.len() && (#[trigger] t[k]).identity == identity;
        let k0 = if k < j { k } else { k + 1 };
        assert(clients[k0].identity == identity);
        assert(clients[j].identity == identity);
    }
}

/// A new login request is stored as the last row of the request table, with
/// exactly the caller's identity, the Steam id and the ticket bytes given; the
/// other rows and the other tables stay as they were. A request whose Steam id
/// is already present changes nothing.
pub proof fn law_begin_client_auth_stores_ticket(
    s: DbModel,
    sender: Identity,
    steam_id: u64,
    ticket: Seq<u8>,
)
    ensures
        ({
            let (r, t) = s.begin_client_auth(sender, steam_id, ticket);
            &&& r is Ok
            &&& !has_auth_request(s.auth_requests, steam_id) ==> {
                &&& t.auth_requests.len() == s.auth_requests.len() + 1
                &&& t.auth_requests.take(s.auth_requests.len() as int) == s.auth_requests
                &&& t.auth_requests.last().steam_id == steam_id
                &&& t.auth_requests.last().identity == sender
                &&& t.auth_requests.last().ticket == ticket
            }
            &&& has_auth_request(s.auth_requests, steam_id) ==> t.auth_requests == s.auth_requests
            &&& t.players == s.players
            &&& t.clients == s.clients
            &&& t.games == s.games
            &&& t.participants == s.participants
        }),
{
    let t = s.begin_client_auth(sender, steam_id, ticket).1;
    if !has_auth_request(s.auth_requests, steam_id) {
        assert(t.auth_requests.take(s.auth_requests.len() as int) =~= s.auth_requests);
    }
}

/// A disconnecting client's row is gone, and the player it was logged in as is
/// offline, whatever its state was, with its Steam id and name kept; the other
/// players stay as they were.
pub proof fn law_disconnect_takes_player_offline(s: DbModel, sender: Identity)
    requires
        s.wf(),
        has_client(s.clients, sender),
    ensures
        ({
            let t = s.on_client_disconnected(sender);
            let c = lookup_client(s.clients, sender)->0;
            &&& !has_client(t.clients, sender)
            &&& t.clients.len() + 1 == s.clients.len()
            &&& t.players.len() == s.players.len()
            &&& c.player_steam_id matches Some(steam_id) ==> {
                &&& has_player(t.players, steam_id)
                &&& lookup_player(t.players, steam_id)->0.state == PlayerState::Offline
                &&& lookup_player(t.players, steam_id)->0.name == lookup_player(
                    s.players,
                    steam_id,
                )->0.name
                &&& forall|j: int|
                    0 <= j < s.players.len() && s.players[j].steam_id != steam_id ==> t.players[j]
                        == s.players[j]
            }
            &&& c.player_steam_id is None ==> t.players == s.players
            &&& t.games == s.games
            &&& t.participants == s.participants
            &&& t.auth_requests == s.auth_requests
        }),
{
    lemma_removed_client_is_gone(s.clients, sender);
    let c = lookup_client(s.clients, sender)->0;
    let s1 = s.remove_client(sender);
    if let Some(steam_id) = c.player_steam_id {
        let ci = client_index(s.clients, sender);
        assert(s.clients[ci].player_steam_id == Some(steam_id));
        assert(has_player(s.players, steam_id));
        let p = lookup_player(s1.players, steam_id)->0;
        law_player_read_after_write(s1, PlayerModel { state: PlayerState::Offline, ..p });
        let i = player_index(s.players, steam_id);
        assert forall|j: int|
            0 <= j < s.players.len() && s.players[j].steam_id != steam_id implies s.on_client_disconnected(
                sender,
            ).players[j] == s.players[j] by {
            assert(j != i);
        }
    }
}

/// A player logged in without a name takes whatever name is given: the call
/// succeeds, the player's name is exactly that name, its Steam id and state
/// stay, and no other row changes.
pub proof fn law_set_name_sets_the_name(s: DbModel, sender: Identity, name: Seq<char>)
    requires
        s.wf(),
        has_client(s.clients, sender),
        lookup_client(s.clients, sender)->0.player_steam_id is Some,
        lookup_player(
            s.players,
            lookup_client(s.clients, sender)->0.player_steam_id->0,
        )->0.name.len() == 0,
    ensures
        ({
            let steam_id = lookup_client(s.clients, sender)->0.player_steam_id->0;
            let (r, t) = s.set_name(sender, name);
            &&& r is Ok
            &&& has_player(t.players, steam_id)
            &&& lookup_player(t.players, steam_id)->0.name == name
            &&& lookup_player(t.players, steam_id)->0.state == lookup_player(
                s.players,
                steam_id,
            )->0.state
            &&& t.players.len() == s.players.len()
            &&& forall|j: int|
                0 <= j < s.players.len() && s.players[j].steam_id != steam_id ==> t.players[j]
                    == s.players[j]
            &&& t.clients == s.clients
            &&& t.games == s.games
            &&& t.participants == s.participants
            &&& t.auth_requests == s.auth_requests
        }),
{
    let steam_id = lookup_client(s.clients, sender)->0.player_steam_id->0;
    let ci = client_index(s.clients, sender);
    assert(s.clients[ci].player_steam_id == Some(steam_id));
    assert(has_player(s.players, steam_id));
    let p = lookup_player(s.players, steam_id)->0;
    law_player_read_after_write(s, PlayerModel { name, ..p });
    let i = player_index(s.players, steam_id);
    assert forall|j: int|
        0 <= j < s.players.len() && s.players[j].steam_id != steam_id implies s.set_name(
            sender,
            name,
        ).1.players[j] == s.players[j] by {
        assert(j != i);
    }
}

/// Entering the queue with an idle player while fewer than `GAME_SIZE` players
/// wait succeeds and only sets that player to searching for a game, keeping
/// its name; leaving the queue with a searching player succeeds and only sets
/// it idle again, keeping its name.
pub proof fn law_queue_changes_only_the_state(s: DbModel, sender: Identity)
    requires
        s.wf(),
        has_client(s.clients, sender),
        s.authenticate(sender) is Ok,
    ensures
        ({
            let p = s.authenticate(sender)->Ok_0;
            &&& p.state == PlayerState::Idle && s.queue().len() < GAME_SIZE ==> {
                let (r, t) = s.enter_queue(sender);
                &&& r is Ok
                &&& lookup_player(t.players, p.steam_id) == Some(
                    PlayerModel {
                        steam_id: p.steam_id,
                        name: p.name,
                        state: PlayerState::SearchingForGame,
                    },
                )
                &&& t.players.len() == s.players.len()
                &&& forall|j: int|
                    0 <= j < s.players.len() && s.players[j].steam_id != p.steam_id ==> t.players[j]
                        == s.players[j]
                &&& t.games == s.games && t.participants == s.participants && t.clients == s.clients
            }
            &&& p.state == PlayerState::SearchingForGame ==> {
                let (r, t) = s.exit_queue(sender);
                &&& r is Ok
                &&& lookup_player(t.players, p.steam_id) == Some(
                    PlayerModel { steam_id: p.steam_id, name: p.name, state: PlayerState::Idle },
                )
                &&& t.players.len() == s.players.len()
                &&& forall|j: int|
                    0 <= j < s.players.len() && s.players[j].steam_id != p.steam_id ==> t.players[j]
                        == s.players[j]
                &&& t.games == s.games && t.participants == s.participants && t.clients == s.clients
            }
        }),
{
    let p = s.authenticate(sender)->Ok_0;
    let i = player_index(s.players, p.steam_id);
    assert(has_player(s.players, p.steam_id));
    let q = PlayerModel { steam_id: p.steam_id, name: p.name, state: PlayerState::SearchingForGame };
    let e = PlayerModel { steam_id: p.steam_id, name: p.name, state: PlayerState::Idle };
    law_player_read_after_write(s, q);
    law_player_read_after_write(s, e);
    lemma_update_queue_len(s, q);
    assert forall|j: int|
        0 <= j < s.players.len() && s.players[j].steam_id != p.steam_id implies s.update_player(q).players[j]
            == s.players[j] && s.update_player(e).players[j] == s.players[j] by {
        assert(j != i);
    }
}

/// Matchmaking keeps every player's Steam id and name; a player it places is
/// in one of the games it creates, and every other player row stays as it was.
/// Every participant row it adds has a blank grid of `GRID_SIZE` rows of
/// `GRID_SIZE` tiles, and sits in one of the new games.
pub proof fn law_create_game_changes_only_placed_states(s: DbModel)
    requires
        s.next_game_id + s.lobby_count() <= u64::MAX,
    ensures
        ({
            let t = s.create_game();
            &&& t.players.len() == s.players.len()
            &&& forall|i: int|
                0 <= i < s.players.len() ==> #[trigger] t.players[i].steam_id == s.players[i].steam_id
                    && t.players[i].name == s.players[i].name
            &&& forall|i: int|
                0 <= i < s.players.len() && !s.is_matched(i) ==> #[trigger] t.players[i]
                    == s.players[i]
            &&& forall|i: int|
                0 <= i < s.players.len() && s.is_matched(i) ==> {
                    &&& s.players[i].state == PlayerState::SearchingForGame
                    &&& (#[trigger] t.players[i]).state matches PlayerState::InGame(g) && s.next_game_id
                        <= g < s.next_game_id + s.lobby_count()
                }
            &&& t.participants.len() == s.participants.len() + s.matched_count()
            &&& t.participants.take(s.participants.len() as int) == s.participants
            &&& forall|i: int|
                s.participants.len() <= i < t.participants.len() ==> {
                    &&& (#[trigger] t.participants[i]).grid.len() == GRID_SIZE
                    &&& forall|r: int| 0 <= r < GRID_SIZE ==> #[trigger] t.participants[i].grid[r].len()
                        == GRID_SIZE
                    &&& t.participants[i].grid == blank_grid()
                    &&& s.next_game_id <= t.participants[i].game_id < s.next_game_id + s.lobby_count()
                }
        }),
{
    let t = s.create_game();
    assert(t.participants.take(s.participants.len() as int) =~= s.participants);
    assert forall|i: int|
        0 <= i < s.players.len() && s.is_matched(i) implies {
            &&& s.players[i].state == PlayerState::SearchingForGame
            &&& (#[trigger] t.players[i]).state matches PlayerState::InGame(g) && s.next_game_id <= g
                < s.next_game_id + s.lobby_count()
        } by {
        let k = s.searching_before(i) as int;
        assert(k / (GAME_SIZE as int) < s.lobby_count());
    }
    assert forall|i: int|
        s.participants.len() <= i < t.participants.len() implies {
            &&& (#[trigger] t.participants[i]).grid.len() == GRID_SIZE
            &&& forall|r: int| 0 <= r < GRID_SIZE ==> #[trigger] t.participants[i].grid[r].len()
                == GRID_SIZE
            &&& t.participants[i].grid == blank_grid()
            &&& s.next_game_id <= t.participants[i].game_id < s.next_game_id + s.lobby_count()
        } by {
        let k = i - s.participants.len();
        assert(k / (GAME_SIZE as int) < s.lobby_count());
    }
}

/// A client that connects with no row yet gets a row with its identity that
/// is not logged in to any player; nothing else changes.
pub proof fn law_connect_adds_a_logged_out_client(s: DbModel, sender: Identity)
    requires
        client_ids_unique(s.clients),
        !has_client(s.clients, sender),
    ensures
        lookup_client(s.on_client_connected(sender).clients, sender) == Some(
            Client { identity: sender, player_steam_id: None },
        ),
        s.on_client_connected(sender).clients.len() == s.clients.len() + 1,
        s.on_client_connected(sender).players == s.players,
        s.on_client_connected(sender).auth_requests == s.auth_requests,
{
    let t = s.on_client_connected(sender);
    lemma_push_client(s.clients, fresh_client(sender));
    lemma_client_index(t.clients, s.clients.len() as int);
}

/// What each refusal answers: `set_name` refuses a caller that is not logged
/// in, and a player that already has a name; `enter_queue` refuses a player
/// that is not idle and `exit_queue` one that is not searching; a verdict with
/// a message is answered with the Steam id and that message.
pub proof fn law_refusal_answers(
    s: DbModel,
    sender: Identity,
    name: Seq<char>,
    steam_id: u64,
    identity: Identity,
    err_msg: String,
)
    requires
        s.wf(),
        has_client(s.clients, sender),
    ensures
        lookup_client(s.clients, sender)->0.player_steam_id is None ==> {
            &&& s.set_name(sender, name).0 == Err::<(), ReducerError>(ReducerError::NotAuthenticated)
            &&& s.enter_queue(sender).0 == Err::<(), ReducerError>(ReducerError::NotAuthenticated)
            &&& s.exit_queue(sender).0 == Err::<(), ReducerError>(ReducerError::NotAuthenticated)
        },
        lookup_client(s.clients, sender)->0.player_steam_id matches Some(id) ==> {
            &&& has_player(s.players, id)
            &&& lookup_player(s.players, id)->0.name.len() != 0 ==> s.set_name(sender, name).0
                == Err::<(), ReducerError>(ReducerError::NameAlreadySet)
            &&& lookup_player(s.players, id)->0.state != PlayerState::Idle ==> s.enter_queue(
                sender,
            ).0 == Err::<(), ReducerError>(ReducerError::NotIdle)
            &&& lookup_player(s.players, id)->0.state != PlayerState::SearchingForGame
                ==> s.exit_queue(sender).0 == Err::<(), ReducerError>(ReducerError::NotSearching)
            &&& lookup_player(s.players, id)->0.state == PlayerState::Idle ==> s.enter_queue(
                sender,
            ).0 is Ok
            &&& lookup_player(s.players, id)->0.state == PlayerState::SearchingForGame
                ==> s.exit_queue(sender).0 is Ok
        },
        err_msg@.len() != 0 ==> s.auth_server_response(steam_id, identity, err_msg).0 == Err::<
            (),
            ReducerError,
        >(ReducerError::AuthenticationFailed { steam_id, reason: err_msg }),
        err_msg@.len() == 0 ==> s.auth_server_response(steam_id, identity, err_msg).0 is Ok,
{
    if let Some(id) = lookup_client(s.clients, sender)->0.player_steam_id {
        let ci = client_index(s.clients, sender);
        assert(s.clients[ci].player_steam_id == Some(id));
        assert(has_player(s.players, id));
    }
}

/// A successful verdict changes only the logging-in client's row, the row of
/// the player with that Steam id and the request with that Steam id.
pub proof fn law_authentication_touches_only_its_rows(
    s: DbModel,
    steam_id: u64,
    identity: Identity,
    err_msg: String,
)
    requires
        s.wf(),
        has_client(s.clients, identity),
        err_msg@.len() == 0,
    ensures
        ({
            let t = s.auth_server_response(steam_id, identity, err_msg).1;
            &&& t.clients.len() == s.clients.len()
            &&& forall|j: int|
                0 <= j < s.clients.len() && s.clients[j].identity != identity ==> t.clients[j]
                    == s.clients[j]
            &&& forall|j: int|
                0 <= j < s.players.len() && s.players[j].steam_id != steam_id ==> t.players[j]
                    == s.players[j]
            &&& forall|r: int|
                0 <= r < t.auth_requests.len() ==> s.auth_requests.contains(
                    #[trigger] t.auth_requests[r],
                )
        }),
{
    let t = s.auth_server_response(steam_id, identity, err_msg).1;
    let s1 = s.remove_auth_request(steam_id);
    let ci = client_index(s1.clients, identity);
    assert(s1.clients == s.clients);
    assert forall|j: int|
        0 <= j < s.clients.len() && s.clients[j].identity != identity implies t.clients[j]
            == s.clients[j] by {
        assert(j != ci);
    }
    if has_player(s.players, steam_id) {
        let i = player_index(s.players, steam_id);
        assert forall|j: int|
            0 <= j < s.players.len() && s.players[j].steam_id != steam_id implies t.players[j]
                == s.players[j] by {
            assert(j != i);
        }
    }
    if has_auth_request(s.auth_requests, steam_id) {
        let a = auth_request_index(s.auth_requests, steam_id);
        s.auth_requests.remove_ensures(a);
        assert forall|r: int| 0 <= r < t.auth_requests.len() implies s.auth_requests.contains(
            #[trigger] t.auth_requests[r],
        ) by {
            let r0 = if r < a { r } else { r + 1 };
            assert(s.auth_requests[r0] == t.auth_requests[r]);
        }
    } else {
        assert forall|r: int| 0 <= r < t.auth_requests.len() implies s.auth_requests.contains(
            #[trigger] t.auth_requests[r],
        ) by {
            assert(s.auth_requests[r] == t.auth_requests[r]);
        }
    }
}

/// A client that connects while a row for it exists changes nothing.
pub proof fn law_reconnect_changes_nothing(s: DbModel, sender: Identity)
    requires
        has_client(s.clients, sender),
    ensures
        s.on_client_connected(sender) == s,
{
}

/// Matchmaking appends one game for each full `GAME_SIZE` of waiting
/// players, with the next ids in order and not started, moves the next id on
/// past them, and changes neither clients nor requests.
pub proof fn law_create_game_adds_games(s: DbModel)
    requires
        s.next_game_id + s.lobby_count() <= u64::MAX,
    ensures
        ({
            let t = s.create_game();
            &&& t.games.len() == s.games.len() + s.queue().len() / (GAME_SIZE as nat)
            &&& t.games.take(s.games.len() as int) == s.games
            &&& forall|j: int|
                0 <= j < t.games.len() - s.games.len() ==> #[trigger] t.games[s.games.len() + j]
                    == Game { id: (s.next_game_id + j) as u64, state: GameState::Todo }
            &&& t.next_game_id == s.next_game_id + s.queue().len() / (GAME_SIZE as nat)
            &&& t.clients == s.clients
            &&& t.auth_requests == s.auth_requests
        }),
{
    let t = s.create_game();
    assert(t.games.take(s.games.len() as int) =~= s.games);
}

/// Which screen the game client shows: none changes while no player row is
/// known or the player is offline; an online player without a name names
/// itself first; otherwise idle players see the main menu, searching players
/// the search screen and players in a game that game.
pub proof fn law_screen_choice(p: PlayerModel)
    ensures
        screen_for(None) is None,
        p.state == PlayerState::Offline ==> screen_for(Some(p)) is None,
        p.state != PlayerState::Offline && p.name.len() == 0 ==> screen_for(Some(p)) == Some(
            ScreenState::SetName,
        ),
        p.name.len() != 0 && p.state == PlayerState::Idle ==> screen_for(Some(p)) == Some(
            ScreenState::MainMenu,
        ),
        p.name.len() != 0 && p.state == PlayerState::SearchingForGame ==> screen_for(Some(p))
            == Some(ScreenState::SearchingForGame),
        p.name.len() != 0 && p.state is InGame ==> screen_for(Some(p)) == Some(
            ScreenState::InGame(p.state->InGame_0),
        ),
{
}

} // verus!
