use vstd::prelude::*;

use crate::db::{Database, DbModel, ReducerError};
use crate::identity::Identity;
use crate::types::client::{client_ids_unique, client_index, has_client, Client};
use crate::types::participant::{has_participant, lookup_participant};
use crate::types::player::{
    fresh_player, has_player, lemma_push_player, lemma_update_player_wf, lookup_player, player_ids_unique, Player,
    PlayerModel, PlayerState,
};

verus! {

/// A login that waits for the authentication service's verdict.
#[derive(Debug)]
pub struct AuthRequest {
    pub steam_id: u64,
    pub identity: Identity,
    pub ticket: Vec<u8>,
}

/// An authentication request row as a value.
pub struct AuthRequestModel {
    pub steam_id: u64,
    pub identity: Identity,
    pub ticket: Seq<u8>,
}

impl View for AuthRequest {
    type V = AuthRequestModel;

    open spec fn view(&self) -> AuthRequestModel {
        AuthRequestModel { steam_id: self.steam_id, identity: self.identity, ticket: self.ticket@ }
    }
}

/// No two requests share a Steam id, and no two share an identity.
pub open spec fn auth_keys_unique(requests: Seq<AuthRequestModel>) -> bool {
    forall|i: int, j: int|
        0 <= i < requests.len() && 0 <= j < requests.len() && i != j ==> (#[trigger] requests[i]).steam_id
            != (#[trigger] requests[j]).steam_id && requests[i].identity != requests[j].identity
}

/// Some request has this Steam id.
pub open spec fn has_auth_request(requests: Seq<AuthRequestModel>, steam_id: u64) -> bool {
    exists|i: int| 0 <= i < requests.len() && (#[trigger] requests[i]).steam_id == steam_id
}

/// The position of the request with this Steam id.
pub open spec fn auth_request_index(requests: Seq<AuthRequestModel>, steam_id: u64) -> int {
    choose|i: int| 0 <= i < requests.len() && (#[trigger] requests[i]).steam_id == steam_id
}

/// Inserting `a` breaks neither key: each row that shares its Steam id or its
/// identity is equal to it.
pub open spec fn auth_insert_allowed(requests: Seq<AuthRequestModel>, a: AuthRequestModel) -> bool {
    forall|i: int|
        0 <= i < requests.len() && ((#[trigger] requests[i]).steam_id == a.steam_id
            || requests[i].identity == a.identity) ==> requests[i] == a
}

/// Appending a request that shares neither key with a present one keeps both
/// keys unique.
pub proof fn lemma_push_auth_request(requests: Seq<AuthRequestModel>, a: AuthRequestModel)
    requires
        auth_keys_unique(requests),
        auth_insert_allowed(requests, a),
        !has_auth_request(requests, a.steam_id),
    ensures
        auth_keys_unique(requests.push(a)),
{
    let t = requests.push(a);
    let n = requests.len() as int;
    assert forall|i: int, j: int|
        0 <= i < t.len() && 0 <= j < t.len() && i != j implies (#[trigger] t[i]).steam_id
        != (#[trigger] t[j]).steam_id && t[i].identity != t[j].identity by {
        if i == n {
            assert(requests[j].steam_id != a.steam_id);
        } else if j == n {
            assert(requests[i].steam_id != a.steam_id);
        }
    }
}

impl DbModel {
    /// The tables after inserting a request row: unchanged where a row with its
    /// Steam id is present already.
    pub open spec fn insert_auth_request(self, a: AuthRequestModel) -> DbModel {
        if has_auth_request(self.auth_requests, a.steam_id) {
            self
        } else {
            DbModel { auth_requests: self.auth_requests.push(a), ..self }
        }
    }

    /// The tables after deleting the request with this Steam id, if there is one.
    pub open spec fn remove_auth_request(self, steam_id: u64) -> DbModel {
        if has_auth_request(self.auth_requests, steam_id) {
            DbModel {
                auth_requests: self.auth_requests.remove(
                    auth_request_index(self.auth_requests, steam_id),
                ),
                ..self
            }
        } else {
            self
        }
    }

    /// What `begin_client_auth` answers and leaves behind: the caller's
    /// request waits for the authentication service.
    pub open spec fn begin_client_auth(self, sender: Identity, steam_id: u64, ticket: Seq<u8>) -> (
        Result<(), ReducerError>,
        DbModel,
    ) {
        (
            Ok(()),
            self.insert_auth_request(AuthRequestModel { steam_id, identity: sender, ticket }),
        )
    }

    /// What `auth_server_response` answers and leaves behind. A verdict with
    /// a message is a refusal; an empty one logs the client in to the player
    /// with this Steam id, which comes online, or is created when new.
    ///
    /// A returning player becomes idle whatever state it was in. The server
    /// expects it to be offline only through a debug assertion, which release
    /// builds do not evaluate; this is the release behaviour, so a player that
    /// is still online (say, logged in from a second client) is admitted too.
    pub open spec fn auth_server_response(
        self,
        steam_id: u64,
        identity: Identity,
        err_msg: String,
    ) -> (Result<(), ReducerError>, DbModel) {
        if err_msg@.len() != 0 {
            (Err(ReducerError::AuthenticationFailed { steam_id, reason: err_msg }), self)
        } else {
            let s1 = self.remove_auth_request(steam_id);
            let s2 = s1.update_client(Client { identity, player_steam_id: Some(steam_id) });
            let s3 = match lookup_player(s2.players, steam_id) {
                Some(p) => s2.update_player(PlayerModel { state: PlayerState::Idle, ..p }),
                None => s2.insert_player(fresh_player(steam_id)),
            };
            (Ok(()), s3)
        }
    }
}

/// Where the request with this Steam id stands, if anywhere.
fn find_auth_request(db: &Database, steam_id: u64) -> (r: Option<usize>)
    requires
        auth_keys_unique(db@.auth_requests),
    ensures
        match r {
            Some(i) => i < db@.auth_requests.len() && db@.auth_requests[i as int].steam_id
                == steam_id && has_auth_request(db@.auth_requests, steam_id) && i
                == auth_request_index(db@.auth_requests, steam_id),
            None => !has_auth_request(db@.auth_requests, steam_id),
        },
{
    let mut i: usize = 0;
    while i < db.auth_requests.len()
        invariant
            i <= db@.auth_requests.len(),
            auth_keys_unique(db@.auth_requests),
            forall|k: int| 0 <= k < i ==> (#[trigger] db@.auth_requests[k]).steam_id != steam_id,
        decreases db@.auth_requests.len() - i,
    {
        if db.auth_requests[i].steam_id == steam_id {
            proof {
                assert(db@.auth_requests[i as int].steam_id == steam_id);
                assert(has_auth_request(db@.auth_requests, steam_id));
                let j = auth_request_index(db@.auth_requests, steam_id);
                assert(db@.auth_requests[j].steam_id == steam_id);
                if j != i {
                    assert(db@.auth_requests[j].steam_id != db@.auth_requests[i as int].steam_id);
                }
            }
            return Some(i);
        }
        i = i + 1;
    }
    proof {
        if has_auth_request(db@.auth_requests, steam_id) {
            let k = choose|k: int|
                0 <= k < db@.auth_requests.len() && (#[trigger] db@.auth_requests[k]).steam_id
                    == steam_id;
            assert(db@.auth_requests[k].steam_id != steam_id);
        }
    }
    None
}

/// Tells whether no two request rows share a Steam id or an identity.
pub(crate) fn auth_keys_are_unique(db: &Database) -> (r: bool)
    ensures
        r == auth_keys_unique(db@.auth_requests),
{
    let n = db.auth_requests.len();
    let mut i: usize = 0;
    while i < n
        invariant
            n == db@.auth_requests.len(),
            i <= n,
            forall|a: int, b: int|
                0 <= a < i && 0 <= b < i && a != b ==> (#[trigger] db@.auth_requests[a]).steam_id
                    != (#[trigger] db@.auth_requests[b]).steam_id && db@.auth_requests[a].identity
                    != db@.auth_requests[b].identity,
        decreases n - i,
    {
        let mut j: usize = 0;
        while j < i
            invariant
                n == db@.auth_requests.len(),
                j <= i < n,
                forall|b: int|
                    0 <= b < j ==> (#[trigger] db@.auth_requests[b]).steam_id
                        != db@.auth_requests[i as int].steam_id && db@.auth_requests[b].identity
                        != db@.auth_requests[i as int].identity,
            decreases i - j,
        {
            if db.auth_requests[j].steam_id == db.auth_requests[i].steam_id
                || db.auth_requests[j].identity == db.auth_requests[i].identity {
                assert(db@.auth_requests[j as int].steam_id == db@.auth_requests[i as int].steam_id
                    || db@.auth_requests[j as int].identity == db@.auth_requests[i as int].identity);
                return false;
            }
            j = j + 1;
        }
        i = i + 1;
    }
    true
}

/// Tells whether two byte strings are equal.
fn same_bytes(a: &Vec<u8>, b: &Vec<u8>) -> (r: bool)
    ensures
        r == (a@ == b@),
{
    if a.len() != b.len() {
        return false;
    }
    let mut i: usize = 0;
    while i < a.len()
        invariant
            a@.len() == b@.len(),
            i <= a@.len(),
            forall|k: int| 0 <= k < i ==> a@[k] == b@[k],
        decreases a@.len() - i,
    {
        if a[i] != b[i] {
            return false;
        }
        i = i + 1;
    }
    assert(a@ =~= b@);
    true
}

/// Tells whether the caller's request can be recorded without breaking a key:
/// each row that shares its Steam id or the caller's identity is that same request.
pub fn can_begin_client_auth(db: &Database, sender: Identity, steam_id: u64, ticket: &Vec<u8>) -> (r:
    bool)
    ensures
        r == auth_insert_allowed(
            db@.auth_requests,
            AuthRequestModel { steam_id, identity: sender, ticket: ticket@ },
        ),
{
    let ghost a = AuthRequestModel { steam_id, identity: sender, ticket: ticket@ };
    let mut i: usize = 0;
    while i < db.auth_requests.len()
        invariant
            i <= db@.auth_requests.len(),
            a == (AuthRequestModel { steam_id, identity: sender, ticket: ticket@ }),
            forall|k: int|
                0 <= k < i && ((#[trigger] db@.auth_requests[k]).steam_id == a.steam_id
                    || db@.auth_requests[k].identity == a.identity) ==> db@.auth_requests[k] == a,
        decreases db@.auth_requests.len() - i,
    {
        let row = &db.auth_requests[i];
        assert(db@.auth_requests[i as int] == row@);
        if row.steam_id == steam_id || row.identity == sender {
            if row.steam_id != steam_id || row.identity != sender || !same_bytes(&row.ticket, ticket) {
                return false;
            }
            assert(row@ =~= a);
        }
        i = i + 1;
    }
    true
}

/// Records the caller's login ticket for the authentication service to check.
pub fn begin_client_auth(db: &mut Database, sender: Identity, steam_id: u64, ticket: Vec<u8>) -> (r:
    Result<(), ReducerError>)
    requires
        old(db)@.wf(),
        auth_insert_allowed(
            old(db)@.auth_requests,
            AuthRequestModel { steam_id, identity: sender, ticket: ticket@ },
        ),
    ensures
        (r, final(db)@) == old(db)@.begin_client_auth(sender, steam_id, ticket@),
        final(db)@.wf(),
        r is Ok,
        !has_auth_request(old(db)@.auth_requests, steam_id) ==> final(db)@.auth_requests
            == old(db)@.auth_requests.push(
            AuthRequestModel { steam_id, identity: sender, ticket: ticket@ },
        ),
        has_auth_request(old(db)@.auth_requests, steam_id) ==> final(db)@.auth_requests
            == old(db)@.auth_requests,
        final(db)@.players == old(db)@.players,
        final(db)@.clients == old(db)@.clients,
{
    let ghost a = AuthRequestModel { steam_id, identity: sender, ticket: ticket@ };
    match find_auth_request(db, steam_id) {
        Some(_) => {},
        None => {
            let ghost before = db@.auth_requests;
            db.auth_requests.push(AuthRequest { steam_id, ticket, identity: sender });
            assert(db@.auth_requests =~= before.push(a));
            proof {
                lemma_push_auth_request(before, a);
            }
        },
    }
    Ok(())
}

/// Applies the authentication service's verdict on the request with this
/// Steam id, which the client with `identity` made. A returning player need
/// not be offline: see `DbModel::auth_server_response`.
pub fn auth_server_response(db: &mut Database, steam_id: u64, identity: Identity, err_msg: String) -> (r:
    Result<(), ReducerError>)
    requires
        old(db)@.wf(),
        err_msg@.len() == 0 ==> has_client(old(db)@.clients, identity),
    ensures
        (r, final(db)@) == old(db)@.auth_server_response(steam_id, identity, err_msg),
        final(db)@.wf(),
{
    if !err_msg.as_str().is_empty() {
        return Err(ReducerError::AuthenticationFailed { steam_id, reason: err_msg });
    }
    let ghost s0 = db@;
    match find_auth_request(db, steam_id) {
        Some(i) => {
            db.auth_requests.remove(i);
            assert(db@.auth_requests =~= s0.auth_requests.remove(i as int));
            assert(auth_keys_unique(db@.auth_requests)) by {
                s0.auth_requests.remove_ensures(i as int);
                assert forall|a: int, b: int|
                    0 <= a < db@.auth_requests.len() && 0 <= b < db@.auth_requests.len() && a
                        != b implies (#[trigger] db@.auth_requests[a]).steam_id
                    != (#[trigger] db@.auth_requests[b]).steam_id && db@.auth_requests[a].identity
                    != db@.auth_requests[b].identity by {
                    let a0 = if a < i { a } else { a + 1 };
                    let b0 = if b < i { b } else { b + 1 };
                    assert(db@.auth_requests[a] == s0.auth_requests[a0]);
                    assert(db@.auth_requests[b] == s0.auth_requests[b0]);
                }
            }
        },
        None => {},
    }
    let ghost s1 = db@;
    assert(s1 == s0.remove_auth_request(steam_id));
    Client::update(db, Client { identity, player_steam_id: Some(steam_id) });
    let ghost s2 = db@;
    proof {
        let c = client_index(s1.clients, identity);
        assert(client_ids_unique(s2.clients)) by {
            assert forall|a: int, b: int|
                0 <= a < s2.clients.len() && 0 <= b < s2.clients.len() && (#[trigger] s2.clients[a]).identity
                    == (#[trigger] s2.clients[b]).identity implies a == b by {
                assert(s1.clients[a].identity == s2.clients[a].identity);
                assert(s1.clients[b].identity == s2.clients[b].identity);
            }
        }
    }
    match Player::get(db, steam_id) {
        Some(mut player) => {
            player.state = PlayerState::Idle;
            proof {
                assert(s2.clients_have_players()) by {
                    assert forall|k: int|
                        0 <= k < s2.clients.len() && (#[trigger] s2.clients[k]).player_steam_id is Some
                            implies has_player(s2.players, s2.clients[k].player_steam_id->0) by {
                        if k != client_index(s1.clients, identity) {
                            assert(s2.clients[k] == s1.clients[k]);
                        }
                    }
                }
                lemma_update_player_wf(s2, player@);
            }
            Player::update(db, player);
        },
        None => {
            let ghost fresh = fresh_player(steam_id);
            Player::insert(db, Player::new(steam_id));
            proof {
                let s3 = db@;
                assert(s3.players == s2.players.push(fresh));
                lemma_push_player(s2.players, fresh);
                assert(s3.clients_have_players()) by {
                    assert forall|k: int|
                        0 <= k < s3.clients.len() && (#[trigger] s3.clients[k]).player_steam_id is Some
                            implies has_player(s3.players, s3.clients[k].player_steam_id->0) by {
                        if k != client_index(s1.clients, identity) {
                            assert(s3.clients[k] == s1.clients[k]);
                            assert(has_player(s2.players, s1.clients[k].player_steam_id->0));
                        }
                    }
                }
                assert(s3.players_in_game_take_part()) by {
                    assert forall|i: int|
                        0 <= i < s3.players.len() && (#[trigger] s3.players[i]).state is InGame implies {
                            let sid = s3.players[i].steam_id;
                            &&& has_participant(s3.participants, sid)
                            &&& lookup_participant(s3.participants, sid)->0.game_id
                                == s3.players[i].state->InGame_0
                        } by {
                        assert(s3.players[i] == s2.players[i]);
                    }
                }
            }
        },
    }
    Ok(())
}

} // verus!
