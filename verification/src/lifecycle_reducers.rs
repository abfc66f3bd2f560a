use vstd::prelude::*;

use crate::db::{Database, DbModel};
use crate::identity::Identity;
use crate::types::client::{
    client_ids_unique, client_index, fresh_client, has_client, lemma_push_client, lookup_client,
    Client,
};
use crate::types::player::{has_player, lemma_update_player_wf, lookup_player, Player, PlayerModel, PlayerState};

verus! {

impl DbModel {
    /// The tables after a client connects: a row for it, not logged in.
    pub open spec fn on_client_connected(self, sender: Identity) -> DbModel {
        self.insert_client(fresh_client(sender))
    }

    /// The tables after a client disconnects: its row is gone, and the player
    /// it had logged in as is offline.
    pub open spec fn on_client_disconnected(self, sender: Identity) -> DbModel {
        let client = lookup_client(self.clients, sender)->0;
        let s1 = self.remove_client(sender);
        match client.player_steam_id {
            None => s1,
            Some(steam_id) => {
                let p = lookup_player(s1.players, steam_id)->0;
                s1.update_player(PlayerModel { state: PlayerState::Offline, ..p })
            },
        }
    }
}

/// Deleting a client row keeps the invariant.
pub proof fn lemma_remove_client_wf(s: DbModel, identity: Identity)
    requires
        s.wf(),
    ensures
        s.remove_client(identity).wf(),
{
    if has_client(s.clients, identity) {
        let t = s.remove_client(identity);
        let c = client_index(s.clients, identity);
        s.clients.remove_ensures(c);
        assert forall|k: int| 0 <= k < t.clients.len() implies #[trigger] t.clients[k] == s.clients[if k < c { k } else { k + 1 }] by {}
        assert(client_ids_unique(t.clients)) by {
            assert forall|a: int, b: int|
                0 <= a < t.clients.len() && 0 <= b < t.clients.len() && (#[trigger] t.clients[a]).identity
                    == (#[trigger] t.clients[b]).identity implies a == b by {
                let a0 = if a < c { a } else { a + 1 };
                let b0 = if b < c { b } else { b + 1 };
                assert(s.clients[a0] == t.clients[a]);
                assert(s.clients[b0] == t.clients[b]);
            }
        }
        assert(t.clients_have_players()) by {
            assert forall|k: int|
                0 <= k < t.clients.len() && (#[trigger] t.clients[k]).player_steam_id is Some
                    implies has_player(t.players, t.clients[k].player_steam_id->0) by {
                let k0 = if k < c { k } else { k + 1 };
                assert(s.clients[k0] == t.clients[k]);
            }
        }
    }
}

/// Inserts a row for the client that has just connected, not logged in.
pub fn on_client_connected(db: &mut Database, sender: Identity)
    requires
        old(db)@.wf(),
        lookup_client(old(db)@.clients, sender) is Some ==> lookup_client(old(db)@.clients, sender)
            == Some(fresh_client(sender)),
    ensures
        final(db)@ == old(db)@.on_client_connected(sender),
        final(db)@.wf(),
{
    let ghost s0 = db@;
    Client::insert_sender(db, sender);
    proof {
        if !has_client(s0.clients, sender) {
            let t = db@;
            assert(t.clients == s0.clients.push(fresh_client(sender)));
            lemma_push_client(s0.clients, fresh_client(sender));
            assert(t.clients_have_players()) by {
                assert forall|k: int|
                    0 <= k < t.clients.len() && (#[trigger] t.clients[k]).player_steam_id is Some
                        implies has_player(t.players, t.clients[k].player_steam_id->0) by {
                    assert(t.clients[k] == s0.clients[k]);
                }
            }
        }
    }
}

/// Deletes the row of the client that has just disconnected, which must be
/// present, and takes the player it had logged in as offline.
pub fn on_client_disconnected(db: &mut Database, sender: Identity)
    requires
        old(db)@.wf(),
        has_client(old(db)@.clients, sender),
    ensures
        final(db)@ == old(db)@.on_client_disconnected(sender),
        final(db)@.wf(),
{
    let ghost s0 = db@;
    let client = Client::get_sender(db, sender);
    Client::delete_sender(db, sender);
    proof {
        lemma_remove_client_wf(s0, sender);
    }
    let steam_id = match client.player_steam_id {
        None => {
            return;
        },
        Some(id) => id,
    };
    proof {
        assert(has_player(s0.players, steam_id));
    }
    let mut player = Player::get(db, steam_id).unwrap();
    player.state = PlayerState::Offline;
    proof {
        lemma_update_player_wf(db@, player@);
    }
    Player::update(db, player);
}

} // verus!
