use vstd::prelude::*;

use crate::db::{Database, DbModel};
use crate::identity::Identity;

verus! {

/// A client connected to the server.
#[derive(Clone, Copy, Debug, PartialEq, Eq, Structural)]
pub struct Client {
    pub identity: Identity,
    /// Account the client has logged into. None until the user logs in.
    pub player_steam_id: Option<u64>,
}

/// No two clients share an identity.
pub open spec fn client_ids_unique(clients: Seq<Client>) -> bool {
    forall|i: int, j: int|
        0 <= i < clients.len() && 0 <= j < clients.len() && (#[trigger] clients[i]).identity
            == (#[trigger] clients[j]).identity ==> i == j
}

/// Some client has this identity.
pub open spec fn has_client(clients: Seq<Client>, identity: Identity) -> bool {
    exists|i: int| 0 <= i < clients.len() && (#[trigger] clients[i]).identity == identity
}

/// The position of the client with this identity.
pub open spec fn client_index(clients: Seq<Client>, identity: Identity) -> int {
    choose|i: int| 0 <= i < clients.len() && (#[trigger] clients[i]).identity == identity
}

/// The client with this identity, if there is one.
pub open spec fn lookup_client(clients: Seq<Client>, identity: Identity) -> Option<Client> {
    if has_client(clients, identity) {
        Some(clients[client_index(clients, identity)])
    } else {
        None
    }
}

/// A client with this identity that has not logged in.
pub open spec fn fresh_client(identity: Identity) -> Client {
    Client { identity, player_steam_id: None }
}

/// Where `clients` holds a row with the identity that the row at `i` has, it is that row.
pub proof fn lemma_client_index(clients: Seq<Client>, i: int)
    requires
        client_ids_unique(clients),
        0 <= i < clients.len(),
    ensures
        has_client(clients, clients[i].identity),
        client_index(clients, clients[i].identity) == i,
        lookup_client(clients, clients[i].identity) == Some(clients[i]),
{
    assert(has_client(clients, clients[i].identity));
}

/// Appending a client under a new identity keeps identities unique.
pub proof fn lemma_push_client(clients: Seq<Client>, c: Client)
    requires
        client_ids_unique(clients),
        !has_client(clients, c.identity),
    ensures
        client_ids_unique(clients.push(c)),
{
    let t = clients.push(c);
    let n = clients.len() as int;
    assert forall|a: int, b: int|
        0 <= a < t.len() && 0 <= b < t.len() && (#[trigger] t[a]).identity == (#[trigger] t[b]).identity
            implies a == b by {
        if a < n && b == n {
            assert(clients[a].identity == c.identity);
        }
        if b < n && a == n {
            assert(clients[b].identity == c.identity);
        }
    }
}

impl DbModel {
    /// The tables after inserting a client row: unchanged where a row with its
    /// identity is present already.
    pub open spec fn insert_client(self, c: Client) -> DbModel {
        if has_client(self.clients, c.identity) {
            self
        } else {
            DbModel { clients: self.clients.push(c), ..self }
        }
    }

    /// The tables after replacing the client row that has the identity of `c`.
    pub open spec fn update_client(self, c: Client) -> DbModel {
        DbModel { clients: self.clients.update(client_index(self.clients, c.identity), c), ..self }
    }

    /// The tables after deleting the client row with this identity, if there is one.
    pub open spec fn remove_client(self, identity: Identity) -> DbModel {
        if has_client(self.clients, identity) {
            DbModel { clients: self.clients.remove(client_index(self.clients, identity)), ..self }
        } else {
            self
        }
    }
}

/// Where the client with this identity stands, if anywhere.
pub(crate) fn find_client(db: &Database, identity: Identity) -> (r: Option<usize>)
    requires
        client_ids_unique(db@.clients),
    ensures
        match r {
            Some(i) => i < db@.clients.len() && db@.clients[i as int].identity == identity
                && has_client(db@.clients, identity) && i == client_index(db@.clients, identity),
            None => !has_client(db@.clients, identity),
        },
{
    let mut i: usize = 0;
    while i < db.clients.len()
        invariant
            i <= db@.clients.len(),
            client_ids_unique(db@.clients),
            forall|k: int| 0 <= k < i ==> (#[trigger] db@.clients[k]).identity != identity,
        decreases db@.clients.len() - i,
    {
        if db.clients[i].identity == identity {
            proof {
                lemma_client_index(db@.clients, i as int);
            }
            return Some(i);
        }
        i = i + 1;
    }
    proof {
        if has_client(db@.clients, identity) {
            let k = choose|k: int| 0 <= k < db@.clients.len() && (#[trigger] db@.clients[k]).identity == identity;
            assert(db@.clients[k].identity != identity);
        }
    }
    None
}

/// Tells whether no two client rows share an identity.
pub(crate) fn client_ids_are_unique(db: &Database) -> (r: bool)
    ensures
        r == client_ids_unique(db@.clients),
{
    let n = db.clients.len();
    let mut i: usize = 0;
    while i < n
        invariant
            n == db@.clients.len(),
            i <= n,
            forall|a: int, b: int|
                0 <= a < i && 0 <= b < i && (#[trigger] db@.clients[a]).identity
                    == (#[trigger] db@.clients[b]).identity ==> a == b,
        decreases n - i,
    {
        let mut j: usize = 0;
        while j < i
            invariant
                n == db@.clients.len(),
                j <= i < n,
                forall|b: int| 0 <= b < j ==> (#[trigger] db@.clients[b]).identity != db@.clients[i as int].identity,
            decreases i - j,
        {
            if db.clients[j].identity == db.clients[i].identity {
                assert(db@.clients[j as int].identity == db@.clients[i as int].identity);
                return false;
            }
            j = j + 1;
        }
        i = i + 1;
    }
    true
}

impl Client {
    /// A client with this identity that has not logged in.
    pub fn new(identity: Identity) -> (c: Self)
        ensures
            c == fresh_client(identity),
            c.identity == identity,
            c.player_steam_id is None,
    {
        Client { identity, player_steam_id: None }
    }

    /// The client with this identity, if there is one.
    pub fn get(db: &Database, identity: Identity) -> (r: Option<Self>)
        requires
            client_ids_unique(db@.clients),
        ensures
            r == lookup_client(db@.clients, identity),
    {
        match find_client(db, identity) {
            Some(i) => Some(db.clients[i]),
            None => None,
        }
    }

    /// Inserts a row for the calling client, not logged in, and hands it back.
    /// Inserting a row equal to one already present changes nothing.
    pub fn insert_sender(db: &mut Database, sender: Identity) -> (c: Self)
        requires
            client_ids_unique(old(db)@.clients),
            lookup_client(old(db)@.clients, sender) is Some ==> lookup_client(
                old(db)@.clients,
                sender,
            ) == Some(fresh_client(sender)),
        ensures
            c == fresh_client(sender),
            final(db)@ == old(db)@.insert_client(c),
    {
        let c = Client::new(sender);
        match find_client(db, sender) {
            Some(_) => {},
            None => {
                db.clients.push(c);
            },
        }
        c
    }

    /// Deletes the calling client's row; tells whether there was one.
    pub fn delete_sender(db: &mut Database, sender: Identity) -> (deleted: bool)
        requires
            client_ids_unique(old(db)@.clients),
        ensures
            deleted == has_client(old(db)@.clients, sender),
            final(db)@ == old(db)@.remove_client(sender),
    {
        match find_client(db, sender) {
            Some(i) => {
                db.clients.remove(i);
                true
            },
            None => false,
        }
    }

    /// The calling client's row, which must be present.
    pub fn get_sender(db: &Database, sender: Identity) -> (c: Self)
        requires
            client_ids_unique(db@.clients),
            has_client(db@.clients, sender),
        ensures
            lookup_client(db@.clients, sender) == Some(c),
    {
        let i = find_client(db, sender).unwrap();
        db.clients[i]
    }

    /// Replaces the row that has this client's identity, which must be
    /// present, and hands the new row back.
    pub fn update(db: &mut Database, client: Self) -> (c: Self)
        requires
            client_ids_unique(old(db)@.clients),
            has_client(old(db)@.clients, client.identity),
        ensures
            c == client,
            final(db)@ == old(db)@.update_client(client),
    {
        let i = find_client(db, client.identity).unwrap();
        db.clients.set(i, client);
        client
    }
}

} // verus!
