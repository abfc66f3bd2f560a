use vstd::prelude::*;

use crate::decimal::{decimal, decimal_text};

use crate::types::auth_request::{
    auth_keys_are_unique, auth_keys_unique, AuthRequest, AuthRequestModel,
};
use crate::types::client::{client_ids_are_unique, client_ids_unique, Client};
use crate::types::game::{find_game, game_ids_are_unique, game_ids_unique, has_game, Game};
use crate::types::participant::{
    find_participant, has_participant, lookup_participant, participant_ids_are_unique,
    participant_ids_unique, Participant, ParticipantModel,
};
use crate::types::player::{
    find_player, has_player, player_ids_are_unique, player_ids_unique, Player, PlayerModel,
    PlayerState,
};

verus! {

/// The server's tables. Each field holds the rows of one table, in table order.
pub struct Database {
    pub players: Vec<Player>,
    pub clients: Vec<Client>,
    pub auth_requests: Vec<AuthRequest>,
    pub games: Vec<Game>,
    pub participants: Vec<Participant>,
    /// The id that the next game inserted with id 0 receives.
    pub next_game_id: u64,
}

/// The tables as sequences of row values.
pub struct DbModel {
    pub players: Seq<PlayerModel>,
    pub clients: Seq<Client>,
    pub auth_requests: Seq<AuthRequestModel>,
    pub games: Seq<Game>,
    pub participants: Seq<ParticipantModel>,
    pub next_game_id: u64,
}

impl View for Database {
    type V = DbModel;

    open spec fn view(&self) -> DbModel {
        DbModel {
            players: self.players@.map_values(|p: Player| p@),
            clients: self.clients@,
            auth_requests: self.auth_requests@.map_values(|a: AuthRequest| a@),
            games: self.games@,
            participants: self.participants@.map_values(|p: Participant| p@),
            next_game_id: self.next_game_id,
        }
    }
}

/// Why a reducer refused a request. A refused request leaves every table as it was.
#[derive(Debug)]
pub enum ReducerError {
    /// The caller has not logged in to any player.
    NotAuthenticated,
    /// The caller's player has no row in the player table.
    PlayerNotFound,
    /// The player already has a non-empty name.
    NameAlreadySet,
    /// Entering the queue needs the player to be idle.
    NotIdle,
    /// Leaving the queue needs the player to be searching for a game.
    NotSearching,
    /// The authentication service rejected a ticket for this Steam id.
    AuthenticationFailed { steam_id: u64, reason: String },
}

impl ReducerError {
    /// The text with which a refused request is answered.
    pub open spec fn text(&self) -> Seq<char> {
        match self {
            ReducerError::NotAuthenticated => "You are not authenticated"@,
            ReducerError::PlayerNotFound => "This player is not found"@,
            ReducerError::NameAlreadySet => "You've already set your name"@,
            ReducerError::NotIdle => "You can enter queue in Idle state"@,
            ReducerError::NotSearching => "You can only cancel queue in Searching For Game state"@,
            ReducerError::AuthenticationFailed { steam_id, reason } => "Authentication for "@
                + decimal(*steam_id as nat) + " failed: "@ + reason@,
        }
    }

    /// The text with which a refused request is answered.
    pub fn message(&self) -> (text: String)
        ensures
            text@ == self.text(),
    {
        match self {
            ReducerError::NotAuthenticated => String::from_str("You are not authenticated"),
            ReducerError::PlayerNotFound => String::from_str("This player is not found"),
            ReducerError::NameAlreadySet => String::from_str("You've already set your name"),
            ReducerError::NotIdle => String::from_str("You can enter queue in Idle state"),
            ReducerError::NotSearching => String::from_str(
                "You can only cancel queue in Searching For Game state",
            ),
            ReducerError::AuthenticationFailed { steam_id, reason } => {
                let mut text = String::from_str("Authentication for ");
                let digits = decimal_text(*steam_id);
                text.append(digits.as_str());
                text.append(" failed: ");
                text.append(reason.as_str());
                text
            },
        }
    }
}

impl DbModel {
    /// No tables hold any rows, and game ids start at 1.
    pub open spec fn empty() -> DbModel {
        DbModel {
            players: Seq::empty(),
            clients: Seq::empty(),
            auth_requests: Seq::empty(),
            games: Seq::empty(),
            participants: Seq::empty(),
            next_game_id: 1,
        }
    }

    /// The tables' invariant: keys are unique within each table, every game id
    /// lies below the next one to be handed out, and rows that refer to rows of
    /// other tables find them there.
    pub open spec fn wf(self) -> bool {
        &&& player_ids_unique(self.players)
        &&& client_ids_unique(self.clients)
        &&& auth_keys_unique(self.auth_requests)
        &&& game_ids_unique(self.games)
        &&& participant_ids_unique(self.participants)
        &&& forall|i: int|
            0 <= i < self.games.len() ==> (#[trigger] self.games[i]).id < self.next_game_id
        &&& self.clients_have_players()
        &&& self.participants_have_games()
        &&& self.players_in_game_take_part()
    }

    /// Every client that has logged in refers to an existing player.
    pub open spec fn clients_have_players(self) -> bool {
        forall|i: int|
            0 <= i < self.clients.len() && (#[trigger] self.clients[i]).player_steam_id is Some
                ==> has_player(self.players, self.clients[i].player_steam_id->0)
    }

    /// Every participant belongs to an existing game.
    pub open spec fn participants_have_games(self) -> bool {
        forall|i: int|
            0 <= i < self.participants.len() ==> has_game(
                self.games,
                (#[trigger] self.participants[i]).game_id,
            )
    }

    /// A player in a game has a participant row in that game.
    pub open spec fn players_in_game_take_part(self) -> bool {
        forall|i: int|
            0 <= i < self.players.len() && (#[trigger] self.players[i]).state is InGame ==> {
                let steam_id = self.players[i].steam_id;
                &&& has_participant(self.participants, steam_id)
                &&& lookup_participant(self.participants, steam_id)->0.game_id
                    == self.players[i].state->InGame_0
            }
    }
}

impl Database {
    /// Tells whether the tables satisfy their invariant.
    pub fn check_wf(&self) -> (r: bool)
        ensures
            r == self@.wf(),
    {
        if !player_ids_are_unique(self) || !client_ids_are_unique(self) || !auth_keys_are_unique(self)
            || !game_ids_are_unique(self) || !participant_ids_are_unique(self) {
            return false;
        }
        let mut i: usize = 0;
        while i < self.games.len()
            invariant
                i <= self@.games.len(),
                forall|k: int| 0 <= k < i ==> (#[trigger] self@.games[k]).id < self.next_game_id,
            decreases self@.games.len() - i,
        {
            if self.games[i].id >= self.next_game_id {
                assert(self@.games[i as int].id >= self.next_game_id);
                return false;
            }
            i = i + 1;
        }
        let mut i: usize = 0;
        while i < self.clients.len()
            invariant
                i <= self@.clients.len(),
                player_ids_unique(self@.players),
                forall|k: int|
                    0 <= k < i && (#[trigger] self@.clients[k]).player_steam_id is Some
                        ==> has_player(self@.players, self@.clients[k].player_steam_id->0),
            decreases self@.clients.len() - i,
        {
            if let Some(steam_id) = self.clients[i].player_steam_id {
                if find_player(self, steam_id).is_none() {
                    assert(self@.clients[i as int].player_steam_id == Some(steam_id));
                    return false;
                }
            }
            i = i + 1;
        }
        let mut i: usize = 0;
        while i < self.participants.len()
            invariant
                i <= self@.participants.len(),
                game_ids_unique(self@.games),
                forall|k: int|
                    0 <= k < i ==> has_game(self@.games, (#[trigger] self@.participants[k]).game_id),
            decreases self@.participants.len() - i,
        {
            if find_game(self, self.participants[i].game_id).is_none() {
                assert(self@.participants[i as int].game_id == self.participants@[i as int].game_id);
                return false;
            }
            i = i + 1;
        }
        let mut i: usize = 0;
        while i < self.players.len()
            invariant
                i <= self@.players.len(),
                participant_ids_unique(self@.participants),
                forall|k: int|
                    0 <= k < i && (#[trigger] self@.players[k]).state is InGame ==> {
                        let steam_id = self@.players[k].steam_id;
                        &&& has_participant(self@.participants, steam_id)
                        &&& lookup_participant(self@.participants, steam_id)->0.game_id
                            == self@.players[k].state->InGame_0
                    },
            decreases self@.players.len() - i,
        {
            if let PlayerState::InGame(game_id) = self.players[i].state {
                assert(self@.players[i as int].state == PlayerState::InGame(game_id));
                match find_participant(self, self.players[i].steam_id) {
                    None => {
                        return false;
                    },
                    Some(k) => {
                        if self.participants[k].game_id != game_id {
                            assert(self@.participants[k as int].game_id != game_id);
                            return false;
                        }
                    },
                }
            }
            i = i + 1;
        }
        true
    }

    /// Empty tables.
    pub fn new() -> (db: Database)
        ensures
            db@ == DbModel::empty(),
            db@.wf(),
    {
        let db = Database {
            players: Vec::new(),
            clients: Vec::new(),
            auth_requests: Vec::new(),
            games: Vec::new(),
            participants: Vec::new(),
            next_game_id: 1,
        };
        assert(db@.players =~= Seq::empty());
        assert(db@.auth_requests =~= Seq::empty());
        assert(db@.participants =~= Seq::empty());
        db
    }
}

} // verus!
