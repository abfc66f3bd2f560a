use vstd::prelude::*;

use crate::db::{Database, DbModel};
use crate::types::grid::{blank_grid, Grid, Tile};

verus! {

/// A player's seat in a game, keyed by the player's Steam id.
#[derive(Debug)]
pub struct Participant {
    pub steam_id: u64,
    pub game_id: u64,
    pub grid: Grid,
}

/// A participant row as a value.
pub struct ParticipantModel {
    pub steam_id: u64,
    pub game_id: u64,
    pub grid: Seq<Seq<Tile>>,
}

impl View for Participant {
    type V = ParticipantModel;

    open spec fn view(&self) -> ParticipantModel {
        ParticipantModel { steam_id: self.steam_id, game_id: self.game_id, grid: self.grid@ }
    }
}

impl Clone for Participant {
    fn clone(&self) -> (res: Self)
        ensures
            res@ == self@,
    {
        Participant { steam_id: self.steam_id, game_id: self.game_id, grid: self.grid.clone() }
    }
}

/// The row of a player who has just joined a game: a blank grid.
pub open spec fn fresh_participant(steam_id: u64, game_id: u64) -> ParticipantModel {
    ParticipantModel { steam_id, game_id, grid: blank_grid() }
}

/// No two participants share a Steam id.
pub open spec fn participant_ids_unique(participants: Seq<ParticipantModel>) -> bool {
    forall|i: int, j: int|
        0 <= i < participants.len() && 0 <= j < participants.len() && (#[trigger] participants[i]).steam_id
            == (#[trigger] participants[j]).steam_id ==> i == j
}

/// Some participant has this Steam id.
pub open spec fn has_participant(participants: Seq<ParticipantModel>, steam_id: u64) -> bool {
    exists|i: int| 0 <= i < participants.len() && (#[trigger] participants[i]).steam_id == steam_id
}

/// The position of the participant with this Steam id.
pub open spec fn participant_index(participants: Seq<ParticipantModel>, steam_id: u64) -> int {
    choose|i: int| 0 <= i < participants.len() && (#[trigger] participants[i]).steam_id == steam_id
}

/// The participant with this Steam id, if there is one.
pub open spec fn lookup_participant(participants: Seq<ParticipantModel>, steam_id: u64) -> Option<
    ParticipantModel,
> {
    if has_participant(participants, steam_id) {
        Some(participants[participant_index(participants, steam_id)])
    } else {
        None
    }
}

/// The participants of a game, in table order.
pub open spec fn in_game_filter(game_id: u64) -> spec_fn(ParticipantModel) -> bool {
    |p: ParticipantModel| p.game_id == game_id
}

/// Where `participants` holds a row with the Steam id that the row at `i` has, it is that row.
pub proof fn lemma_participant_index(participants: Seq<ParticipantModel>, i: int)
    requires
        participant_ids_unique(participants),
        0 <= i < participants.len(),
    ensures
        has_participant(participants, participants[i].steam_id),
        participant_index(participants, participants[i].steam_id) == i,
        lookup_participant(participants, participants[i].steam_id) == Some(participants[i]),
{
    assert(has_participant(participants, participants[i].steam_id));
}

/// Appending a participant under a new Steam id keeps Steam ids unique.
pub proof fn lemma_push_participant(participants: Seq<ParticipantModel>, p: ParticipantModel)
    requires
        participant_ids_unique(participants),
        !has_participant(participants, p.steam_id),
    ensures
        participant_ids_unique(participants.push(p)),
{
    let t = participants.push(p);
    let n = participants.len() as int;
    assert forall|a: int, b: int|
        0 <= a < t.len() && 0 <= b < t.len() && (#[trigger] t[a]).steam_id == (#[trigger] t[b]).steam_id
            implies a == b by {
        if a < n && b == n {
            assert(participants[a].steam_id == p.steam_id);
        }
        if b < n && a == n {
            assert(participants[b].steam_id == p.steam_id);
        }
    }
}

impl DbModel {
    /// The tables after inserting a participant row: unchanged where a row with
    /// its Steam id is present already.
    pub open spec fn insert_participant(self, p: ParticipantModel) -> DbModel {
        if has_participant(self.participants, p.steam_id) {
            self
        } else {
            DbModel { participants: self.participants.push(p), ..self }
        }
    }
}

/// Where the participant with this Steam id stands, if anywhere.
pub(crate) fn find_participant(db: &Database, steam_id: u64) -> (r: Option<usize>)
    requires
        participant_ids_unique(db@.participants),
    ensures
        match r {
            Some(i) => i < db@.participants.len() && db@.participants[i as int].steam_id == steam_id
                && has_participant(db@.participants, steam_id) && i == participant_index(
                db@.participants,
                steam_id,
            ),
            None => !has_participant(db@.participants, steam_id),
        },
{
    let mut i: usize = 0;
    while i < db.participants.len()
        invariant
            i <= db@.participants.len(),
            participant_ids_unique(db@.participants),
            forall|k: int| 0 <= k < i ==> (#[trigger] db@.participants[k]).steam_id != steam_id,
        decreases db@.participants.len() - i,
    {
        if db.participants[i].steam_id == steam_id {
            proof {
                lemma_participant_index(db@.participants, i as int);
            }
            return Some(i);
        }
        i = i + 1;
    }
    proof {
        if has_participant(db@.participants, steam_id) {
            let k = choose|k: int|
                0 <= k < db@.participants.len() && (#[trigger] db@.participants[k]).steam_id == steam_id;
            assert(db@.participants[k].steam_id != steam_id);
        }
    }
    None
}

/// Tells whether no two participant rows share a Steam id.
pub(crate) fn participant_ids_are_unique(db: &Database) -> (r: bool)
    ensures
        r == participant_ids_unique(db@.participants),
{
    let n = db.participants.len();
    let mut i: usize = 0;
    while i < n
        invariant
            n == db@.participants.len(),
            i <= n,
            forall|a: int, b: int|
                0 <= a < i && 0 <= b < i && (#[trigger] db@.participants[a]).steam_id
                    == (#[trigger] db@.participants[b]).steam_id ==> a == b,
        decreases n - i,
    {
        let mut j: usize = 0;
        while j < i
            invariant
                n == db@.participants.len(),
                j <= i < n,
                forall|b: int|
                    0 <= b < j ==> (#[trigger] db@.participants[b]).steam_id
                        != db@.participants[i as int].steam_id,
            decreases i - j,
        {
            if db.participants[j].steam_id == db.participants[i].steam_id {
                assert(db@.participants[j as int].steam_id == db@.participants[i as int].steam_id);
                return false;
            }
            j = j + 1;
        }
        i = i + 1;
    }
    true
}

impl Participant {
    /// The row of a player who joins a game: a blank grid.
    pub fn new(steam_id: u64, game_id: u64) -> (p: Self)
        ensures
            p@ == fresh_participant(steam_id, game_id),
            p.steam_id == steam_id,
            p.game_id == game_id,
            p@.grid == blank_grid(),
    {
        Participant { steam_id, game_id, grid: Grid::new() }
    }

    /// The participant with this Steam id, if there is one.
    pub fn get(db: &Database, steam_id: u64) -> (r: Option<Self>)
        requires
            participant_ids_unique(db@.participants),
        ensures
            match r {
                Some(p) => lookup_participant(db@.participants, steam_id) == Some(p@),
                None => lookup_participant(db@.participants, steam_id) is None,
            },
    {
        match find_participant(db, steam_id) {
            Some(i) => Some(db.participants[i].clone()),
            None => None,
        }
    }

    /// Inserts a participant row and hands it back. Inserting a row equal to
    /// one already present changes nothing.
    pub fn insert(db: &mut Database, participant: Self) -> (r: Self)
        requires
            participant_ids_unique(old(db)@.participants),
            lookup_participant(old(db)@.participants, participant.steam_id) is Some
                ==> lookup_participant(old(db)@.participants, participant.steam_id) == Some(
                participant@,
            ),
        ensures
            r@ == participant@,
            final(db)@ == old(db)@.insert_participant(participant@),
    {
        let r = participant.clone();
        match find_participant(db, participant.steam_id) {
            Some(_) => {},
            None => {
                db.participants.push(participant);
                assert(db@.participants =~= old(db)@.participants.push(r@));
            },
        }
        r
    }

    /// The participants of this game, in table order.
    pub fn in_game(db: &Database, game_id: u64) -> (r: Vec<Self>)
        ensures
            r@.map_values(|p: Participant| p@) == db@.participants.filter(in_game_filter(game_id)),
    {
        let mut r: Vec<Participant> = Vec::new();
        let mut i: usize = 0;
        while i < db.participants.len()
            invariant
                i <= db@.participants.len(),
                r@.map_values(|p: Participant| p@) == db@.participants.take(i as int).filter(
                    in_game_filter(game_id),
                ),
            decreases db@.participants.len() - i,
        {
            proof {
                reveal(Seq::filter);
                assert(db@.participants.take(i + 1).drop_last() =~= db@.participants.take(i as int));
            }
            if db.participants[i].game_id == game_id {
                let p = db.participants[i].clone();
                r.push(p);
            }
            i = i + 1;
            assert(r@.map_values(|p: Participant| p@) =~= db@.participants.take(i as int).filter(
                in_game_filter(game_id),
            ));
        }
        assert(db@.participants.take(i as int) =~= db@.participants);
        r
    }
}

} // verus!
