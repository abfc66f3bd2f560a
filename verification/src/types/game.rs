use vstd::prelude::*;

use crate::db::{Database, DbModel};

verus! {

/// How far a game has got.
#[derive(Clone, Copy, Debug, PartialEq, Eq, Structural)]
pub enum GameState {
    Todo,
}

/// A game, keyed by an id that the table hands out.
#[derive(Clone, Copy, Debug, PartialEq, Eq, Structural)]
pub struct Game {
    pub id: u64,
    pub state: GameState,
}

/// No two games share an id.
pub open spec fn game_ids_unique(games: Seq<Game>) -> bool {
    forall|i: int, j: int|
        0 <= i < games.len() && 0 <= j < games.len() && (#[trigger] games[i]).id
            == (#[trigger] games[j]).id ==> i == j
}

/// Some game has this id.
pub open spec fn has_game(games: Seq<Game>, id: u64) -> bool {
    exists|i: int| 0 <= i < games.len() && (#[trigger] games[i]).id == id
}

/// The position of the game with this id.
pub open spec fn game_index(games: Seq<Game>, id: u64) -> int {
    choose|i: int| 0 <= i < games.len() && (#[trigger] games[i]).id == id
}

/// The game with this id, if there is one.
pub open spec fn lookup_game(games: Seq<Game>, id: u64) -> Option<Game> {
    if has_game(games, id) {
        Some(games[game_index(games, id)])
    } else {
        None
    }
}

/// Where `games` holds a row with the id that the row at `i` has, it is that row.
pub proof fn lemma_game_index(games: Seq<Game>, i: int)
    requires
        game_ids_unique(games),
        0 <= i < games.len(),
    ensures
        has_game(games, games[i].id),
        game_index(games, games[i].id) == i,
        lookup_game(games, games[i].id) == Some(games[i]),
{
    assert(has_game(games, games[i].id));
}

impl DbModel {
    /// The row that inserting `g` stores: a game with id 0 receives the next id.
    pub open spec fn game_as_inserted(self, g: Game) -> Game {
        if g.id == 0 {
            Game { id: self.next_game_id, ..g }
        } else {
            g
        }
    }

    /// The tables after inserting a game row. A row with id 0 receives the next
    /// id, which then moves on by one; a row with a given id changes nothing
    /// where a game with that id is present already.
    pub open spec fn insert_game(self, g: Game) -> DbModel {
        if g.id == 0 {
            DbModel {
                games: self.games.push(self.game_as_inserted(g)),
                next_game_id: (self.next_game_id + 1) as u64,
                ..self
            }
        } else if has_game(self.games, g.id) {
            self
        } else {
            DbModel { games: self.games.push(g), ..self }
        }
    }

    /// The tables after replacing the game row that has the id of `g`.
    pub open spec fn update_game(self, g: Game) -> DbModel {
        DbModel { games: self.games.update(game_index(self.games, g.id), g), ..self }
    }
}

/// Where the game with this id stands, if anywhere.
pub(crate) fn find_game(db: &Database, id: u64) -> (r: Option<usize>)
    requires
        game_ids_unique(db@.games),
    ensures
        match r {
            Some(i) => i < db@.games.len() && db@.games[i as int].id == id && has_game(db@.games, id)
                && i == game_index(db@.games, id),
            None => !has_game(db@.games, id),
        },
{
    let mut i: usize = 0;
    while i < db.games.len()
        invariant
            i <= db@.games.len(),
            game_ids_unique(db@.games),
            forall|k: int| 0 <= k < i ==> (#[trigger] db@.games[k]).id != id,
        decreases db@.games.len() - i,
    {
        if db.games[i].id == id {
            proof {
                lemma_game_index(db@.games, i as int);
            }
            return Some(i);
        }
        i = i + 1;
    }
    proof {
        if has_game(db@.games, id) {
            let k = choose|k: int| 0 <= k < db@.games.len() && (#[trigger] db@.games[k]).id == id;
            assert(db@.games[k].id != id);
        }
    }
    None
}

/// Tells whether no two game rows share an id.
pub(crate) fn game_ids_are_unique(db: &Database) -> (r: bool)
    ensures
        r == game_ids_unique(db@.games),
{
    let n = db.games.len();
    let mut i: usize = 0;
    while i < n
        invariant
            n == db@.games.len(),
            i <= n,
            forall|a: int, b: int|
                0 <= a < i && 0 <= b < i && (#[trigger] db@.games[a]).id
                    == (#[trigger] db@.games[b]).id ==> a == b,
        decreases n - i,
    {
        let mut j: usize = 0;
        while j < i
            invariant
                n == db@.games.len(),
                j <= i < n,
                forall|b: int| 0 <= b < j ==> (#[trigger] db@.games[b]).id != db@.games[i as int].id,
            decreases i - j,
        {
            if db.games[j].id == db.games[i].id {
                assert(db@.games[j as int].id == db@.games[i as int].id);
                return false;
            }
            j = j + 1;
        }
        i = i + 1;
    }
    true
}

impl Game {
    /// A game that has not started, with id 0 so that inserting it hands out an id.
    pub fn new() -> (g: Self)
        ensures
            g == (Game { id: 0, state: GameState::Todo }),
    {
        Game { id: 0, state: GameState::Todo }
    }

    /// The game with this id, if there is one.
    pub fn get(db: &Database, game_id: u64) -> (r: Option<Self>)
        requires
            game_ids_unique(db@.games),
        ensures
            r == lookup_game(db@.games, game_id),
    {
        match find_game(db, game_id) {
            Some(i) => Some(db.games[i]),
            None => None,
        }
    }

    /// Inserts a game row and hands back the row as stored. A row with id 0
    /// takes the next id, which no game may hold yet.
    pub fn insert(db: &mut Database, game: Self) -> (r: Self)
        requires
            game_ids_unique(old(db)@.games),
            game.id == 0 ==> old(db)@.next_game_id < u64::MAX && !has_game(
                old(db)@.games,
                old(db)@.next_game_id,
            ),
            game.id != 0 && has_game(old(db)@.games, game.id) ==> lookup_game(
                old(db)@.games,
                game.id,
            ) == Some(game),
        ensures
            r == old(db)@.game_as_inserted(game),
            final(db)@ == old(db)@.insert_game(game),
    {
        if game.id == 0 {
            let stored = Game { id: db.next_game_id, ..game };
            db.games.push(stored);
            db.next_game_id = db.next_game_id + 1;
            stored
        } else {
            match find_game(db, game.id) {
                Some(_) => {},
                None => {
                    db.games.push(game);
                },
            }
            game
        }
    }

    /// Replaces the row that has this game's id and hands the new row back.
    pub fn update(db: &mut Database, game: Self) -> (r: Self)
        requires
            game_ids_unique(old(db)@.games),
            has_game(old(db)@.games, game.id),
        ensures
            r == game,
            final(db)@ == old(db)@.update_game(game),
    {
        let i = find_game(db, game.id).unwrap();
        db.games.set(i, game);
        game
    }
}

} // verus!
