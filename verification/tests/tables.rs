use fac::db::Database;
use fac::identity::Identity;
use fac::types::client::Client;
use fac::types::game::{Game, GameState};
use fac::types::grid::{Grid, Tile};
use fac::types::participant::Participant;
use fac::types::player::{Player, PlayerState};
use fac::GRID_SIZE;

fn id(n: u128) -> Identity {
    Identity { high: 0, low: n }
}

#[test]
fn new_grid_is_square_and_blank() {
    let grid = Grid::new();
    assert_eq!(grid.inner.len(), GRID_SIZE);
    assert_eq!(GRID_SIZE, 8);
    for row in &grid.inner {
        assert_eq!(row.len(), GRID_SIZE);
        assert!(row.iter().all(|t| *t == Tile));
    }
}

#[test]
fn grid_clone_keeps_shape() {
    let grid = Grid { inner: vec![vec![Tile; 3], vec![Tile; 1]] };
    let copy = grid.clone();
    assert_eq!(copy.inner.len(), 2);
    assert_eq!(copy.inner[0].len(), 3);
    assert_eq!(copy.inner[1].len(), 1);
}

#[test]
fn new_player_is_idle_without_name() {
    let p = Player::new(76561198000000001);
    assert_eq!(p.steam_id, 76561198000000001);
    assert_eq!(p.name, "");
    assert_eq!(p.state, PlayerState::Idle);
}

#[test]
fn new_game_and_participant() {
    let g = Game::new();
    assert_eq!(g, Game { id: 0, state: GameState::Todo });
    let p = Participant::new(7, 3);
    assert_eq!(p.steam_id, 7);
    assert_eq!(p.game_id, 3);
    assert_eq!(p.grid.inner.len(), GRID_SIZE);
}

#[test]
fn new_client_is_not_logged_in() {
    let c = Client::new(id(5));
    assert_eq!(c.identity, id(5));
    assert_eq!(c.player_steam_id, None);
}

#[test]
fn empty_database_is_well_formed() {
    let db = Database::new();
    assert!(db.check_wf());
    assert_eq!(db.next_game_id, 1);
    assert!(db.players.is_empty() && db.clients.is_empty() && db.games.is_empty());
}

#[test]
fn player_read_after_write() {
    let mut db = Database::new();
    let inserted = Player::insert(&mut db, Player::new(10));
    assert_eq!(inserted.steam_id, 10);
    assert_eq!(Player::get(&db, 10).unwrap().state, PlayerState::Idle);
    assert!(Player::get(&db, 11).is_none());
    let mut p = Player::get(&db, 10).unwrap();
    p.name = "ada".to_string();
    p.state = PlayerState::SearchingForGame;
    Player::update(&mut db, p);
    let back = Player::get(&db, 10).unwrap();
    assert_eq!(back.name, "ada");
    assert_eq!(back.state, PlayerState::SearchingForGame);
    assert_eq!(db.players.len(), 1);
}

#[test]
fn inserting_an_equal_player_changes_nothing() {
    let mut db = Database::new();
    Player::insert(&mut db, Player::new(10));
    Player::insert(&mut db, Player::new(10));
    assert_eq!(db.players.len(), 1);
}

#[test]
fn players_in_state_keep_table_order() {
    let mut db = Database::new();
    for sid in [1u64, 2, 3, 4] {
        let mut p = Player::new(sid);
        if sid % 2 == 0 {
            p.state = PlayerState::SearchingForGame;
        }
        Player::insert(&mut db, p);
    }
    let searching: Vec<u64> = Player::in_state(&db, PlayerState::SearchingForGame)
        .iter()
        .map(|p| p.steam_id)
        .collect();
    assert_eq!(searching, vec![2, 4]);
    let idle: Vec<u64> = Player::in_state(&db, PlayerState::Idle).iter().map(|p| p.steam_id).collect();
    assert_eq!(idle, vec![1, 3]);
    assert!(Player::in_state(&db, PlayerState::Offline).is_empty());
}

#[test]
fn game_insert_hands_out_ids() {
    let mut db = Database::new();
    let a = Game::insert(&mut db, Game::new());
    let b = Game::insert(&mut db, Game::new());
    assert_eq!(a.id, 1);
    assert_eq!(b.id, 2);
    assert_eq!(db.next_game_id, 3);
    assert_eq!(Game::get(&db, 2), Some(b));
    assert_eq!(Game::get(&db, 5), None);
    let explicit = Game::insert(&mut db, Game { id: 9, state: GameState::Todo });
    assert_eq!(explicit.id, 9);
    assert_eq!(db.next_game_id, 3);
    Game::insert(&mut db, Game { id: 9, state: GameState::Todo });
    assert_eq!(db.games.len(), 3);
    assert_eq!(Game::update(&mut db, a), a);
}

#[test]
fn participants_by_game() {
    let mut db = Database::new();
    Participant::insert(&mut db, Participant::new(1, 5));
    Participant::insert(&mut db, Participant::new(2, 6));
    Participant::insert(&mut db, Participant::new(3, 5));
    Participant::insert(&mut db, Participant::new(3, 5));
    assert_eq!(db.participants.len(), 3);
    let in5: Vec<u64> = Participant::in_game(&db, 5).iter().map(|p| p.steam_id).collect();
    assert_eq!(in5, vec![1, 3]);
    assert!(Participant::in_game(&db, 7).is_empty());
    assert_eq!(Participant::get(&db, 2).unwrap().game_id, 6);
    assert!(Participant::get(&db, 4).is_none());
}

#[test]
fn client_table_operations() {
    let mut db = Database::new();
    let c = Client::insert_sender(&mut db, id(1));
    assert_eq!(c, Client::new(id(1)));
    Client::insert_sender(&mut db, id(1));
    assert_eq!(db.clients.len(), 1);
    assert_eq!(Client::get_sender(&db, id(1)), c);
    assert_eq!(Client::get(&db, id(2)), None);
    Player::insert(&mut db, Player::new(4));
    let logged = Client { identity: id(1), player_steam_id: Some(4) };
    assert_eq!(Client::update(&mut db, logged), logged);
    assert_eq!(Client::get(&db, id(1)), Some(logged));
    assert!(Client::delete_sender(&mut db, id(1)));
    assert!(!Client::delete_sender(&mut db, id(1)));
    assert!(db.clients.is_empty());
}

#[test]
fn check_wf_finds_broken_tables() {
    let mut db = Database::new();
    db.players.push(Player::new(1));
    db.players.push(Player::new(1));
    assert!(!db.check_wf());

    let mut db = Database::new();
    db.clients.push(Client { identity: id(1), player_steam_id: Some(3) });
    assert!(!db.check_wf());

    let mut db = Database::new();
    db.games.push(Game { id: 1, state: GameState::Todo });
    assert!(!db.check_wf());
    db.next_game_id = 2;
    assert!(db.check_wf());
    db.participants.push(Participant::new(8, 2));
    assert!(!db.check_wf());

    let mut db = Database::new();
    db.next_game_id = 2;
    db.games.push(Game { id: 1, state: GameState::Todo });
    let mut p = Player::new(8);
    p.state = PlayerState::InGame(1);
    db.players.push(p);
    assert!(!db.check_wf());
    db.participants.push(Participant::new(8, 1));
    assert!(db.check_wf());
}
