use fac::db::Database;
use fac::identity::Identity;
use fac::lifecycle_reducers::{on_client_connected, on_client_disconnected};
use fac::schedules::create_games::{can_create_game, create_game};
use fac::types::auth_request::{auth_server_response, begin_client_auth};
use fac::types::game::{Game, GameState};
use fac::types::participant::Participant;
use fac::types::player::{enter_queue, Player, PlayerState};
use fac::{GAME_SIZE, GRID_SIZE};

fn id(n: u128) -> Identity {
    Identity { high: 0, low: n }
}

fn logged_in(db: &mut Database, who: Identity, steam_id: u64) {
    on_client_connected(db, who);
    begin_client_auth(db, who, steam_id, vec![7]).unwrap();
    auth_server_response(db, steam_id, who, String::new()).unwrap();
}

#[test]
fn each_waiting_player_gets_a_game() {
    assert_eq!(GAME_SIZE, 1);
    let mut db = Database::new();
    for (n, sid) in [(1u128, 10u64), (2, 20), (3, 30)] {
        logged_in(&mut db, id(n), sid);
    }
    enter_queue(&mut db, id(1)).unwrap();
    enter_queue(&mut db, id(3)).unwrap();
    assert!(can_create_game(&db));
    create_game(&mut db);
    assert_eq!(db.games, vec![Game { id: 1, state: GameState::Todo }, Game { id: 2, state: GameState::Todo }]);
    assert_eq!(db.next_game_id, 3);
    assert_eq!(Player::get(&db, 10).unwrap().state, PlayerState::InGame(1));
    assert_eq!(Player::get(&db, 20).unwrap().state, PlayerState::Idle);
    assert_eq!(Player::get(&db, 30).unwrap().state, PlayerState::InGame(2));
    let seats: Vec<(u64, u64)> = db.participants.iter().map(|p| (p.steam_id, p.game_id)).collect();
    assert_eq!(seats, vec![(10, 1), (30, 2)]);
    assert_eq!(Participant::get(&db, 30).unwrap().grid.inner.len(), GRID_SIZE);
    assert!(Player::in_state(&db, PlayerState::SearchingForGame).is_empty());
    assert!(db.check_wf());
}

#[test]
fn empty_queue_creates_nothing() {
    let mut db = Database::new();
    logged_in(&mut db, id(1), 10);
    create_game(&mut db);
    assert!(db.games.is_empty());
    assert!(db.participants.is_empty());
    assert_eq!(db.next_game_id, 1);
}

#[test]
fn a_second_game_for_the_same_player_cannot_be_seated() {
    let mut db = Database::new();
    logged_in(&mut db, id(1), 10);
    enter_queue(&mut db, id(1)).unwrap();
    create_game(&mut db);
    on_client_disconnected(&mut db, id(1));
    logged_in(&mut db, id(2), 10);
    enter_queue(&mut db, id(2)).unwrap();
    assert!(!can_create_game(&db));
}

#[test]
fn game_ids_running_out_stops_matchmaking() {
    let mut db = Database::new();
    logged_in(&mut db, id(1), 10);
    enter_queue(&mut db, id(1)).unwrap();
    db.next_game_id = u64::MAX;
    assert!(!can_create_game(&db));
    db.next_game_id = u64::MAX - 1;
    assert!(can_create_game(&db));
}

#[test]
fn entering_a_queue_that_then_exceeds_game_size_creates_games() {
    let mut db = Database::new();
    logged_in(&mut db, id(1), 10);
    logged_in(&mut db, id(2), 20);
    assert!(fac::types::player::can_enter_queue(&db, id(1)));
    enter_queue(&mut db, id(1)).unwrap();
    assert!(db.games.is_empty());
    assert_eq!(Player::get(&db, 10).unwrap().state, PlayerState::SearchingForGame);
    assert!(fac::types::player::can_enter_queue(&db, id(2)));
    enter_queue(&mut db, id(2)).unwrap();
    assert_eq!(db.games.len(), 2);
    assert_eq!(Player::get(&db, 10).unwrap().state, PlayerState::InGame(1));
    assert_eq!(Player::get(&db, 20).unwrap().state, PlayerState::InGame(2));
    assert!(Player::in_state(&db, PlayerState::SearchingForGame).is_empty());
    assert!(db.check_wf());
}

#[test]
fn entering_the_queue_cannot_seat_a_player_twice() {
    let mut db = Database::new();
    logged_in(&mut db, id(1), 10);
    enter_queue(&mut db, id(1)).unwrap();
    create_game(&mut db);
    on_client_disconnected(&mut db, id(1));
    logged_in(&mut db, id(3), 10);
    logged_in(&mut db, id(2), 20);
    enter_queue(&mut db, id(2)).unwrap();
    // player 10 already has a seat, and joining would start a round that seats it again
    assert!(!fac::types::player::can_enter_queue(&db, id(3)));
    // refusals start no round, so they can always run
    assert!(fac::types::player::can_enter_queue(&db, id(2)));
}
