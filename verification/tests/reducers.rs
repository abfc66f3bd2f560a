use fac::auth_session::{auth_error_message, AuthSessionError};
use fac::db::{Database, ReducerError};
use fac::identity::Identity;
use fac::lifecycle_reducers::{on_client_connected, on_client_disconnected};
use fac::types::auth_request::{auth_server_response, begin_client_auth, can_begin_client_auth};
use fac::types::client::Client;
use fac::types::player::{enter_queue, exit_queue, set_name, Player, PlayerState};

fn id(n: u128) -> Identity {
    Identity { high: 7, low: n }
}

/// A client that has connected and logged in to a new player with this Steam id.
fn logged_in(db: &mut Database, who: Identity, steam_id: u64) {
    on_client_connected(db, who);
    begin_client_auth(db, who, steam_id, vec![1, 2, 3]).unwrap();
    auth_server_response(db, steam_id, who, String::new()).unwrap();
}

#[test]
fn connecting_adds_a_client_that_is_not_logged_in() {
    let mut db = Database::new();
    on_client_connected(&mut db, id(1));
    assert_eq!(db.clients, vec![Client::new(id(1))]);
    on_client_connected(&mut db, id(1));
    assert_eq!(db.clients.len(), 1);
    assert!(db.check_wf());
}

#[test]
fn connect_then_disconnect_restores_the_tables() {
    let mut db = Database::new();
    logged_in(&mut db, id(1), 100);
    let players_before = db.players.clone();
    let clients_before = db.clients.clone();
    on_client_connected(&mut db, id(2));
    on_client_disconnected(&mut db, id(2));
    assert_eq!(db.clients, clients_before);
    assert_eq!(db.players.len(), players_before.len());
    assert_eq!(db.players[0].state, players_before[0].state);
}

#[test]
fn begin_client_auth_records_the_request() {
    let mut db = Database::new();
    on_client_connected(&mut db, id(1));
    assert!(can_begin_client_auth(&db, id(1), 55, &vec![9, 9]));
    assert_eq!(begin_client_auth(&mut db, id(1), 55, vec![9, 9]).is_ok(), true);
    assert_eq!(db.auth_requests.len(), 1);
    assert_eq!(db.auth_requests[0].steam_id, 55);
    assert_eq!(db.auth_requests[0].identity, id(1));
    assert_eq!(db.auth_requests[0].ticket, vec![9, 9]);
    // the same request again is allowed and changes nothing
    assert!(can_begin_client_auth(&db, id(1), 55, &vec![9, 9]));
    begin_client_auth(&mut db, id(1), 55, vec![9, 9]).unwrap();
    assert_eq!(db.auth_requests.len(), 1);
    // another ticket under the same Steam id or identity would break a key
    assert!(!can_begin_client_auth(&db, id(1), 55, &vec![9]));
    assert!(!can_begin_client_auth(&db, id(2), 55, &vec![9, 9]));
    assert!(!can_begin_client_auth(&db, id(1), 56, &vec![9, 9]));
    assert!(can_begin_client_auth(&db, id(2), 56, &vec![9, 9]));
}

#[test]
fn successful_verdict_logs_in_a_new_player() {
    let mut db = Database::new();
    on_client_connected(&mut db, id(1));
    begin_client_auth(&mut db, id(1), 100, vec![1]).unwrap();
    assert_eq!(auth_server_response(&mut db, 100, id(1), String::new()).is_ok(), true);
    assert!(db.auth_requests.is_empty());
    assert_eq!(Client::get_sender(&db, id(1)).player_steam_id, Some(100));
    let p = Player::get(&db, 100).unwrap();
    assert_eq!(p.name, "");
    assert_eq!(p.state, PlayerState::Idle);
    assert!(db.check_wf());
}

#[test]
fn returning_player_comes_online() {
    let mut db = Database::new();
    logged_in(&mut db, id(1), 100);
    set_name(&mut db, id(1), "ada".to_string()).unwrap();
    on_client_disconnected(&mut db, id(1));
    assert_eq!(Player::get(&db, 100).unwrap().state, PlayerState::Offline);
    assert!(db.clients.is_empty());
    logged_in(&mut db, id(3), 100);
    let p = Player::get(&db, 100).unwrap();
    assert_eq!(p.state, PlayerState::Idle);
    assert_eq!(p.name, "ada");
    assert_eq!(db.players.len(), 1);
}

#[test]
fn refused_verdict_changes_nothing() {
    let mut db = Database::new();
    on_client_connected(&mut db, id(1));
    begin_client_auth(&mut db, id(1), 100, vec![1]).unwrap();
    let r = auth_server_response(&mut db, 100, id(1), "Invalid Ticket".to_string());
    match r {
        Err(ReducerError::AuthenticationFailed { steam_id, reason }) => {
            assert_eq!(steam_id, 100);
            assert_eq!(reason, "Invalid Ticket");
        },
        _ => panic!("expected a refusal"),
    }
    assert_eq!(db.auth_requests.len(), 1);
    assert!(db.players.is_empty());
    assert_eq!(db.clients[0].player_steam_id, None);
}

#[test]
fn set_name_once() {
    let mut db = Database::new();
    logged_in(&mut db, id(1), 100);
    assert!(set_name(&mut db, id(1), "ada".to_string()).is_ok());
    assert_eq!(Player::get(&db, 100).unwrap().name, "ada");
    assert!(matches!(set_name(&mut db, id(1), "bob".to_string()), Err(ReducerError::NameAlreadySet)));
    assert_eq!(Player::get(&db, 100).unwrap().name, "ada");
}

#[test]
fn empty_name_can_be_set_again() {
    let mut db = Database::new();
    logged_in(&mut db, id(1), 100);
    assert!(set_name(&mut db, id(1), String::new()).is_ok());
    assert!(set_name(&mut db, id(1), "ada".to_string()).is_ok());
    assert_eq!(Player::get(&db, 100).unwrap().name, "ada");
}

#[test]
fn set_name_needs_a_login() {
    let mut db = Database::new();
    on_client_connected(&mut db, id(1));
    assert!(matches!(set_name(&mut db, id(1), "ada".to_string()), Err(ReducerError::NotAuthenticated)));
    assert!(db.players.is_empty());
}

#[test]
fn enter_then_exit_queue_round_trip() {
    let mut db = Database::new();
    logged_in(&mut db, id(1), 100);
    assert!(enter_queue(&mut db, id(1)).is_ok());
    assert_eq!(Player::get(&db, 100).unwrap().state, PlayerState::SearchingForGame);
    assert!(matches!(enter_queue(&mut db, id(1)), Err(ReducerError::NotIdle)));
    assert!(exit_queue(&mut db, id(1)).is_ok());
    assert_eq!(Player::get(&db, 100).unwrap().state, PlayerState::Idle);
    assert!(matches!(exit_queue(&mut db, id(1)), Err(ReducerError::NotSearching)));
    assert!(db.check_wf());
}

#[test]
fn queue_needs_a_login() {
    let mut db = Database::new();
    on_client_connected(&mut db, id(1));
    assert!(matches!(enter_queue(&mut db, id(1)), Err(ReducerError::NotAuthenticated)));
    assert!(matches!(exit_queue(&mut db, id(1)), Err(ReducerError::NotAuthenticated)));
}

#[test]
fn authenticate_reports_a_missing_player() {
    let mut db = Database::new();
    db.clients.push(Client { identity: id(1), player_steam_id: Some(9) });
    assert!(matches!(Player::authenticate(&db, id(1)), Err(ReducerError::PlayerNotFound)));
    db.players.push(Player::new(9));
    assert_eq!(Player::authenticate(&db, id(1)).unwrap().steam_id, 9);
}

#[test]
fn disconnect_takes_the_player_offline() {
    let mut db = Database::new();
    logged_in(&mut db, id(1), 100);
    enter_queue(&mut db, id(1)).unwrap();
    on_client_disconnected(&mut db, id(1));
    assert!(db.clients.is_empty());
    assert_eq!(Player::get(&db, 100).unwrap().state, PlayerState::Offline);
    assert!(db.check_wf());
}

#[test]
fn error_messages() {
    assert_eq!(ReducerError::NotAuthenticated.message(), "You are not authenticated");
    assert_eq!(ReducerError::PlayerNotFound.message(), "This player is not found");
    assert_eq!(ReducerError::NameAlreadySet.message(), "You've already set your name");
    assert_eq!(ReducerError::NotIdle.message(), "You can enter queue in Idle state");
    assert_eq!(
        ReducerError::NotSearching.message(),
        "You can only cancel queue in Searching For Game state"
    );
    let e = ReducerError::AuthenticationFailed { steam_id: 76561198000000042, reason: "Expired Ticket".to_string() };
    assert_eq!(e.message(), "Authentication for 76561198000000042 failed: Expired Ticket");
    let e = ReducerError::AuthenticationFailed { steam_id: 0, reason: String::new() };
    assert_eq!(e.message(), "Authentication for 0 failed: ");
}

#[test]
fn sidecar_verdict_texts() {
    assert_eq!(auth_error_message(Ok(())), "");
    assert_eq!(auth_error_message(Err(AuthSessionError::InvalidTicket)), "Invalid Ticket");
    assert_eq!(auth_error_message(Err(AuthSessionError::DuplicateRequest)), "Duplicate Request");
    assert_eq!(auth_error_message(Err(AuthSessionError::InvalidVersion)), "Invalid Version");
    assert_eq!(auth_error_message(Err(AuthSessionError::GameMismatch)), "Game Mismatch");
    assert_eq!(auth_error_message(Err(AuthSessionError::ExpiredTicket)), "Expired Ticket");
}

#[test]
fn exit_then_enter_queue_round_trip() {
    let mut db = Database::new();
    logged_in(&mut db, id(1), 100);
    enter_queue(&mut db, id(1)).unwrap();
    exit_queue(&mut db, id(1)).unwrap();
    enter_queue(&mut db, id(1)).unwrap();
    assert_eq!(Player::get(&db, 100).unwrap().state, PlayerState::SearchingForGame);
}

#[test]
fn refused_queue_requests_change_nothing() {
    let mut db = Database::new();
    logged_in(&mut db, id(1), 100);
    set_name(&mut db, id(1), "ada".to_string()).unwrap();
    let before = db.players.clone();
    assert!(exit_queue(&mut db, id(1)).is_err());
    assert_eq!(db.players.len(), before.len());
    assert_eq!(db.players[0].state, before[0].state);
    assert_eq!(db.players[0].name, before[0].name);
    enter_queue(&mut db, id(1)).unwrap();
    assert!(enter_queue(&mut db, id(1)).is_err());
    assert_eq!(db.players[0].state, PlayerState::SearchingForGame);
}
