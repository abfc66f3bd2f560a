use fac::decimal::decimal_text;
use fac::screen::{manage_screen_state, players_in_queue, ScreenState};
use fac::types::player::{Player, PlayerState};

fn player(name: &str, state: PlayerState) -> Player {
    Player { steam_id: 1, name: name.to_string(), state }
}

#[test]
fn no_player_keeps_the_screen() {
    assert_eq!(manage_screen_state(&None), None);
    assert_eq!(ScreenState::default(), ScreenState::AuthenticationInProgress);
}

#[test]
fn offline_player_keeps_the_screen() {
    assert_eq!(manage_screen_state(&Some(player("", PlayerState::Offline))), None);
    assert_eq!(manage_screen_state(&Some(player("ada", PlayerState::Offline))), None);
}

#[test]
fn nameless_player_sets_a_name_first() {
    assert_eq!(manage_screen_state(&Some(player("", PlayerState::Idle))), Some(ScreenState::SetName));
    assert_eq!(manage_screen_state(&Some(player("", PlayerState::InGame(3)))), Some(ScreenState::SetName));
}

#[test]
fn screen_follows_the_state() {
    assert_eq!(manage_screen_state(&Some(player("ada", PlayerState::Idle))), Some(ScreenState::MainMenu));
    assert_eq!(
        manage_screen_state(&Some(player("ada", PlayerState::SearchingForGame))),
        Some(ScreenState::SearchingForGame)
    );
    assert_eq!(manage_screen_state(&Some(player("ada", PlayerState::InGame(9)))), Some(ScreenState::InGame(9)));
}

#[test]
fn queue_count() {
    let players = vec![
        player("a", PlayerState::SearchingForGame),
        player("b", PlayerState::Idle),
        player("c", PlayerState::SearchingForGame),
        player("d", PlayerState::InGame(1)),
    ];
    assert_eq!(players_in_queue(&players), 2);
    assert_eq!(players_in_queue(&Vec::new()), 0);
}

#[test]
fn player_subscription_names_the_steam_id() {
    assert_eq!(
        fac::subscriptions::player_subscription_query(76561198000000001),
        "SELECT * FROM player WHERE steam_id = '76561198000000001'"
    );
    assert_eq!(fac::subscriptions::player_subscription_query(0), "SELECT * FROM player WHERE steam_id = '0'");
}

#[test]
fn decimal_text_has_no_leading_zeros() {
    assert_eq!(decimal_text(0), "0");
    assert_eq!(decimal_text(9), "9");
    assert_eq!(decimal_text(10), "10");
    assert_eq!(decimal_text(1005), "1005");
    assert_eq!(decimal_text(u64::MAX), u64::MAX.to_string());
}
