use vstd::prelude::*;

use crate::types::player::{in_state_filter, Player, PlayerModel, PlayerState};

verus! {

/// The screen that the game client shows.
#[derive(Clone, Copy, Debug, PartialEq, Eq, Structural, Default)]
pub enum ScreenState {
    #[default]
    AuthenticationInProgress,
    SetName,
    MainMenu,
    SearchingForGame,
    InGame(u64),
}

/// The screen that the logged-in player's row calls for; `None` keeps the
/// current screen, as while no player row has arrived or the player is offline.
pub open spec fn screen_for(player: Option<PlayerModel>) -> Option<ScreenState> {
    match player {
        None => None,
        Some(p) => if p.state == PlayerState::Offline {
            None
        } else if p.name.len() == 0 {
            Some(ScreenState::SetName)
        } else {
            match p.state {
                PlayerState::Idle => Some(ScreenState::MainMenu),
                PlayerState::SearchingForGame => Some(ScreenState::SearchingForGame),
                PlayerState::InGame(game_id) => Some(ScreenState::InGame(game_id)),
                PlayerState::Offline => None,
            }
        },
    }
}

/// The screen to switch to for the logged-in player, if any: a player without
/// a name sets one first, then the screen follows the player's state.
pub fn manage_screen_state(logged_in_player: &Option<Player>) -> (next: Option<ScreenState>)
    ensures
        next == screen_for(
            match logged_in_player {
                Some(p) => Some(p@),
                None => None,
            },
        ),
{
    if let Some(player) = logged_in_player {
        if player.state == PlayerState::Offline {
            return None;
        }
        if player.name.as_str().is_empty() {
            return Some(ScreenState::SetName);
        }
        if player.state == PlayerState::Idle {
            return Some(ScreenState::MainMenu);
        }
        if player.state == PlayerState::SearchingForGame {
            return Some(ScreenState::SearchingForGame);
        }
        if let PlayerState::InGame(game_id) = player.state {
            return Some(ScreenState::InGame(game_id));
        }
    }
    None
}

/// How many of these players wait for a game, as the searching screen shows.
pub fn players_in_queue(players: &Vec<Player>) -> (count: usize)
    ensures
        count == players@.map_values(|p: Player| p@).filter(
            in_state_filter(PlayerState::SearchingForGame),
        ).len(),
{
    let ghost all = players@.map_values(|p: Player| p@);
    let ghost pred = in_state_filter(PlayerState::SearchingForGame);
    let mut count: usize = 0;
    let mut i: usize = 0;
    while i < players.len()
        invariant
            i <= players@.len(),
            all == players@.map_values(|p: Player| p@),
            pred == in_state_filter(PlayerState::SearchingForGame),
            count == all.take(i as int).filter(pred).len(),
            count <= i,
        decreases players@.len() - i,
    {
        proof {
            reveal(Seq::filter);
            assert(all.take(i + 1).drop_last() =~= all.take(i as int));
            assert(all[i as int] == players@[i as int]@);
        }
        if players[i].state == PlayerState::SearchingForGame {
            count = count + 1;
        }
        i = i + 1;
    }
    assert(all.take(i as int) =~= all);
    count
}

} // verus!
