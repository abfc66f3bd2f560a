//! Game-server logic for a matchmaking card game: the tables that the server
//! keeps (players, connected clients, pending authentications, games and their
//! participants) and the reducers that change them, together with the small
//! decisions that the game client and the authentication sidecar make.
use vstd::prelude::*;

pub mod auth_session;
pub mod db;
pub mod decimal;
pub mod identity;
pub mod laws;
pub mod lifecycle_reducers;
pub mod schedules;
pub mod screen;
pub mod subscriptions;
pub mod types;

verus! {

/// Number of players that make up one game.
pub const GAME_SIZE: usize = 1;

/// Width and height of a participant's grid.
pub const GRID_SIZE: usize = 8;

} // verus!
