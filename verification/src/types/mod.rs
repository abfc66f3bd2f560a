pub mod auth_request;
pub mod client;
pub mod game;
pub mod grid;
pub mod participant;
pub mod player;
