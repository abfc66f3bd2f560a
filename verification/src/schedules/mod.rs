pub mod create_games;
