pub mod game_match;
