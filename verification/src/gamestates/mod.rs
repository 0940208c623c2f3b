pub mod player_data;
pub mod game_state;
pub mod decode;
pub mod wire_values;
