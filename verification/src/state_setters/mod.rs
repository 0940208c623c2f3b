pub mod default_state;
pub mod custom_state_setters;
pub mod random;
pub mod wrappers;
