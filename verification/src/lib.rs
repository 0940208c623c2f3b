//! Verified core of a Rocket League reinforcement-learning gym: terminal
//! conditions, action tables, reward bookkeeping, the pipe message framing and
//! the other decisions the environment makes on plain values.
pub mod common_values;
pub mod gamestates;
pub mod conditionals;
pub mod action_parsers;
pub mod communication;
pub mod reward_functions;
pub mod state_setters;
pub mod obs_builders;
pub mod envs;
pub mod manager;
pub mod gamelaunch;
pub mod gym;
