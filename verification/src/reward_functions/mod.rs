pub mod common_rewards;
pub mod custom_rewards;
