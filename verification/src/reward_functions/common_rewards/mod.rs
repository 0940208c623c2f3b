pub mod ball_goal_rewards;
pub mod misc_rewards;
pub mod player_ball_rewards;
