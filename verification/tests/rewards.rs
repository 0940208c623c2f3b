use rlgym_rust::gamestates::wire_values::{f32_order_key, key_ge, key_gt};
use rlgym_rust::common_values::{BLUE_TEAM, ORANGE_TEAM};
use rlgym_rust::gamestates::game_state::GameState;
use rlgym_rust::gamestates::player_data::{Coord2, PlayerData};
use rlgym_rust::reward_functions::common_rewards::ball_goal_rewards::VelocityBallToGoalReward;
use rlgym_rust::reward_functions::common_rewards::misc_rewards::{SaveBoostReward, VelocityReward};
use rlgym_rust::reward_functions::common_rewards::player_ball_rewards::VelocityPlayerToBallReward;
use rlgym_rust::reward_functions::custom_rewards::{
    AirTouchOutcome, DribbleAirTouchReward, JumpReward, LeftKickoffReward,
};
use rlgym_rust::reward_functions::custom_rewards::reward_log_paths;
use rlgym_rust::reward_functions::common_rewards::misc_rewards::{EventCounters, EventIncreases};

fn car(id: i32, team: i32, x: i64, y: i64) -> PlayerData {
    let mut p = PlayerData::new();
    p.car_id = id;
    p.team_num = team;
    p.car_position = Coord2 { x, y };
    p.inverted_car_position = Coord2 { x: -x, y: -y };
    p
}

fn kickoff_state(players: Vec<PlayerData>) -> GameState {
    let mut state = GameState::new(None);
    state.players = players;
    state
}

#[test]
fn jump_reward_pays_for_available_jump() {
    let mut r = JumpReward::new();
    let state = GameState::new(None);
    let mut p = PlayerData::new();
    assert_eq!(r.get_reward(&p, &state), 0);
    p.has_jump = true;
    assert_eq!(r.get_reward(&p, &state), 1);
    assert_eq!(r.get_final_reward(&p, &state), 1);
}

#[test]
fn velocity_rewards_defaults() {
    let r = VelocityPlayerToBallReward::new(None);
    assert!(!r.get_use_scalar_projection());
    assert!(VelocityPlayerToBallReward::new(Some(true)).get_use_scalar_projection());
    let g = VelocityBallToGoalReward::new(None, None);
    assert!(!g.get_own_goal());
    assert!(!g.get_use_scalar_projection());
    assert_eq!(VelocityReward::new(None).sign(), 1);
    assert_eq!(VelocityReward::new(Some(false)).sign(), 1);
    assert_eq!(VelocityReward::new(Some(true)).sign(), -1);
    let _ = SaveBoostReward::new();
}

#[test]
fn ball_to_goal_target_side() {
    let attack = VelocityBallToGoalReward::new(Some(false), None);
    assert!(attack.targets_orange_goal(BLUE_TEAM));
    assert!(!attack.targets_orange_goal(ORANGE_TEAM));
    let own = VelocityBallToGoalReward::new(Some(true), Some(true));
    assert!(!own.targets_orange_goal(BLUE_TEAM));
    assert!(own.targets_orange_goal(ORANGE_TEAM));
    assert!(!own.targets_orange_goal(7));
}

#[test]
fn kickoff_picks_leftmost_car_per_team() {
    // blue cars 1 and 2, orange cars 5 and 6; car 2 is further left than car 1
    let players = vec![
        car(1, BLUE_TEAM, -2048, -2560),
        car(2, BLUE_TEAM, 2048, -2560),
        car(5, ORANGE_TEAM, 2048, 2560),
        car(6, ORANGE_TEAM, -2048, 2560),
    ];
    let state = kickoff_state(players.clone());
    let mut r = LeftKickoffReward::new();
    assert!(!r.get_reward(&players[0], &state));
    assert!(r.get_reward(&players[1], &state));
    // seen from the orange side, car 6 is further left
    assert!(!r.get_reward(&players[2], &state));
    assert!(r.get_reward(&players[3], &state));
}

#[test]
fn kickoff_takers_kept_during_kickoff() {
    let players = vec![car(1, BLUE_TEAM, 100, 0), car(5, ORANGE_TEAM, 0, 0)];
    let state = kickoff_state(players.clone());
    let mut r = LeftKickoffReward::new();
    assert!(r.get_reward(&players[0], &state));
    // another car appears further left, but the takers were already chosen
    let later = kickoff_state(vec![players[0], players[1], car(2, BLUE_TEAM, 500, 10)]);
    assert!(!r.get_reward(&car(2, BLUE_TEAM, 500, 10), &later));
    assert!(r.get_reward(&players[0], &later));
}

#[test]
fn kickoff_cleared_when_ball_leaves_centre() {
    let players = vec![car(1, BLUE_TEAM, 0, 0), car(5, ORANGE_TEAM, 0, 0)];
    let mut r = LeftKickoffReward::new();
    let state = kickoff_state(players.clone());
    assert!(r.get_reward(&players[0], &state));
    let mut moved = state.clone();
    moved.ball_position = Coord2 { x: 1, y: 0 };
    assert!(!r.get_reward(&players[0], &moved));
    // the next kickoff chooses again
    let next = kickoff_state(vec![car(1, BLUE_TEAM, 0, 0), car(3, BLUE_TEAM, 9, 0), car(5, ORANGE_TEAM, 0, 0)]);
    assert!(r.get_final_reward(&car(3, BLUE_TEAM, 9, 0), &next));
    assert!(!r.get_final_reward(&car(1, BLUE_TEAM, 0, 0), &next));
}

#[test]
fn kickoff_one_taker_per_team() {
    let players = vec![
        car(1, BLUE_TEAM, 10, 0),
        car(2, BLUE_TEAM, 10, 0),
        car(3, BLUE_TEAM, -10, 0),
        car(5, ORANGE_TEAM, 0, 0),
    ];
    let state = kickoff_state(players.clone());
    let mut r = LeftKickoffReward::new();
    let paid: Vec<bool> = players.iter().map(|p| r.get_reward(p, &state)).collect();
    assert_eq!(paid.iter().take(3).filter(|b| **b).count(), 1);
    assert!(paid[0]);
    assert!(paid[3]);
}

#[test]
fn kickoff_defaults_without_blue_car() {
    // with no blue car the first player is the blue candidate
    let players = vec![car(5, ORANGE_TEAM, 0, 0), car(6, ORANGE_TEAM, 30, 0)];
    let state = kickoff_state(players.clone());
    let mut r = LeftKickoffReward::new();
    assert!(r.get_reward(&car(9, BLUE_TEAM, 0, 0), &state) == false);
    assert!(r.get_reward(&players[0], &state));
}

#[test]
fn air_touch_streak_counts_up_then_caps() {
    let mut r = DribbleAirTouchReward::new(Some(3));
    assert_eq!(r.get_reward(2, true), AirTouchOutcome::Counted(1));
    assert_eq!(r.get_reward(2, true), AirTouchOutcome::Counted(2));
    assert_eq!(r.get_reward(2, true), AirTouchOutcome::Counted(3));
    assert_eq!(r.get_reward(2, true), AirTouchOutcome::Capped);
    assert_eq!(r.get_reward(2, true), AirTouchOutcome::Capped);
    // another car keeps its own streak
    assert_eq!(r.get_reward(4, true), AirTouchOutcome::Counted(1));
    // any call without an air touch ends the streak
    assert_eq!(r.get_final_reward(2, false), AirTouchOutcome::Reset);
    assert_eq!(r.get_reward(2, true), AirTouchOutcome::Counted(1));
}

#[test]
fn air_touch_default_cap_is_twenty() {
    let mut r = DribbleAirTouchReward::new(None);
    for k in 1..=20 {
        assert_eq!(r.get_reward(0, true), AirTouchOutcome::Counted(k));
    }
    assert_eq!(r.get_reward(0, true), AirTouchOutcome::Capped);
    assert_eq!(r.get_reward(5, false), AirTouchOutcome::Reset);
}

#[test]
fn air_touch_non_positive_cap_always_capped() {
    let mut r = DribbleAirTouchReward::new(Some(0));
    assert_eq!(r.get_reward(1, true), AirTouchOutcome::Capped);
    let mut r = DribbleAirTouchReward::new(Some(-4));
    assert_eq!(r.get_reward(1, true), AirTouchOutcome::Capped);
    assert_eq!(r.get_reward(1, false), AirTouchOutcome::Reset);
}

#[test]
fn kickoff_choice_and_known_cars() {
    let mut r = LeftKickoffReward::new();
    let state = kickoff_state(vec![car(1, BLUE_TEAM, 0, 0), car(5, ORANGE_TEAM, 0, 0)]);
    assert!(r.chooses(&state));
    r.get_reward(&state.players[0], &state);
    assert!(!r.chooses(&state));
    let d = DribbleAirTouchReward::new(None);
    assert!(d.knows_car(0) && d.knows_car(5));
    assert!(!d.knows_car(6) && !d.knows_car(-1));
}

#[test]
fn air_touch_unknown_car_starts_streak() {
    let mut r = DribbleAirTouchReward::new(Some(2));
    assert!(!r.knows_car(9));
    assert_eq!(r.get_reward(9, false), AirTouchOutcome::Reset);
    assert!(r.knows_car(9));
    assert_eq!(r.get_reward(9, true), AirTouchOutcome::Counted(1));
}

#[test]
fn reward_log_location() {
    assert_eq!(
        reward_log_paths(None),
        ("./combinedlogfiles".to_string(), "./combinedlogfiles/rewards.txt".to_string())
    );
    assert_eq!(
        reward_log_paths(Some("C:/tmp".to_string())),
        ("C:/tmp".to_string(), "C:/tmp/rewards.txt".to_string())
    );
    assert_eq!(DribbleAirTouchReward::new(None).get_max_touches(), 20);
    assert_eq!(DribbleAirTouchReward::new(Some(7)).get_max_touches(), 7);
}

#[test]
fn event_counters_report_rises() {
    let mut blue = car(1, BLUE_TEAM, 0, 0);
    let orange = car(5, ORANGE_TEAM, 0, 0);
    let mut state = kickoff_state(vec![blue, orange]);
    state.blue_score = 0;
    state.orange_score = 0;
    let mut c = EventCounters::new();
    c.reset(&state);
    assert!(c.knows_car(1) && c.knows_car(5) && !c.knows_car(2));
    let zero = EventIncreases { goals: 0, team_goals: 0, concedes: 0, touch: 0, shots: 0, saves: 0, demos: 0 };
    assert_eq!(c.get_reward(&blue, &state), zero);
    // blue scores: one goal for the player and its team, one conceded for orange
    blue.match_goals = 1;
    blue.match_shots = 2;
    blue.ball_touched = true;
    state.blue_score = 1;
    assert_eq!(
        c.get_reward(&blue, &state),
        EventIncreases { goals: 2, team_goals: 1, concedes: 0, touch: 1, shots: 3, saves: 0, demos: 0 }
    );
    assert_eq!(
        c.get_reward(&orange, &state),
        EventIncreases { goals: 0, team_goals: 0, concedes: 1, touch: 0, shots: 0, saves: 0, demos: 0 }
    );
    // counted once
    assert_eq!(c.get_reward(&blue, &state), zero);
    // falling counters pay nothing
    blue.ball_touched = false;
    assert_eq!(c.get_reward(&blue, &state), zero);
    // a car seen for the first time pays nothing
    let mut newcomer = car(3, BLUE_TEAM, 0, 0);
    newcomer.match_goals = 7;
    assert_eq!(c.get_reward(&newcomer, &state), zero);
}

#[test]
fn first_call_after_reset_pays_nothing() {
    let mut blue = car(1, BLUE_TEAM, 0, 0);
    blue.match_goals = 3;
    blue.match_saves = 2;
    blue.ball_touched = true;
    let mut orange = car(5, ORANGE_TEAM, 0, 0);
    orange.match_demolishes = 4;
    let mut state = kickoff_state(vec![blue, orange]);
    state.blue_score = 2;
    state.orange_score = 1;
    let mut c = EventCounters::new();
    c.reset(&state);
    let zero = EventIncreases { goals: 0, team_goals: 0, concedes: 0, touch: 0, shots: 0, saves: 0, demos: 0 };
    assert_eq!(c.get_reward(&orange, &state), zero);
    assert_eq!(c.get_reward(&blue, &state), zero);
}

#[test]
fn kickoff_ignores_nan_positions() {
    let nan = f32_order_key(f32::NAN.to_bits());
    assert!(!key_gt(nan, 100) && !key_gt(100, nan) && !key_ge(nan, nan));
    assert!(key_gt(f32_order_key(1.0f32.to_bits()), f32_order_key((-1.0f32).to_bits())));
    assert!(key_ge(f32_order_key(0.0f32.to_bits()), f32_order_key((-0.0f32).to_bits())));
    // car 1 has a NaN x: no comparison with it holds, so car 2 stays the taker
    let mut c1 = car(1, BLUE_TEAM, 0, 0);
    c1.car_position = Coord2 { x: nan, y: 0 };
    let c2 = car(2, BLUE_TEAM, 100, 0);
    let players = vec![c1, c2];
    let state = kickoff_state(players.clone());
    let mut r = LeftKickoffReward::new();
    assert!(!r.get_reward(&players[0], &state));
    assert!(r.get_reward(&players[1], &state));
}
