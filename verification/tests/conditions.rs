use rlgym_rust::conditionals::common_conditions::{
    GoalScoredCondition, NoTouchTimeoutCondition, TimeoutCondition,
};
use rlgym_rust::conditionals::custom_conditions::{
    CombinedTerminalConditions, NoTouchKickoffTimeoutCondition,
};
use rlgym_rust::gamestates::game_state::GameState;
use rlgym_rust::gamestates::player_data::{Coord2, PlayerData};

fn scored_state(blue: i32, orange: i32) -> GameState {
    let mut state = GameState::new(None);
    state.blue_score = blue;
    state.orange_score = orange;
    state
}

fn touched_state() -> GameState {
    let mut state = scored_state(0, 0);
    let mut p = PlayerData::new();
    p.car_id = 1;
    p.ball_touched = true;
    state.players.push(p);
    state
}

fn ball_away(mut state: GameState) -> GameState {
    state.ball_position = Coord2 { x: 5, y: -3 };
    state
}

#[test]
fn timeout_ends_on_max_step() {
    let state = GameState::new(None);
    let mut c = TimeoutCondition::new(2);
    assert!(!c.is_terminal(&state));
    assert!(c.is_terminal(&state));
}

#[test]
fn timeout_run_ends_at_exact_step() {
    let state = scored_state(0, 0);
    let mut c = TimeoutCondition::new(5);
    for _ in 0..4 {
        assert!(!c.is_terminal(&state));
    }
    assert!(c.is_terminal(&state));
    assert!(c.is_terminal(&state));
}

#[test]
fn timeout_reset_restarts_count() {
    let state = scored_state(0, 0);
    let mut c = TimeoutCondition::new(3);
    assert!(!c.is_terminal(&state));
    assert!(!c.is_terminal(&state));
    c.reset(&state);
    assert!(!c.is_terminal(&state));
    assert!(!c.is_terminal(&state));
    assert!(c.is_terminal(&state));
}

#[test]
fn timeout_non_positive_limit_ends_at_once() {
    let state = scored_state(0, 0);
    let mut c = TimeoutCondition::new(0);
    assert!(c.is_terminal(&state));
    let mut c = TimeoutCondition::new(-7);
    assert!(c.is_terminal(&state));
}

#[test]
fn no_touch_timeout_counts_untouched_streak() {
    let quiet = scored_state(0, 0);
    let touched = touched_state();
    let mut c = NoTouchTimeoutCondition::new(3);
    assert!(!c.is_terminal(&quiet));
    assert!(!c.is_terminal(&quiet));
    // a touch restarts the streak and never ends the episode
    assert!(!c.is_terminal(&touched));
    assert!(!c.is_terminal(&quiet));
    assert!(!c.is_terminal(&quiet));
    assert!(c.is_terminal(&quiet));
}

#[test]
fn no_touch_timeout_touch_never_terminal() {
    let touched = touched_state();
    let mut c = NoTouchTimeoutCondition::new(0);
    assert!(!c.is_terminal(&touched));
    assert!(c.is_terminal(&scored_state(0, 0)));
}

#[test]
fn goal_scored_reported_once() {
    let mut c = GoalScoredCondition::new();
    let zero = scored_state(0, 0);
    assert!(!c.is_terminal(&zero));
    let goal = scored_state(1, 0);
    assert!(c.is_terminal(&goal));
    assert!(!c.is_terminal(&goal));
    // the remembered score survives a reset
    c.reset(&zero);
    assert!(!c.is_terminal(&goal));
    assert!(c.is_terminal(&scored_state(1, 1)));
}

#[test]
fn goal_scored_sees_fresh_state_scores() {
    // a state that was never decoded carries scores of -1
    let mut c = GoalScoredCondition::new();
    assert!(c.is_terminal(&GameState::new(None)));
    assert!(!c.is_terminal(&GameState::new(None)));
}

#[test]
fn kickoff_timeout_only_counts_on_centre_spot() {
    let centre = scored_state(0, 0);
    let away = ball_away(scored_state(0, 0));
    let mut c = NoTouchKickoffTimeoutCondition::new(2);
    assert!(!c.is_terminal(&centre));
    assert!(!c.is_terminal(&away));
    assert!(!c.is_terminal(&away));
    assert!(c.is_terminal(&centre));
}

#[test]
fn kickoff_timeout_touch_restarts() {
    let centre = scored_state(0, 0);
    let mut c = NoTouchKickoffTimeoutCondition::new(2);
    assert!(!c.is_terminal(&centre));
    assert!(!c.is_terminal(&touched_state()));
    assert!(!c.is_terminal(&centre));
    assert!(c.is_terminal(&centre));
    c.reset(&centre);
    assert!(!c.is_terminal(&centre));
}

#[test]
fn combined_kickoff_limit_for_tick_skip_8() {
    // 20 seconds at 120 ticks per second, 8 ticks per step: 300 steps
    let centre = scored_state(0, 0);
    let mut c = CombinedTerminalConditions::new(8);
    for _ in 0..299 {
        assert!(!c.is_terminal(&centre));
    }
    assert!(c.is_terminal(&centre));
}

#[test]
fn combined_no_touch_limit_for_tick_skip_8() {
    // 100 seconds: 1500 steps, with the ball away from the centre spot
    let away = ball_away(scored_state(0, 0));
    let mut c = CombinedTerminalConditions::new(8);
    for _ in 0..1499 {
        assert!(!c.is_terminal(&away));
    }
    assert!(c.is_terminal(&away));
}

#[test]
fn combined_timeout_for_tick_skip_8() {
    // 400 seconds: 6000 steps, with a touch on every step
    let mut touched = ball_away(touched_state());
    touched.blue_score = 0;
    let mut c = CombinedTerminalConditions::new(8);
    for _ in 0..5999 {
        assert!(!c.is_terminal(&touched));
    }
    assert!(c.is_terminal(&touched));
}

#[test]
fn combined_reports_goal() {
    let mut c = CombinedTerminalConditions::new(8);
    assert!(!c.is_terminal(&scored_state(0, 0)));
    assert!(c.is_terminal(&scored_state(0, 1)));
    c.reset(&scored_state(0, 1));
    assert!(!c.is_terminal(&scored_state(0, 1)));
}

#[test]
fn combined_huge_tick_skip_gives_negative_limits() {
    // the tick skip is cast to i64, so usize::MAX becomes -1 and every limit
    // is negative: the first step already ends the episode
    let mut c = CombinedTerminalConditions::new(usize::MAX);
    assert!(c.is_terminal(&ball_away(touched_state())));
}

#[test]
fn combined_tick_skip_one() {
    let centre = scored_state(0, 0);
    let mut c = CombinedTerminalConditions::new(1);
    for _ in 0..2399 {
        assert!(!c.is_terminal(&centre));
    }
    assert!(c.is_terminal(&centre));
}

#[test]
fn step_counts_visible() {
    let quiet = scored_state(0, 0);
    let mut t = TimeoutCondition::new(10);
    let mut n = NoTouchTimeoutCondition::new(10);
    let mut k = NoTouchKickoffTimeoutCondition::new(10);
    t.is_terminal(&quiet);
    n.is_terminal(&quiet);
    k.is_terminal(&quiet);
    k.is_terminal(&ball_away(scored_state(0, 0)));
    assert_eq!((t.step_count(), n.step_count(), k.step_count()), (1, 1, 1));
    n.is_terminal(&touched_state());
    assert_eq!(n.step_count(), 0);
}
