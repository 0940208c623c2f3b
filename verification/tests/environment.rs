use rlgym_rust::envs::game_match::{frame_actions, EpisodeRecord, MatchSetup};
use rlgym_rust::gamestates::game_state::GameState;
use rlgym_rust::gamestates::player_data::PlayerData;
use rlgym_rust::gym::{actions_well_sized, GymOptions};
use rlgym_rust::manager::{
    action_ranges, corrected_match_nums, half, spread_per_agent, total_agents, worker_start,
    worker_step, WorkerAction, WorkerCommand, WorkerEvent, WorkerState, LAUNCH_WAIT_SECONDS,
};

#[test]
fn match_setup_defaults() {
    let s = MatchSetup::new(None, None, None);
    assert_eq!(s.team_size, 1);
    assert_eq!(s.tick_skip, 8);
    assert!(s.spawn_opponents);
    assert_eq!(s.agents, 2);
    let s = MatchSetup::new(Some(3), Some(4), Some(false));
    assert_eq!((s.team_size, s.tick_skip, s.spawn_opponents, s.agents), (3, 4, false, 3));
    assert_eq!(MatchSetup::new(Some(3), None, Some(true)).agents, 6);
}

#[test]
fn episode_record_tracks_start() {
    let mut r = EpisodeRecord::new();
    assert_eq!(r.spectator_ids, vec![0; 6]);
    assert_eq!(r.initial_score, 0);
    let mut state = GameState::new(None);
    state.blue_score = 2;
    state.orange_score = 1;
    for id in [4, 1, 7] {
        let mut p = PlayerData::new();
        p.car_id = id;
        state.players.push(p);
    }
    r.episode_reset(&state);
    assert_eq!(r.spectator_ids, vec![4, 1, 7]);
    assert_eq!(r.initial_score, 1);
    // no change since the start
    assert_eq!(r.get_result(&state), 0);
    state.orange_score = 3;
    assert_eq!(r.get_result(&state), -2);
    state.blue_score = 6;
    assert_eq!(r.get_result(&state), 2);
}

#[test]
fn half_truncates_toward_zero() {
    assert_eq!(half(7), 3);
    assert_eq!(half(-7), -3);
    assert_eq!(half(i32::MIN), i32::MIN / 2);
    assert_eq!(half(0), 0);
}

#[test]
fn agents_per_env() {
    assert_eq!(corrected_match_nums(&vec![2, 4, 6], &vec![true, false, false]), vec![2, 2, 3]);
    assert_eq!(corrected_match_nums(&vec![2, 4], &vec![false]), vec![1]);
    assert_eq!(total_agents(&vec![2, 2, 3]), 7);
    assert_eq!(total_agents(&vec![]), 0);
}

#[test]
fn action_slices_tile_the_actions() {
    let counts = vec![2, 0, 3];
    let ranges = action_ranges(&counts, 5);
    assert_eq!(ranges, vec![(0, 2), (2, 2), (2, 5)]);
    let ranges = action_ranges(&vec![1, 1], 10);
    assert_eq!(ranges, vec![(0, 1), (1, 2)]);
}

#[test]
fn spread_lines_up_with_action_slices() {
    let counts = vec![2, 0, 3];
    let dones = vec![true, false, false];
    let spread = spread_per_agent(&dones, &counts);
    assert_eq!(spread, vec![true, true, false, false, false]);
    for (k, (start, end)) in action_ranges(&counts, 5).into_iter().enumerate() {
        for i in start..end {
            assert_eq!(spread[i], dones[k]);
        }
    }
    // pairs beyond the shorter list are ignored
    assert_eq!(spread_per_agent(&vec![1u8, 2, 3], &vec![1, 2]), vec![1, 2, 2]);
    assert_eq!(spread_per_agent(&vec![9u8], &vec![2, 2]), vec![9, 9]);
}

#[test]
fn worker_gives_up_after_launch_limit() {
    let mut s = worker_start();
    for k in 1..=LAUNCH_WAIT_SECONDS {
        let (next, action) = worker_step(s, WorkerEvent::SecondWaited);
        assert_eq!(action, WorkerAction::KeepWaiting);
        assert_eq!(next, WorkerState::Launching { waited: k });
        s = next;
    }
    let (next, action) = worker_step(s, WorkerEvent::SecondWaited);
    assert_eq!(action, WorkerAction::ClosePipe);
    assert_eq!(next, WorkerState::Stopped);
    assert_eq!(LAUNCH_WAIT_SECONDS, 70);
}

#[test]
fn worker_serves_commands() {
    let s = worker_start();
    let (s, a) = worker_step(s, WorkerEvent::SecondWaited);
    assert_eq!(a, WorkerAction::KeepWaiting);
    let (s, a) = worker_step(s, WorkerEvent::LaunchFinished);
    assert_eq!((s, a), (WorkerState::Serving, WorkerAction::ReportReady));
    let (s, a) = worker_step(s, WorkerEvent::Received(WorkerCommand::Step));
    assert_eq!((s, a), (WorkerState::Serving, WorkerAction::RunStep));
    let (s, a) = worker_step(s, WorkerEvent::Stepped { done: false });
    assert_eq!((s, a), (WorkerState::Serving, WorkerAction::SendStep));
    let (s, a) = worker_step(s, WorkerEvent::Stepped { done: true });
    assert_eq!((s, a), (WorkerState::Serving, WorkerAction::ResetAndSendDone));
    let (s, a) = worker_step(s, WorkerEvent::Received(WorkerCommand::Reset));
    assert_eq!((s, a), (WorkerState::Serving, WorkerAction::ResetAndSend));
    let (s, a) = worker_step(s, WorkerEvent::Received(WorkerCommand::Close));
    assert_eq!((s, a), (WorkerState::Stopped, WorkerAction::CloseEnv));
    let (s, a) = worker_step(s, WorkerEvent::LaunchFinished);
    assert_eq!((s, a), (WorkerState::Stopped, WorkerAction::Nothing));
}

#[test]
fn worker_stops_on_channel_failure() {
    let (s, _) = worker_step(worker_start(), WorkerEvent::LaunchFinished);
    assert_eq!(worker_step(s, WorkerEvent::RecvFailed), (WorkerState::Stopped, WorkerAction::CloseEnv));
    assert_eq!(worker_step(s, WorkerEvent::SendFailed), (WorkerState::Stopped, WorkerAction::CloseEnv));
    // a command before the launch finished changes nothing
    assert_eq!(
        worker_step(worker_start(), WorkerEvent::Received(WorkerCommand::Close)),
        (WorkerState::Launching { waited: 0 }, WorkerAction::Nothing)
    );
}

#[test]
fn gym_option_defaults() {
    let o = GymOptions::new(None, None, None, None, None, None);
    assert_eq!(o.pipe_id, 0);
    assert_eq!(o.launch_preference, "epic");
    assert!(o.use_injector);
    assert!(!o.force_paging && !o.raise_on_crash && !o.auto_minimize);
    let o = GymOptions::new(Some(3), Some("C:/rl.exe".to_string()), Some(false), Some(true), Some(true), Some(true));
    assert_eq!(o.pipe_id, 3);
    assert_eq!(o.launch_preference, "C:/rl.exe");
    assert!(!o.use_injector && o.force_paging && o.raise_on_crash && o.auto_minimize);
}

#[test]
fn actions_need_eight_controls() {
    assert!(actions_well_sized(&vec![vec![0.0f64; 8], vec![1.0; 8]]));
    assert!(actions_well_sized::<f64>(&vec![]));
    assert!(!actions_well_sized(&vec![vec![0.0f64; 8], vec![1.0; 7]]));
}

#[test]
fn actions_framed_with_car_ids() {
    let framed = frame_actions(&vec![1.0, 5.0], &vec![vec![0.5, -1.0], vec![1.0]]);
    assert_eq!(framed, vec![1.0, 0.5, -1.0, 5.0, 1.0]);
    // the six initial ids frame only the agents there are
    assert_eq!(frame_actions(&vec![0i32; 6], &vec![vec![7, 8]]), vec![0, 7, 8]);
    assert_eq!(frame_actions(&vec![3i32], &vec![vec![], vec![1]]), vec![3]);
}
