use rlgym_rust::common_values::{BLUE_TEAM, ORANGE_TEAM};
use rlgym_rust::gamestates::player_data::PlayerData;
use rlgym_rust::obs_builders::aspo4_array::{plan_other_players, BallStack};
use rlgym_rust::obs_builders::aspo4_array::{padder_sizes, PADDER_STACK_COUNT};

fn car(id: i32, team: i32) -> PlayerData {
    let mut p = PlayerData::new();
    p.car_id = id;
    p.team_num = team;
    p
}

#[test]
fn plan_full_match_shows_everyone() {
    let players = vec![car(1, BLUE_TEAM), car(2, BLUE_TEAM), car(5, ORANGE_TEAM), car(6, ORANGE_TEAM)];
    let plan = plan_other_players(&players, &players[0], 2);
    assert_eq!(plan.included, vec![1, 2, 3]);
    assert_eq!(plan.ally_dummies, 0);
    assert_eq!(plan.enemy_dummies, 0);
}

#[test]
fn plan_pads_missing_players() {
    // a 1v1 seen by an observer built for 3v3
    let players = vec![car(1, BLUE_TEAM), car(5, ORANGE_TEAM)];
    let plan = plan_other_players(&players, &players[1], 3);
    assert_eq!(plan.included, vec![0]);
    assert_eq!(plan.ally_dummies, 2);
    assert_eq!(plan.enemy_dummies, 2);
}

#[test]
fn plan_drops_extra_players() {
    // a 3v3 seen by an observer built for 1v1: the first opponent only
    let players = vec![
        car(1, BLUE_TEAM),
        car(2, BLUE_TEAM),
        car(3, BLUE_TEAM),
        car(5, ORANGE_TEAM),
        car(6, ORANGE_TEAM),
        car(7, ORANGE_TEAM),
    ];
    let plan = plan_other_players(&players, &players[0], 1);
    assert_eq!(plan.included, vec![3]);
    assert_eq!(plan.ally_dummies, 0);
    assert_eq!(plan.enemy_dummies, 0);
    let plan = plan_other_players(&players, &players[4], 2);
    assert_eq!(plan.included, vec![0, 1, 3]);
}

#[test]
fn plan_shape_is_fixed() {
    for n_blue in 0..4 {
        for n_orange in 0..4 {
            let mut players = Vec::new();
            for i in 0..n_blue {
                players.push(car(1 + i, BLUE_TEAM));
            }
            for i in 0..n_orange {
                players.push(car(5 + i, ORANGE_TEAM));
            }
            let me = car(1, BLUE_TEAM);
            for team_size in 1..4usize {
                let plan = plan_other_players(&players, &me, team_size);
                let allies = plan.included.iter().filter(|k| players[**k].team_num == BLUE_TEAM).count();
                let enemies = plan.included.len() - allies;
                assert_eq!(allies + plan.ally_dummies, team_size - 1);
                assert_eq!(enemies + plan.enemy_dummies, team_size);
            }
        }
    }
}

#[test]
fn ball_stack_keeps_newest_first() {
    let mut s = BallStack::new(2, 3, 0i32);
    assert_eq!(s.len(), 2);
    assert_eq!(s.get(0).iter().copied().collect::<Vec<i32>>(), vec![0, 0, 0]);
    s.push(0, 7);
    s.push(0, 8);
    assert_eq!(s.get(0).iter().copied().collect::<Vec<i32>>(), vec![8, 7, 0]);
    s.push(0, 9);
    s.push(0, 10);
    assert_eq!(s.get(0).iter().copied().collect::<Vec<i32>>(), vec![10, 9, 8]);
    assert_eq!(s.get(1).iter().copied().collect::<Vec<i32>>(), vec![0, 0, 0]);
    s.blank_stack(-1);
    assert_eq!(s.len(), 3);
    assert_eq!(s.get(2).iter().copied().collect::<Vec<i32>>(), vec![-1, -1, -1]);
}

#[test]
fn ball_stack_of_size_zero_stays_empty() {
    let mut s = BallStack::new(1, 0, 0u8);
    s.push(0, 4);
    assert!(s.get(0).is_empty());
}

#[test]
fn padder_defaults() {
    assert_eq!(padder_sizes(None, None), (3, 15));
    assert_eq!(padder_sizes(Some(1), Some(5)), (1, 5));
    assert_eq!(PADDER_STACK_COUNT, 8);
}
