use rlgym_rust::common_values::{
    BACK_NET_Y, BACK_WALL_Y, BLUE_TEAM, CEILING_Z, NUM_ACTIONS, ORANGE_TEAM, SIDE_WALL_X,
};
use rlgym_rust::gamestates::decode::{
    last_touch, player_order, player_packet_count, BALL_STATE_LENGTH, BOOST_PAD_LENGTH,
    PLAYER_INFO_LENGTH,
};
use rlgym_rust::gamestates::game_state::GameState;
use rlgym_rust::gamestates::player_data::{Coord2, PlayerData};

fn toucher(id: i32, touched: bool) -> PlayerData {
    let mut p = PlayerData::new();
    p.car_id = id;
    p.ball_touched = touched;
    p
}

#[test]
fn field_constants() {
    assert_eq!((SIDE_WALL_X, BACK_WALL_Y, CEILING_Z, BACK_NET_Y), (4096, 5120, 2044, 6000));
    assert_eq!((BLUE_TEAM, ORANGE_TEAM, NUM_ACTIONS), (0, 1, 8));
}

#[test]
fn record_lengths() {
    assert_eq!(BOOST_PAD_LENGTH, 34);
    assert_eq!(BALL_STATE_LENGTH, 18);
    assert_eq!(PLAYER_INFO_LENGTH, 39);
}

#[test]
fn players_in_message() {
    // 3 header values, 34 pads, the ball and inverted ball (read nine apart)
    assert_eq!(player_packet_count(64), 0);
    assert_eq!(player_packet_count(55 + 39), 1);
    assert_eq!(player_packet_count(55 + 2 * 39 + 38), 2);
    assert_eq!(player_packet_count(55 + 6 * 39), 6);
}

#[test]
fn last_toucher_in_message_order() {
    let players = vec![toucher(3, true), toucher(1, false), toucher(2, true), toucher(4, false)];
    assert_eq!(last_touch(&players, -1), 2);
    assert_eq!(last_touch(&vec![toucher(3, false)], -1), -1);
    assert_eq!(last_touch(&vec![], 9), 9);
}

#[test]
fn players_sorted_by_car_id() {
    let ids = vec![6, 1, 5, 2];
    let order = player_order(&ids);
    let sorted: Vec<i32> = order.iter().map(|k| ids[*k]).collect();
    assert_eq!(sorted, vec![1, 2, 5, 6]);
    assert_eq!(player_order(&vec![]), Vec::<usize>::new());
    let dup = vec![3, 3, 1];
    let order = player_order(&dup);
    assert_eq!(order[0], 2);
    let mut seen = order.clone();
    seen.sort();
    assert_eq!(seen, vec![0, 1, 2]);
}

#[test]
fn fresh_state() {
    let s = GameState::new(None);
    assert_eq!((s.game_type, s.blue_score, s.orange_score, s.last_touch), (0, -1, -1, -1));
    assert!(s.players.is_empty());
    assert!(s.ball_position.is_centre());
    assert!(!s.any_touched());
    let p = PlayerData::new();
    assert_eq!((p.car_id, p.team_num, p.match_goals), (-1, -1, -1));
    assert!(!Coord2 { x: 0, y: 1 }.is_centre());
    assert_eq!(Coord2::origin(), Coord2 { x: 0, y: 0 });
}

#[test]
fn touch_detection() {
    let mut s = GameState::new(None);
    s.players = vec![toucher(1, false), toucher(2, true)];
    assert!(s.any_touched());
    s.players[1].ball_touched = false;
    assert!(!s.any_touched());
}
