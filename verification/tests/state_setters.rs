use rlgym_rust::state_setters::default_state::slot_order_by_keys;
use rlgym_rust::state_setters::default_state::{
    assign_spawns, choose_seed, spawn_position, spawn_yaw_quarters, DefaultState, DefaultStateTester,
    SpawnChoice,
};
use rlgym_rust::state_setters::wrappers::state_wrapper::{new_car_slots, CarSlot};
use rlgym_rust::state_setters::custom_state_setters::replay_file_for_team_size;
use rlgym_rust::state_setters::custom_state_setters::replay_car_offsets;
use rlgym_rust::state_setters::custom_state_setters::ReplaySelector;
use rlgym_rust::state_setters::wrappers::state_wrapper::match_car_slots;

fn sc(orange: bool, slot: usize) -> SpawnChoice {
    SpawnChoice { orange, slot }
}

#[test]
fn spawn_table() {
    assert_eq!(spawn_position(false, 0), [-2048, -2560, 17]);
    assert_eq!(spawn_position(false, 4), [0, -4608, 17]);
    assert_eq!(spawn_position(true, 0), [2048, 2560, 17]);
    assert_eq!(spawn_position(true, 3), [-256, 3840, 17]);
    assert_eq!(spawn_yaw_quarters(false, 0), 1);
    assert_eq!(spawn_yaw_quarters(false, 1), 3);
    assert_eq!(spawn_yaw_quarters(false, 4), 2);
    assert_eq!(spawn_yaw_quarters(true, 0), -3);
    assert_eq!(spawn_yaw_quarters(true, 1), -1);
    assert_eq!(spawn_yaw_quarters(true, 2), -2);
}

#[test]
fn tester_assigns_slots_in_order() {
    let mut t = DefaultStateTester::new();
    assert_eq!(
        t.reset(&vec![0, 0, 1, 1]),
        vec![sc(false, 0), sc(false, 1), sc(true, 0), sc(true, 1)]
    );
    // any team other than 0 is orange
    assert_eq!(t.reset(&vec![3, 0, 1]), vec![sc(true, 0), sc(false, 0), sc(true, 1)]);
    assert_eq!(t.reset(&vec![]), vec![]);
}

#[test]
fn assign_follows_slot_order() {
    let perm = vec![4, 2, 0, 1, 3];
    assert_eq!(
        assign_spawns(&vec![1, 0, 0, 1, 0], &perm),
        vec![sc(true, 4), sc(false, 4), sc(false, 2), sc(true, 2), sc(false, 0)]
    );
}

#[test]
fn default_state_uses_distinct_slots() {
    let mut d = DefaultState::new(Some(42));
    for _ in 0..20 {
        let teams = vec![0, 0, 0, 1, 1, 1];
        let choices = d.reset(&teams);
        assert_eq!(choices.len(), 6);
        for i in 0..6 {
            assert_eq!(choices[i].orange, teams[i] != 0);
            assert!(choices[i].slot < 5);
            for j in (i + 1)..6 {
                if choices[i].orange == choices[j].orange {
                    assert_ne!(choices[i].slot, choices[j].slot);
                }
            }
        }
        // both sides take the slots in the same order
        assert_eq!(choices[0].slot, choices[3].slot);
        assert_eq!(choices[2].slot, choices[5].slot);
    }
}

#[test]
fn default_state_seed_repeats_order() {
    let mut a = DefaultState::new(Some(7));
    let mut b = DefaultState::new(None);
    b.set_seed(7);
    let teams = vec![0, 0, 0, 0, 0];
    for _ in 0..5 {
        assert_eq!(a.reset(&teams), b.reset(&teams));
    }
}

#[test]
fn default_state_orders_vary() {
    let mut d = DefaultState::new(Some(1));
    let teams = vec![0, 0, 0, 0, 0];
    let first = d.reset(&teams);
    let mut all: Vec<usize> = first.iter().map(|c| c.slot).collect();
    all.sort();
    assert_eq!(all, vec![0, 1, 2, 3, 4]);
    let mut differs = false;
    for _ in 0..50 {
        if d.reset(&teams) != first {
            differs = true;
        }
    }
    assert!(differs);
}

#[test]
fn car_slots_ids() {
    assert_eq!(
        new_car_slots(Some(2), Some(1)),
        vec![
            CarSlot { team_num: 0, id: 1 },
            CarSlot { team_num: 0, id: 2 },
            CarSlot { team_num: 1, id: 5 },
        ]
    );
    assert_eq!(new_car_slots(None, None), vec![]);
    assert_eq!(new_car_slots(Some(-3), Some(0)), vec![]);
    assert_eq!(new_car_slots(None, Some(2)), vec![CarSlot { team_num: 1, id: 5 }, CarSlot { team_num: 1, id: 6 }]);
}

#[test]
fn replay_archive_per_team_size() {
    assert_eq!(replay_file_for_team_size(1), "replay_folder/ssl_1v1.zip");
    assert_eq!(replay_file_for_team_size(2), "replay_folder/ssl_2v2.zip");
    assert_eq!(replay_file_for_team_size(3), "replay_folder/ssl_3v3.zip");
    assert_eq!(replay_file_for_team_size(0), "replay_folder/ssl_3v3.zip");
}

#[test]
fn replay_car_records_follow_ball() {
    assert_eq!(replay_car_offsets(3, 48), vec![9, 22, 35]);
    assert_eq!(replay_car_offsets(0, 9), Vec::<usize>::new());
}

#[test]
fn replay_pick_in_range() {
    let mut s = ReplaySelector::new();
    for n in 1..50 {
        assert!(s.pick(n) < n);
    }
    assert_eq!(s.pick(1), 0);
}

#[test]
fn match_cars() {
    assert_eq!(
        match_car_slots(2, true),
        vec![
            CarSlot { team_num: 0, id: 1 },
            CarSlot { team_num: 0, id: 2 },
            CarSlot { team_num: 1, id: 5 },
            CarSlot { team_num: 1, id: 6 },
        ]
    );
    assert_eq!(match_car_slots(1, false), vec![CarSlot { team_num: 0, id: 1 }]);
}

#[test]
fn seeds_given_or_drawn() {
    assert_eq!(choose_seed(Some(123456)), 123456);
    for _ in 0..100 {
        assert!(choose_seed(None) < 10000);
    }
}

#[test]
fn slots_sorted_stably_by_keys() {
    assert_eq!(slot_order_by_keys(&vec![5, 1, 1, 0, 9]), vec![3, 1, 2, 0, 4]);
    assert_eq!(slot_order_by_keys(&vec![7, 7, 7, 7, 7]), vec![0, 1, 2, 3, 4]);
    assert_eq!(slot_order_by_keys(&vec![4, 3, 2, 1, 0]), vec![4, 3, 2, 1, 0]);
    assert_eq!(slot_order_by_keys(&vec![usize::MAX, 0, usize::MAX, 0, 1]), vec![1, 3, 4, 0, 2]);
}
