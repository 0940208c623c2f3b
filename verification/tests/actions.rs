use rlgym_rust::action_parsers::continous_act::ContinuousAction;
use rlgym_rust::action_parsers::discrete_act::DiscreteAction;
use rlgym_rust::action_parsers::necto_parser_2::NectoAction;

#[test]
fn necto_table_has_ninety_actions() {
    let a = NectoAction::new();
    assert_eq!(a.get_action_space(), vec![90usize]);
}

#[test]
fn necto_ground_rows() {
    let a = NectoAction::new();
    let parsed = a.parse_actions(&vec![vec![0, 1, 5, 23]]);
    assert_eq!(
        parsed,
        vec![
            vec![-1, -1, 0, -1, 0, 0, 0, 0],
            vec![-1, -1, 0, -1, 0, 0, 0, 1],
            vec![-1, 1, 0, 1, 0, 0, 0, 1],
            vec![1, 1, 0, 1, 0, 0, 1, 1],
        ]
    );
}

#[test]
fn necto_air_rows() {
    let a = NectoAction::new();
    let parsed = a.parse_actions(&vec![vec![24], vec![25, 89]]);
    assert_eq!(
        parsed,
        vec![
            vec![0, -1, -1, -1, -1, 0, 0, 0],
            vec![1, -1, -1, -1, -1, 0, 1, 0],
            vec![1, 1, 1, 1, 1, 0, 1, 0],
        ]
    );
}

#[test]
fn necto_parse_flattens_all_agents() {
    let a = NectoAction::new();
    assert_eq!(a.parse_actions(&vec![]), Vec::<Vec<i32>>::new());
    assert_eq!(a.parse_actions(&vec![vec![], vec![]]), Vec::<Vec<i32>>::new());
    let parsed = a.parse_actions(&vec![vec![3, 3], vec![3]]);
    assert_eq!(parsed.len(), 3);
    assert!(parsed.iter().all(|row| row == &parsed[0]));
}

#[test]
fn necto_rows_are_well_formed() {
    let a = NectoAction::new();
    let all: Vec<usize> = (0..90).collect();
    let parsed = a.parse_actions(&vec![all]);
    for row in &parsed {
        assert_eq!(row.len(), 8);
        // steer and yaw are the same control
        assert_eq!(row[1], row[3]);
        assert!(row.iter().all(|v| *v >= -1 && *v <= 1));
    }
    // no two actions are the same
    for i in 0..parsed.len() {
        for j in (i + 1)..parsed.len() {
            assert_ne!(parsed[i], parsed[j]);
        }
    }
}

#[test]
fn discrete_action_space() {
    let a = DiscreteAction::new();
    assert_eq!(a.get_action_space(), vec![3usize, 3, 3, 3, 3, 2, 2, 2]);
    assert_eq!(a.bin_divisor(), 1);
}

#[test]
fn continuous_action_space_is_empty() {
    let a = ContinuousAction::new();
    assert!(a.get_action_space().is_empty());
}
