use vstd::prelude::*;

verus! {

/// Car id of the first blue car of a fresh state.
pub const BLUE_ID1: i32 = 1;
/// Car id of the first orange car of a fresh state.
pub const ORANGE_ID1: i32 = 5;

/// Team and car id of one car of a state being set.
#[derive(Clone, Copy, Debug, PartialEq, Eq, Structural)]
pub struct CarSlot {
    pub team_num: i32,
    pub id: i32,
}

/// The cars of a fresh state: `blue_count` blue cars (team 0) with ids from
/// `BLUE_ID1` up, then `orange_count` orange cars (team 1) with ids from
/// `ORANGE_ID1` up. A negative count gives no car.
pub open spec fn spec_car_slots(blue_count: int, orange_count: int) -> Seq<CarSlot> {
    let b = if blue_count > 0 {
        blue_count
    } else {
        0
    };
    let o = if orange_count > 0 {
        orange_count
    } else {
        0
    };
    Seq::new(b as nat, |i: int| CarSlot { team_num: 0, id: (BLUE_ID1 + i) as i32 }) + Seq::new(
        o as nat,
        |i: int| CarSlot { team_num: 1, id: (ORANGE_ID1 + i) as i32 },
    )
}

/// Cars of a fresh state with the given numbers of blue and orange cars
/// (both `0` when absent).
pub fn new_car_slots(blue_count: Option<i32>, orange_count: Option<i32>) -> (cars: Vec<CarSlot>)
    requires
        orange_count matches Some(o) ==> o <= i32::MAX - ORANGE_ID1 + 1,
    ensures
        cars@ == spec_car_slots(
            match blue_count {
                Some(b) => b as int,
                None => 0,
            },
            match orange_count {
                Some(o) => o as int,
                None => 0,
            },
        ),
{
    let blue_count: i32 = match blue_count {
        Some(blue_count) => blue_count,
        None => 0,
    };
    let orange_count: i32 = match orange_count {
        Some(orange_count) => orange_count,
        None => 0,
    };
    let mut cars: Vec<CarSlot> = Vec::new();
    let mut i: i32 = 0;
    while i < blue_count
        invariant
            0 <= i,
            blue_count > 0 ==> i <= blue_count,
            blue_count <= 0 ==> i == 0,
            cars@ =~= Seq::new(i as nat, |k: int| CarSlot { team_num: 0, id: (BLUE_ID1 + k) as i32 }),
        decreases blue_count - i,
    {
        cars.push(CarSlot { team_num: 0, id: BLUE_ID1 + i });
        i = i + 1;
    }
    let ghost blue = cars@;
    let mut i: i32 = 0;
    while i < orange_count
        invariant
            0 <= i,
            orange_count <= i32::MAX - ORANGE_ID1 + 1,
            orange_count > 0 ==> i <= orange_count,
            orange_count <= 0 ==> i == 0,
            cars@ =~= blue + Seq::new(
                i as nat,
                |k: int| CarSlot { team_num: 1, id: (ORANGE_ID1 + k) as i32 },
            ),
        decreases orange_count - i,
    {
        cars.push(CarSlot { team_num: 1, id: ORANGE_ID1 + i });
        i = i + 1;
    }
    cars
}

/// Fresh states give every car its own id as long as the blue ids stay below
/// `ORANGE_ID1`: with at most four blue cars, no two cars share an id.
pub proof fn lemma_car_ids_distinct(blue_count: int, orange_count: int)
    requires
        blue_count <= ORANGE_ID1 - BLUE_ID1,
        orange_count <= i32::MAX - ORANGE_ID1 + 1,
    ensures
        forall|i: int, j: int|
            0 <= i < j < spec_car_slots(blue_count, orange_count).len() ==> spec_car_slots(
                blue_count,
                orange_count,
            )[i].id != spec_car_slots(blue_count, orange_count)[j].id,
{
}


/// The cars a state setter starts from for a match: `max_team_size` blue
/// cars, and as many orange cars when opponents are spawned (none
/// otherwise).
pub fn match_car_slots(max_team_size: i32, spawn_opponents: bool) -> (cars: Vec<CarSlot>)
    requires
        spawn_opponents ==> max_team_size <= i32::MAX - ORANGE_ID1 + 1,
    ensures
        cars@ == spec_car_slots(
            max_team_size as int,
            if spawn_opponents {
                max_team_size as int
            } else {
                0
            },
        ),
{
    new_car_slots(Some(max_team_size), Some(if spawn_opponents { max_team_size } else { 0 }))
}

} // verus!
