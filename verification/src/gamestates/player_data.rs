use vstd::prelude::*;

verus! {

/// Ground-plane coordinates of an object, each held as the order key of the
/// float coordinate the game reports: keys of floats other than NaN compare
/// as the floats do (`<`, `==`), the key of `0.0` (of either sign) is `0`,
/// and a NaN has a key of magnitude above `0x7F80_0000`, which the
/// comparisons `key_gt` and `key_ge` treat as the floats do.
#[derive(Clone, Copy, Debug, PartialEq, Eq, Structural)]
pub struct Coord2 {
    pub x: i64,
    pub y: i64,
}

impl Coord2 {
    /// The origin of the ground plane.
    pub fn origin() -> (c: Coord2)
        ensures
            c.x == 0 && c.y == 0,
    {
        Coord2 { x: 0, y: 0 }
    }

    /// Whether this point is the centre spot of the field (`x == 0` and `y == 0`).
    pub open spec fn spec_is_centre(self) -> bool {
        self.x == 0 && self.y == 0
    }

    /// Whether this point is the centre spot of the field.
    pub fn is_centre(&self) -> (r: bool)
        ensures
            r == self.spec_is_centre(),
    {
        self.x == 0 && self.y == 0
    }
}

/// What the environment's logic reads of one player in a game state.
#[derive(Clone, Copy, Debug)]
pub struct PlayerData {
    pub car_id: i32,
    pub team_num: i32,
    pub match_goals: i64,
    pub match_saves: i64,
    pub match_shots: i64,
    pub match_demolishes: i64,
    pub boost_pickups: i64,
    pub is_demoed: bool,
    pub on_ground: bool,
    pub ball_touched: bool,
    pub has_jump: bool,
    pub has_flip: bool,
    /// Position of the car, seen from the blue side.
    pub car_position: Coord2,
    /// Position of the car, seen from the orange side.
    pub inverted_car_position: Coord2,
}

impl PlayerData {
    /// A player record with every counter and id set to `-1` and every flag cleared.
    pub fn new() -> (p: PlayerData)
        ensures
            p.car_id == -1 && p.team_num == -1,
            p.match_goals == -1 && p.match_saves == -1 && p.match_shots == -1,
            p.match_demolishes == -1 && p.boost_pickups == -1,
            !p.is_demoed && !p.on_ground && !p.ball_touched && !p.has_jump && !p.has_flip,
            p.car_position.spec_is_centre() && p.inverted_car_position.spec_is_centre(),
    {
        PlayerData {
            car_id: -1,
            team_num: -1,
            match_goals: -1,
            match_saves: -1,
            match_shots: -1,
            match_demolishes: -1,
            boost_pickups: -1,
            is_demoed: false,
            on_ground: false,
            ball_touched: false,
            has_jump: false,
            has_flip: false,
            car_position: Coord2::origin(),
            inverted_car_position: Coord2::origin(),
        }
    }
}

} // verus!
