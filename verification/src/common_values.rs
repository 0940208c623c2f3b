use vstd::prelude::*;

verus! {

/// Half-width of the arena along x, in unreal units.
pub const SIDE_WALL_X: usize = 4096;
/// Distance of the back walls from the centre along y.
pub const BACK_WALL_Y: usize = 5120;
/// Height of the ceiling.
pub const CEILING_Z: usize = 2044;
/// Distance of the back of each net from the centre along y.
pub const BACK_NET_Y: usize = 6000;

/// Team number of the blue team.
pub const BLUE_TEAM: i32 = 0;
/// Team number of the orange team.
pub const ORANGE_TEAM: i32 = 1;

/// Number of controls in one car action.
pub const NUM_ACTIONS: usize = 8;

} // verus!
