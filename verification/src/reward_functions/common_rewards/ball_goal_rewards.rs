use vstd::prelude::*;
use crate::common_values::{BLUE_TEAM, ORANGE_TEAM};

verus! {

/// Rewards the ball's velocity toward a goal: the opponents' goal, or the
/// player's own goal when `own_goal` is set.
#[derive(Clone, Copy, Debug)]
pub struct VelocityBallToGoalReward {
    own_goal: bool,
    use_scalar_projection: bool,
}

impl VelocityBallToGoalReward {
    pub closed spec fn own_goal(self) -> bool {
        self.own_goal
    }

    pub closed spec fn use_scalar_projection(self) -> bool {
        self.use_scalar_projection
    }

    /// Both options default to `false`.
    pub fn new(own_goal: Option<bool>, use_scalar_projection: Option<bool>) -> (r:
        VelocityBallToGoalReward)
        ensures
            r.own_goal() == (own_goal == Some(true)),
            r.use_scalar_projection() == (use_scalar_projection == Some(true)),
    {
        let own_goal = match own_goal {
            Some(own_goal) => own_goal,
            None => false,
        };
        let use_scalar_projection = match use_scalar_projection {
            Some(use_some_projection) => use_some_projection,
            None => false,
        };
        VelocityBallToGoalReward { own_goal: own_goal, use_scalar_projection: use_scalar_projection }
    }

    pub fn get_own_goal(&self) -> (b: bool)
        ensures
            b == self.own_goal(),
    {
        self.own_goal
    }

    pub fn get_use_scalar_projection(&self) -> (b: bool)
        ensures
            b == self.use_scalar_projection(),
    {
        self.use_scalar_projection
    }

    /// Whether a player of team `team_num` is rewarded for ball velocity toward
    /// the orange goal (otherwise toward the blue goal): a blue player aiming at
    /// the opponents' goal, or an orange player aiming at its own.
    pub open spec fn spec_targets_orange_goal(self, team_num: i32) -> bool {
        (team_num == BLUE_TEAM && !self.own_goal()) || (team_num == ORANGE_TEAM && self.own_goal())
    }

    pub fn targets_orange_goal(&self, team_num: i32) -> (r: bool)
        ensures
            r == self.spec_targets_orange_goal(team_num),
    {
        (team_num == BLUE_TEAM && !self.own_goal) || (team_num == ORANGE_TEAM && self.own_goal)
    }
}

} // verus!
