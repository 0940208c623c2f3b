use vstd::prelude::*;

verus! {

/// Rewards a player's velocity toward the ball.
#[derive(Clone, Copy, Debug)]
pub struct VelocityPlayerToBallReward {
    use_scalar_projection: bool,
}

impl VelocityPlayerToBallReward {
    pub closed spec fn use_scalar_projection(self) -> bool {
        self.use_scalar_projection
    }

    /// `use_scalar_projection` defaults to `false`.
    pub fn new(use_scalar_projection: Option<bool>) -> (r: VelocityPlayerToBallReward)
        ensures
            r.use_scalar_projection() == (use_scalar_projection == Some(true)),
    {
        let use_scalar_projection = match use_scalar_projection {
            Some(use_scalar_projection) => use_scalar_projection,
            None => false,
        };
        VelocityPlayerToBallReward { use_scalar_projection: use_scalar_projection }
    }

    pub fn get_use_scalar_projection(&self) -> (b: bool)
        ensures
            b == self.use_scalar_projection(),
    {
        self.use_scalar_projection
    }
}

} // verus!
