use vstd::prelude::*;
use vstd::string::StringExecFns;
use rand::rngs::StdRng;
use crate::state_setters::random::{random_below, random_seed, seeded_rng};

verus! {

/// The archive of replay states for a team size: the 1v1, 2v2 or (for any
/// other size) 3v3 file of the replay folder.
pub fn replay_file_for_team_size(team_size: i32) -> (path: String)
    ensures
        path@ == (if team_size == 1 {
            "replay_folder/ssl_1v1.zip"@
        } else if team_size == 2 {
            "replay_folder/ssl_2v2.zip"@
        } else {
            "replay_folder/ssl_3v3.zip"@
        }),
{
    if team_size == 1 {
        String::from_str("replay_folder/ssl_1v1.zip")
    } else if team_size == 2 {
        String::from_str("replay_folder/ssl_2v2.zip")
    } else {
        String::from_str("replay_folder/ssl_3v3.zip")
    }
}

/// Values of the ball at the start of a replay state: position, linear
/// velocity, then a second velocity.
pub const REPLAY_BALL_LENGTH: usize = 9;
/// Values of one car in a replay state: position, rotation, linear and
/// angular velocity, boost.
pub const REPLAY_CAR_LENGTH: usize = 13;

/// Where the record of each of `n_cars` cars starts in a replay state: after
/// the ball, one record after another. The state must hold all of them.
pub fn replay_car_offsets(n_cars: usize, state_len: usize) -> (offsets: Vec<usize>)
    requires
        REPLAY_BALL_LENGTH + REPLAY_CAR_LENGTH * n_cars <= state_len,
    ensures
        offsets@.len() == n_cars,
        forall|k: int|
            0 <= k < n_cars ==> #[trigger] offsets@[k] == REPLAY_BALL_LENGTH + REPLAY_CAR_LENGTH * k,
        forall|k: int|
            0 <= k < n_cars ==> #[trigger] offsets@[k] + REPLAY_CAR_LENGTH <= state_len,
{
    let mut offsets: Vec<usize> = Vec::new();
    let mut k: usize = 0;
    while k < n_cars
        invariant
            k <= n_cars,
            REPLAY_BALL_LENGTH + REPLAY_CAR_LENGTH * n_cars <= state_len,
            offsets@.len() == k,
            forall|j: int|
                0 <= j < k ==> #[trigger] offsets@[j] == REPLAY_BALL_LENGTH + REPLAY_CAR_LENGTH * j,
        decreases n_cars - k,
    {
        assert(REPLAY_CAR_LENGTH * k + REPLAY_CAR_LENGTH <= REPLAY_CAR_LENGTH * n_cars) by (nonlinear_arith)
            requires
                k < n_cars,
        ;
        offsets.push(REPLAY_BALL_LENGTH + REPLAY_CAR_LENGTH * k);
        k = k + 1;
    }
    assert forall|j: int| 0 <= j < n_cars implies #[trigger] offsets@[j] + REPLAY_CAR_LENGTH <= state_len by {
        assert(REPLAY_CAR_LENGTH * j + REPLAY_CAR_LENGTH <= REPLAY_CAR_LENGTH * n_cars) by (nonlinear_arith)
            requires
                0 <= j < n_cars,
        ;
    }
    offsets
}

/// Draws which stored replay state a reset uses, from a generator seeded
/// with a random seed.
pub struct ReplaySelector {
    rng: StdRng,
    /// The seed that `rng` was seeded with.
    seed: Ghost<u64>,
}

impl ReplaySelector {
    /// The seed the generator was seeded with (it may have drawn since).
    pub closed spec fn seed(&self) -> u64 {
        self.seed@
    }

    /// A selector whose generator is seeded with a random seed below `10000`.
    pub fn new() -> (selector: ReplaySelector)
        ensures
            selector.seed() < 10000,
    {
        let s = random_seed();
        ReplaySelector { rng: seeded_rng(s), seed: Ghost(s) }
    }

    /// Index of the state to use among `n_states` stored ones, of which
    /// there must be at least one.
    pub fn pick(&mut self, n_states: usize) -> (index: usize)
        requires
            n_states > 0,
        ensures
            index < n_states,
            final(self).seed() == old(self).seed(),
    {
        random_below(&mut self.rng, n_states)
    }
}

} // verus!
