use vstd::prelude::*;
use crate::gamestates::game_state::GameState;

verus! {

/// The integer and boolean settings of a match, with their defaults applied.
#[derive(Clone, Copy, Debug, PartialEq, Eq, Structural)]
pub struct MatchSetup {
    pub team_size: usize,
    pub tick_skip: usize,
    pub spawn_opponents: bool,
    /// Number of agents: both teams when opponents are spawned, one otherwise.
    pub agents: usize,
}

impl MatchSetup {
    /// Team size 1, tick skip 8 and spawned opponents unless given.
    pub fn new(team_size: Option<usize>, tick_skip: Option<usize>, spawn_opponents: Option<bool>) -> (s:
        MatchSetup)
        requires
            spawn_opponents != Some(false) ==> (match team_size {
                Some(t) => t,
                None => 1,
            }) * 2 <= usize::MAX,
        ensures
            s.team_size == (match team_size {
                Some(t) => t,
                None => 1,
            }),
            s.tick_skip == (match tick_skip {
                Some(t) => t,
                None => 8,
            }),
            s.spawn_opponents == (spawn_opponents != Some(false)),
            s.agents == (if s.spawn_opponents {
                s.team_size * 2
            } else {
                s.team_size as int
            }),
    {
        let team_size = match team_size {
            Some(team_size) => team_size,
            None => 1,
        };
        let tick_skip = match tick_skip {
            Some(tick_skip) => tick_skip,
            None => 8,
        };
        let spawn_opponents = match spawn_opponents {
            Some(spawn_opponents) => spawn_opponents,
            None => true,
        };
        let agents = if spawn_opponents {
            team_size * 2
        } else {
            team_size
        };
        MatchSetup { team_size, tick_skip, spawn_opponents, agents }
    }
}

/// Blue score minus orange score.
pub open spec fn spec_score_difference(state: GameState) -> int {
    state.blue_score - state.orange_score
}

/// What a match remembers of the state its episode started from.
#[derive(Clone, Debug)]
pub struct EpisodeRecord {
    /// Car ids of the players, in the state's order.
    pub spectator_ids: Vec<i32>,
    /// Score difference when the episode started.
    pub initial_score: i32,
}

impl EpisodeRecord {
    /// Six zero ids and a zero initial score.
    pub fn new() -> (r: EpisodeRecord)
        ensures
            r.spectator_ids@ == Seq::new(6, |_i: int| 0i32),
            r.initial_score == 0,
    {
        let mut ids: Vec<i32> = Vec::new();
        let mut i: usize = 0;
        while i < 6
            invariant
                i <= 6,
                ids@ =~= Seq::new(i as nat, |_i: int| 0i32),
            decreases 6 - i,
        {
            ids.push(0);
            i = i + 1;
        }
        EpisodeRecord { spectator_ids: ids, initial_score: 0 }
    }

    /// Remembers the players' car ids and the score difference of the
    /// episode's first state.
    pub fn episode_reset(&mut self, initial_state: &GameState)
        requires
            i32::MIN <= spec_score_difference(*initial_state) <= i32::MAX,
        ensures
            final(self).spectator_ids@ == initial_state.players@.map_values(
                |p: crate::gamestates::player_data::PlayerData| p.car_id,
            ),
            final(self).initial_score == spec_score_difference(*initial_state),
    {
        let mut ids: Vec<i32> = Vec::new();
        let mut i: usize = 0;
        while i < initial_state.players.len()
            invariant
                i <= initial_state.players@.len(),
                ids@ =~= initial_state.players@.take(i as int).map_values(
                    |p: crate::gamestates::player_data::PlayerData| p.car_id,
                ),
            decreases initial_state.players@.len() - i,
        {
            ids.push(initial_state.players[i].car_id);
            i = i + 1;
        }
        assert(initial_state.players@.take(initial_state.players@.len() as int)
            =~= initial_state.players@);
        self.spectator_ids = ids;
        self.initial_score = initial_state.blue_score - initial_state.orange_score;
    }

    /// What `get_result` reports: how much the score difference changed
    /// since the episode started.
    pub open spec fn spec_result(self, state: GameState) -> int {
        spec_score_difference(state) - self.initial_score
    }

    /// The change of the score difference since the episode started
    /// (positive when blue gained).
    pub fn get_result(&self, state: &GameState) -> (r: i32)
        requires
            i32::MIN <= spec_score_difference(*state) <= i32::MAX,
            i32::MIN <= self.spec_result(*state) <= i32::MAX,
        ensures
            r == self.spec_result(*state),
    {
        let current_score = state.blue_score - state.orange_score;
        current_score - self.initial_score
    }
}

/// An episode's result on the state it started from is zero: after
/// `episode_reset(s)`, `get_result(s)` reports no change.
pub proof fn lemma_result_zero_at_start(record: EpisodeRecord, state: GameState)
    requires
        record.initial_score == spec_score_difference(state),
    ensures
        record.spec_result(state) == 0,
{
}


/// The message body of the actions of the first `n` agents: each agent's
/// car id followed by its action, agents in order.
pub open spec fn spec_framed_actions<T>(ids: Seq<T>, actions: Seq<Vec<T>>, n: int) -> Seq<T>
    decreases n,
{
    if n <= 0 {
        Seq::empty()
    } else {
        spec_framed_actions(ids, actions, n - 1) + seq![ids[n - 1]] + actions[n - 1]@
    }
}

/// The actions as sent to the game: each agent's car id (as a value of the
/// action's type) followed by its action. Pairs beyond the shorter list are
/// ignored.
pub fn frame_actions<T: Copy>(ids: &Vec<T>, actions: &Vec<Vec<T>>) -> (framed: Vec<T>)
    ensures
        framed@ == spec_framed_actions(
            ids@,
            actions@,
            if ids@.len() <= actions@.len() {
                ids@.len() as int
            } else {
                actions@.len() as int
            },
        ),
{
    let n = if ids.len() <= actions.len() {
        ids.len()
    } else {
        actions.len()
    };
    let mut framed: Vec<T> = Vec::new();
    let mut k: usize = 0;
    while k < n
        invariant
            n <= ids@.len() && n <= actions@.len(),
            k <= n,
            framed@ == spec_framed_actions(ids@, actions@, k as int),
        decreases n - k,
    {
        let ghost before = framed@;
        framed.push(ids[k]);
        let action = &actions[k];
        let mut j: usize = 0;
        while j < action.len()
            invariant
                j <= action@.len(),
                framed@ == before + seq![ids@[k as int]] + action@.take(j as int),
            decreases action@.len() - j,
        {
            framed.push(action[j]);
            proof {
                assert(action@.take(j + 1) =~= action@.take(j as int).push(action@[j as int]));
            }
            j = j + 1;
        }
        proof {
            assert(action@.take(action@.len() as int) =~= action@);
            assert(framed@ =~= spec_framed_actions(ids@, actions@, k + 1));
        }
        k = k + 1;
    }
    framed
}

} // verus!
