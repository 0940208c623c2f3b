use vstd::prelude::*;
use crate::common_values::BLUE_TEAM;
use crate::gamestates::game_state::GameState;
use crate::gamestates::player_data::PlayerData;
use std::collections::HashMap;

verus! {

/// Rewards a car's speed, or penalises it when `negative` is set.
#[derive(Clone, Copy, Debug)]
pub struct VelocityReward {
    negative: bool,
}

impl VelocityReward {
    pub closed spec fn negative(self) -> bool {
        self.negative
    }

    /// `negative` defaults to `false`.
    pub fn new(negative: Option<bool>) -> (r: VelocityReward)
        ensures
            r.negative() == (negative == Some(true)),
    {
        let negative = match negative {
            Some(negative) => negative,
            None => false,
        };
        VelocityReward { negative: negative }
    }

    /// The factor the normalised speed is multiplied by: `1 - 2 * negative`.
    pub fn sign(&self) -> (s: i32)
        ensures
            s == (if self.negative() {
                -1i32
            } else {
                1i32
            }),
    {
        1 - 2 * (if self.negative {
            1
        } else {
            0
        })
    }
}

/// Rewards the amount of boost a player holds.
#[derive(Clone, Copy, Debug)]
pub struct SaveBoostReward {}

impl SaveBoostReward {
    pub fn new() -> (r: SaveBoostReward)
        ensures
            r == (SaveBoostReward {}),
    {
        SaveBoostReward {}
    }
}


/// The counters an event reward watches for one player: the player's goals,
/// its team's goals, the goals conceded, whether it touched the ball, and
/// its shots, saves and demolitions.
#[derive(Clone, Copy, Debug, PartialEq, Eq, Structural)]
pub struct EventValues {
    pub goals: i64,
    pub team_goals: i64,
    pub concedes: i64,
    pub touch: i64,
    pub shots: i64,
    pub saves: i64,
    pub demos: i64,
}

/// By how much each counter went up since it was last seen (`0` where it
/// did not go up).
#[derive(Clone, Copy, Debug, PartialEq, Eq, Structural)]
pub struct EventIncreases {
    pub goals: u64,
    pub team_goals: u64,
    pub concedes: u64,
    pub touch: u64,
    pub shots: u64,
    pub saves: u64,
    pub demos: u64,
}

/// The counters of `player` in `state`; the team's goals and the goals
/// conceded are the blue or the orange score, by the player's team.
pub open spec fn spec_event_values(player: PlayerData, state: GameState) -> EventValues {
    let (team, opponent) = if player.team_num == BLUE_TEAM {
        (state.blue_score, state.orange_score)
    } else {
        (state.orange_score, state.blue_score)
    };
    EventValues {
        goals: player.match_goals,
        team_goals: team as i64,
        concedes: opponent as i64,
        touch: if player.ball_touched {
            1
        } else {
            0
        },
        shots: player.match_shots,
        saves: player.match_saves,
        demos: player.match_demolishes,
    }
}

/// `new - old` where it is positive, `0` otherwise.
pub open spec fn spec_rise(new: i64, old: i64) -> u64 {
    if new > old {
        (new - old) as u64
    } else {
        0
    }
}

/// The rise of each counter from `old` to `new`.
pub open spec fn spec_increases(new: EventValues, old: EventValues) -> EventIncreases {
    EventIncreases {
        goals: spec_rise(new.goals, old.goals),
        team_goals: spec_rise(new.team_goals, old.team_goals),
        concedes: spec_rise(new.concedes, old.concedes),
        touch: spec_rise(new.touch, old.touch),
        shots: spec_rise(new.shots, old.shots),
        saves: spec_rise(new.saves, old.saves),
        demos: spec_rise(new.demos, old.demos),
    }
}

/// The counters registered for the first `n` players of a state, one after
/// the other (a later player with the same car id replaces an earlier one).
pub open spec fn spec_registered(state: GameState, n: int) -> Map<i32, EventValues>
    decreases n,
{
    if n <= 0 {
        Map::empty()
    } else {
        spec_registered(state, n - 1).insert(
            state.players@[n - 1].car_id,
            spec_event_values(state.players@[n - 1], state),
        )
    }
}

fn event_values(player: &PlayerData, state: &GameState) -> (v: EventValues)
    ensures
        v == spec_event_values(*player, *state),
{
    let (team, opponent) = if player.team_num == BLUE_TEAM {
        (state.blue_score, state.orange_score)
    } else {
        (state.orange_score, state.blue_score)
    };
    EventValues {
        goals: player.match_goals,
        team_goals: team as i64,
        concedes: opponent as i64,
        touch: if player.ball_touched {
            1
        } else {
            0
        },
        shots: player.match_shots,
        saves: player.match_saves,
        demos: player.match_demolishes,
    }
}

fn rise(new: i64, old: i64) -> (r: u64)
    ensures
        r == spec_rise(new, old),
{
    if new > old {
        (new as i128 - old as i128) as u64
    } else {
        0
    }
}

/// The event bookkeeping of an event reward: the counters last seen for each
/// car, and the rise of each counter on each call.
#[derive(Debug)]
pub struct EventCounters {
    last_registered_values: HashMap<i32, EventValues>,
}

impl EventCounters {
    /// The counters last seen for each known car.
    pub closed spec fn registered(self) -> Map<i32, EventValues> {
        self.last_registered_values@
    }

    /// No car is known yet.
    pub fn new() -> (c: EventCounters)
        ensures
            c.registered() == Map::<i32, EventValues>::empty(),
    {
        EventCounters { last_registered_values: HashMap::new() }
    }

    /// Forgets every car, then registers the counters of each player of the
    /// episode's first state.
    pub fn reset(&mut self, initial_state: &GameState)
        ensures
            final(self).registered() == spec_registered(
                *initial_state,
                initial_state.players@.len() as int,
            ),
    {
        broadcast use vstd::std_specs::hash::group_hash_axioms;

        self.last_registered_values.clear();
        let mut i: usize = 0;
        while i < initial_state.players.len()
            invariant
                i <= initial_state.players@.len(),
                self.last_registered_values@ == spec_registered(*initial_state, i as int),
            decreases initial_state.players@.len() - i,
        {
            let player = &initial_state.players[i];
            self.last_registered_values.insert(player.car_id, event_values(player, initial_state));
            i = i + 1;
        }
    }

    /// Whether counters are registered for the car `car_id`.
    pub fn knows_car(&self, car_id: i32) -> (r: bool)
        ensures
            r == self.registered().contains_key(car_id),
    {
        broadcast use vstd::std_specs::hash::group_hash_axioms;

        self.last_registered_values.contains_key(&car_id)
    }

    /// Registers the player's counters in `state` and reports the rise of
    /// each since the last call for the same car; a car seen for the first
    /// time has no rise.
    pub fn get_reward(&mut self, player: &PlayerData, state: &GameState) -> (inc: EventIncreases)
        ensures
            final(self).registered() == old(self).registered().insert(
                player.car_id,
                spec_event_values(*player, *state),
            ),
            inc == (if old(self).registered().contains_key(player.car_id) {
                spec_increases(
                    spec_event_values(*player, *state),
                    old(self).registered()[player.car_id],
                )
            } else {
                spec_increases(spec_event_values(*player, *state), spec_event_values(*player, *state))
            }),
    {
        broadcast use vstd::std_specs::hash::group_hash_axioms;

        let new = event_values(player, state);
        let old_values = match self.last_registered_values.insert(player.car_id, new) {
            Some(old) => old,
            None => new,
        };
        EventIncreases {
            goals: rise(new.goals, old_values.goals),
            team_goals: rise(new.team_goals, old_values.team_goals),
            concedes: rise(new.concedes, old_values.concedes),
            touch: rise(new.touch, old_values.touch),
            shots: rise(new.shots, old_values.shots),
            saves: rise(new.saves, old_values.saves),
            demos: rise(new.demos, old_values.demos),
        }
    }
}

/// A car's first call never pays an event: every rise from a value to
/// itself is zero.
pub proof fn lemma_first_sight_pays_nothing(values: EventValues)
    ensures
        spec_increases(values, values) == (EventIncreases {
            goals: 0,
            team_goals: 0,
            concedes: 0,
            touch: 0,
            shots: 0,
            saves: 0,
            demos: 0,
        }),
{
}

/// Calling twice in a row on the same state pays nothing the second time:
/// events are counted once.
pub proof fn lemma_events_counted_once(
    before: EventCounters,
    after: EventCounters,
    player: PlayerData,
    state: GameState,
)
    requires
        after.registered() == before.registered().insert(
            player.car_id,
            spec_event_values(player, state),
        ),
    ensures
        after.registered().contains_key(player.car_id),
        spec_increases(spec_event_values(player, state), after.registered()[player.car_id])
            == spec_increases(spec_event_values(player, state), spec_event_values(player, state)),
{
}

/// No two players of the state share a car id.
pub open spec fn spec_unique_car_ids(state: GameState) -> bool {
    forall|i: int, j: int|
        0 <= i < j < state.players@.len() ==> #[trigger] state.players@[i].car_id
            != #[trigger] state.players@[j].car_id
}

/// With unique car ids, registering the first `n` players keeps each one's
/// own counters.
proof fn lemma_registered_keeps_player(state: GameState, n: int, k: int)
    requires
        0 <= k < n <= state.players@.len(),
        spec_unique_car_ids(state),
    ensures
        spec_registered(state, n).contains_key(state.players@[k].car_id),
        spec_registered(state, n)[state.players@[k].car_id] == spec_event_values(
            state.players@[k],
            state,
        ),
    decreases n,
{
    if k < n - 1 {
        lemma_registered_keeps_player(state, n - 1, k);
        assert(state.players@[k].car_id != state.players@[n - 1].car_id);
    }
}

/// Right after a reset on a state whose players have unique car ids, the
/// first call for any player of that state pays nothing: the counters
/// registered for its car are its own counters in that state.
pub proof fn lemma_first_call_after_reset_pays_nothing(
    after_reset: EventCounters,
    state: GameState,
    k: int,
)
    requires
        after_reset.registered() == spec_registered(state, state.players@.len() as int),
        spec_unique_car_ids(state),
        0 <= k < state.players@.len(),
    ensures
        after_reset.registered().contains_key(state.players@[k].car_id),
        spec_increases(
            spec_event_values(state.players@[k], state),
            after_reset.registered()[state.players@[k].car_id],
        ) == (EventIncreases {
            goals: 0,
            team_goals: 0,
            concedes: 0,
            touch: 0,
            shots: 0,
            saves: 0,
            demos: 0,
        }),
{
    lemma_registered_keeps_player(state, state.players@.len() as int, k);
}

/// The counters watched for a player are the player's own fields: its goals,
/// its team's score, the other team's score, whether it touched the ball,
/// its shots, saves and demolitions.
pub proof fn lemma_event_values_are_player_fields(player: PlayerData, state: GameState)
    ensures
        spec_event_values(player, state).goals == player.match_goals,
        spec_event_values(player, state).team_goals == (if player.team_num == BLUE_TEAM {
            state.blue_score
        } else {
            state.orange_score
        }),
        spec_event_values(player, state).concedes == (if player.team_num == BLUE_TEAM {
            state.orange_score
        } else {
            state.blue_score
        }),
        spec_event_values(player, state).touch == (if player.ball_touched {
            1int
        } else {
            0int
        }),
        spec_event_values(player, state).shots == player.match_shots,
        spec_event_values(player, state).saves == player.match_saves,
        spec_event_values(player, state).demos == player.match_demolishes,
{
}

/// Between two records of a player on one state that differ only in its
/// saves, the rise is the added saves, counted as saves and nothing else.
pub proof fn lemma_save_rise_pays_saves(before: PlayerData, after: PlayerData, state: GameState)
    requires
        after.team_num == before.team_num,
        after.match_goals == before.match_goals,
        after.match_shots == before.match_shots,
        after.match_demolishes == before.match_demolishes,
        after.ball_touched == before.ball_touched,
        after.match_saves > before.match_saves,
    ensures
        spec_increases(spec_event_values(after, state), spec_event_values(before, state)) == (
        EventIncreases {
            goals: 0,
            team_goals: 0,
            concedes: 0,
            touch: 0,
            shots: 0,
            saves: (after.match_saves - before.match_saves) as u64,
            demos: 0,
        }),
{
}

/// Between two records of a player on one state that differ only in its
/// demolitions, the rise is the added demolitions, counted as demolitions
/// and nothing else.
pub proof fn lemma_demo_rise_pays_demos(before: PlayerData, after: PlayerData, state: GameState)
    requires
        after.team_num == before.team_num,
        after.match_goals == before.match_goals,
        after.match_shots == before.match_shots,
        after.match_saves == before.match_saves,
        after.ball_touched == before.ball_touched,
        after.match_demolishes > before.match_demolishes,
    ensures
        spec_increases(spec_event_values(after, state), spec_event_values(before, state)) == (
        EventIncreases {
            goals: 0,
            team_goals: 0,
            concedes: 0,
            touch: 0,
            shots: 0,
            saves: 0,
            demos: (after.match_demolishes - before.match_demolishes) as u64,
        }),
{
}

} // verus!
