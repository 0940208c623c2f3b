use vstd::prelude::*;
use crate::common_values::BLUE_TEAM;
use crate::gamestates::game_state::GameState;
use crate::gamestates::player_data::{Coord2, PlayerData};
use crate::gamestates::wire_values::{key_ge, key_gt, spec_key_ge, spec_key_gt, spec_key_is_nan};
use crate::reward_functions::common_rewards::player_ball_rewards::VelocityPlayerToBallReward;
use std::collections::HashMap;
use vstd::string::StringExecFns;

verus! {

/// Rewards having a jump available.
#[derive(Clone, Copy, Debug)]
pub struct JumpReward {}

impl JumpReward {
    pub fn new() -> (r: JumpReward)
        ensures
            r == (JumpReward {}),
    {
        JumpReward {}
    }

    pub fn reset(&mut self, _initial_state: &GameState)
        ensures
            *final(self) == *old(self),
    {
    }

    /// `1` when the player still has a jump, `0` otherwise.
    pub fn get_reward(&mut self, player: &PlayerData, _state: &GameState) -> (r: i32)
        ensures
            r == (if player.has_jump {
                1i32
            } else {
                0i32
            }),
            *final(self) == *old(self),
    {
        if player.has_jump {
            1
        } else {
            0
        }
    }

    pub fn get_final_reward(&mut self, player: &PlayerData, state: &GameState) -> (r: i32)
        ensures
            r == (if player.has_jump {
                1i32
            } else {
                0i32
            }),
            *final(self) == *old(self),
    {
        self.get_reward(player, state)
    }
}


/// Index of the last player of `ps[0..n]` on the blue team (`blue`) or on
/// another team (`!blue`); `default` when there is none.
pub open spec fn spec_last_of_side(ps: Seq<PlayerData>, n: int, blue: bool, default: int) -> int
    decreases n,
{
    if n <= 0 {
        default
    } else if (ps[n - 1].team_num == BLUE_TEAM) == blue {
        n - 1
    } else {
        spec_last_of_side(ps, n - 1, blue, default)
    }
}

/// Whether car `c` replaces `cur` as the kickoff candidate: same team, not
/// behind it (`y >=`) and strictly to its left (`x >`), seen from the blue
/// side, or from the orange side when `inverted`; a NaN coordinate makes
/// either comparison false, as it does for the floats.
pub open spec fn spec_further_left(c: PlayerData, cur: PlayerData, inverted: bool) -> bool {
    let cp = if inverted {
        c.inverted_car_position
    } else {
        c.car_position
    };
    let kp = if inverted {
        cur.inverted_car_position
    } else {
        cur.car_position
    };
    c.team_num == cur.team_num && spec_key_ge(cp.y, kp.y) && spec_key_gt(cp.x, kp.x)
}

/// The candidate after going through `ps[0..n]` in order from `start`, each
/// car that is further left replacing the current one.
pub open spec fn spec_pick_left(ps: Seq<PlayerData>, n: int, start: int, inverted: bool) -> int
    decreases n,
{
    if n <= 0 {
        start
    } else {
        let cur = spec_pick_left(ps, n - 1, start, inverted);
        if spec_further_left(ps[n - 1], ps[cur], inverted) {
            n - 1
        } else {
            cur
        }
    }
}

/// A car's position seen from the blue side, or from the orange side when
/// `inverted`.
pub open spec fn spec_seen_position(c: PlayerData, inverted: bool) -> Coord2 {
    if inverted {
        c.inverted_car_position
    } else {
        c.car_position
    }
}

/// A car replaces the kickoff candidate only when it is on the same team, not
/// behind it (its `y`, seen from its side, at least the candidate's) and
/// strictly to its left (a greater `x`); no comparison with a NaN holds.
pub proof fn lemma_replacement_not_behind(c: PlayerData, cur: PlayerData, inverted: bool)
    requires
        spec_further_left(c, cur, inverted),
    ensures
        c.team_num == cur.team_num,
        !spec_key_is_nan(spec_seen_position(c, inverted).y),
        !spec_key_is_nan(spec_seen_position(cur, inverted).y),
        spec_seen_position(c, inverted).y >= spec_seen_position(cur, inverted).y,
        spec_seen_position(c, inverted).x > spec_seen_position(cur, inverted).x,
{
}

/// The candidate that the pass over the cars ends with is the starting car,
/// or a car of the same team that is not behind it and is strictly to its
/// left, seen from its side.
pub proof fn lemma_pick_not_behind_start(ps: Seq<PlayerData>, n: int, start: int, inverted: bool)
    requires
        0 <= start < ps.len(),
        0 <= n <= ps.len(),
    ensures
        0 <= spec_pick_left(ps, n, start, inverted) < ps.len(),
        ps[spec_pick_left(ps, n, start, inverted)].team_num == ps[start].team_num,
        spec_pick_left(ps, n, start, inverted) == start || (
            spec_seen_position(ps[spec_pick_left(ps, n, start, inverted)], inverted).y
                >= spec_seen_position(ps[start], inverted).y
            && spec_seen_position(ps[spec_pick_left(ps, n, start, inverted)], inverted).x
                > spec_seen_position(ps[start], inverted).x),
    decreases n,
{
    if n > 0 {
        lemma_pick_not_behind_start(ps, n - 1, start, inverted);
        let cur = spec_pick_left(ps, n - 1, start, inverted);
        if spec_further_left(ps[n - 1], ps[cur], inverted) {
            lemma_replacement_not_behind(ps[n - 1], ps[cur], inverted);
        }
    }
}

/// Index of the blue kickoff taker: starting from the last blue car (or the
/// first player), the leftmost front-most car of that car's team.
pub open spec fn spec_blue_taker(ps: Seq<PlayerData>) -> int {
    spec_pick_left(ps, ps.len() as int, spec_last_of_side(ps, ps.len() as int, true, 0), false)
}

/// Index of the orange kickoff taker: starting from the last non-blue car (or
/// the second player), the leftmost front-most car of that car's team, seen
/// from the orange side.
pub open spec fn spec_orange_taker(ps: Seq<PlayerData>) -> int {
    spec_pick_left(ps, ps.len() as int, spec_last_of_side(ps, ps.len() as int, false, 1), true)
}

/// Rewards, during a kickoff, only the car that should take it on each team:
/// the one furthest left on its side (the usual "left goes" rule).
#[derive(Clone, Copy, Debug)]
pub struct LeftKickoffReward {
    vel_dir_reward: VelocityPlayerToBallReward,
    kickoff_id_orange: i32,
    kickoff_id_blue: i32,
}

impl LeftKickoffReward {
    /// Car id of the blue kickoff taker, `-1` when none is chosen.
    pub closed spec fn kickoff_id_blue(self) -> i32 {
        self.kickoff_id_blue
    }

    /// Car id of the orange kickoff taker, `-1` when none is chosen.
    pub closed spec fn kickoff_id_orange(self) -> i32 {
        self.kickoff_id_orange
    }

    /// The velocity reward paid to the kickoff takers.
    pub closed spec fn vel_dir_reward(self) -> VelocityPlayerToBallReward {
        self.vel_dir_reward
    }

    pub fn new() -> (r: LeftKickoffReward)
        ensures
            r.kickoff_id_blue() == -1,
            r.kickoff_id_orange() == -1,
            !r.vel_dir_reward().use_scalar_projection(),
    {
        LeftKickoffReward {
            vel_dir_reward: VelocityPlayerToBallReward::new(None),
            kickoff_id_orange: -1,
            kickoff_id_blue: -1,
        }
    }

    /// Whether a call on `state` chooses the takers afresh (which reads the
    /// first two players).
    pub fn chooses(&self, state: &GameState) -> (r: bool)
        ensures
            r == self.spec_chooses(*state),
    {
        state.ball_position.is_centre() && (self.kickoff_id_blue == -1 || self.kickoff_id_orange == -1)
    }

    /// The velocity reward paid to the kickoff takers.
    pub fn get_vel_dir_reward(&self) -> (v: VelocityPlayerToBallReward)
        ensures
            v == self.vel_dir_reward(),
    {
        self.vel_dir_reward
    }

    /// Leaves the chosen kickoff takers as they are.
    pub fn reset(&mut self, _initial_state: &GameState)
        ensures
            *final(self) == *old(self),
    {
    }

    /// Whether the takers have to be chosen on this call: the ball is on the
    /// centre spot and one of the two ids is unset.
    pub open spec fn spec_chooses(self, state: GameState) -> bool {
        state.ball_position.spec_is_centre() && (self.kickoff_id_blue() == -1
            || self.kickoff_id_orange() == -1)
    }

    /// The blue taker's id after a call on `state`: chosen afresh when needed,
    /// kept during the kickoff, cleared once the ball has left the centre spot.
    pub open spec fn spec_next_blue(self, state: GameState) -> i32 {
        if !state.ball_position.spec_is_centre() {
            -1i32
        } else if self.spec_chooses(state) {
            state.players@[spec_blue_taker(state.players@)].car_id
        } else {
            self.kickoff_id_blue()
        }
    }

    /// The orange taker's id after a call on `state`.
    pub open spec fn spec_next_orange(self, state: GameState) -> i32 {
        if !state.ball_position.spec_is_centre() {
            -1i32
        } else if self.spec_chooses(state) {
            state.players@[spec_orange_taker(state.players@)].car_id
        } else {
            self.kickoff_id_orange()
        }
    }

    /// Whether `player` is its team's kickoff taker after a call on `state`.
    pub open spec fn spec_applies(self, player: PlayerData, state: GameState) -> bool {
        state.ball_position.spec_is_centre() && (if player.team_num == BLUE_TEAM {
            player.car_id == self.spec_next_blue(state)
        } else {
            player.car_id == self.spec_next_orange(state)
        })
    }

    /// Updates the kickoff takers for `state` and reports whether `player` is
    /// its team's taker, in which case the player is paid the velocity reward
    /// (and nothing otherwise). Choosing the takers reads the first two players
    /// as defaults.
    pub fn get_reward(&mut self, player: &PlayerData, state: &GameState) -> (applies: bool)
        requires
            old(self).spec_chooses(*state) ==> state.players@.len() >= 2,
        ensures
            final(self).kickoff_id_blue() == old(self).spec_next_blue(*state),
            final(self).kickoff_id_orange() == old(self).spec_next_orange(*state),
            final(self).vel_dir_reward() == old(self).vel_dir_reward(),
            applies == old(self).spec_applies(*player, *state),
    {
        if state.ball_position.is_centre() {
            if self.kickoff_id_blue == -1 || self.kickoff_id_orange == -1 {
                let (blue, orange) = choose_takers(&state.players);
                self.kickoff_id_blue = state.players[blue].car_id;
                self.kickoff_id_orange = state.players[orange].car_id;
            }
            if player.team_num == BLUE_TEAM {
                player.car_id == self.kickoff_id_blue
            } else {
                player.car_id == self.kickoff_id_orange
            }
        } else {
            self.kickoff_id_blue = -1;
            self.kickoff_id_orange = -1;
            false
        }
    }

    pub fn get_final_reward(&mut self, player: &PlayerData, state: &GameState) -> (applies: bool)
        requires
            old(self).spec_chooses(*state) ==> state.players@.len() >= 2,
        ensures
            final(self).kickoff_id_blue() == old(self).spec_next_blue(*state),
            final(self).kickoff_id_orange() == old(self).spec_next_orange(*state),
            final(self).vel_dir_reward() == old(self).vel_dir_reward(),
            applies == old(self).spec_applies(*player, *state),
    {
        self.get_reward(player, state)
    }
}

/// Indices of the blue and orange kickoff takers among at least two players.
fn choose_takers(players: &Vec<PlayerData>) -> (r: (usize, usize))
    requires
        players@.len() >= 2,
    ensures
        r.0 == spec_blue_taker(players@),
        r.1 == spec_orange_taker(players@),
        r.0 < players@.len() && r.1 < players@.len(),
{
    let ghost ps = players@;
    let n = players.len();
    let mut blue: usize = 0;
    let mut orange: usize = 1;
    let mut i: usize = 0;
    while i < n
        invariant
            n == ps.len(),
            ps == players@,
            n >= 2,
            i <= n,
            blue == spec_last_of_side(ps, i as int, true, 0),
            orange == spec_last_of_side(ps, i as int, false, 1),
            blue < n && orange < n,
        decreases n - i,
    {
        if players[i].team_num == BLUE_TEAM {
            blue = i;
        } else {
            orange = i;
        }
        i = i + 1;
    }
    let ghost blue_start = blue as int;
    let ghost orange_start = orange as int;
    let mut i: usize = 0;
    while i < n
        invariant
            n == ps.len(),
            ps == players@,
            i <= n,
            0 <= blue_start < n && 0 <= orange_start < n,
            blue == spec_pick_left(ps, i as int, blue_start, false),
            orange == spec_pick_left(ps, i as int, orange_start, true),
            blue < n && orange < n,
        decreases n - i,
    {
        let car = &players[i];
        let b = &players[blue];
        if car.team_num == b.team_num && key_ge(car.car_position.y, b.car_position.y)
            && key_gt(car.car_position.x, b.car_position.x) {
            blue = i;
        }
        let o = &players[orange];
        if car.team_num == o.team_num && key_ge(
            car.inverted_car_position.y,
            o.inverted_car_position.y,
        ) && key_gt(car.inverted_car_position.x, o.inverted_car_position.x) {
            orange = i;
        }
        i = i + 1;
    }
    (blue, orange)
}


/// The kickoff takers are chosen once per kickoff: once a call with the ball
/// on the centre spot has set both ids (to values other than `-1`), every
/// further call during the kickoff keeps them.
pub proof fn lemma_kickoff_takers_kept(
    before: LeftKickoffReward,
    after: LeftKickoffReward,
    first: GameState,
    later: GameState,
)
    requires
        after.kickoff_id_blue() == before.spec_next_blue(first),
        after.kickoff_id_orange() == before.spec_next_orange(first),
        first.ball_position.spec_is_centre(),
        later.ball_position.spec_is_centre(),
        after.kickoff_id_blue() != -1 && after.kickoff_id_orange() != -1,
    ensures
        after.spec_next_blue(later) == after.kickoff_id_blue(),
        after.spec_next_orange(later) == after.kickoff_id_orange(),
{
}

/// Only one car per team is paid: when car ids are distinct, no two players
/// of one team are both kickoff takers on the same call.
pub proof fn lemma_one_taker_per_team(r: LeftKickoffReward, state: GameState, p: PlayerData, q: PlayerData)
    requires
        p.car_id != q.car_id,
        p.team_num == q.team_num,
    ensures
        !(r.spec_applies(p, state) && r.spec_applies(q, state)),
{
}


/// What one call of the air-dribble reward decided for a player.
#[derive(Clone, Copy, Debug, PartialEq, Eq, Structural)]
pub enum AirTouchOutcome {
    /// The player's streak has reached the cap: the full reward is paid and
    /// the count stays where it is.
    Capped,
    /// An air touch that extends the streak to this many touches.
    Counted(i64),
    /// No air touch: the streak starts again from zero and nothing is paid.
    Reset,
}

/// One step of a player's air-touch count: an air touch adds one unless the
/// cap is reached, anything else resets it.
pub open spec fn spec_touch_step(count: int, air_touch: bool, max_touches: int) -> int {
    if !air_touch {
        0
    } else if count + 1 > max_touches {
        count
    } else {
        count + 1
    }
}

/// A player's count after the touches `events` (air touch or not), one
/// step each, from `count`.
pub open spec fn spec_touch_run(count: int, events: Seq<bool>, max_touches: int) -> int
    decreases events.len(),
{
    if events.len() == 0 {
        count
    } else {
        spec_touch_step(
            spec_touch_run(count, events.drop_last(), max_touches),
            events.last(),
            max_touches,
        )
    }
}

/// Length of the run of air touches at the end of `events`.
pub open spec fn spec_trailing_touches(events: Seq<bool>) -> int
    decreases events.len(),
{
    if events.len() == 0 || !events.last() {
        0
    } else {
        1 + spec_trailing_touches(events.drop_last())
    }
}

/// Rewards consecutive touches of the ball in the air: each player's streak
/// is counted up to `max_touches`, and ends with any call that is not an
/// air touch.
#[derive(Debug)]
pub struct DribbleAirTouchReward {
    max_touches: i64,
    curr_touch_vals: HashMap<i32, i64>,
}

impl DribbleAirTouchReward {
    /// The cap on a streak.
    pub closed spec fn max_touches(self) -> i64 {
        self.max_touches
    }

    /// Each known car id with the length of its current streak.
    pub closed spec fn counts(self) -> Map<i32, i64> {
        self.curr_touch_vals@
    }

    /// Every count lies between zero and the cap (or is zero).
    pub open spec fn wf(self) -> bool {
        forall|id: i32| #[trigger] self.counts().contains_key(id) ==> {
            let c = self.counts()[id];
            0 <= c && (c == 0 || c <= self.max_touches())
        }
    }

    /// A reward with the given cap (20 by default) and a zero count for the
    /// car ids `0` to `5`.
    pub fn new(max_touch_op: Option<i64>) -> (r: DribbleAirTouchReward)
        ensures
            r.max_touches() == (match max_touch_op {
                Some(v) => v,
                None => 20i64,
            }),
            r.counts() == Map::new(|id: i32| 0 <= id < 6, |id: i32| 0i64),
            r.wf(),
    {
        broadcast use vstd::std_specs::hash::group_hash_axioms;

        let max_touches = match max_touch_op {
            Some(val) => val,
            None => 20,
        };
        let mut curr_touch_vals: HashMap<i32, i64> = HashMap::new();
        let mut i: i32 = 0;
        while i < 6
            invariant
                0 <= i <= 6,
                curr_touch_vals@ == Map::new(|id: i32| 0 <= id < i, |id: i32| 0i64),
            decreases 6 - i,
        {
            curr_touch_vals.insert(i, 0);
            proof {
                assert(curr_touch_vals@ =~= Map::new(|id: i32| 0 <= id < i + 1, |id: i32| 0i64));
            }
            i = i + 1;
        }
        let r = DribbleAirTouchReward { max_touches, curr_touch_vals };
        assert(r.counts() =~= Map::new(|id: i32| 0 <= id < 6, |id: i32| 0i64));
        r
    }

    /// The cap on a streak.
    pub fn get_max_touches(&self) -> (m: i64)
        ensures
            m == self.max_touches(),
    {
        self.max_touches
    }

    /// Whether the reward keeps a streak for the car `car_id`.
    pub fn knows_car(&self, car_id: i32) -> (r: bool)
        ensures
            r == self.counts().contains_key(car_id),
    {
        broadcast use vstd::std_specs::hash::group_hash_axioms;

        self.curr_touch_vals.contains_key(&car_id)
    }

    /// Leaves every streak as it is.
    pub fn reset(&mut self, _initial_state: &GameState)
        ensures
            final(self).counts() == old(self).counts(),
            final(self).max_touches() == old(self).max_touches(),
    {
    }

    /// Counts one call for the car `car_id`; `air_touch` says whether it
    /// touched the ball in the air above the reward's height. An air touch
    /// needs the car to be known to the reward; any other call starts the
    /// car's streak at zero, known or not.
    pub fn get_reward(&mut self, car_id: i32, air_touch: bool) -> (out: AirTouchOutcome)
        requires
            old(self).wf(),
            air_touch ==> old(self).counts().contains_key(car_id),
        ensures
            final(self).wf(),
            final(self).max_touches() == old(self).max_touches(),
            final(self).counts() == old(self).counts().insert(
                car_id,
                spec_touch_step(
                    old(self).counts()[car_id] as int,
                    air_touch,
                    old(self).max_touches() as int,
                ) as i64,
            ),
            out == (if !air_touch {
                AirTouchOutcome::Reset
            } else if old(self).counts()[car_id] + 1 > old(self).max_touches() {
                AirTouchOutcome::Capped
            } else {
                AirTouchOutcome::Counted((old(self).counts()[car_id] + 1) as i64)
            }),
    {
        broadcast use vstd::std_specs::hash::group_hash_axioms;

        if air_touch {
            let count: i64 = match self.curr_touch_vals.get(&car_id) {
                Some(v) => *v,
                None => 0,
            };
            if count >= self.max_touches {
                proof {
                    assert(self.curr_touch_vals@.insert(car_id, count) =~= self.curr_touch_vals@);
                }
                AirTouchOutcome::Capped
            } else {
                self.curr_touch_vals.insert(car_id, count + 1);
                AirTouchOutcome::Counted(count + 1)
            }
        } else {
            let ghost before = self.curr_touch_vals@;
            self.curr_touch_vals.insert(car_id, 0);
            proof {
                assert(self.curr_touch_vals@ == before.insert(car_id, 0));
                assert(before == old(self).counts());
                assert forall|id: i32| #[trigger] self.counts().contains_key(id) implies {
                    let c = self.counts()[id];
                    0 <= c && (c == 0 || c <= self.max_touches())
                } by {
                    if id != car_id {
                        assert(old(self).counts().contains_key(id));
                        assert(self.counts()[id] == old(self).counts()[id]);
                    }
                }
            }
            AirTouchOutcome::Reset
        }
    }

    pub fn get_final_reward(&mut self, car_id: i32, air_touch: bool) -> (out: AirTouchOutcome)
        requires
            old(self).wf(),
            air_touch ==> old(self).counts().contains_key(car_id),
        ensures
            final(self).wf(),
            final(self).max_touches() == old(self).max_touches(),
            final(self).counts() == old(self).counts().insert(
                car_id,
                spec_touch_step(
                    old(self).counts()[car_id] as int,
                    air_touch,
                    old(self).max_touches() as int,
                ) as i64,
            ),
            out == (if !air_touch {
                AirTouchOutcome::Reset
            } else if old(self).counts()[car_id] + 1 > old(self).max_touches() {
                AirTouchOutcome::Capped
            } else {
                AirTouchOutcome::Counted((old(self).counts()[car_id] + 1) as i64)
            }),
    {
        self.get_reward(car_id, air_touch)
    }
}

/// A player's count is the length of its current run of air touches, capped
/// at `max_touches`: from a zero count, after any calls `events`, it is the
/// smaller of the trailing air touches and the cap.
pub proof fn lemma_streak_is_capped_run(events: Seq<bool>, max_touches: int)
    requires
        max_touches >= 0,
    ensures
        spec_touch_run(0, events, max_touches) == if spec_trailing_touches(events) < max_touches {
            spec_trailing_touches(events)
        } else {
            max_touches
        },
    decreases events.len(),
{
    if events.len() > 0 {
        lemma_streak_is_capped_run(events.drop_last(), max_touches);
    }
}


/// The folder of the reward log (`./combinedlogfiles` unless given) and the
/// log file in it, `rewards.txt`.
pub fn reward_log_paths(file_location: Option<String>) -> (paths: (String, String))
    ensures
        paths.0@ == (match file_location {
            Some(l) => l@,
            None => "./combinedlogfiles"@,
        }),
        paths.1@ == paths.0@ + "/rewards.txt"@,
{
    let dir = match file_location {
        Some(l) => l,
        None => String::from_str("./combinedlogfiles"),
    };
    let mut file = dir.clone();
    file.append("/rewards.txt");
    (dir, file)
}

} // verus!
