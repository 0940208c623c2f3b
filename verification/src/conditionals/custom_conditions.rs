use vstd::prelude::*;
use crate::gamestates::game_state::GameState;
use crate::conditionals::common_conditions::{
    GoalScoredCondition, NoTouchTimeoutCondition, TimeoutCondition,
};

verus! {

/// `numer / (tick_skip as i64)` as Rust computes it: the cast wraps values
/// above `i64::MAX` to negative divisors, and the quotient is truncated toward zero.
pub open spec fn spec_div_by_tick_skip(numer: nat, tick_skip: usize) -> int {
    if tick_skip <= i64::MAX {
        (numer / (tick_skip as nat)) as int
    } else {
        -((numer / ((usize::MAX - tick_skip) + 1) as nat) as int)
    }
}

/// Computes `numer / (tick_skip as i64)` for a positive step budget `numer`.
fn div_by_tick_skip(numer: u64, tick_skip: usize) -> (r: i64)
    requires
        tick_skip != 0,
        numer <= i64::MAX,
    ensures
        r == spec_div_by_tick_skip(numer as nat, tick_skip),
{
    if tick_skip as u128 <= i64::MAX as u128 {
        let q: u64 = numer / (tick_skip as u64);
        q as i64
    } else {
        let magnitude: usize = (usize::MAX - tick_skip) + 1;
        let q: u64 = numer / (magnitude as u64);
        -(q as i64)
    }
}

/// The four terminal conditions used for training, checked together.
pub struct CombinedTerminalConditions {
    pub timeout_condition: TimeoutCondition,
    pub no_touch_timeout_condition: NoTouchTimeoutCondition,
    pub goal_scored_condition: GoalScoredCondition,
    pub no_touch_kickoff_condition: NoTouchKickoffTimeoutCondition,
}

impl CombinedTerminalConditions {
    /// Limits of 400, 100 and 20 seconds (at 120 ticks per second) for the
    /// episode, the time without a touch and the kickoff without a touch.
    pub fn new(tick_skip: usize) -> (c: CombinedTerminalConditions)
        requires
            tick_skip != 0,
        ensures
            c.timeout_condition.steps() == 0,
            c.timeout_condition.max_steps() == spec_div_by_tick_skip(400 * 120, tick_skip),
            c.no_touch_timeout_condition.steps() == 0,
            c.no_touch_timeout_condition.max_steps() == spec_div_by_tick_skip(100 * 120, tick_skip),
            c.goal_scored_condition.blue_score() == 0,
            c.goal_scored_condition.orange_score() == 0,
            c.no_touch_kickoff_condition.steps() == 0,
            c.no_touch_kickoff_condition.max_steps() == spec_div_by_tick_skip(20 * 120, tick_skip),
    {
        CombinedTerminalConditions {
            timeout_condition: TimeoutCondition::new(div_by_tick_skip(400 * 120, tick_skip)),
            no_touch_timeout_condition: NoTouchTimeoutCondition::new(
                div_by_tick_skip(100 * 120, tick_skip),
            ),
            goal_scored_condition: GoalScoredCondition::new(),
            no_touch_kickoff_condition: NoTouchKickoffTimeoutCondition::new(
                div_by_tick_skip(20 * 120, tick_skip),
            ),
        }
    }

    pub fn reset(&mut self, initial_state: &GameState)
        ensures
            final(self).timeout_condition.steps() == 0,
            final(self).timeout_condition.max_steps() == old(self).timeout_condition.max_steps(),
            final(self).no_touch_timeout_condition.steps() == 0,
            final(self).no_touch_timeout_condition.max_steps()
                == old(self).no_touch_timeout_condition.max_steps(),
            final(self).goal_scored_condition.blue_score()
                == old(self).goal_scored_condition.blue_score(),
            final(self).goal_scored_condition.orange_score()
                == old(self).goal_scored_condition.orange_score(),
            final(self).no_touch_kickoff_condition.steps() == 0,
            final(self).no_touch_kickoff_condition.max_steps()
                == old(self).no_touch_kickoff_condition.max_steps(),
    {
        self.timeout_condition.reset(initial_state);
        self.no_touch_timeout_condition.reset(initial_state);
        self.goal_scored_condition.reset(initial_state);
        self.no_touch_kickoff_condition.reset(initial_state);
    }

    /// Whether each of the four conditions may take a step on this state.
    pub open spec fn spec_can_step(self, state: GameState) -> bool {
        &&& self.timeout_condition.spec_can_step(state)
        &&& self.no_touch_timeout_condition.spec_can_step(state)
        &&& self.no_touch_kickoff_condition.spec_can_step(state)
    }

    /// What `is_terminal` reports on `state`: whether any of the four ends the episode.
    pub open spec fn spec_done(self, state: GameState) -> bool {
        ||| self.timeout_condition.spec_done(state)
        ||| self.no_touch_timeout_condition.spec_done(state)
        ||| self.goal_scored_condition.spec_done(state)
        ||| self.no_touch_kickoff_condition.spec_done(state)
    }

    /// Steps every one of the four conditions on the state (all four are
    /// evaluated, in order), and reports whether any of them ends the episode.
    pub fn is_terminal(&mut self, current_state: &GameState) -> (r: bool)
        requires
            old(self).spec_can_step(*current_state),
        ensures
            final(self).timeout_condition.steps()
                == old(self).timeout_condition.spec_next_steps(*current_state),
            final(self).timeout_condition.max_steps() == old(self).timeout_condition.max_steps(),
            final(self).no_touch_timeout_condition.steps()
                == old(self).no_touch_timeout_condition.spec_next_steps(*current_state),
            final(self).no_touch_timeout_condition.max_steps()
                == old(self).no_touch_timeout_condition.max_steps(),
            final(self).goal_scored_condition.blue_score()
                == old(self).goal_scored_condition.spec_next_blue(*current_state),
            final(self).goal_scored_condition.orange_score()
                == old(self).goal_scored_condition.spec_next_orange(*current_state),
            final(self).no_touch_kickoff_condition.steps()
                == old(self).no_touch_kickoff_condition.spec_next_steps(*current_state),
            final(self).no_touch_kickoff_condition.max_steps()
                == old(self).no_touch_kickoff_condition.max_steps(),
            r == old(self).spec_done(*current_state),
    {
        let t = self.timeout_condition.is_terminal(current_state);
        let n = self.no_touch_timeout_condition.is_terminal(current_state);
        let g = self.goal_scored_condition.is_terminal(current_state);
        let k = self.no_touch_kickoff_condition.is_terminal(current_state);
        t || n || g || k
    }
}

/// Ends an episode when nobody touches the ball during a kickoff for too long.
/// Steps are only counted while the ball rests on the centre spot.
pub struct NoTouchKickoffTimeoutCondition {
    steps: i64,
    max_steps: i64,
}

impl NoTouchKickoffTimeoutCondition {
    /// Kickoff steps without a touch counted since the last reset or touch.
    pub closed spec fn steps(self) -> i64 {
        self.steps
    }

    /// Number of kickoff steps without a touch after which the episode ends.
    pub closed spec fn max_steps(self) -> i64 {
        self.max_steps
    }

    /// The step count after one call to `is_terminal`: unchanged while the
    /// ball is away from the centre spot; on it, restarted by a touch and
    /// otherwise up by one.
    pub open spec fn spec_next_steps(self, state: GameState) -> int {
        if !state.ball_position.spec_is_centre() {
            self.steps() as int
        } else if state.spec_any_touched() {
            0
        } else {
            self.steps() + 1
        }
    }

    /// What `is_terminal` reports on `state`.
    pub open spec fn spec_done(self, state: GameState) -> bool {
        state.ball_position.spec_is_centre() && !state.spec_any_touched()
            && self.spec_next_steps(state) >= self.max_steps()
    }

    /// Whether `is_terminal` may be called on `state` (the counter cannot overflow).
    pub open spec fn spec_can_step(self, state: GameState) -> bool {
        state.ball_position.spec_is_centre() && !state.spec_any_touched() ==> self.steps()
            < i64::MAX
    }

    pub fn new(max_steps: i64) -> (c: NoTouchKickoffTimeoutCondition)
        ensures
            c.steps() == 0,
            c.max_steps() == max_steps,
    {
        NoTouchKickoffTimeoutCondition { steps: 0, max_steps: max_steps }
    }

    /// Steps counted so far.
    pub fn step_count(&self) -> (n: i64)
        ensures
            n == self.steps(),
    {
        self.steps
    }

    pub fn reset(&mut self, _initial_state: &GameState)
        ensures
            final(self).steps() == 0,
            final(self).max_steps() == old(self).max_steps(),
    {
        self.steps = 0;
    }

    /// Away from the centre spot nothing changes and the episode goes on; on it,
    /// a touch restarts the count, and otherwise one more step is counted and
    /// the limit is checked.
    pub fn is_terminal(&mut self, current_state: &GameState) -> (r: bool)
        requires
            old(self).spec_can_step(*current_state),
        ensures
            final(self).steps() == old(self).spec_next_steps(*current_state),
            final(self).max_steps() == old(self).max_steps(),
            r == old(self).spec_done(*current_state),
    {
        if current_state.ball_position.is_centre() {
            if current_state.any_touched() {
                self.steps = 0;
                false
            } else {
                self.steps = self.steps + 1;
                self.steps >= self.max_steps
            }
        } else {
            false
        }
    }
}


/// Number of kickoff states (ball on the centre spot) without a touch since
/// the last kickoff state with a touch, among the states before `states[i]`;
/// states with the ball elsewhere are skipped.
pub open spec fn spec_kickoff_untouched_run(states: Seq<GameState>, i: int) -> int
    decreases i,
{
    if i <= 0 {
        0
    } else if !states[i - 1].ball_position.spec_is_centre() {
        spec_kickoff_untouched_run(states, i - 1)
    } else if states[i - 1].spec_any_touched() {
        0
    } else {
        spec_kickoff_untouched_run(states, i - 1) + 1
    }
}

/// The kickoff timeout counts only kickoff steps without a touch: over a
/// run of `is_terminal` calls after a reset, the `i`-th call ends the
/// episode exactly when `states[i]` is a kickoff state without a touch that
/// brings the count of such states (since the last touch on the spot) to
/// `max_steps`.
pub proof fn lemma_kickoff_run(conds: Seq<NoTouchKickoffTimeoutCondition>, states: Seq<GameState>)
    requires
        conds.len() == states.len() + 1,
        conds[0].steps() == 0,
        forall|i: int|
            0 <= i < states.len() ==> (#[trigger] conds[i + 1]).steps() == conds[i].spec_next_steps(
                states[i],
            ) && conds[i + 1].max_steps() == conds[i].max_steps(),
    ensures
        forall|i: int|
            0 <= i < states.len() ==> #[trigger] conds[i].spec_done(states[i]) == (
            states[i].ball_position.spec_is_centre() && !states[i].spec_any_touched()
                && spec_kickoff_untouched_run(states, i + 1) >= conds[0].max_steps()),
{
    assert forall|i: int| 0 <= i < states.len() implies #[trigger] conds[i].spec_done(states[i]) == (
    states[i].ball_position.spec_is_centre() && !states[i].spec_any_touched()
        && spec_kickoff_untouched_run(states, i + 1) >= conds[0].max_steps()) by {
        lemma_kickoff_prefix(conds, states, i);
    }
}

proof fn lemma_kickoff_prefix(
    conds: Seq<NoTouchKickoffTimeoutCondition>,
    states: Seq<GameState>,
    i: int,
)
    requires
        conds.len() == states.len() + 1,
        conds[0].steps() == 0,
        forall|i: int|
            0 <= i < states.len() ==> (#[trigger] conds[i + 1]).steps() == conds[i].spec_next_steps(
                states[i],
            ) && conds[i + 1].max_steps() == conds[i].max_steps(),
        0 <= i <= states.len(),
    ensures
        conds[i].steps() == spec_kickoff_untouched_run(states, i),
        conds[i].max_steps() == conds[0].max_steps(),
    decreases i,
{
    if i > 0 {
        lemma_kickoff_prefix(conds, states, i - 1);
        assert(conds[(i - 1) + 1].steps() == conds[i - 1].spec_next_steps(states[i - 1]));
    }
}

} // verus!
