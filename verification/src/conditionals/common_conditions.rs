use vstd::prelude::*;
use crate::gamestates::game_state::GameState;

verus! {

/// Ends an episode once a fixed number of steps has been taken.
pub struct TimeoutCondition {
    steps: i64,
    max_steps: i64,
}

impl TimeoutCondition {
    /// Steps counted since the last reset.
    pub closed spec fn steps(self) -> i64 {
        self.steps
    }

    /// Number of steps after which the episode ends.
    pub closed spec fn max_steps(self) -> i64 {
        self.max_steps
    }

    /// The step count after one call to `is_terminal`.
    pub open spec fn spec_next_steps(self, state: GameState) -> int {
        self.steps() + 1
    }

    /// What `is_terminal` reports on `state`.
    pub open spec fn spec_done(self, state: GameState) -> bool {
        self.spec_next_steps(state) >= self.max_steps()
    }

    /// Whether `is_terminal` may be called on `state` (the counter cannot overflow).
    pub open spec fn spec_can_step(self, state: GameState) -> bool {
        self.steps() < i64::MAX
    }

    pub fn new(max_steps: i64) -> (c: TimeoutCondition)
        ensures
            c.steps() == 0,
            c.max_steps() == max_steps,
    {
        TimeoutCondition { steps: 0, max_steps: max_steps }
    }

    /// Steps counted so far.
    pub fn step_count(&self) -> (n: i64)
        ensures
            n == self.steps(),
    {
        self.steps
    }

    pub fn reset(&mut self, _initial_state: &GameState)
        ensures
            final(self).steps() == 0,
            final(self).max_steps() == old(self).max_steps(),
    {
        self.steps = 0;
    }

    /// Counts one step and reports whether the step limit has been reached.
    pub fn is_terminal(&mut self, current_state: &GameState) -> (r: bool)
        requires
            old(self).spec_can_step(*current_state),
        ensures
            final(self).steps() == old(self).spec_next_steps(*current_state),
            final(self).max_steps() == old(self).max_steps(),
            r == old(self).spec_done(*current_state),
    {
        self.steps = self.steps + 1;
        self.steps >= self.max_steps
    }
}

/// Ends an episode once no player has touched the ball for a number of steps.
pub struct NoTouchTimeoutCondition {
    steps: i64,
    max_steps: i64,
}

impl NoTouchTimeoutCondition {
    /// Steps without a touch counted since the last reset or touch.
    pub closed spec fn steps(self) -> i64 {
        self.steps
    }

    /// Number of steps without a touch after which the episode ends.
    pub closed spec fn max_steps(self) -> i64 {
        self.max_steps
    }

    /// The step count after one call to `is_terminal`: a touch by any player
    /// restarts it, otherwise it goes up by one.
    pub open spec fn spec_next_steps(self, state: GameState) -> int {
        if state.spec_any_touched() {
            0
        } else {
            self.steps() + 1
        }
    }

    /// What `is_terminal` reports on `state`.
    pub open spec fn spec_done(self, state: GameState) -> bool {
        !state.spec_any_touched() && self.spec_next_steps(state) >= self.max_steps()
    }

    /// Whether `is_terminal` may be called on `state` (the counter cannot overflow).
    pub open spec fn spec_can_step(self, state: GameState) -> bool {
        !state.spec_any_touched() ==> self.steps() < i64::MAX
    }

    pub fn new(max_steps: i64) -> (c: NoTouchTimeoutCondition)
        ensures
            c.steps() == 0,
            c.max_steps() == max_steps,
    {
        NoTouchTimeoutCondition { steps: 0, max_steps: max_steps }
    }

    /// Steps counted so far.
    pub fn step_count(&self) -> (n: i64)
        ensures
            n == self.steps(),
    {
        self.steps
    }

    pub fn reset(&mut self, _initial_state: &GameState)
        ensures
            final(self).steps() == 0,
            final(self).max_steps() == old(self).max_steps(),
    {
        self.steps = 0;
    }

    /// A touch by any player restarts the count and the episode goes on;
    /// otherwise one more step is counted and the limit is checked.
    pub fn is_terminal(&mut self, current_state: &GameState) -> (r: bool)
        requires
            old(self).spec_can_step(*current_state),
        ensures
            final(self).steps() == old(self).spec_next_steps(*current_state),
            final(self).max_steps() == old(self).max_steps(),
            r == old(self).spec_done(*current_state),
    {
        if current_state.any_touched() {
            self.steps = 0;
            false
        } else {
            self.steps = self.steps + 1;
            self.steps >= self.max_steps
        }
    }
}

/// Ends an episode when the score changes.
pub struct GoalScoredCondition {
    blue_score: i64,
    orange_score: i64,
}

impl GoalScoredCondition {
    /// Blue score seen at the last goal (initially 0).
    pub closed spec fn blue_score(self) -> i64 {
        self.blue_score
    }

    /// Orange score seen at the last goal (initially 0).
    pub closed spec fn orange_score(self) -> i64 {
        self.orange_score
    }

    /// What `is_terminal` reports on `state`: whether its score differs from
    /// the score this condition last saw.
    pub open spec fn spec_done(self, state: GameState) -> bool {
        state.blue_score as i64 != self.blue_score() || state.orange_score as i64
            != self.orange_score()
    }

    /// The remembered blue score after one call to `is_terminal`.
    pub open spec fn spec_next_blue(self, state: GameState) -> i64 {
        if self.spec_done(state) {
            state.blue_score as i64
        } else {
            self.blue_score()
        }
    }

    /// The remembered orange score after one call to `is_terminal`.
    pub open spec fn spec_next_orange(self, state: GameState) -> i64 {
        if self.spec_done(state) {
            state.orange_score as i64
        } else {
            self.orange_score()
        }
    }

    pub fn new() -> (c: GoalScoredCondition)
        ensures
            c.blue_score() == 0 && c.orange_score() == 0,
    {
        GoalScoredCondition { blue_score: 0, orange_score: 0 }
    }

    /// Does nothing: the scores seen so far are kept across episodes.
    pub fn reset(&mut self, _initial_state: &GameState)
        ensures
            final(self).blue_score() == old(self).blue_score(),
            final(self).orange_score() == old(self).orange_score(),
    {
    }

    /// Reports a goal when the state's score differs from the one last seen,
    /// and then remembers the new score.
    pub fn is_terminal(&mut self, current_state: &GameState) -> (r: bool)
        ensures
            final(self).blue_score() == old(self).spec_next_blue(*current_state),
            final(self).orange_score() == old(self).spec_next_orange(*current_state),
            r == old(self).spec_done(*current_state),
    {
        let blue = current_state.blue_score as i64;
        let orange = current_state.orange_score as i64;
        if blue != self.blue_score || orange != self.orange_score {
            self.blue_score = blue;
            self.orange_score = orange;
            true
        } else {
            false
        }
    }
}


/// The timeout counts calls: over a run of `is_terminal` calls after a reset
/// (`conds[i + 1]` is `conds[i]` after its call on `states[i]`), the `i`-th
/// call (from 0) has counted `i + 1` steps and ends the episode exactly when
/// `i + 1 >= max_steps`.
pub proof fn lemma_timeout_run(conds: Seq<TimeoutCondition>, states: Seq<GameState>)
    requires
        conds.len() == states.len() + 1,
        conds[0].steps() == 0,
        forall|i: int|
            0 <= i < states.len() ==> (#[trigger] conds[i + 1]).steps() == conds[i].spec_next_steps(
                states[i],
            ) && conds[i + 1].max_steps() == conds[i].max_steps(),
    ensures
        forall|i: int|
            0 <= i < states.len() ==> #[trigger] conds[i].spec_done(states[i]) == (i + 1
                >= conds[0].max_steps()),
{
    assert forall|i: int| 0 <= i <= states.len() implies #[trigger] conds[i].steps() == i
        && conds[i].max_steps() == conds[0].max_steps() by {
        lemma_timeout_prefix(conds, states, i);
    }
    assert forall|i: int| 0 <= i < states.len() implies #[trigger] conds[i].spec_done(states[i]) == (i
        + 1 >= conds[0].max_steps()) by {
        lemma_timeout_prefix(conds, states, i);
    }
}

proof fn lemma_timeout_prefix(conds: Seq<TimeoutCondition>, states: Seq<GameState>, i: int)
    requires
        conds.len() == states.len() + 1,
        conds[0].steps() == 0,
        forall|i: int|
            0 <= i < states.len() ==> (#[trigger] conds[i + 1]).steps() == conds[i].spec_next_steps(
                states[i],
            ) && conds[i + 1].max_steps() == conds[i].max_steps(),
        0 <= i <= states.len(),
    ensures
        conds[i].steps() == i,
        conds[i].max_steps() == conds[0].max_steps(),
    decreases i,
{
    if i > 0 {
        lemma_timeout_prefix(conds, states, i - 1);
        assert(conds[(i - 1) + 1].steps() == conds[i - 1].spec_next_steps(states[i - 1]));
    }
}

/// Number of consecutive states without a touch that end just before `states[i]`.
pub open spec fn spec_untouched_run(states: Seq<GameState>, i: int) -> int
    decreases i,
{
    if i <= 0 {
        0
    } else if states[i - 1].spec_any_touched() {
        0
    } else {
        spec_untouched_run(states, i - 1) + 1
    }
}

/// The no-touch timeout counts consecutive touch-free steps: over a run of
/// `is_terminal` calls after a reset, the `i`-th call ends the episode exactly
/// when `states[i]` has no touch and it closes a touch-free streak of at
/// least `max_steps` states.
pub proof fn lemma_no_touch_run(conds: Seq<NoTouchTimeoutCondition>, states: Seq<GameState>)
    requires
        conds.len() == states.len() + 1,
        conds[0].steps() == 0,
        forall|i: int|
            0 <= i < states.len() ==> (#[trigger] conds[i + 1]).steps() == conds[i].spec_next_steps(
                states[i],
            ) && conds[i + 1].max_steps() == conds[i].max_steps(),
    ensures
        forall|i: int|
            0 <= i < states.len() ==> #[trigger] conds[i].spec_done(states[i]) == (
            !states[i].spec_any_touched() && spec_untouched_run(states, i + 1)
                >= conds[0].max_steps()),
{
    assert forall|i: int| 0 <= i < states.len() implies #[trigger] conds[i].spec_done(states[i]) == (
    !states[i].spec_any_touched() && spec_untouched_run(states, i + 1) >= conds[0].max_steps()) by {
        lemma_no_touch_prefix(conds, states, i);
    }
}

proof fn lemma_no_touch_prefix(
    conds: Seq<NoTouchTimeoutCondition>,
    states: Seq<GameState>,
    i: int,
)
    requires
        conds.len() == states.len() + 1,
        conds[0].steps() == 0,
        forall|i: int|
            0 <= i < states.len() ==> (#[trigger] conds[i + 1]).steps() == conds[i].spec_next_steps(
                states[i],
            ) && conds[i + 1].max_steps() == conds[i].max_steps(),
        0 <= i <= states.len(),
    ensures
        conds[i].steps() == spec_untouched_run(states, i),
        conds[i].max_steps() == conds[0].max_steps(),
    decreases i,
{
    if i > 0 {
        lemma_no_touch_prefix(conds, states, i - 1);
        assert(conds[(i - 1) + 1].steps() == conds[i - 1].spec_next_steps(states[i - 1]));
    }
}

/// A goal ends one episode only: right after a call that reported a goal on
/// `state`, another call on the same state reports none.
pub proof fn lemma_goal_reported_once(
    before: GoalScoredCondition,
    after: GoalScoredCondition,
    state: GameState,
)
    requires
        after.blue_score() == before.spec_next_blue(state),
        after.orange_score() == before.spec_next_orange(state),
    ensures
        !after.spec_done(state),
{
}

} // verus!
