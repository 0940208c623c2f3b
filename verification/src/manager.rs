use vstd::prelude::*;

verus! {

/// `n / 2` as Rust computes it on `i32`: truncated toward zero.
pub open spec fn spec_half(n: i32) -> int {
    if n >= 0 {
        n / 2
    } else {
        -((-n) / 2)
    }
}

/// `n / 2` on `i32`, truncated toward zero.
pub fn half(n: i32) -> (r: i32)
    ensures
        r == spec_half(n),
{
    if n >= 0 {
        n / 2
    } else {
        let m: i64 = -(n as i64);
        -((m / 2) as i32)
    }
}

/// Number of agents each environment contributes to the manager: the whole
/// match in self-play, half of it (one team) otherwise. Pairs beyond the
/// shorter list are ignored.
pub open spec fn spec_corrected_match_nums(match_nums: Seq<i32>, self_plays: Seq<bool>) -> Seq<i32> {
    Seq::new(
        if match_nums.len() <= self_plays.len() {
            match_nums.len()
        } else {
            self_plays.len()
        },
        |i: int|
            if self_plays[i] {
                match_nums[i]
            } else {
                spec_half(match_nums[i]) as i32
            },
    )
}

pub fn corrected_match_nums(match_nums: &Vec<i32>, self_plays: &Vec<bool>) -> (r: Vec<i32>)
    ensures
        r@ == spec_corrected_match_nums(match_nums@, self_plays@),
{
    let n = if match_nums.len() <= self_plays.len() {
        match_nums.len()
    } else {
        self_plays.len()
    };
    let mut r: Vec<i32> = Vec::new();
    let mut i: usize = 0;
    while i < n
        invariant
            n <= match_nums@.len() && n <= self_plays@.len(),
            n == (if match_nums@.len() <= self_plays@.len() {
                match_nums@.len()
            } else {
                self_plays@.len()
            }),
            i <= n,
            r@ =~= spec_corrected_match_nums(match_nums@, self_plays@).take(i as int),
        decreases n - i,
    {
        if self_plays[i] {
            r.push(match_nums[i]);
        } else {
            r.push(half(match_nums[i]));
        }
        i = i + 1;
    }
    r
}


/// Sum of `xs[0..n]`.
pub open spec fn spec_prefix_sum(xs: Seq<i32>, n: int) -> int
    decreases n,
{
    if n <= 0 {
        0
    } else {
        spec_prefix_sum(xs, n - 1) + xs[n - 1]
    }
}

/// Every running total of `xs` fits in an `i32`.
pub open spec fn spec_sums_fit_i32(xs: Seq<i32>) -> bool {
    forall|n: int| 0 <= n <= xs.len() ==> i32::MIN <= #[trigger] spec_prefix_sum(xs, n) <= i32::MAX
}

/// Total number of agents over all environments: the `i32` sum of the
/// per-environment counts, converted to `usize` (a negative total wraps).
pub fn total_agents(counts: &Vec<i32>) -> (total: usize)
    requires
        spec_sums_fit_i32(counts@),
    ensures
        total == spec_prefix_sum(counts@, counts@.len() as int) as usize,
{
    let mut sum: i32 = 0;
    let mut i: usize = 0;
    while i < counts.len()
        invariant
            i <= counts@.len(),
            spec_sums_fit_i32(counts@),
            sum == spec_prefix_sum(counts@, i as int),
        decreases counts@.len() - i,
    {
        assert(i32::MIN <= spec_prefix_sum(counts@, i + 1) <= i32::MAX);
        sum = sum + counts[i];
        i = i + 1;
    }
    sum as usize
}

/// The counts can cut `n_actions` actions into consecutive slices: none is
/// negative and together they take at most `n_actions`.
pub open spec fn spec_ranges_fit(counts: Seq<i32>, n_actions: int) -> bool {
    &&& forall|k: int| 0 <= k < counts.len() ==> #[trigger] counts[k] >= 0
    &&& spec_prefix_sum(counts, counts.len() as int) <= n_actions
}

proof fn lemma_prefix_monotone(counts: Seq<i32>, k: int, m: int)
    requires
        0 <= k <= m <= counts.len(),
        forall|j: int| 0 <= j < counts.len() ==> #[trigger] counts[j] >= 0,
    ensures
        0 <= spec_prefix_sum(counts, k) <= spec_prefix_sum(counts, m),
    decreases m,
{
    if m > k {
        lemma_prefix_monotone(counts, k, m - 1);
    } else if k > 0 {
        lemma_prefix_monotone(counts, k - 1, k - 1);
    }
}

/// The slice of the flat action list that goes to each environment: the
/// environments take consecutive slices, each as long as its agent count.
pub fn action_ranges(counts: &Vec<i32>, n_actions: usize) -> (ranges: Vec<(usize, usize)>)
    requires
        spec_ranges_fit(counts@, n_actions as int),
    ensures
        ranges@.len() == counts@.len(),
        forall|k: int|
            0 <= k < counts@.len() ==> (#[trigger] ranges@[k]).0 == spec_prefix_sum(counts@, k)
                && ranges@[k].1 == spec_prefix_sum(counts@, k + 1),
{
    let mut ranges: Vec<(usize, usize)> = Vec::new();
    let mut i: usize = 0;
    let mut k: usize = 0;
    while k < counts.len()
        invariant
            k <= counts@.len(),
            spec_ranges_fit(counts@, n_actions as int),
            i == spec_prefix_sum(counts@, k as int),
            ranges@.len() == k,
            forall|j: int|
                0 <= j < k ==> (#[trigger] ranges@[j]).0 == spec_prefix_sum(counts@, j)
                    && ranges@[j].1 == spec_prefix_sum(counts@, j + 1),
        decreases counts@.len() - k,
    {
        proof {
            lemma_prefix_monotone(counts@, k + 1, counts@.len() as int);
        }
        let end: usize = i + counts[k] as usize;
        ranges.push((i, end));
        i = end;
        k = k + 1;
    }
    ranges
}

/// The slices of `action_ranges` tile the first `total` actions: the first
/// starts at 0, each starts where the previous one ends, each is as long as
/// its count, and the last ends at the total count.
pub proof fn lemma_action_ranges_tile(counts: Seq<i32>, ranges: Seq<(usize, usize)>)
    requires
        ranges.len() == counts.len(),
        forall|k: int|
            0 <= k < counts.len() ==> (#[trigger] ranges[k]).0 == spec_prefix_sum(counts, k)
                && ranges[k].1 == spec_prefix_sum(counts, k + 1),
    ensures
        ranges.len() > 0 ==> ranges[0].0 == 0,
        forall|k: int| 0 < k < ranges.len() ==> (#[trigger] ranges[k]).0 == ranges[k - 1].1,
        forall|k: int| 0 <= k < ranges.len() ==> (#[trigger] ranges[k]).1 - ranges[k].0 == counts[k],
        ranges.len() > 0 ==> ranges[ranges.len() - 1].1 == spec_prefix_sum(
            counts,
            counts.len() as int,
        ),
{
}


/// Seconds a worker waits for its game to launch before it gives up.
pub const LAUNCH_WAIT_SECONDS: u32 = 70;

/// A command from the manager to one of its workers.
#[derive(Clone, Copy, Debug, PartialEq, Eq, Structural)]
pub enum WorkerCommand {
    /// Step the environment with the actions that come with the command.
    Step,
    /// Reset the environment.
    Reset,
    /// Close the environment and end the worker.
    Close,
}

/// What a worker learns between two decisions.
#[derive(Clone, Copy, Debug, PartialEq, Eq, Structural)]
pub enum WorkerEvent {
    /// The environment finished its first reset: the game is up.
    LaunchFinished,
    /// The first reset was still running, and the worker slept a second.
    SecondWaited,
    /// A command came from the manager.
    Received(WorkerCommand),
    /// The manager's channel hung up.
    RecvFailed,
    /// A step of the environment returned, ending the match or not.
    Stepped { done: bool },
    /// An answer could not be sent to the manager.
    SendFailed,
}

/// Where a worker stands.
#[derive(Clone, Copy, Debug, PartialEq, Eq, Structural)]
pub enum WorkerState {
    /// Waiting for the game to launch, for this many seconds so far.
    Launching { waited: u32 },
    /// Answering the manager's commands.
    Serving,
    /// Done: nothing more happens.
    Stopped,
}

/// What a worker does next.
#[derive(Clone, Copy, Debug, PartialEq, Eq, Structural)]
pub enum WorkerAction {
    /// Check the launch again.
    KeepWaiting,
    /// Give up on the launch: force the pipe closed and end, without closing
    /// the environment.
    ClosePipe,
    /// Take the launched environment and tell the manager it is ready.
    ReportReady,
    /// Step the environment with the received actions.
    RunStep,
    /// Send the step's observations, rewards, done flag and info.
    SendStep,
    /// The match ended: keep the step's observations as terminal ones, reset
    /// the environment and send both.
    ResetAndSendDone,
    /// Reset the environment and send its observations.
    ResetAndSend,
    /// Close the environment and end.
    CloseEnv,
    /// Nothing to do.
    Nothing,
}

/// The worker's waiting count never passes the limit while it launches.
pub open spec fn spec_worker_state_wf(state: WorkerState) -> bool {
    match state {
        WorkerState::Launching { waited } => waited <= LAUNCH_WAIT_SECONDS,
        _ => true,
    }
}

/// A worker's decision table: its next state and action for each event.
pub open spec fn spec_worker_step(state: WorkerState, event: WorkerEvent) -> (WorkerState, WorkerAction) {
    match state {
        WorkerState::Launching { waited } => match event {
            WorkerEvent::LaunchFinished => (WorkerState::Serving, WorkerAction::ReportReady),
            WorkerEvent::SecondWaited => if waited + 1 > LAUNCH_WAIT_SECONDS {
                (WorkerState::Stopped, WorkerAction::ClosePipe)
            } else {
                (WorkerState::Launching { waited: (waited + 1) as u32 }, WorkerAction::KeepWaiting)
            },
            _ => (state, WorkerAction::Nothing),
        },
        WorkerState::Serving => match event {
            WorkerEvent::Received(WorkerCommand::Step) => (WorkerState::Serving, WorkerAction::RunStep),
            WorkerEvent::Received(WorkerCommand::Reset) => (WorkerState::Serving, WorkerAction::ResetAndSend),
            WorkerEvent::Received(WorkerCommand::Close) => (WorkerState::Stopped, WorkerAction::CloseEnv),
            WorkerEvent::Stepped { done } => (WorkerState::Serving, if done {
                WorkerAction::ResetAndSendDone
            } else {
                WorkerAction::SendStep
            }),
            WorkerEvent::RecvFailed => (WorkerState::Stopped, WorkerAction::CloseEnv),
            WorkerEvent::SendFailed => (WorkerState::Stopped, WorkerAction::CloseEnv),
            _ => (state, WorkerAction::Nothing),
        },
        WorkerState::Stopped => (state, WorkerAction::Nothing),
    }
}

/// A worker's first state: launching, nothing waited yet.
pub fn worker_start() -> (s: WorkerState)
    ensures
        s == (WorkerState::Launching { waited: 0 }),
{
    WorkerState::Launching { waited: 0 }
}

/// A worker's next state and action for an event.
pub fn worker_step(state: WorkerState, event: WorkerEvent) -> (r: (WorkerState, WorkerAction))
    requires
        spec_worker_state_wf(state),
    ensures
        r == spec_worker_step(state, event),
        spec_worker_state_wf(r.0),
{
    match state {
        WorkerState::Launching { waited } => match event {
            WorkerEvent::LaunchFinished => (WorkerState::Serving, WorkerAction::ReportReady),
            WorkerEvent::SecondWaited => {
                let waited = waited + 1;
                if waited > LAUNCH_WAIT_SECONDS {
                    (WorkerState::Stopped, WorkerAction::ClosePipe)
                } else {
                    (WorkerState::Launching { waited }, WorkerAction::KeepWaiting)
                }
            },
            _ => (state, WorkerAction::Nothing),
        },
        WorkerState::Serving => match event {
            WorkerEvent::Received(WorkerCommand::Step) => (WorkerState::Serving, WorkerAction::RunStep),
            WorkerEvent::Received(WorkerCommand::Reset) => (WorkerState::Serving, WorkerAction::ResetAndSend),
            WorkerEvent::Received(WorkerCommand::Close) => (WorkerState::Stopped, WorkerAction::CloseEnv),
            WorkerEvent::Stepped { done } => (WorkerState::Serving, if done {
                WorkerAction::ResetAndSendDone
            } else {
                WorkerAction::SendStep
            }),
            WorkerEvent::RecvFailed => (WorkerState::Stopped, WorkerAction::CloseEnv),
            WorkerEvent::SendFailed => (WorkerState::Stopped, WorkerAction::CloseEnv),
            _ => (state, WorkerAction::Nothing),
        },
        WorkerState::Stopped => (state, WorkerAction::Nothing),
    }
}

/// The state after `k` seconds of waiting for the launch, from the start.
pub open spec fn spec_after_waiting(k: nat) -> WorkerState
    decreases k,
{
    if k == 0 {
        WorkerState::Launching { waited: 0 }
    } else {
        spec_worker_step(spec_after_waiting((k - 1) as nat), WorkerEvent::SecondWaited).0
    }
}

/// A worker waits for its game for at most the limit: after `k` seconds
/// without a launch it is still launching while `k` is within the limit, and
/// it has given up once `k` passes it, with the second after the limit being
/// the one that closes the pipe.
pub proof fn lemma_launch_gives_up(k: nat)
    ensures
        k <= LAUNCH_WAIT_SECONDS ==> spec_after_waiting(k) == (WorkerState::Launching { waited: k as u32 }),
        k > LAUNCH_WAIT_SECONDS ==> spec_after_waiting(k) == WorkerState::Stopped,
        k == LAUNCH_WAIT_SECONDS + 1 ==> spec_worker_step(
            spec_after_waiting((k - 1) as nat),
            WorkerEvent::SecondWaited,
        ).1 == WorkerAction::ClosePipe,
    decreases k,
{
    if k > 0 {
        lemma_launch_gives_up((k - 1) as nat);
    }
}

/// A stopped worker stays stopped and does nothing, whatever happens.
pub proof fn lemma_stopped_stays(event: WorkerEvent)
    ensures
        spec_worker_step(WorkerState::Stopped, event) == (WorkerState::Stopped, WorkerAction::Nothing),
{
}

/// A serving worker keeps serving until the manager closes it or a channel
/// fails, and then it closes the environment.
pub proof fn lemma_serving_ends_only_on_close(event: WorkerEvent)
    ensures
        (spec_worker_step(WorkerState::Serving, event).0 == WorkerState::Stopped) <==> (event
            == WorkerEvent::Received(WorkerCommand::Close) || event == WorkerEvent::RecvFailed
            || event == WorkerEvent::SendFailed),
        spec_worker_step(WorkerState::Serving, event).0 == WorkerState::Stopped ==> spec_worker_step(
            WorkerState::Serving,
            event,
        ).1 == WorkerAction::CloseEnv,
{
}


/// One value per agent: each environment's value repeated for each of its
/// agents, environments in order, over the first `n` environments.
pub open spec fn spec_spread<T>(values: Seq<T>, counts: Seq<i32>, n: int) -> Seq<T>
    decreases n,
{
    if n <= 0 {
        Seq::empty()
    } else {
        spec_spread(values, counts, n - 1) + Seq::new(counts[n - 1] as nat, |i: int| values[n - 1])
    }
}

/// Repeats each environment's value (its done flag, say) once per agent of
/// that environment, so that the values line up with the flat list of
/// agents. Pairs beyond the shorter list are ignored.
pub fn spread_per_agent<T: Copy>(values: &Vec<T>, counts: &Vec<i32>) -> (r: Vec<T>)
    requires
        spec_ranges_fit(counts@, usize::MAX as int),
    ensures
        r@ == spec_spread(
            values@,
            counts@,
            if values@.len() <= counts@.len() {
                values@.len() as int
            } else {
                counts@.len() as int
            },
        ),
{
    let n = if values.len() <= counts.len() {
        values.len()
    } else {
        counts.len()
    };
    let mut r: Vec<T> = Vec::new();
    let mut k: usize = 0;
    while k < n
        invariant
            n <= values@.len() && n <= counts@.len(),
            k <= n,
            spec_ranges_fit(counts@, usize::MAX as int),
            r@ == spec_spread(values@, counts@, k as int),
            r@.len() == spec_prefix_sum(counts@, k as int),
        decreases n - k,
    {
        proof {
            lemma_prefix_monotone(counts@, k + 1, counts@.len() as int);
        }
        let v = values[k];
        let c = counts[k] as usize;
        let ghost before = r@;
        let mut j: usize = 0;
        while j < c
            invariant
                j <= c,
                r@ == before + Seq::new(j as nat, |i: int| v),
                before.len() + c <= usize::MAX,
            decreases c - j,
        {
            r.push(v);
            proof {
                assert(r@ =~= before + Seq::new((j + 1) as nat, |i: int| v));
            }
            j = j + 1;
        }
        proof {
            assert(r@ =~= spec_spread(values@, counts@, k + 1));
        }
        k = k + 1;
    }
    r
}

/// The spread values line up with the action slices: the agents whose
/// actions went to environment `k` (its slice from `action_ranges`) are
/// exactly the positions that carry environment `k`'s value, and there is
/// one value per agent in all.
pub proof fn lemma_spread_matches_ranges<T>(values: Seq<T>, counts: Seq<i32>, n: int)
    requires
        0 <= n <= values.len(),
        n <= counts.len(),
        forall|k: int| 0 <= k < counts.len() ==> #[trigger] counts[k] >= 0,
    ensures
        spec_spread(values, counts, n).len() == spec_prefix_sum(counts, n),
        forall|k: int, i: int|
            0 <= k < n && spec_prefix_sum(counts, k) <= i < spec_prefix_sum(counts, k + 1)
                ==> #[trigger] spec_spread(values, counts, n)[i] == #[trigger] values[k],
    decreases n,
{
    if n > 0 {
        lemma_spread_matches_ranges(values, counts, n - 1);
        let prev = spec_spread(values, counts, n - 1);
        let all = spec_spread(values, counts, n);
        assert forall|k: int, i: int|
            0 <= k < n && spec_prefix_sum(counts, k) <= i < spec_prefix_sum(counts, k + 1)
                implies #[trigger] all[i] == #[trigger] values[k] by {
            assert(all == prev + Seq::new(counts[n - 1] as nat, |j: int| values[n - 1]));
            if k < n - 1 {
                lemma_prefix_monotone(counts, k + 1, n - 1);
                lemma_prefix_monotone(counts, k, n - 1);
                assert(0 <= i < prev.len());
                assert(all[i] == prev[i]);
                assert(prev[i] == values[k]);
            }
        }
    }
}

} // verus!
