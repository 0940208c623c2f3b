use vstd::prelude::*;
use std::collections::VecDeque;
use crate::gamestates::player_data::PlayerData;

verus! {

/// Which other players go into an observation, and how many blank players pad
/// it, so that every observation shows `team_size - 1` allies and
/// `team_size` opponents.
#[derive(Clone, Debug)]
pub struct ObsPlan {
    /// Indices (into the state's players) of the other players shown, in order.
    pub included: Vec<usize>,
    /// Blank allies appended after them.
    pub ally_dummies: usize,
    /// Blank opponents appended after the blank allies.
    pub enemy_dummies: usize,
}

/// Number of allies of `player` (other cars of its team) among `ps[0..n]`.
pub open spec fn spec_allies_before(ps: Seq<PlayerData>, player: PlayerData, n: int) -> int
    decreases n,
{
    if n <= 0 {
        0
    } else {
        spec_allies_before(ps, player, n - 1) + (if ps[n - 1].car_id != player.car_id
            && ps[n - 1].team_num == player.team_num {
            1int
        } else {
            0int
        })
    }
}

/// Number of opponents of `player` (cars of another team) among `ps[0..n]`.
pub open spec fn spec_enemies_before(ps: Seq<PlayerData>, player: PlayerData, n: int) -> int
    decreases n,
{
    if n <= 0 {
        0
    } else {
        spec_enemies_before(ps, player, n - 1) + (if ps[n - 1].car_id != player.car_id
            && ps[n - 1].team_num != player.team_num {
            1int
        } else {
            0int
        })
    }
}

/// Whether `ps[k]` is shown: another car (by id) that is among the first
/// `team_size - 1` allies or the first `team_size` opponents.
pub open spec fn spec_shown(ps: Seq<PlayerData>, player: PlayerData, team_size: int, k: int) -> bool {
    ps[k].car_id != player.car_id && if ps[k].team_num == player.team_num {
        spec_allies_before(ps, player, k + 1) <= team_size - 1
    } else {
        spec_enemies_before(ps, player, k + 1) <= team_size
    }
}

/// The indices of the shown players, in order.
pub open spec fn spec_shown_indices(ps: Seq<PlayerData>, player: PlayerData, team_size: int) -> Seq<
    usize,
> {
    Seq::new(ps.len(), |k: int| k).filter(|k: int| spec_shown(ps, player, team_size, k)).map_values(
        |k: int| k as usize,
    )
}

/// `a - b` when positive, `0` otherwise.
pub open spec fn spec_shortfall(a: int, b: int) -> int {
    if a > b {
        a - b
    } else {
        0
    }
}

proof fn lemma_counts_bounded(ps: Seq<PlayerData>, player: PlayerData, n: int)
    requires
        0 <= n <= ps.len(),
    ensures
        0 <= spec_allies_before(ps, player, n) <= n,
        0 <= spec_enemies_before(ps, player, n) <= n,
    decreases n,
{
    if n > 0 {
        lemma_counts_bounded(ps, player, n - 1);
    }
}

proof fn lemma_filter_next(n: nat, p: spec_fn(int) -> bool)
    ensures
        Seq::new(n + 1, |i: int| i).filter(p) == (if p(n as int) {
            Seq::new(n, |i: int| i).filter(p).push(n as int)
        } else {
            Seq::new(n, |i: int| i).filter(p)
        }),
{
    reveal_with_fuel(Seq::<_>::filter, 1);
    assert(Seq::new(n + 1, |i: int| i).drop_last() =~= Seq::new(n, |i: int| i));
}

/// Plans the other players of `player`'s observation: in the state's order,
/// allies beyond the first `team_size - 1` and opponents beyond the first
/// `team_size` are left out, and blank players make up for missing ones.
pub fn plan_other_players(players: &Vec<PlayerData>, player: &PlayerData, team_size: usize) -> (plan:
    ObsPlan)
    requires
        team_size >= 1,
    ensures
        plan.included@ == spec_shown_indices(players@, *player, team_size as int),
        plan.ally_dummies == spec_shortfall(
            team_size - 1,
            spec_allies_before(players@, *player, players@.len() as int),
        ),
        plan.enemy_dummies == spec_shortfall(
            team_size as int,
            spec_enemies_before(players@, *player, players@.len() as int),
        ),
{
    let ghost ps = players@;
    let ghost shown = |k: int| spec_shown(ps, *player, team_size as int, k);
    let ghost to_usize = |k: int| k as usize;
    let n = players.len();
    let mut included: Vec<usize> = Vec::new();
    let mut ally_count: usize = 0;
    let mut enemy_count: usize = 0;
    let mut k: usize = 0;
    while k < n
        invariant
            n == ps.len(),
            ps == players@,
            team_size >= 1,
            k <= n,
            shown == (|k: int| spec_shown(ps, *player, team_size as int, k)),
            to_usize == (|k: int| k as usize),
            ally_count == spec_allies_before(ps, *player, k as int),
            enemy_count == spec_enemies_before(ps, *player, k as int),
            included@ =~= Seq::new(k as nat, |i: int| i).filter(shown).map_values(to_usize),
        decreases n - k,
    {
        proof {
            lemma_counts_bounded(ps, *player, k as int);
            lemma_filter_next(k as nat, shown);
            assert(Seq::new(k as nat, |i: int| i).filter(shown).push(k as int).map_values(to_usize)
                =~= Seq::new(k as nat, |i: int| i).filter(shown).map_values(to_usize).push(
                k as usize,
            ));
        }
        let other = &players[k];
        if other.car_id != player.car_id {
            if other.team_num == player.team_num {
                ally_count = ally_count + 1;
                if ally_count <= team_size - 1 {
                    included.push(k);
                }
            } else {
                enemy_count = enemy_count + 1;
                if enemy_count <= team_size {
                    included.push(k);
                }
            }
        }
        k = k + 1;
    }
    assert(Seq::new(n as nat, |i: int| i).filter(shown).map_values(to_usize) == spec_shown_indices(
        ps,
        *player,
        team_size as int,
    ));
    let ally_dummies: usize = if team_size - 1 > ally_count {
        team_size - 1 - ally_count
    } else {
        0
    };
    let enemy_dummies: usize = if team_size > enemy_count {
        team_size - enemy_count
    } else {
        0
    };
    ObsPlan { included, ally_dummies, enemy_dummies }
}


/// A stack after `ball` is put on top of it and only its first `size` balls are kept.
pub open spec fn spec_pushed<T>(stack: Seq<T>, ball: T, size: usize) -> Seq<T> {
    let s = seq![ball] + stack;
    if s.len() <= size {
        s
    } else {
        s.take(size as int)
    }
}

/// Per-car stacks of the last balls seen, newest first, each kept at a fixed size.
pub struct BallStack<T: Copy> {
    stack_size: usize,
    stacks: Vec<VecDeque<T>>,
}

impl<T: Copy> BallStack<T> {
    /// The stacks, each newest first.
    pub closed spec fn stacks(self) -> Seq<Seq<T>> {
        self.stacks@.map_values(|d: VecDeque<T>| d@)
    }

    /// Number of balls each stack keeps.
    pub closed spec fn stack_size(self) -> usize {
        self.stack_size
    }

    /// Every stack holds exactly `stack_size` balls.
    pub open spec fn wf(self) -> bool {
        forall|i: int| 0 <= i < self.stacks().len() ==> (#[trigger] self.stacks()[i]).len()
            == self.stack_size()
    }

    /// `count` stacks, each filled with `stack_size` copies of `blank`.
    pub fn new(count: usize, stack_size: usize, blank: T) -> (s: BallStack<T>)
        ensures
            s.stack_size() == stack_size,
            s.stacks() == Seq::new(count as nat, |_i: int| Seq::new(stack_size as nat, |_j: int| blank)),
            s.wf(),
    {
        let mut s = BallStack { stack_size, stacks: Vec::new() };
        let mut i: usize = 0;
        while i < count
            invariant
                i <= count,
                s.stack_size == stack_size,
                s.stacks() =~= Seq::new(i as nat, |_i: int| Seq::new(stack_size as nat, |_j: int| blank)),
            decreases count - i,
        {
            s.blank_stack(blank);
            i = i + 1;
        }
        s
    }

    /// Adds one more stack filled with `stack_size` copies of `blank`.
    pub fn blank_stack(&mut self, blank: T)
        ensures
            old(self).wf() ==> final(self).wf(),
            final(self).stack_size() == old(self).stack_size(),
            final(self).stacks() == old(self).stacks().push(
                Seq::new(old(self).stack_size() as nat, |_j: int| blank),
            ),
    {
        let mut d: VecDeque<T> = VecDeque::new();
        let mut j: usize = 0;
        while j < self.stack_size
            invariant
                j <= self.stack_size,
                d@ =~= Seq::new(j as nat, |_j: int| blank),
            decreases self.stack_size - j,
        {
            d.push_front(blank);
            j = j + 1;
        }
        self.stacks.push(d);
        assert(self.stacks() =~= old(self).stacks().push(
            Seq::new(old(self).stack_size() as nat, |_j: int| blank),
        ));
    }

    /// Number of stacks.
    pub fn len(&self) -> (n: usize)
        ensures
            n == self.stacks().len(),
    {
        self.stacks.len()
    }

    /// The balls of stack `index`, newest first.
    pub fn get(&self, index: usize) -> (balls: &VecDeque<T>)
        requires
            index < self.stacks().len(),
        ensures
            balls@ == self.stacks()[index as int],
    {
        &self.stacks[index]
    }

    /// Puts `ball` on top of stack `index` and drops the oldest balls beyond `stack_size`.
    pub fn push(&mut self, index: usize, ball: T)
        requires
            index < old(self).stacks().len(),
        ensures
            old(self).wf() ==> final(self).wf(),
            final(self).stack_size() == old(self).stack_size(),
            final(self).stacks() == old(self).stacks().update(
                index as int,
                spec_pushed(old(self).stacks()[index as int], ball, old(self).stack_size()),
            ),
    {
        let ghost target = spec_pushed(old(self).stacks()[index as int], ball, old(self).stack_size());
        let old_d = &self.stacks[index];
        let mut d: VecDeque<T> = VecDeque::new();
        if self.stack_size > 0 {
            d.push_back(ball);
        }
        let mut j: usize = 0;
        while j < old_d.len() && j + 1 < self.stack_size
            invariant
                j <= old_d@.len(),
                index < old(self).stacks().len(),
                old_d@ == old(self).stacks()[index as int],
                self.stack_size > 0 ==> j < self.stack_size,
                self.stack_size == old(self).stack_size(),
                self.stack_size > 0 ==> d@ =~= (seq![ball] + old_d@).take(j + 1),
                self.stack_size == 0 ==> d@.len() == 0 && j == 0,
            decreases old_d@.len() - j,
        {
            d.push_back(old_d[j]);
            j = j + 1;
        }
        proof {
            let full = seq![ball] + old_d@;
            if self.stack_size > 0 {
                if j == old_d@.len() {
                    assert(full.take(j + 1) =~= full);
                } else {
                    assert(j + 1 == self.stack_size);
                }
            }
        }
        assert(d@ =~= target);
        self.stacks.set(index, d);
        assert(self.stacks() =~= old(self).stacks().update(
            index as int,
            spec_pushed(old(self).stacks()[index as int], ball, old(self).stack_size()),
        ));
    }
}


/// Number of players of `ps[0..n]` that are shown and are allies of `player`
/// (`ally`), or shown and opponents (`!ally`).
pub open spec fn spec_shown_count(
    ps: Seq<PlayerData>,
    player: PlayerData,
    team_size: int,
    n: int,
    ally: bool,
) -> int
    decreases n,
{
    if n <= 0 {
        0
    } else {
        spec_shown_count(ps, player, team_size, n - 1, ally) + (if spec_shown(
            ps,
            player,
            team_size,
            n - 1,
        ) && (ps[n - 1].team_num == player.team_num) == ally {
            1int
        } else {
            0int
        })
    }
}

proof fn lemma_shown_count_min(ps: Seq<PlayerData>, player: PlayerData, team_size: int, n: int)
    requires
        0 <= n <= ps.len(),
        team_size >= 1,
    ensures
        spec_shown_count(ps, player, team_size, n, true) == if spec_allies_before(ps, player, n)
            <= team_size - 1 {
            spec_allies_before(ps, player, n)
        } else {
            team_size - 1
        },
        spec_shown_count(ps, player, team_size, n, false) == if spec_enemies_before(ps, player, n)
            <= team_size {
            spec_enemies_before(ps, player, n)
        } else {
            team_size
        },
    decreases n,
{
    if n > 0 {
        lemma_shown_count_min(ps, player, team_size, n - 1);
        lemma_counts_bounded(ps, player, n - 1);
    }
}

/// Padded observations have a fixed shape: the allies shown plus the blank
/// allies always number `team_size - 1`, and the opponents shown plus the
/// blank opponents always number `team_size`.
pub proof fn lemma_padding_fills_teams(ps: Seq<PlayerData>, player: PlayerData, team_size: int)
    requires
        team_size >= 1,
    ensures
        spec_shown_count(ps, player, team_size, ps.len() as int, true) + spec_shortfall(
            team_size - 1,
            spec_allies_before(ps, player, ps.len() as int),
        ) == team_size - 1,
        spec_shown_count(ps, player, team_size, ps.len() as int, false) + spec_shortfall(
            team_size,
            spec_enemies_before(ps, player, ps.len() as int),
        ) == team_size,
{
    lemma_shown_count_min(ps, player, team_size, ps.len() as int);
}


/// Number of cars a padded observation builder keeps a ball stack for.
pub const PADDER_STACK_COUNT: usize = 8;

/// Team size and ball-stack depth of a padded observation builder: `3` and
/// `15` unless given.
pub fn padder_sizes(team_size: Option<usize>, stack_size: Option<usize>) -> (sizes: (usize, usize))
    ensures
        sizes.0 == (match team_size {
            Some(t) => t,
            None => 3usize,
        }),
        sizes.1 == (match stack_size {
            Some(s) => s,
            None => 15usize,
        }),
{
    let team_size = match team_size {
        Some(t) => t,
        None => 3,
    };
    let stack_size = match stack_size {
        Some(s) => s,
        None => 15,
    };
    (team_size, stack_size)
}

} // verus!
