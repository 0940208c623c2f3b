use vstd::prelude::*;

verus! {

/// Controls of one action: throttle, steer, pitch, yaw, roll, jump, boost,
/// handbrake; each is `-1`, `0` or `1`.
pub open spec fn spec_action(
    throttle: int,
    steer: int,
    pitch: int,
    yaw: int,
    roll: int,
    jump: int,
    boost: int,
    handbrake: int,
) -> Seq<i32> {
    seq![throttle as i32, steer as i32, pitch as i32, yaw as i32, roll as i32, jump as i32,
        boost as i32, handbrake as i32]
}

/// Ground candidates are numbered `0..36` in the order throttle, steer, boost,
/// handbrake (throttle slowest): throttle and steer run over `-1, 0, 1`,
/// boost and handbrake over `0, 1`.
pub open spec fn ground_throttle(k: int) -> int {
    k / 12 - 1
}

pub open spec fn ground_steer(k: int) -> int {
    (k / 4) % 3 - 1
}

pub open spec fn ground_boost(k: int) -> int {
    (k / 2) % 2
}

pub open spec fn ground_handbrake(k: int) -> int {
    k % 2
}

/// A ground candidate is kept unless it boosts without full throttle.
pub open spec fn ground_keep(k: int) -> bool {
    !(ground_boost(k) == 1 && ground_throttle(k) != 1)
}

/// The action of a ground candidate: throttle (or boost when throttle is 0),
/// steering on both the steer and yaw controls, boost and handbrake.
pub open spec fn ground_row(k: int) -> Seq<i32> {
    let t = ground_throttle(k);
    let s = ground_steer(k);
    let b = ground_boost(k);
    let part = if t != 0 {
        t
    } else if b != 0 {
        b
    } else {
        0
    };
    spec_action(part, s, 0, s, 0, 0, b, ground_handbrake(k))
}

/// Aerial candidates are numbered `0..108` in the order pitch, yaw, roll,
/// jump, boost (pitch slowest): pitch, yaw and roll run over `-1, 0, 1`,
/// jump and boost over `0, 1`.
pub open spec fn air_pitch(k: int) -> int {
    k / 36 - 1
}

pub open spec fn air_yaw(k: int) -> int {
    (k / 12) % 3 - 1
}

pub open spec fn air_roll(k: int) -> int {
    (k / 4) % 3 - 1
}

pub open spec fn air_jump(k: int) -> int {
    (k / 2) % 2
}

pub open spec fn air_boost(k: int) -> int {
    k % 2
}

/// An aerial candidate is kept unless it jumps while yawing, or does nothing
/// at all with pitch, roll and jump.
pub open spec fn air_keep(k: int) -> bool {
    !(air_jump(k) == 1 && air_yaw(k) != 0) && !(air_pitch(k) == 0 && air_roll(k) == 0
        && air_jump(k) == 0)
}

/// The action of an aerial candidate: boost on throttle and boost, yaw on the
/// steer and yaw controls, and the handbrake held for a jump with a rotation.
pub open spec fn air_row(k: int) -> Seq<i32> {
    let p = air_pitch(k);
    let y = air_yaw(k);
    let r = air_roll(k);
    let j = air_jump(k);
    let b = air_boost(k);
    let hb = if j == 1 && (p != 0 || y != 0 || r != 0) {
        1int
    } else {
        0int
    };
    spec_action(b, y, p, y, r, j, b, hb)
}

/// An aerial candidate `k` of `0..108` (numbered with pitch slowest, then
/// yaw, roll, jump and boost) gives the controls: throttle and boost its
/// boost bit `k % 2`, steer and yaw its yaw `(k / 12) % 3 - 1`, pitch its
/// pitch `k / 36 - 1`, roll its roll `(k / 4) % 3 - 1`, jump its jump bit
/// `(k / 2) % 2`, and holds the handbrake for a jump with any rotation;
/// eight controls in all.
pub proof fn lemma_air_row_controls(k: int)
    requires
        0 <= k < 108,
    ensures
        air_row(k).len() == 8,
        air_row(k)[0] == k % 2,
        air_row(k)[1] == (k / 12) % 3 - 1,
        air_row(k)[2] == k / 36 - 1,
        air_row(k)[3] == (k / 12) % 3 - 1,
        air_row(k)[4] == (k / 4) % 3 - 1,
        air_row(k)[5] == (k / 2) % 2,
        air_row(k)[6] == k % 2,
        air_row(k)[7] == (if (k / 2) % 2 == 1 && (k / 36 != 1 || (k / 12) % 3 != 1 || (k / 4) % 3
            != 1) {
            1int
        } else {
            0int
        }),
{
}

/// A ground candidate `k` of `0..36` (numbered with throttle slowest, then
/// steer, boost and handbrake) drives with its throttle `k / 12 - 1`, or
/// with its boost bit where the throttle is `0`; it gives no pitch, roll or jump; it steers with
/// both the steer and yaw controls by `(k / 4) % 3 - 1`, boosts by its boost
/// bit `(k / 2) % 2` and holds the handbrake by `k % 2`.
pub proof fn lemma_ground_row_controls(k: int)
    requires
        0 <= k < 36,
    ensures
        ground_row(k).len() == 8,
        ground_row(k)[0] == (if k / 12 != 1 {
            k / 12 - 1
        } else {
            (k / 2) % 2
        }),
        ground_row(k)[1] == (k / 4) % 3 - 1,
        ground_row(k)[2] == 0,
        ground_row(k)[3] == (k / 4) % 3 - 1,
        ground_row(k)[4] == 0,
        ground_row(k)[5] == 0,
        ground_row(k)[6] == (k / 2) % 2,
        ground_row(k)[7] == k % 2,
{
}

pub open spec fn ground_keep_fn() -> spec_fn(int) -> bool {
    |k: int| ground_keep(k)
}

pub open spec fn ground_row_fn() -> spec_fn(int) -> Seq<i32> {
    |k: int| ground_row(k)
}

pub open spec fn air_keep_fn() -> spec_fn(int) -> bool {
    |k: int| air_keep(k)
}

pub open spec fn air_row_fn() -> spec_fn(int) -> Seq<i32> {
    |k: int| air_row(k)
}

/// Kept candidates `0..n` of one kind, in order, as their actions.
pub open spec fn kept_rows(
    n: nat,
    keep: spec_fn(int) -> bool,
    row: spec_fn(int) -> Seq<i32>,
) -> Seq<Seq<i32>> {
    Seq::new(n, |k: int| k).filter(keep).map_values(row)
}

/// The lookup table: the kept ground actions, then the kept aerial actions.
pub open spec fn spec_lookup_table() -> Seq<Seq<i32>> {
    kept_rows(36, ground_keep_fn(), ground_row_fn()) + kept_rows(108, air_keep_fn(), air_row_fn())
}

/// The rows of a table of vectors, as sequences.
pub open spec fn rows_view(t: Seq<Vec<i32>>) -> Seq<Seq<i32>> {
    t.map_values(|r: Vec<i32>| r@)
}

proof fn lemma_rows_view_push(t: Seq<Vec<i32>>, r: Vec<i32>)
    ensures
        rows_view(t.push(r)) == rows_view(t).push(r@),
{
    assert(rows_view(t.push(r)) =~= rows_view(t).push(r@));
}

/// Filtering the candidates `0..k+1` keeps those of `0..k`, then `k` itself if it passes.
proof fn lemma_filter_next(k: nat, p: spec_fn(int) -> bool)
    ensures
        Seq::new(k + 1, |i: int| i).filter(p) == (if p(k as int) {
            Seq::new(k, |i: int| i).filter(p).push(k as int)
        } else {
            Seq::new(k, |i: int| i).filter(p)
        }),
{
    reveal_with_fuel(Seq::<_>::filter, 1);
    assert(Seq::new(k + 1, |i: int| i).drop_last() =~= Seq::new(k, |i: int| i));
}

proof fn lemma_push_map(s: Seq<int>, x: int, f: spec_fn(int) -> Seq<i32>)
    ensures
        s.push(x).map_values(f) == s.map_values(f).push(f(x)),
{
    assert(s.push(x).map_values(f) =~= s.map_values(f).push(f(x)));
}

/// Action parser that maps each action index to a row of a fixed table of
/// controller inputs.
pub struct NectoAction {
    _lookup_table: Vec<Vec<i32>>,
}

fn make_action(
    throttle: i32,
    steer: i32,
    pitch: i32,
    yaw: i32,
    roll: i32,
    jump: i32,
    boost: i32,
    handbrake: i32,
) -> (v: Vec<i32>)
    ensures
        v@ == spec_action(
            throttle as int,
            steer as int,
            pitch as int,
            yaw as int,
            roll as int,
            jump as int,
            boost as int,
            handbrake as int,
        ),
{
    let mut v: Vec<i32> = Vec::new();
    v.push(throttle);
    v.push(steer);
    v.push(pitch);
    v.push(yaw);
    v.push(roll);
    v.push(jump);
    v.push(boost);
    v.push(handbrake);
    assert(v@ =~= spec_action(
        throttle as int,
        steer as int,
        pitch as int,
        yaw as int,
        roll as int,
        jump as int,
        boost as int,
        handbrake as int,
    ));
    v
}

impl NectoAction {
    /// The table this parser maps indices to.
    pub closed spec fn table(self) -> Seq<Seq<i32>> {
        rows_view(self._lookup_table@)
    }

    pub fn new() -> (a: NectoAction)
        ensures
            a.table() == spec_lookup_table(),
    {
        NectoAction { _lookup_table: NectoAction::make_lookup_table() }
    }

    fn make_lookup_table() -> (table: Vec<Vec<i32>>)
        ensures
            rows_view(table@) == spec_lookup_table(),
    {
        let mut actions: Vec<Vec<i32>> = Vec::new();
        let mut k: u32 = 0;
        while k < 36
            invariant
                k <= 36,
                rows_view(actions@) =~= Seq::new(k as nat, |i: int| i).filter(ground_keep_fn()).map_values(
                    ground_row_fn(),
                ),
            decreases 36 - k,
        {
            let throttle: i32 = (k / 12) as i32 - 1;
            let steer: i32 = ((k / 4) % 3) as i32 - 1;
            let boost: i32 = ((k / 2) % 2) as i32;
            let handbrake: i32 = (k % 2) as i32;
            let ghost before = Seq::new(k as nat, |i: int| i);
            let ghost prev = rows_view(actions@);
            proof {
                lemma_filter_next(k as nat, ground_keep_fn());
                assert(ground_keep_fn()(k as int) == !(boost == 1 && throttle != 1));
                assert(throttle == ground_throttle(k as int));
                assert(steer == ground_steer(k as int));
                assert(boost == ground_boost(k as int));
                assert(handbrake == ground_handbrake(k as int));
            }
            if !(boost == 1 && throttle != 1) {
                let part: i32 = if throttle != 0 {
                    throttle
                } else if boost != 0 {
                    boost
                } else {
                    0
                };
                let row = make_action(part, steer, 0, steer, 0, 0, boost, handbrake);
                proof {
                    assert(row@ == ground_row(k as int));
                    lemma_push_map(before.filter(ground_keep_fn()), k as int, ground_row_fn());
                }
                proof {
                    lemma_rows_view_push(actions@, row);
                }
                actions.push(row);
                assert(rows_view(actions@) == prev.push(row@));
                assert(Seq::new((k + 1) as nat, |i: int| i).filter(ground_keep_fn()) == before.filter(ground_keep_fn()).push(k as int));
            } else {
                assert(Seq::new((k + 1) as nat, |i: int| i).filter(ground_keep_fn()) == before.filter(ground_keep_fn()));
            }
            k = k + 1;
        }
        let ghost ground = rows_view(actions@);
        let mut k: u32 = 0;
        while k < 108
            invariant
                k <= 108,
                ground == Seq::new(36, |i: int| i).filter(ground_keep_fn()).map_values(ground_row_fn()),
                rows_view(actions@) =~= ground + Seq::new(k as nat, |i: int| i).filter(
                    air_keep_fn(),
                ).map_values(air_row_fn()),
            decreases 108 - k,
        {
            let pitch: i32 = (k / 36) as i32 - 1;
            let yaw: i32 = ((k / 12) % 3) as i32 - 1;
            let roll: i32 = ((k / 4) % 3) as i32 - 1;
            let jump: i32 = ((k / 2) % 2) as i32;
            let boost: i32 = (k % 2) as i32;
            let ghost before = Seq::new(k as nat, |i: int| i);
            let ghost prev = rows_view(actions@);
            proof {
                lemma_filter_next(k as nat, air_keep_fn());
                assert(pitch == air_pitch(k as int));
                assert(yaw == air_yaw(k as int));
                assert(roll == air_roll(k as int));
                assert(jump == air_jump(k as int));
                assert(boost == air_boost(k as int));
            }
            if !(jump == 1 && yaw != 0) && !(pitch == roll && roll == jump && jump == 0) {
                let handbrake: i32 = if jump == 1 && (pitch != 0 || yaw != 0 || roll != 0) {
                    1
                } else {
                    0
                };
                let row = make_action(boost, yaw, pitch, yaw, roll, jump, boost, handbrake);
                proof {
                    assert(row@ == air_row(k as int));
                    lemma_push_map(before.filter(air_keep_fn()), k as int, air_row_fn());
                }
                proof {
                    lemma_rows_view_push(actions@, row);
                }
                actions.push(row);
            }
            k = k + 1;
        }
        actions
    }

    /// Number of actions in the table.
    pub fn get_action_space(&self) -> (space: Vec<usize>)
        ensures
            space@ == seq![self.table().len() as usize],
    {
        let mut space: Vec<usize> = Vec::new();
        space.push(self._lookup_table.len());
        assert(space@ =~= seq![self.table().len() as usize]);
        space
    }

    /// Whether every index of every action vector names a row of the table.
    pub open spec fn spec_indices_in_table(self, actions: Seq<Vec<usize>>) -> bool {
        forall|i: int, j: int|
            0 <= i < actions.len() && 0 <= j < actions[i]@.len() ==> (#[trigger] actions[i]@[j])
                < self.table().len()
    }

    /// What `parse_actions` returns: the table row of each index, in order,
    /// over all action vectors one after another.
    pub open spec fn spec_parse(self, actions: Seq<Vec<usize>>) -> Seq<Seq<i32>> {
        actions.map_values(|v: Vec<usize>| v@).flatten().map_values(|a: usize| self.table()[a as int])
    }

    /// Replaces each action index by the table row it names.
    pub fn parse_actions(&self, actions: &Vec<Vec<usize>>) -> (parsed: Vec<Vec<i32>>)
        requires
            self.spec_indices_in_table(actions@),
        ensures
            rows_view(parsed@) == self.spec_parse(actions@),
    {
        let ghost idx = actions@.map_values(|v: Vec<usize>| v@);
        let ghost f = |a: usize| self.table()[a as int];
        let mut parsed: Vec<Vec<i32>> = Vec::new();
        let mut i: usize = 0;
        while i < actions.len()
            invariant
                i <= actions@.len(),
                idx == actions@.map_values(|v: Vec<usize>| v@),
                f == (|a: usize| self.table()[a as int]),
                self.spec_indices_in_table(actions@),
                rows_view(parsed@) =~= idx.take(i as int).flatten().map_values(f),
            decreases actions@.len() - i,
        {
            let action_vec = &actions[i];
            let mut j: usize = 0;
            while j < action_vec.len()
                invariant
                    i < actions@.len(),
                    action_vec == actions@[i as int],
                    j <= action_vec@.len(),
                    idx == actions@.map_values(|v: Vec<usize>| v@),
                    f == (|a: usize| self.table()[a as int]),
                    self.spec_indices_in_table(actions@),
                    rows_view(parsed@) =~= (idx.take(i as int).flatten() + action_vec@.take(
                        j as int,
                    )).map_values(f),
                decreases action_vec@.len() - j,
            {
                let a = action_vec[j];
                assert(a < self.table().len());
                let row = self.clone_row(a);
                proof {
                    lemma_rows_view_push(parsed@, row);
                    assert(action_vec@.take(j + 1) =~= action_vec@.take(j as int).push(a));
                    assert((idx.take(i as int).flatten() + action_vec@.take(j + 1)) =~= (idx.take(
                        i as int,
                    ).flatten() + action_vec@.take(j as int)).push(a));
                }
                parsed.push(row);
                j = j + 1;
            }
            proof {
                assert(action_vec@.take(action_vec@.len() as int) =~= action_vec@);
                assert(idx.take(i + 1) =~= idx.take(i as int).push(idx[i as int]));
                idx.take(i as int).lemma_flatten_push(idx[i as int]);
            }
            i = i + 1;
        }
        assert(idx.take(actions@.len() as int) =~= idx);
        parsed
    }

    /// A copy of one row of the table.
    fn clone_row(&self, a: usize) -> (row: Vec<i32>)
        requires
            a < self.table().len(),
        ensures
            row@ == self.table()[a as int],
    {
        let src = &self._lookup_table[a];
        let mut row: Vec<i32> = Vec::new();
        let mut k: usize = 0;
        while k < src.len()
            invariant
                k <= src@.len(),
                src@ == self.table()[a as int],
                row@ =~= src@.take(k as int),
            decreases src@.len() - k,
        {
            row.push(src[k]);
            k = k + 1;
        }
        assert(src@.take(src@.len() as int) =~= src@);
        row
    }
}

} // verus!
