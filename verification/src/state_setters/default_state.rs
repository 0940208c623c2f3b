use vstd::prelude::*;
use rand::rngs::StdRng;
use crate::state_setters::random::{random_seed, random_usize, seeded_rng};

verus! {

/// Where a car is placed by the default kickoff setter: a slot of the blue
/// spawn table, or of the orange one.
#[derive(Clone, Copy, Debug, PartialEq, Eq, Structural)]
pub struct SpawnChoice {
    pub orange: bool,
    pub slot: usize,
}

/// Spawn position (x, y, z) of a kickoff slot.
pub open spec fn spec_spawn_position(orange: bool, slot: int) -> (int, int, int) {
    let sign = if orange {
        -1int
    } else {
        1int
    };
    if slot == 0 {
        (-2048 * sign, -2560 * sign, 17)
    } else if slot == 1 {
        (2048 * sign, -2560 * sign, 17)
    } else if slot == 2 {
        (-256 * sign, -3840 * sign, 17)
    } else if slot == 3 {
        (256 * sign, -3840 * sign, 17)
    } else {
        (0, -4608 * sign, 17)
    }
}

/// Spawn yaw of a kickoff slot, in quarter turns of pi (`1` is `0.25 * pi`).
pub open spec fn spec_spawn_yaw_quarters(orange: bool, slot: int) -> int {
    if !orange {
        if slot == 0 {
            1
        } else if slot == 1 {
            3
        } else {
            2
        }
    } else {
        if slot == 0 {
            -3
        } else if slot == 1 {
            -1
        } else {
            -2
        }
    }
}

/// The orange spawns mirror the blue ones through the centre spot: for each
/// slot, the orange position is the blue one with `x` and `y` negated (same
/// height), and the orange yaw is the blue yaw turned by half a turn (four
/// quarters of pi less). Every blue spawn is on blue's half (`y < 0`) and
/// every orange spawn on orange's half (`y > 0`).
pub proof fn lemma_spawn_tables_mirror(slot: int)
    requires
        0 <= slot < 5,
    ensures
        spec_spawn_position(true, slot).0 == -spec_spawn_position(false, slot).0,
        spec_spawn_position(true, slot).1 == -spec_spawn_position(false, slot).1,
        spec_spawn_position(true, slot).2 == spec_spawn_position(false, slot).2,
        spec_spawn_position(false, slot).1 < 0,
        spec_spawn_position(true, slot).1 > 0,
        spec_spawn_yaw_quarters(true, slot) == spec_spawn_yaw_quarters(false, slot) - 4,
{
}

/// Spawn position (x, y, z) of a kickoff slot.
pub fn spawn_position(orange: bool, slot: usize) -> (p: [i32; 3])
    requires
        slot < 5,
    ensures
        (p[0] as int, p[1] as int, p[2] as int) == spec_spawn_position(orange, slot as int),
{
    let sign: i32 = if orange {
        -1
    } else {
        1
    };
    if slot == 0 {
        [-2048 * sign, -2560 * sign, 17]
    } else if slot == 1 {
        [2048 * sign, -2560 * sign, 17]
    } else if slot == 2 {
        [-256 * sign, -3840 * sign, 17]
    } else if slot == 3 {
        [256 * sign, -3840 * sign, 17]
    } else {
        [0, -4608 * sign, 17]
    }
}

/// Spawn yaw of a kickoff slot, in quarter turns of pi.
pub fn spawn_yaw_quarters(orange: bool, slot: usize) -> (q: i32)
    requires
        slot < 5,
    ensures
        q == spec_spawn_yaw_quarters(orange, slot as int),
{
    if !orange {
        if slot == 0 {
            1
        } else if slot == 1 {
            3
        } else {
            2
        }
    } else {
        if slot == 0 {
            -3
        } else if slot == 1 {
            -1
        } else {
            -2
        }
    }
}

/// Whether `perm` orders the five spawn slots: each of `0..5` exactly once.
pub open spec fn spec_is_slot_order(perm: Seq<usize>) -> bool {
    &&& perm.len() == 5
    &&& forall|i: int| 0 <= i < 5 ==> #[trigger] perm[i] < 5
    &&& forall|i: int, j: int| 0 <= i < j < 5 ==> perm[i] != perm[j]
}

/// Number of blue cars (team 0) among `teams[0..k]`.
pub open spec fn spec_blue_before(teams: Seq<i32>, k: int) -> int
    decreases k,
{
    if k <= 0 {
        0
    } else {
        spec_blue_before(teams, k - 1) + (if teams[k - 1] == 0 {
            1int
        } else {
            0int
        })
    }
}

/// Where each car goes: the `n`-th blue car takes blue slot `perm[n]`, the
/// `n`-th other car takes orange slot `perm[n]`.
pub open spec fn spec_assign(teams: Seq<i32>, perm: Seq<usize>) -> Seq<SpawnChoice> {
    Seq::new(
        teams.len(),
        |k: int|
            if teams[k] == 0 {
                SpawnChoice { orange: false, slot: perm[spec_blue_before(teams, k)] }
            } else {
                SpawnChoice { orange: true, slot: perm[k - spec_blue_before(teams, k)] }
            },
    )
}

/// At most five cars on each side: the spawn slots suffice.
pub open spec fn spec_fits_spawns(teams: Seq<i32>) -> bool {
    spec_blue_before(teams, teams.len() as int) <= 5 && teams.len() - spec_blue_before(
        teams,
        teams.len() as int,
    ) <= 5
}

proof fn lemma_blue_before_monotone(teams: Seq<i32>, k: int, m: int)
    requires
        0 <= k <= m <= teams.len(),
    ensures
        spec_blue_before(teams, k) <= spec_blue_before(teams, m),
        k - spec_blue_before(teams, k) <= m - spec_blue_before(teams, m),
        0 <= spec_blue_before(teams, m) <= m,
    decreases m,
{
    if m > 0 {
        if k < m {
            lemma_blue_before_monotone(teams, k, m - 1);
        } else {
            lemma_blue_before_monotone(teams, m - 1, m - 1);
        }
    }
}

/// Places the cars of the given teams on the spawn slots in the order `perm`.
pub fn assign_spawns(teams: &Vec<i32>, perm: &Vec<usize>) -> (choices: Vec<SpawnChoice>)
    requires
        spec_is_slot_order(perm@),
        spec_fits_spawns(teams@),
    ensures
        choices@ == spec_assign(teams@, perm@),
{
    let mut choices: Vec<SpawnChoice> = Vec::new();
    let mut blue_count: usize = 0;
    let mut orange_count: usize = 0;
    let mut k: usize = 0;
    while k < teams.len()
        invariant
            k <= teams@.len(),
            spec_is_slot_order(perm@),
            spec_fits_spawns(teams@),
            blue_count == spec_blue_before(teams@, k as int),
            orange_count == k - spec_blue_before(teams@, k as int),
            choices@ =~= spec_assign(teams@, perm@).take(k as int),
        decreases teams@.len() - k,
    {
        proof {
            lemma_blue_before_monotone(teams@, k + 1, teams@.len() as int);
            lemma_blue_before_monotone(teams@, k as int, k + 1);
        }
        if teams[k] == 0 {
            choices.push(SpawnChoice { orange: false, slot: perm[blue_count] });
            blue_count = blue_count + 1;
        } else {
            choices.push(SpawnChoice { orange: true, slot: perm[orange_count] });
            orange_count = orange_count + 1;
        }
        k = k + 1;
    }
    choices
}

/// Two cars of one side never share a spawn slot.
pub proof fn lemma_spawns_distinct(teams: Seq<i32>, perm: Seq<usize>)
    requires
        spec_is_slot_order(perm),
        spec_fits_spawns(teams),
    ensures
        forall|i: int, j: int|
            0 <= i < j < teams.len() && #[trigger] spec_assign(teams, perm)[i].orange
                == #[trigger] spec_assign(teams, perm)[j].orange ==> spec_assign(teams, perm)[i].slot
                != spec_assign(teams, perm)[j].slot,
{
    let a = spec_assign(teams, perm);
    let n = teams.len() as int;
    assert forall|i: int, j: int|
        0 <= i < j < teams.len() && #[trigger] a[i].orange == #[trigger] a[j].orange implies a[i].slot
        != a[j].slot by {
        lemma_blue_before_monotone(teams, i + 1, j);
        lemma_blue_before_monotone(teams, j + 1, n);
        lemma_blue_before_monotone(teams, i, i);
        lemma_blue_before_monotone(teams, j, j);
        assert(spec_blue_before(teams, i + 1) == spec_blue_before(teams, i) + (if teams[i] == 0 {
            1int
        } else {
            0int
        }));
        assert(spec_blue_before(teams, j + 1) == spec_blue_before(teams, j) + (if teams[j] == 0 {
            1int
        } else {
            0int
        }));
        if teams[i] == 0 {
            assert(perm[spec_blue_before(teams, i)] != perm[spec_blue_before(teams, j)]);
        } else {
            assert(perm[i - spec_blue_before(teams, i)] != perm[j - spec_blue_before(teams, j)]);
        }
    }
}


/// Swapping two entries of a slot order gives a slot order.
proof fn lemma_swap_keeps_order(perm: Seq<usize>, i: int, j: int)
    requires
        spec_is_slot_order(perm),
        0 <= i < 5,
        0 <= j < 5,
    ensures
        spec_is_slot_order(perm.update(i, perm[j]).update(j, perm[i])),
{
    let q = perm.update(i, perm[j]).update(j, perm[i]);
    assert forall|a: int, b: int| 0 <= a < b < 5 implies q[a] != q[b] by {
        let pa = if a == j {
            i
        } else if a == i {
            j
        } else {
            a
        };
        let pb = if b == j {
            i
        } else if b == i {
            j
        } else {
            b
        };
        assert(q[a] == perm[pa] && q[b] == perm[pb] && pa != pb);
    }
}

/// Slot `a` comes before slot `b` when sorted by `keys`: a smaller key, or
/// the same key and a smaller slot.
pub open spec fn spec_slot_before(keys: Seq<usize>, a: usize, b: usize) -> bool {
    keys[a as int] < keys[b as int] || (keys[a as int] == keys[b as int] && a < b)
}

/// `perm` lists the five slots sorted by their keys, stably: keys do not
/// decrease along it, and slots with equal keys keep their table order.
pub open spec fn spec_sorted_by_keys(keys: Seq<usize>, perm: Seq<usize>) -> bool {
    &&& spec_is_slot_order(perm)
    &&& forall|i: int, j: int|
        0 <= i < j < 5 ==> spec_slot_before(keys, #[trigger] perm[i], #[trigger] perm[j])
}

/// The five slots sorted stably by their keys (`keys[s]` is the key of slot `s`).
pub open spec fn spec_slot_order_by_keys(keys: Seq<usize>) -> Seq<usize> {
    choose|perm: Seq<usize>| spec_sorted_by_keys(keys, perm)
}

/// Every slot of `0..5` occurs in a slot order.
pub proof fn lemma_slot_order_covers(perm: Seq<usize>, x: usize)
    requires
        spec_is_slot_order(perm),
        x < 5,
    ensures
        exists|i: int| 0 <= i < 5 && perm[i] == x,
{
    assert(perm[0] < 5 && perm[1] < 5 && perm[2] < 5 && perm[3] < 5 && perm[4] < 5);
    assert(perm[0] != perm[1] && perm[0] != perm[2] && perm[0] != perm[3] && perm[0] != perm[4]);
    assert(perm[1] != perm[2] && perm[1] != perm[3] && perm[1] != perm[4]);
    assert(perm[2] != perm[3] && perm[2] != perm[4] && perm[3] != perm[4]);
    if perm[0] != x && perm[1] != x && perm[2] != x && perm[3] != x {
        assert(perm[4] == x);
    }
}

proof fn lemma_sorted_prefix_agrees(keys: Seq<usize>, p: Seq<usize>, q: Seq<usize>, n: int)
    requires
        spec_sorted_by_keys(keys, p),
        spec_sorted_by_keys(keys, q),
        0 <= n <= 5,
    ensures
        forall|m: int| 0 <= m < n ==> p[m] == q[m],
    decreases n,
{
    if n > 0 {
        let i = n - 1;
        lemma_sorted_prefix_agrees(keys, p, q, i);
        if p[i] != q[i] {
            lemma_slot_order_covers(q, p[i]);
            let k = choose|k: int| 0 <= k < 5 && q[k] == p[i];
            lemma_slot_order_covers(p, q[i]);
            let j = choose|j: int| 0 <= j < 5 && p[j] == q[i];
            if k < i {
                assert(p[k] == q[k]);
            }
            if j < i {
                assert(p[j] == q[j]);
            }
            assert(spec_slot_before(keys, q[i], q[k]));
            assert(spec_slot_before(keys, p[i], p[j]));
        }
    }
}

/// The stable order by keys is unique: two slot orders sorted by the same
/// keys are the same order, so it is the order `spec_slot_order_by_keys` names.
pub proof fn lemma_order_by_keys_unique(keys: Seq<usize>, perm: Seq<usize>)
    requires
        spec_sorted_by_keys(keys, perm),
    ensures
        spec_slot_order_by_keys(keys) == perm,
        spec_sorted_by_keys(keys, spec_slot_order_by_keys(keys)),
{
    let c = spec_slot_order_by_keys(keys);
    assert(spec_sorted_by_keys(keys, c));
    lemma_sorted_prefix_agrees(keys, perm, c, 5);
    assert(c =~= perm);
}

/// The five slots sorted stably by their keys: `keys[s]` is the key of
/// slot `s`, a smaller key comes first, and slots with equal keys keep
/// their table order.
pub fn slot_order_by_keys(keys: &Vec<usize>) -> (perm: Vec<usize>)
    requires
        keys@.len() == 5,
    ensures
        perm@ == spec_slot_order_by_keys(keys@),
        spec_sorted_by_keys(keys@, perm@),
{
    let mut perm: Vec<usize> = Vec::new();
    let mut i: usize = 0;
    while i < 5
        invariant
            i <= 5,
            perm@ =~= Seq::new(i as nat, |k: int| k as usize),
        decreases 5 - i,
    {
        perm.push(i);
        i = i + 1;
    }
    let mut i: usize = 1;
    while i < 5
        invariant
            1 <= i <= 5,
            keys@.len() == 5,
            spec_is_slot_order(perm@),
            forall|m: int| i <= m < 5 ==> #[trigger] perm@[m] == m,
            forall|m: int| 0 <= m < i ==> #[trigger] perm@[m] < i,
            forall|a: int, b: int|
                0 <= a < b < i ==> spec_slot_before(keys@, #[trigger] perm@[a], #[trigger] perm@[b]),
        decreases 5 - i,
    {
        let mut j: usize = i;
        while j > 0 && keys[perm[j - 1]] > keys[perm[j]]
            invariant
                0 <= j <= i < 5,
                keys@.len() == 5,
                spec_is_slot_order(perm@),
                perm@[j as int] == i,
                forall|m: int| i < m < 5 ==> #[trigger] perm@[m] == m,
                forall|m: int| 0 <= m <= i && m != j ==> #[trigger] perm@[m] < i,
                forall|a: int, b: int|
                    0 <= a < b <= i && a != j && b != j ==> spec_slot_before(
                        keys@,
                        #[trigger] perm@[a],
                        #[trigger] perm@[b],
                    ),
                forall|b: int|
                    j < b <= i ==> spec_slot_before(keys@, perm@[j as int], #[trigger] perm@[b]),
            decreases j,
        {
            proof {
                lemma_swap_keeps_order(perm@, j - 1, j as int);
            }
            let a = perm[j - 1];
            let b = perm[j];
            perm.set(j - 1, b);
            perm.set(j, a);
            j = j - 1;
        }
        proof {
            assert forall|a: int, b: int|
                0 <= a < b < i + 1 implies spec_slot_before(keys@, #[trigger] perm@[a], #[trigger] perm@[b]) by {
                if b == j && a < j {
                    assert(spec_slot_before(keys@, perm@[a], perm@[j - 1]) || a == j - 1);
                    assert(perm@[j - 1] < i);
                }
            }
        }
        i = i + 1;
    }
    proof {
        lemma_order_by_keys_unique(keys@, perm@);
    }
    perm
}

/// Five keys drawn from `rng`, one for each slot.
fn draw_keys(rng: &mut StdRng) -> (keys: Vec<usize>)
    ensures
        keys@.len() == 5,
{
    let mut keys: Vec<usize> = Vec::new();
    let mut i: usize = 0;
    while i < 5
        invariant
            i <= 5,
            keys@.len() == i,
        decreases 5 - i,
    {
        keys.push(random_usize(rng));
        i = i + 1;
    }
    keys
}

/// The five spawn slots in an order drawn from `rng`: each slot gets a random
/// key and the slots are sorted stably by key.
fn shuffled_slots(rng: &mut StdRng) -> (perm: Vec<usize>)
    ensures
        exists|keys: Seq<usize>| keys.len() == 5 && perm@ == spec_slot_order_by_keys(keys),
        spec_is_slot_order(perm@),
{
    let keys = draw_keys(rng);
    slot_order_by_keys(&keys)
}

/// The five spawn slots in their table order.
fn ordered_slots() -> (perm: Vec<usize>)
    ensures
        perm@ == seq![0usize, 1, 2, 3, 4],
        spec_is_slot_order(perm@),
{
    let mut perm: Vec<usize> = Vec::new();
    perm.push(0);
    perm.push(1);
    perm.push(2);
    perm.push(3);
    perm.push(4);
    assert(perm@ =~= seq![0usize, 1, 2, 3, 4]);
    perm
}

/// The seed a state setter's generator starts from: the given one, or else
/// a random seed below `10000`.
pub fn choose_seed(seed: Option<u64>) -> (s: u64)
    ensures
        seed matches Some(given) ==> s == given,
        seed is None ==> s < 10000,
{
    match seed {
        Some(seed) => seed,
        None => random_seed(),
    }
}

/// Kickoff state setter: cars on the five kickoff spawns of their side, in
/// an order drawn at random on each reset.
pub struct DefaultState {
    rng: StdRng,
    /// The seed that `rng` was last seeded with.
    seed: Ghost<u64>,
}

impl DefaultState {
    /// The seed the generator was last seeded with (it may have drawn since).
    pub closed spec fn seed(&self) -> u64 {
        self.seed@
    }

    /// Draws from a generator seeded with `seed`, or with a random seed below
    /// `10000` when none is given.
    pub fn new(seed: Option<u64>) -> (state: DefaultState)
        ensures
            seed matches Some(given) ==> state.seed() == given,
            seed is None ==> state.seed() < 10000,
    {
        let s = choose_seed(seed);
        DefaultState { rng: seeded_rng(s), seed: Ghost(s) }
    }

    /// Spawn of each car (given by its team; team 0 is blue, any other is
    /// orange): the cars of each side take that side's slots in one order
    /// drawn from the generator, the same order for both sides.
    pub fn reset(&mut self, teams: &Vec<i32>) -> (choices: Vec<SpawnChoice>)
        requires
            spec_fits_spawns(teams@),
        ensures
            exists|keys: Seq<usize>|
                keys.len() == 5 && choices@ == spec_assign(teams@, spec_slot_order_by_keys(keys)),
            final(self).seed() == old(self).seed(),
    {
        let perm = shuffled_slots(&mut self.rng);
        assign_spawns(teams, &perm)
    }

    /// Reseeds the generator with `seed`.
    pub fn set_seed(&mut self, seed: u64)
        ensures
            final(self).seed() == seed,
    {
        self.rng = seeded_rng(seed);
        self.seed = Ghost(seed);
    }
}

/// The kickoff state setter without randomness: slots are taken in table order.
#[derive(Clone, Copy, Debug)]
pub struct DefaultStateTester {}

impl DefaultStateTester {
    pub fn new() -> (s: DefaultStateTester)
        ensures
            s == (DefaultStateTester {}),
    {
        DefaultStateTester {}
    }

    /// Spawn of each car: the cars of each side take that side's slots in order.
    pub fn reset(&mut self, teams: &Vec<i32>) -> (choices: Vec<SpawnChoice>)
        requires
            spec_fits_spawns(teams@),
        ensures
            choices@ == spec_assign(teams@, seq![0usize, 1, 2, 3, 4]),
    {
        let perm = ordered_slots();
        assign_spawns(teams, &perm)
    }
}

} // verus!
