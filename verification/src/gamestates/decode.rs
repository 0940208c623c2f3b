use vstd::prelude::*;
use crate::gamestates::player_data::{Coord2, PlayerData};
use crate::gamestates::wire_values::{
    f32_bits_positive, f32_bits_to_i32, f32_bits_to_i64, f32_order_key, spec_cast_to,
    spec_is_positive, spec_order_key,
};

verus! {

/// Number of boost pads in a state message.
pub const BOOST_PAD_LENGTH: usize = 34;
/// Values read for the ball (position, linear and angular velocity, then
/// the next nine values).
pub const BALL_STATE_LENGTH: usize = 18;
/// Values of one car's physics: position, quaternion, linear and angular velocity.
pub const PLAYER_CAR_STATE_LENGTH: usize = 13;
/// Values after a player's two car records.
pub const PLAYER_TERTIARY_INFO_LENGTH: usize = 11;
/// Values of one player: car id, team, car data, inverted car data, tertiary info.
pub const PLAYER_INFO_LENGTH: usize = 2 + 2 * PLAYER_CAR_STATE_LENGTH + PLAYER_TERTIARY_INFO_LENGTH;

/// Index of the first player record: after the three header values, the
/// boost pads and two half-steps of the ball record.
pub open spec fn spec_players_start() -> int {
    3 + BOOST_PAD_LENGTH + BALL_STATE_LENGTH
}

/// A state message is long enough to decode: its score values, pads and both
/// ball records (the inverted one is read nine values after the first one).
pub open spec fn spec_decodable_len(len: int) -> bool {
    3 + BOOST_PAD_LENGTH + BALL_STATE_LENGTH / 2 + BALL_STATE_LENGTH <= len <= i32::MAX
}

/// Number of player records in a state message of `len` values: the whole
/// records that fit after the first one's start.
pub open spec fn spec_player_count(len: int) -> int {
    (len - spec_players_start()) / (PLAYER_INFO_LENGTH as int)
}

/// Number of player records in a decodable state message of `len` values.
pub fn player_packet_count(len: usize) -> (n: usize)
    requires
        spec_decodable_len(len as int),
    ensures
        n == spec_player_count(len as int),
        spec_players_start() + n * PLAYER_INFO_LENGTH <= len,
{
    let n = (len - (3 + BOOST_PAD_LENGTH + BALL_STATE_LENGTH)) / PLAYER_INFO_LENGTH;
    let ghost m: int = len - 55;
    assert(n * 39 <= m) by (nonlinear_arith)
        requires
            n == m / 39,
            m >= 0,
    ;
    n
}

/// Car id of the last player, in message order, that touched the ball;
/// `default` when none did.
pub open spec fn spec_last_touch(players: Seq<PlayerData>, n: int, default: i32) -> i32
    decreases n,
{
    if n <= 0 {
        default
    } else if players[n - 1].ball_touched {
        players[n - 1].car_id
    } else {
        spec_last_touch(players, n - 1, default)
    }
}

/// Car id of the last player, in message order, that touched the ball;
/// `default` when none did.
pub fn last_touch(players: &Vec<PlayerData>, default: i32) -> (id: i32)
    ensures
        id == spec_last_touch(players@, players@.len() as int, default),
{
    let mut id = default;
    let mut i: usize = 0;
    while i < players.len()
        invariant
            i <= players@.len(),
            id == spec_last_touch(players@, i as int, default),
        decreases players@.len() - i,
    {
        if players[i].ball_touched {
            id = players[i].car_id;
        }
        i = i + 1;
    }
    id
}

/// `order` lists each index of `0..n` exactly once.
pub open spec fn spec_is_permutation(order: Seq<usize>, n: int) -> bool {
    &&& order.len() == n
    &&& forall|i: int| 0 <= i < n ==> #[trigger] order[i] < n
    &&& forall|i: int, j: int| 0 <= i < j < n ==> order[i] != order[j]
}

/// Following `order`, the keys never decrease.
pub open spec fn spec_sorted_by(order: Seq<usize>, keys: Seq<i32>) -> bool {
    forall|i: int, j: int| 0 <= i < j < order.len() ==> keys[order[i] as int] <= keys[order[j] as int]
}

proof fn lemma_swap_permutation(order: Seq<usize>, n: int, a: int, b: int)
    requires
        spec_is_permutation(order, n),
        0 <= a < n,
        0 <= b < n,
    ensures
        spec_is_permutation(order.update(a, order[b]).update(b, order[a]), n),
{
    let q = order.update(a, order[b]).update(b, order[a]);
    assert forall|i: int, j: int| 0 <= i < j < n implies q[i] != q[j] by {
        let pi = if i == b {
            a
        } else if i == a {
            b
        } else {
            i
        };
        let pj = if j == b {
            a
        } else if j == a {
            b
        } else {
            j
        };
        assert(q[i] == order[pi] && q[j] == order[pj] && pi != pj);
    }
}

/// The order in which decoded players are kept: by car id, smallest first.
/// Players with equal ids may come in any order.
pub fn player_order(car_ids: &Vec<i32>) -> (order: Vec<usize>)
    ensures
        spec_is_permutation(order@, car_ids@.len() as int),
        spec_sorted_by(order@, car_ids@),
{
    let n = car_ids.len();
    let mut order: Vec<usize> = Vec::new();
    let mut i: usize = 0;
    while i < n
        invariant
            n == car_ids@.len(),
            i <= n,
            order@ =~= Seq::new(i as nat, |k: int| k as usize),
        decreases n - i,
    {
        order.push(i);
        i = i + 1;
    }
    let mut i: usize = 1;
    while i < n
        invariant
            n == car_ids@.len(),
            1 <= i || n == 0,
            i <= n || n == 0,
            spec_is_permutation(order@, n as int),
            forall|a: int, b: int|
                0 <= a < b < i ==> car_ids@[order@[a] as int] <= car_ids@[order@[b] as int],
        decreases n - i,
    {
        let mut j: usize = i;
        while j > 0 && car_ids[order[j - 1]] > car_ids[order[j]]
            invariant
                n == car_ids@.len(),
                j <= i < n,
                spec_is_permutation(order@, n as int),
                forall|a: int, b: int|
                    0 <= a < b <= i && b != j ==> car_ids@[order@[a] as int]
                        <= car_ids@[order@[b] as int],
                0 < j < i ==> car_ids@[order@[j - 1] as int] <= car_ids@[order@[j + 1] as int],
            decreases j,
        {
            proof {
                lemma_swap_permutation(order@, n as int, j - 1, j as int);
            }
            let a = order[j - 1];
            let b = order[j];
            order.set(j - 1, b);
            order.set(j, a);
            j = j - 1;
        }
        i = i + 1;
    }
    order
}


/// Offset, in a player record, of the player's car data.
pub const PLAYER_CAR_DATA_START: usize = 2;
/// Offset, in a player record, of the inverted car data.
pub const PLAYER_INVERTED_CAR_DATA_START: usize = PLAYER_CAR_DATA_START + PLAYER_CAR_STATE_LENGTH;
/// Offset, in a player record, of the tertiary values (counters, flags, boost).
pub const PLAYER_TERTIARY_START: usize = PLAYER_INVERTED_CAR_DATA_START + PLAYER_CAR_STATE_LENGTH;

/// A float of the message read as `i32`.
pub open spec fn spec_i32_at(words: Seq<u32>, i: int) -> i32 {
    spec_cast_to(words[i], i32::MIN as int, i32::MAX as int) as i32
}

/// A float of the message read as `i64`.
pub open spec fn spec_i64_at(words: Seq<u32>, i: int) -> i64 {
    spec_cast_to(words[i], i64::MIN as int, i64::MAX as int) as i64
}

/// The ground-plane point whose coordinates are the floats at `i` and `i + 1`.
pub open spec fn spec_coord_at(words: Seq<u32>, i: int) -> Coord2 {
    Coord2 { x: spec_order_key(words[i]), y: spec_order_key(words[i + 1]) }
}

/// The player of the record that starts at `start`: car id and team, the
/// car's position and inverted position, the five counters and the five
/// flags (a flag is set when its float is greater than zero).
pub open spec fn spec_decoded_player(words: Seq<u32>, start: int) -> PlayerData {
    let n = words.len();
    let t = start + PLAYER_TERTIARY_START;
    PlayerData {
        car_id: spec_i32_at(words, start),
        team_num: spec_i32_at(words, start + 1),
        match_goals: spec_i64_at(words, t),
        match_saves: spec_i64_at(words, t + 1),
        match_shots: spec_i64_at(words, t + 2),
        match_demolishes: spec_i64_at(words, t + 3),
        boost_pickups: spec_i64_at(words, t + 4),
        is_demoed: spec_is_positive(words[t + 5]),
        on_ground: spec_is_positive(words[t + 6]),
        ball_touched: spec_is_positive(words[t + 7]),
        has_jump: spec_is_positive(words[t + 8]),
        has_flip: spec_is_positive(words[t + 9]),
        car_position: spec_coord_at(words, start + PLAYER_CAR_DATA_START),
        inverted_car_position: spec_coord_at(words, start + PLAYER_INVERTED_CAR_DATA_START),
    }
}

/// The players of a state message, in message order.
pub open spec fn spec_message_players(words: Seq<u32>) -> Seq<PlayerData> {
    Seq::new(
        spec_player_count(words.len() as int) as nat,
        |k: int| spec_decoded_player(words, spec_players_start() + k * (PLAYER_INFO_LENGTH as int)),
    )
}

/// The ground-plane point of the floats at `i` and `i + 1`.
pub fn coord_at(words: &Vec<u32>, i: usize) -> (c: Coord2)
    requires
        i + 1 < words@.len(),
    ensures
        c == spec_coord_at(words@, i as int),
{
    let n = words.len();
    Coord2 { x: f32_order_key(words[i]), y: f32_order_key(words[i + 1]) }
}

/// Reads the player record that starts at `start` of a state message.
pub fn decode_player(words: &Vec<u32>, start: usize) -> (p: PlayerData)
    requires
        start + PLAYER_INFO_LENGTH <= words@.len(),
    ensures
        p == spec_decoded_player(words@, start as int),
{
    let n = words.len();
    let t = start + PLAYER_TERTIARY_START;
    PlayerData {
        car_id: f32_bits_to_i32(words[start]),
        team_num: f32_bits_to_i32(words[start + 1]),
        match_goals: f32_bits_to_i64(words[t]),
        match_saves: f32_bits_to_i64(words[t + 1]),
        match_shots: f32_bits_to_i64(words[t + 2]),
        match_demolishes: f32_bits_to_i64(words[t + 3]),
        boost_pickups: f32_bits_to_i64(words[t + 4]),
        is_demoed: f32_bits_positive(words[t + 5]),
        on_ground: f32_bits_positive(words[t + 6]),
        ball_touched: f32_bits_positive(words[t + 7]),
        has_jump: f32_bits_positive(words[t + 8]),
        has_flip: f32_bits_positive(words[t + 9]),
        car_position: coord_at(words, start + PLAYER_CAR_DATA_START),
        inverted_car_position: coord_at(words, start + PLAYER_INVERTED_CAR_DATA_START),
    }
}

/// Reads the players of a decodable state message, in message order.
pub fn decode_players(words: &Vec<u32>) -> (players: Vec<PlayerData>)
    requires
        spec_decodable_len(words@.len() as int),
    ensures
        players@ == spec_message_players(words@),
{
    let n = words.len();
    let count = player_packet_count(n);
    let mut players: Vec<PlayerData> = Vec::new();
    let mut k: usize = 0;
    let mut start: usize = 3 + BOOST_PAD_LENGTH + BALL_STATE_LENGTH;
    while k < count
        invariant
            n == words@.len(),
            count == spec_player_count(words@.len() as int),
            55 + 39 * count <= words@.len(),
            k <= count,
            start == 55 + 39 * k,
            players@ =~= spec_message_players(words@).take(k as int),
        decreases count - k,
    {
        assert(start + 39 <= words@.len()) by (nonlinear_arith)
            requires
                start == 55 + 39 * k,
                k < count,
                55 + 39 * count <= words@.len(),
        ;
        players.push(decode_player(words, start));
        start = start + PLAYER_INFO_LENGTH;
        k = k + 1;
    }
    players
}

/// Where each field of a decoded player comes from in its record of 39
/// values: the car id at `0` and the team at `1`, the car's position at `2`
/// and `3`, the inverted position at `15` and `16`, then from `28` the
/// tertiary values in the order goals, saves, shots, demolitions, boost
/// pickups, is-demolished, on-ground, ball-touched, has-jump, has-flip. Each
/// counter is its float read as an integer, and each flag is set exactly when
/// its float is greater than zero.
pub proof fn lemma_player_fields_at_offsets(words: Seq<u32>, start: int)
    requires
        0 <= start,
        start + 39 <= words.len(),
    ensures
        spec_decoded_player(words, start).car_id == spec_cast_to(words[start], i32::MIN as int, i32::MAX as int),
        spec_decoded_player(words, start).team_num == spec_cast_to(words[start + 1], i32::MIN as int, i32::MAX as int),
        spec_decoded_player(words, start).car_position.x == spec_order_key(words[start + 2]),
        spec_decoded_player(words, start).car_position.y == spec_order_key(words[start + 3]),
        spec_decoded_player(words, start).inverted_car_position.x == spec_order_key(words[start + 15]),
        spec_decoded_player(words, start).inverted_car_position.y == spec_order_key(words[start + 16]),
        spec_decoded_player(words, start).match_goals == spec_cast_to(words[start + 28], i64::MIN as int, i64::MAX as int),
        spec_decoded_player(words, start).match_saves == spec_cast_to(words[start + 29], i64::MIN as int, i64::MAX as int),
        spec_decoded_player(words, start).match_shots == spec_cast_to(words[start + 30], i64::MIN as int, i64::MAX as int),
        spec_decoded_player(words, start).match_demolishes == spec_cast_to(words[start + 31], i64::MIN as int, i64::MAX as int),
        spec_decoded_player(words, start).boost_pickups == spec_cast_to(words[start + 32], i64::MIN as int, i64::MAX as int),
        spec_decoded_player(words, start).is_demoed == spec_is_positive(words[start + 33]),
        spec_decoded_player(words, start).on_ground == spec_is_positive(words[start + 34]),
        spec_decoded_player(words, start).ball_touched == spec_is_positive(words[start + 35]),
        spec_decoded_player(words, start).has_jump == spec_is_positive(words[start + 36]),
        spec_decoded_player(words, start).has_flip == spec_is_positive(words[start + 37]),
{
    let lo_32 = i32::MIN as int;
    let hi_32 = i32::MAX as int;
    let lo_64 = i64::MIN as int;
    let hi_64 = i64::MAX as int;
    lemma_cast_in_range(words[start], lo_32, hi_32);
    lemma_cast_in_range(words[start + 1], lo_32, hi_32);
    lemma_cast_in_range(words[start + 28], lo_64, hi_64);
    lemma_cast_in_range(words[start + 29], lo_64, hi_64);
    lemma_cast_in_range(words[start + 30], lo_64, hi_64);
    lemma_cast_in_range(words[start + 31], lo_64, hi_64);
    lemma_cast_in_range(words[start + 32], lo_64, hi_64);
}

/// A saturating cast lands inside its bounds.
proof fn lemma_cast_in_range(bits: u32, lo: int, hi: int)
    requires
        lo <= 0 <= hi,
    ensures
        lo <= spec_cast_to(bits, lo, hi) <= hi,
{
}

} // verus!
