use vstd::prelude::*;
use crate::gamestates::player_data::{Coord2, PlayerData};
use crate::gamestates::decode::{
    coord_at, decode_players, last_touch, player_order, spec_coord_at, spec_decodable_len,
    spec_i32_at, spec_is_permutation, spec_last_touch, spec_message_players, spec_sorted_by,
    BALL_STATE_LENGTH, BOOST_PAD_LENGTH,
};
use crate::gamestates::wire_values::f32_bits_to_i32;

verus! {

/// What the environment's logic reads of one game state.
#[derive(Clone, Debug)]
pub struct GameState {
    pub game_type: i32,
    pub blue_score: i32,
    pub orange_score: i32,
    pub last_touch: i32,
    pub players: Vec<PlayerData>,
    /// Ball position, seen from the blue side.
    pub ball_position: Coord2,
    /// Ball position, seen from the orange side.
    pub inverted_ball_position: Coord2,
}

impl GameState {
    /// A state before anything was decoded: no players, scores and last
    /// touch `-1`; then the state message is decoded when one is given.
    pub fn new(state_words: Option<Vec<u32>>) -> (s: GameState)
        requires
            state_words matches Some(w) ==> spec_decodable_len(w@.len() as int),
        ensures
            s.game_type == 0,
            state_words is None ==> {
                &&& s.blue_score == -1 && s.orange_score == -1 && s.last_touch == -1
                &&& s.players@.len() == 0
                &&& s.ball_position.spec_is_centre() && s.inverted_ball_position.spec_is_centre()
            },
            state_words matches Some(w) ==> s.spec_decoded_onto(Seq::empty(), -1i32, w@),
    {
        let mut s = GameState {
            game_type: 0,
            blue_score: -1,
            orange_score: -1,
            last_touch: -1,
            players: Vec::new(),
            ball_position: Coord2::origin(),
            inverted_ball_position: Coord2::origin(),
        };
        match state_words {
            Some(words) => {
                s.decode(&words);
            },
            None => {},
        }
        s
    }

    /// The players decoded onto `earlier`: those players followed by the
    /// message's.
    pub open spec fn spec_all_players(earlier: Seq<PlayerData>, words: Seq<u32>) -> Seq<PlayerData> {
        earlier + spec_message_players(words)
    }

    /// This state holds the message `words` decoded onto the players
    /// `earlier` and the last touch `earlier_touch`: the scores (floats 1
    /// and 2) and the ball and inverted ball positions (floats 37 and 46 on)
    /// are read, the last touch is that of the last message player that
    /// touched the ball (`earlier_touch` when none did), and the players are
    /// the earlier ones and the message's, sorted by car id.
    pub open spec fn spec_decoded_onto(
        self,
        earlier: Seq<PlayerData>,
        earlier_touch: i32,
        words: Seq<u32>,
    ) -> bool {
        let all = GameState::spec_all_players(earlier, words);
        let ball_start = 3 + BOOST_PAD_LENGTH;
        &&& self.blue_score == spec_i32_at(words, 1)
        &&& self.orange_score == spec_i32_at(words, 2)
        &&& self.ball_position == spec_coord_at(words, ball_start as int)
        &&& self.inverted_ball_position == spec_coord_at(
            words,
            ball_start + BALL_STATE_LENGTH / 2,
        )
        &&& self.last_touch == spec_last_touch(
            spec_message_players(words),
            spec_message_players(words).len() as int,
            earlier_touch,
        )
        &&& exists|order: Seq<usize>|
            {
                &&& spec_is_permutation(order, all.len() as int)
                &&& spec_sorted_by(order, all.map_values(|p: PlayerData| p.car_id))
                &&& self.players@ == order.map_values(|k: usize| all[k as int])
            }
    }

    /// Decodes a state message into this state: scores, ball positions, the
    /// last touch and the message's players, which join the state's players,
    /// all sorted by car id.
    pub fn decode(&mut self, words: &Vec<u32>)
        requires
            spec_decodable_len(words@.len() as int),
        ensures
            final(self).game_type == old(self).game_type,
            final(self).spec_decoded_onto(old(self).players@, old(self).last_touch, words@),
    {
        let ghost before = *self;
        let ball_start = 3 + BOOST_PAD_LENGTH;
        self.blue_score = f32_bits_to_i32(words[1]);
        self.orange_score = f32_bits_to_i32(words[2]);
        self.ball_position = coord_at(words, ball_start);
        self.inverted_ball_position = coord_at(words, ball_start + BALL_STATE_LENGTH / 2);
        let decoded = decode_players(words);
        self.last_touch = last_touch(&decoded, self.last_touch);

        let ghost all = GameState::spec_all_players(before.players@, words@);
        let mut joined: Vec<PlayerData> = Vec::new();
        let mut i: usize = 0;
        while i < self.players.len()
            invariant
                i <= self.players@.len(),
                self.players@ == before.players@,
                joined@ =~= before.players@.take(i as int),
            decreases self.players@.len() - i,
        {
            joined.push(self.players[i]);
            i = i + 1;
        }
        let mut i: usize = 0;
        while i < decoded.len()
            invariant
                i <= decoded@.len(),
                decoded@ == spec_message_players(words@),
                joined@ =~= before.players@ + decoded@.take(i as int),
            decreases decoded@.len() - i,
        {
            joined.push(decoded[i]);
            i = i + 1;
        }
        assert(decoded@.take(decoded@.len() as int) =~= decoded@);
        assert(joined@ =~= all);

        let mut ids: Vec<i32> = Vec::new();
        let mut i: usize = 0;
        while i < joined.len()
            invariant
                i <= joined@.len(),
                ids@ =~= joined@.take(i as int).map_values(|p: PlayerData| p.car_id),
            decreases joined@.len() - i,
        {
            ids.push(joined[i].car_id);
            i = i + 1;
        }
        assert(joined@.take(joined@.len() as int) =~= joined@);
        let order = player_order(&ids);

        let mut sorted: Vec<PlayerData> = Vec::new();
        let mut i: usize = 0;
        while i < order.len()
            invariant
                i <= order@.len(),
                spec_is_permutation(order@, joined@.len() as int),
                sorted@ =~= order@.take(i as int).map_values(|k: usize| joined@[k as int]),
            decreases order@.len() - i,
        {
            sorted.push(joined[order[i]]);
            i = i + 1;
        }
        assert(order@.take(order@.len() as int) =~= order@);
        self.players = sorted;
        assert(self.players@ == order@.map_values(|k: usize| all[k as int]));
    }

    /// Whether some player touched the ball in this state.
    pub open spec fn spec_any_touched(self) -> bool {
        exists|i: int| 0 <= i < self.players@.len() && #[trigger] self.players@[i].ball_touched
    }

    /// Whether some player touched the ball in this state.
    pub fn any_touched(&self) -> (r: bool)
        ensures
            r == self.spec_any_touched(),
    {
        let mut i: usize = 0;
        while i < self.players.len()
            invariant
                i <= self.players@.len(),
                forall|j: int| 0 <= j < i ==> !(#[trigger] self.players@[j]).ball_touched,
            decreases self.players@.len() - i,
        {
            if self.players[i].ball_touched {
                return true;
            }
            i = i + 1;
        }
        false
    }
}

} // verus!
