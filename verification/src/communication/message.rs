use vstd::prelude::*;

verus! {

// Every value on the pipe is a 32-bit float; the library handles each one as
// its IEEE-754 bit pattern. All tokens below are exact integers, so comparing
// a received float with a token is the same as comparing the bit patterns.
/// Ends a message header (`13771.0, 83712.0, 83770.0`).
pub const RLGYM_HEADER_END_TOKEN: [u32; 3] = [0x46572c00, 0x47a38000, 0x47a39d00];
/// Ends a message body (`82772.0, 83273.0, 83774.0`).
pub const RLGYM_BODY_END_TOKEN: [u32; 3] = [0x47a1aa00, 0x47a2a480, 0x47a39f00];
/// Header of a message that carries no header (`83373.0, 83734.0, 83775.0`).
pub const RLGYM_NULL_MESSAGE_HEADER: [u32; 3] = [0x47a2d680, 0x47a38b00, 0x47a39f80];
/// Body of a message that carries no body (`83744.0, 83774.0, 83876.0`).
pub const RLGYM_NULL_MESSAGE_BODY: [u32; 3] = [0x47a39000, 0x47a39f00, 0x47a3d200];
/// Header of the match configuration (`83775.0, 53776.0, 83727.0`).
pub const RLGYM_CONFIG_MESSAGE_HEADER: [u32; 3] = [0x47a39f80, 0x47521000, 0x47a38780];
/// Header of a game state (`63776.0, 83777.0, 83778.0`).
pub const RLGYM_STATE_MESSAGE_HEADER: [u32; 3] = [0x47792000, 0x47a3a080, 0x47a3a100];
/// Header of agent actions (`87777.0, 83778.0, 83779.0`).
pub const RLGYM_AGENT_ACTION_MESSAGE_HEADER: [u32; 3] = [0x47ab7080, 0x47a3a100, 0x47a3a180];
/// Header of a game-state reset (`83878.0, 83779.0, 83780.0`).
pub const RLGYM_RESET_GAME_STATE_MESSAGE_HEADER: [u32; 3] = [0x47a3d300, 0x47a3a180, 0x47a3a200];
/// Header of agent actions that want an immediate answer (`83799.0, 83780.0, 83781.0`).
pub const RLGYM_AGENT_ACTION_IMMEDIATE_RESPONSE_MESSAGE_HEADER: [u32; 3] = [
    0x47a3ab80,
    0x47a3a200,
    0x47a3a280,
];
/// Header of a request for the last bot input (`83781.0, 83781.0, 83682.0`).
pub const RLGYM_REQUEST_LAST_BOT_INPUT_MESSAGE_HEADER: [u32; 3] = [
    0x47a3a280,
    0x47a3a280,
    0x47a37100,
];
/// Header of the last bot input (`11781.0, 83782.0, 83983.0`).
pub const RLGYM_LAST_BOT_INPUT_MESSAGE_HEADER: [u32; 3] = [0x46381400, 0x47a3a300, 0x47a40780];
/// Header of a reset to a given game state (`12782.0, 83783.0, 80784.0`).
pub const RLGYM_RESET_TO_SPECIFIC_GAME_STATE_MESSAGE_HEADER: [u32; 3] = [
    0x4647b800,
    0x47a3a380,
    0x479dc800,
];

/// A token as a vector.
pub fn token_vec(t: [u32; 3]) -> (v: Vec<u32>)
    ensures
        v@ == t@,
{
    let mut v: Vec<u32> = Vec::new();
    v.push(t[0]);
    v.push(t[1]);
    v.push(t[2]);
    assert(v@ =~= t@);
    v
}

/// A copy of a vector of words.
fn copy_words(src: &Vec<u32>) -> (v: Vec<u32>)
    ensures
        v@ == src@,
{
    let mut v: Vec<u32> = Vec::new();
    let mut i: usize = 0;
    while i < src.len()
        invariant
            i <= src@.len(),
            v@ =~= src@.take(i as int),
        decreases src@.len() - i,
    {
        v.push(src[i]);
        i = i + 1;
    }
    assert(src@.take(src@.len() as int) =~= src@);
    v
}

/// Appends a copy of `src` to `dst`.
fn extend_words(dst: &mut Vec<u32>, src: &Vec<u32>)
    ensures
        final(dst)@ == old(dst)@ + src@,
{
    let ghost start = dst@;
    let mut i: usize = 0;
    while i < src.len()
        invariant
            i <= src@.len(),
            dst@ =~= start + src@.take(i as int),
        decreases src@.len() - i,
    {
        dst.push(src[i]);
        i = i + 1;
    }
    assert(src@.take(src@.len() as int) =~= src@);
}

/// The scan of `_find_first` and `_find_first_end` accepts index `i`: it is a
/// valid index of `target`, `list[i] == target[i]`, and `target` occurs in
/// `list` starting at `i`.
pub open spec fn spec_hit(list: Seq<u32>, target: Seq<u32>, i: int) -> bool {
    &&& 0 <= i < target.len()
    &&& list[i] == target[i]
    &&& i + target.len() <= list.len()
    &&& list.subrange(i, i + target.len()) == target
}

/// No index of `lo..i` is accepted by the scan.
pub open spec fn spec_no_hit_between(list: Seq<u32>, target: Seq<u32>, lo: int, i: int) -> bool {
    forall|j: int| lo <= j < i ==> !#[trigger] spec_hit(list, target, j)
}

/// Reaching index `i` does not panic: it is a valid index of `target`, and
/// where `list[i] == target[i]` the window `i..i + target.len()` lies inside `list`.
pub open spec fn spec_scan_ok_at(list: Seq<u32>, target: Seq<u32>, i: int) -> bool {
    i < target.len() && (list[i] == target[i] ==> i + target.len() <= list.len())
}

/// The scan over `lo..list.len()` ends without a panic: every index it reaches
/// (those up to the first accepted one) is safe to reach.
pub open spec fn spec_scan_safe(list: Seq<u32>, target: Seq<u32>, lo: int) -> bool {
    forall|i: int|
        lo <= i < list.len() && spec_no_hit_between(list, target, lo, i) ==> #[trigger] spec_scan_ok_at(
            list,
            target,
            i,
        )
}

/// What the scan over `lo..list.len()` returns: the first accepted index, or
/// `0` when it accepts none.
pub open spec fn spec_scan_result(list: Seq<u32>, target: Seq<u32>, lo: int, r: int) -> bool {
    ||| (lo <= r < list.len() && spec_hit(list, target, r) && spec_no_hit_between(
        list,
        target,
        lo,
        r,
    ))
    ||| (r == 0 && spec_no_hit_between(list, target, lo, list.len() as int))
}

/// Whether `target` occurs in `list` at `i` (the window must fit).
fn window_equals(list: &Vec<u32>, target: &Vec<u32>, i: usize) -> (r: bool)
    requires
        i + target@.len() <= list@.len(),
    ensures
        r == (list@.subrange(i as int, i + target@.len()) == target@),
{
    let n: usize = list.len();
    let mut k: usize = 0;
    while k < target.len()
        invariant
            i + target@.len() <= list@.len(),
            k <= target@.len(),
            list@.len() == n,
            forall|m: int| 0 <= m < k ==> list@[i + m] == target@[m],
        decreases target@.len() - k,
    {
        if list[i + k] != target[k] {
            assert(list@.subrange(i as int, i + target@.len())[k as int] != target@[k as int]);
            return false;
        }
        k = k + 1;
    }
    assert(list@.subrange(i as int, i + target@.len()) =~= target@);
    true
}

/// The scan shared by `_find_first` and `_find_first_end`, over `lo..list.len()`.
fn scan(list: &Vec<u32>, target: &Vec<u32>, lo: usize) -> (r: usize)
    requires
        lo <= list@.len(),
        spec_scan_safe(list@, target@, lo as int),
    ensures
        spec_scan_result(list@, target@, lo as int, r as int),
{
    let mut i: usize = lo;
    while i < list.len()
        invariant
            lo <= i <= list@.len(),
            spec_scan_safe(list@, target@, lo as int),
            spec_no_hit_between(list@, target@, lo as int, i as int),
        decreases list@.len() - i,
    {
        assert(spec_scan_ok_at(list@, target@, i as int));
        if list[i] == target[i] && window_equals(list, target, i) {
            return i;
        }
        i = i + 1;
    }
    0
}

/// Whether the scan over `lo..list.len()` ends without a panic, which the
/// searches below require.
pub fn scan_is_safe(list: &Vec<u32>, target: &Vec<u32>, lo: usize) -> (r: bool)
    requires
        lo <= list@.len(),
    ensures
        r == spec_scan_safe(list@, target@, lo as int),
{
    let mut i: usize = lo;
    while i < list.len()
        invariant
            lo <= i <= list@.len(),
            spec_no_hit_between(list@, target@, lo as int, i as int),
            forall|j: int| lo <= j < i ==> #[trigger] spec_scan_ok_at(list@, target@, j),
        decreases list@.len() - i,
    {
        if i >= target.len() {
            assert(!spec_scan_ok_at(list@, target@, i as int));
            return false;
        }
        if list[i] == target[i] {
            if target.len() > list.len() - i {
                assert(!spec_scan_ok_at(list@, target@, i as int));
                return false;
            }
            if window_equals(list, target, i) {
                assert forall|j: int|
                    lo <= j < list@.len() && spec_no_hit_between(list@, target@, lo as int, j)
                        implies #[trigger] spec_scan_ok_at(list@, target@, j) by {
                    if j > i {
                        assert(spec_hit(list@, target@, i as int));
                    }
                }
                return true;
            }
        }
        i = i + 1;
    }
    true
}

/// Index at which `target` is found in `list` by scanning `list` from its
/// start; `0` when the scan finds nothing.
pub fn _find_first(list: &Vec<u32>, target: Vec<u32>) -> (r: usize)
    requires
        spec_scan_safe(list@, target@, 0),
    ensures
        spec_scan_result(list@, target@, 0, r as int),
{
    scan(list, &target, 0)
}

/// Index at which `target` is found in `list` by scanning the last four
/// values of `list`; `0` when the scan finds nothing.
pub fn _find_first_end(list: &Vec<u32>, target: Vec<u32>) -> (r: usize)
    requires
        list@.len() >= 4,
        spec_scan_safe(list@, target@, list@.len() - 4),
    ensures
        spec_scan_result(list@, target@, list@.len() - 4, r as int),
{
    scan(list, &target, list.len() - 4)
}

/// The values of a message before the header-end token that `_find_first` finds.
pub fn deserialize_header(message_floats: &Vec<u32>) -> (header: Vec<u32>)
    requires
        spec_scan_safe(message_floats@, RLGYM_HEADER_END_TOKEN@, 0),
    ensures
        exists|e: int|
            spec_scan_result(message_floats@, RLGYM_HEADER_END_TOKEN@, 0, e) && header@
                == message_floats@.take(e),
{
    let header_end = _find_first(message_floats, token_vec(RLGYM_HEADER_END_TOKEN));
    let mut header: Vec<u32> = Vec::new();
    let mut i: usize = 0;
    while i < header_end
        invariant
            header_end <= message_floats@.len() || header_end == 0,
            i <= header_end,
            header@ =~= message_floats@.take(i as int),
        decreases header_end - i,
    {
        header.push(message_floats[i]);
        i = i + 1;
    }
    header
}

/// A copy of `src[lo..hi]`.
fn copy_range(src: &Vec<u32>, lo: usize, hi: usize) -> (v: Vec<u32>)
    requires
        lo <= hi <= src@.len(),
    ensures
        v@ == src@.subrange(lo as int, hi as int),
{
    let mut v: Vec<u32> = Vec::new();
    let mut i: usize = lo;
    while i < hi
        invariant
            lo <= i <= hi <= src@.len(),
            v@ =~= src@.subrange(lo as int, i as int),
        decreases hi - i,
    {
        v.push(src[i]);
        i = i + 1;
    }
    v
}

/// The scan over `lo..` has one result.
proof fn lemma_scan_result_unique(list: Seq<u32>, target: Seq<u32>, lo: int, r1: int, r2: int)
    requires
        spec_scan_result(list, target, lo, r1),
        spec_scan_result(list, target, lo, r2),
    ensures
        r1 == r2,
{
    if lo <= r1 < list.len() && spec_hit(list, target, r1) && spec_no_hit_between(list, target, lo, r1) {
        if lo <= r2 < list.len() && spec_hit(list, target, r2) && spec_no_hit_between(list, target, lo, r2) {
            if r1 < r2 {
                assert(!spec_hit(list, target, r1));
            } else if r2 < r1 {
                assert(!spec_hit(list, target, r2));
            }
        } else {
            assert(!spec_hit(list, target, r1));
        }
    } else if lo <= r2 < list.len() && spec_hit(list, target, r2) && spec_no_hit_between(list, target, lo, r2) {
        assert(!spec_hit(list, target, r2));
    }
}

/// Where the header-end token is found from the start (`e`) and in the last
/// four values (`f`) of a received message, the body runs from after the
/// token to `f`.
pub open spec fn spec_split_at(words: Seq<u32>, e: int, f: int) -> bool {
    &&& words.len() >= 4
    &&& spec_scan_result(words, RLGYM_HEADER_END_TOKEN@, 0, e)
    &&& spec_scan_result(words, RLGYM_HEADER_END_TOKEN@, words.len() - 4, f)
    &&& e + 3 <= f
}

/// A received message splits into header and body: both searches for the
/// header-end token end without a panic, and the body's range is not reversed.
pub open spec fn spec_split_ok(words: Seq<u32>) -> bool {
    &&& spec_scan_safe(words, RLGYM_HEADER_END_TOKEN@, 0)
    &&& words.len() >= 4
    &&& spec_scan_safe(words, RLGYM_HEADER_END_TOKEN@, words.len() - 4)
    &&& exists|e: int, f: int| spec_split_at(words, e, f)
}

/// Why a received message cannot be split into header and body.
#[derive(Clone, Copy, Debug, PartialEq, Eq, Structural)]
pub enum SplitError {
    /// The search for the header-end token from the start does not survive.
    HeaderSearchFails,
    /// The message has fewer than four values, so its last four cannot be searched.
    TooShort,
    /// The search for the header-end token in the last four values does not survive.
    EndSearchFails,
    /// The body would start after the index the end search returns.
    BodyRangeReversed,
}

/// No received message splits: the end search accepts only indices below the
/// token's length (`3`) and returns `0` when it accepts none, while the body
/// starts at least `3` values in.
pub proof fn lemma_split_never_ok(words: Seq<u32>)
    ensures
        !spec_split_ok(words),
{
    if spec_split_ok(words) {
        let (e, f) = choose|e: int, f: int| spec_split_at(words, e, f);
        assert(spec_split_at(words, e, f));
        if words.len() - 4 <= f < words.len() && spec_hit(words, RLGYM_HEADER_END_TOKEN@, f) {
            assert(f < 3);
        }
    }
}

/// Serialising and then splitting a message never gives it back: the split
/// of every serialised message fails, as `lemma_split_never_ok` shows of
/// every sequence of values.
pub proof fn lemma_serialize_then_split_fails(m: Message)
    ensures
        !spec_split_ok(m.spec_serialize()),
{
    lemma_split_never_ok(m.spec_serialize());
}

/// A message on the pipe: a header and a body.
#[derive(Debug)]
pub struct Message {
    body: Vec<u32>,
    header: Vec<u32>,
}

impl Message {
    pub closed spec fn header(self) -> Seq<u32> {
        self.header@
    }

    pub closed spec fn body(self) -> Seq<u32> {
        self.body@
    }

    /// The values that `serialize` sends: header, header-end token, body,
    /// body-end token.
    pub open spec fn spec_serialize(self) -> Seq<u32> {
        self.header() + RLGYM_HEADER_END_TOKEN@ + self.body() + RLGYM_BODY_END_TOKEN@
    }

    /// A message with the null header and the null body.
    pub fn new() -> (m: Message)
        ensures
            m.header() == RLGYM_NULL_MESSAGE_HEADER@,
            m.body() == RLGYM_NULL_MESSAGE_BODY@,
    {
        Message {
            header: token_vec(RLGYM_NULL_MESSAGE_HEADER),
            body: token_vec(RLGYM_NULL_MESSAGE_BODY),
        }
    }

    pub fn set_body_header_vals(&mut self, header: Vec<u32>, body: Vec<u32>)
        ensures
            final(self).header() == header@,
            final(self).body() == body@,
    {
        self.header = header;
        self.body = body;
    }

    /// The header's values.
    pub fn header_values(&self) -> (h: &Vec<u32>)
        ensures
            h@ == self.header(),
    {
        &self.header
    }

    /// The body's values.
    pub fn body_values(&self) -> (b: &Vec<u32>)
        ensures
            b@ == self.body(),
    {
        &self.body
    }

    /// Splits a received message into header (the values before the
    /// header-end token found from the start) and body (from after that
    /// token to where the token is found in the last four values). Where one
    /// of these steps fails, says which, and the message is left as it was.
    pub fn deserialize(&mut self, message_floats: &Vec<u32>) -> (r: Result<(), SplitError>)
        ensures
            r == Err::<(), SplitError>(SplitError::HeaderSearchFails) <==> !spec_scan_safe(
                message_floats@,
                RLGYM_HEADER_END_TOKEN@,
                0,
            ),
            r == Err::<(), SplitError>(SplitError::TooShort) <==> spec_scan_safe(
                message_floats@,
                RLGYM_HEADER_END_TOKEN@,
                0,
            ) && message_floats@.len() < 4,
            r == Err::<(), SplitError>(SplitError::EndSearchFails) <==> spec_scan_safe(
                message_floats@,
                RLGYM_HEADER_END_TOKEN@,
                0,
            ) && message_floats@.len() >= 4 && !spec_scan_safe(
                message_floats@,
                RLGYM_HEADER_END_TOKEN@,
                message_floats@.len() - 4,
            ),
            r is Ok <==> spec_split_ok(message_floats@),
            r is Ok ==> exists|e: int, f: int|
                spec_split_at(message_floats@, e, f) && final(self).header() == message_floats@.take(e)
                    && final(self).body() == message_floats@.subrange(e + 3, f),
            r is Err ==> *final(self) == *old(self),
    {
        let words = message_floats;
        let token = token_vec(RLGYM_HEADER_END_TOKEN);
        if !scan_is_safe(words, &token, 0) {
            return Err(SplitError::HeaderSearchFails);
        }
        let header_end = _find_first(words, token_vec(RLGYM_HEADER_END_TOKEN));
        if words.len() < 4 {
            return Err(SplitError::TooShort);
        }
        if !scan_is_safe(words, &token, words.len() - 4) {
            return Err(SplitError::EndSearchFails);
        }
        let end = _find_first_end(words, token_vec(RLGYM_HEADER_END_TOKEN));
        if end < 3 || header_end > end - 3 {
            proof {
                assert forall|e: int, f: int| !spec_split_at(words@, e, f) by {
                    if spec_split_at(words@, e, f) {
                        lemma_scan_result_unique(words@, RLGYM_HEADER_END_TOKEN@, 0, e, header_end as int);
                        lemma_scan_result_unique(
                            words@,
                            RLGYM_HEADER_END_TOKEN@,
                            words@.len() - 4,
                            f,
                            end as int,
                        );
                    }
                }
            }
            return Err(SplitError::BodyRangeReversed);
        }
        assert(spec_split_at(words@, header_end as int, end as int));
        self.header = copy_range(words, 0, header_end);
        self.body = copy_range(words, header_end + 3, end);
        assert(words@.take(header_end as int) =~= words@.subrange(0, header_end as int));
        Ok(())
    }

    pub fn serialize(&self) -> (ret: Vec<u32>)
        ensures
            ret@ == self.spec_serialize(),
    {
        let mut ret_vec = copy_words(&self.header);
        extend_words(&mut ret_vec, &token_vec(RLGYM_HEADER_END_TOKEN));
        extend_words(&mut ret_vec, &self.body);
        extend_words(&mut ret_vec, &token_vec(RLGYM_BODY_END_TOKEN));
        ret_vec
    }
}


/// Reading back the header of a serialised message: for a message with an
/// empty header, the scan for the header-end token is safe and finds it at
/// the start, so the header read is empty again. (With a header the scan
/// reaches past the token's length before it finds the token, which the
/// search does not survive.)
pub proof fn lemma_empty_header_read_back(body: Seq<u32>)
    ensures
        spec_scan_safe(
            Seq::<u32>::empty() + RLGYM_HEADER_END_TOKEN@ + body + RLGYM_BODY_END_TOKEN@,
            RLGYM_HEADER_END_TOKEN@,
            0,
        ),
        spec_scan_result(
            Seq::<u32>::empty() + RLGYM_HEADER_END_TOKEN@ + body + RLGYM_BODY_END_TOKEN@,
            RLGYM_HEADER_END_TOKEN@,
            0,
            0,
        ),
{
    let list = Seq::<u32>::empty() + RLGYM_HEADER_END_TOKEN@ + body + RLGYM_BODY_END_TOKEN@;
    let token = RLGYM_HEADER_END_TOKEN@;
    assert(list.subrange(0, 3) =~= token);
    assert(spec_hit(list, token, 0));
    assert forall|i: int|
        0 <= i < list.len() && spec_no_hit_between(list, token, 0, i) implies #[trigger] spec_scan_ok_at(
        list,
        token,
        i,
    ) by {
        if i > 0 {
            assert(!spec_hit(list, token, 0));
        }
    }
}

} // verus!
