use vstd::prelude::*;
use vstd::string::StringExecFns;
use crate::communication::message::{
    Message, RLGYM_NULL_MESSAGE_BODY, RLGYM_NULL_MESSAGE_HEADER, token_vec,
};

verus! {

pub const RLGYM_GLOBAL_PIPE_ID: &'static str = "RLGYM_GLOBAL_COMM_PIPE";
pub const RLGYM_GLOBAL_PIPE_NAME: &'static str = "\\\\.\\pipe\\RLGYM_GLOBAL_COMM_PIPE";
/// Size in bytes of one read from or write to the pipe.
pub const RLGYM_DEFAULT_PIPE_SIZE: usize = 1400;
pub const RLGYM_DEFAULT_TIMEOUT: usize = 4000;

/// The decimal digits of `n`, most significant first, without leading zeros.
pub open spec fn spec_decimal(n: nat) -> Seq<char>
    decreases n,
{
    if n < 10 {
        seq![spec_digit(n)]
    } else {
        spec_decimal(n / 10) + seq![spec_digit(n % 10)]
    }
}

/// The character of a decimal digit.
pub open spec fn spec_digit(d: nat) -> char {
    (('0' as nat) + d) as char
}

fn digit_str(d: usize) -> (s: &'static str)
    requires
        d < 10,
    ensures
        s@ == seq![spec_digit(d as nat)],
{
    proof {
        reveal_strlit("0");
        reveal_strlit("1");
        reveal_strlit("2");
        reveal_strlit("3");
        reveal_strlit("4");
        reveal_strlit("5");
        reveal_strlit("6");
        reveal_strlit("7");
        reveal_strlit("8");
        reveal_strlit("9");
    }
    let s = if d == 0 {
        "0"
    } else if d == 1 {
        "1"
    } else if d == 2 {
        "2"
    } else if d == 3 {
        "3"
    } else if d == 4 {
        "4"
    } else if d == 5 {
        "5"
    } else if d == 6 {
        "6"
    } else if d == 7 {
        "7"
    } else if d == 8 {
        "8"
    } else {
        "9"
    };
    assert(s@ =~= seq![spec_digit(d as nat)]);
    s
}

/// Appends the decimal digits of `n` to `s`.
fn append_decimal(s: &mut String, n: usize)
    ensures
        final(s)@ == old(s)@ + spec_decimal(n as nat),
    decreases n,
{
    if n >= 10 {
        append_decimal(s, n / 10);
    }
    s.append(digit_str(n % 10));
    assert(final(s)@ =~= old(s)@ + spec_decimal(n as nat));
}

/// Name of the pipe with the given id: `\\.\pipe\` followed by the id in decimal.
pub fn format_pipe_id(pipe_id: usize) -> (name: String)
    ensures
        name@ == "\\\\.\\pipe\\"@ + spec_decimal(pipe_id as nat),
{
    let mut name = String::from_str("\\\\.\\pipe\\");
    append_decimal(&mut name, pipe_id);
    name
}

/// The 32-bit word whose little-endian bytes are `b0, b1, b2, b3`.
pub open spec fn spec_le_word(b0: u8, b1: u8, b2: u8, b3: u8) -> int {
    b0 + 256 * b1 + 65536 * b2 + 16777216 * b3
}

/// Number of 4-byte words that the first `n` bytes are read as (a partial
/// last word counts as a whole one).
pub open spec fn spec_words_read(n: nat) -> nat {
    (n + 3) / 4
}

/// What `bytes_to_f32` returns: the bit pattern of each little-endian float
/// that starts at a multiple of 4 below `bytes_read`.
pub open spec fn spec_bytes_to_words(bytes: Seq<u8>, bytes_read: nat) -> Seq<u32> {
    Seq::new(
        spec_words_read(bytes_read),
        |k: int| spec_le_word(bytes[4 * k], bytes[4 * k + 1], bytes[4 * k + 2], bytes[4 * k + 3]) as u32,
    )
}

/// Reads the first `bytes_read` bytes of a pipe buffer as little-endian
/// 32-bit floats, each given by its bit pattern. A partial last float is read
/// whole, so the buffer must hold every 4-byte group that starts below `bytes_read`.
pub fn bytes_to_f32(bytes: &[u8], bytes_read: &u32) -> (words: Vec<u32>)
    requires
        4 * spec_words_read(*bytes_read as nat) <= bytes@.len(),
    ensures
        words@ == spec_bytes_to_words(bytes@, *bytes_read as nat),
{
    let n: usize = bytes.len();
    let mut words: Vec<u32> = Vec::new();
    let mut i: usize = 0;
    let read: usize = *bytes_read as usize;
    while i < read
        invariant
            n == bytes@.len(),
            read == *bytes_read as nat,
            4 * spec_words_read(read as nat) <= n,
            i % 4 == 0,
            i <= read + 3,
            words@.len() == i / 4,
            forall|k: int|
                0 <= k < words@.len() ==> words@[k] == spec_le_word(
                    bytes@[4 * k],
                    bytes@[4 * k + 1],
                    bytes@[4 * k + 2],
                    bytes@[4 * k + 3],
                ) as u32,
        decreases read + 3 - i,
    {
        assert(i + 4 <= n);
        let w: u32 = bytes[i] as u32 + (bytes[i + 1] as u32) * 256 + (bytes[i + 2] as u32) * 65536
            + (bytes[i + 3] as u32) * 16777216;
        words.push(w);
        i = i + 4;
    }
    assert(words@ =~= spec_bytes_to_words(bytes@, *bytes_read as nat));
    words
}

/// The little-endian bytes of a sequence of words, four per word.
pub open spec fn spec_words_to_bytes(words: Seq<u32>) -> Seq<u8> {
    Seq::new(
        4 * words.len(),
        |i: int| ((words[i / 4] as int / pow256(i % 4)) % 256) as u8,
    )
}

/// `256` to the power `e`, for `e < 4`.
pub open spec fn pow256(e: int) -> int {
    if e == 0 {
        1
    } else if e == 1 {
        256
    } else if e == 2 {
        65536
    } else {
        16777216
    }
}

/// The bytes of a float vector as sent on the pipe: each float's bit pattern
/// in little-endian order (the byte order of the little-endian targets the
/// pipe runs on).
pub fn f32vec_as_u8_slice(v: &[u32]) -> (bytes: Vec<u8>)
    ensures
        bytes@ == spec_words_to_bytes(v@),
{
    let mut bytes: Vec<u8> = Vec::new();
    let mut i: usize = 0;
    while i < v.len()
        invariant
            i <= v@.len(),
            bytes@ =~= spec_words_to_bytes(v@.take(i as int)),
        decreases v@.len() - i,
    {
        let w = v[i];
        bytes.push((w % 256) as u8);
        bytes.push(((w / 256) % 256) as u8);
        bytes.push(((w / 65536) % 256) as u8);
        bytes.push(((w / 16777216) % 256) as u8);
        assert(v@.take(i + 1) =~= v@.take(i as int).push(w));
        i = i + 1;
    }
    assert(v@.take(v@.len() as int) =~= v@);
    bytes
}


proof fn lemma_word_bytes(w: u32)
    ensures
        spec_le_word(
            (w as int % 256) as u8,
            ((w as int / 256) % 256) as u8,
            ((w as int / 65536) % 256) as u8,
            ((w as int / 16777216) % 256) as u8,
        ) == w,
{
    assert((w % 256) + 256 * ((w / 256) % 256) + 65536 * ((w / 65536) % 256) + 16777216 * ((w
        / 16777216) % 256) == w) by (bit_vector);
}

/// Reading back the bytes sent for a sequence of floats, all of them, gives
/// the same floats: what `bytes_to_f32` reads of the output of
/// `f32vec_as_u8_slice` is its input.
pub proof fn lemma_pipe_bytes_roundtrip(words: Seq<u32>)
    ensures
        spec_bytes_to_words(spec_words_to_bytes(words), 4 * words.len()) == words,
{
    let bytes = spec_words_to_bytes(words);
    assert forall|k: int| 0 <= k < words.len() implies spec_le_word(
        bytes[4 * k],
        bytes[4 * k + 1],
        bytes[4 * k + 2],
        bytes[4 * k + 3],
    ) as u32 == words[k] by {
        assert((4 * k) / 4 == k && (4 * k + 1) / 4 == k && (4 * k + 2) / 4 == k && (4 * k + 3) / 4
            == k);
        assert((4 * k) % 4 == 0 && (4 * k + 1) % 4 == 1 && (4 * k + 2) % 4 == 2 && (4 * k + 3) % 4
            == 3);
        lemma_word_bytes(words[k]);
    }
    assert(spec_words_read(4 * words.len()) == words.len());
    assert(spec_bytes_to_words(bytes, 4 * words.len()) =~= words);
}

/// Whether a received header is the one waited for: any header is when none
/// is waited for (an empty wanted header).
pub fn header_matches(wanted: &Vec<u32>, received: &Vec<u32>) -> (r: bool)
    ensures
        r == (wanted@.len() == 0 || wanted@ == received@),
{
    if wanted.len() == 0 {
        return true;
    }
    if wanted.len() != received.len() {
        return false;
    }
    let mut i: usize = 0;
    while i < wanted.len()
        invariant
            wanted@.len() == received@.len(),
            i <= wanted@.len(),
            forall|j: int| 0 <= j < i ==> wanted@[j] == received@[j],
        decreases wanted@.len() - i,
    {
        if wanted[i] != received[i] {
            return false;
        }
        i = i + 1;
    }
    assert(wanted@ =~= received@);
    true
}

/// The message sent for a header and a body (the null header and the null
/// body when absent): its serialised values.
pub open spec fn spec_outgoing_words(header: Option<Seq<u32>>, body: Option<Seq<u32>>) -> Seq<u32> {
    let h = match header {
        Some(h) => h,
        None => RLGYM_NULL_MESSAGE_HEADER@,
    };
    let b = match body {
        Some(b) => b,
        None => RLGYM_NULL_MESSAGE_BODY@,
    };
    h + crate::communication::message::RLGYM_HEADER_END_TOKEN@ + b
        + crate::communication::message::RLGYM_BODY_END_TOKEN@
}

/// The bytes written to the pipe to send a header and a body (the null
/// header and the null body when absent).
pub fn outgoing_bytes(header: Option<Vec<u32>>, body: Option<Vec<u32>>) -> (bytes: Vec<u8>)
    ensures
        bytes@ == spec_words_to_bytes(
            spec_outgoing_words(
                match header {
                    Some(h) => Some(h@),
                    None => None,
                },
                match body {
                    Some(b) => Some(b@),
                    None => None,
                },
            ),
        ),
{
    let header = match header {
        Some(header) => header,
        None => token_vec(RLGYM_NULL_MESSAGE_HEADER),
    };
    let body = match body {
        Some(body) => body,
        None => token_vec(RLGYM_NULL_MESSAGE_BODY),
    };
    let mut message = Message::new();
    message.set_body_header_vals(header, body);
    let serialized = message.serialize();
    f32vec_as_u8_slice(serialized.as_slice())
}

/// How many reads the receive loop makes at most before it gives up.
pub const RLGYM_RECEIVE_ATTEMPTS: usize = 10;

/// What the receive loop does after a read.
#[derive(Clone, Copy, Debug, PartialEq, Eq, Structural)]
pub enum ReceiveStep {
    /// The message read is the one returned.
    Done,
    /// Read from the pipe again.
    ReadAgain,
    /// Too many reads: receiving fails.
    GiveUp,
}

/// What the receive loop does after read number `attempt` (counted from
/// `0`): it stops when that read was accepted (its header was the one waited
/// for) and the pipe holds nothing more; otherwise it reads again, unless
/// this was the last of `RLGYM_RECEIVE_ATTEMPTS` reads, where it gives up.
pub fn receive_step(attempt: usize, accepted: bool, pipe_drained: bool) -> (step: ReceiveStep)
    ensures
        step == (if accepted && pipe_drained {
            ReceiveStep::Done
        } else if attempt + 1 >= RLGYM_RECEIVE_ATTEMPTS {
            ReceiveStep::GiveUp
        } else {
            ReceiveStep::ReadAgain
        }),
{
    if accepted && pipe_drained {
        ReceiveStep::Done
    } else if attempt >= RLGYM_RECEIVE_ATTEMPTS - 1 {
        ReceiveStep::GiveUp
    } else {
        ReceiveStep::ReadAgain
    }
}

} // verus!
