use rlgym_rust::communication::message::SplitError;
use rlgym_rust::communication::communication_handler::{receive_step, ReceiveStep};
use rlgym_rust::communication::communication_handler::{
    bytes_to_f32, f32vec_as_u8_slice, format_pipe_id, header_matches, outgoing_bytes,
    RLGYM_DEFAULT_PIPE_SIZE, RLGYM_DEFAULT_TIMEOUT, RLGYM_GLOBAL_PIPE_NAME,
};
use rlgym_rust::communication::message::{
    _find_first, _find_first_end, deserialize_header, token_vec, Message,
    RLGYM_BODY_END_TOKEN, RLGYM_CONFIG_MESSAGE_HEADER, RLGYM_HEADER_END_TOKEN,
    RLGYM_NULL_MESSAGE_BODY, RLGYM_NULL_MESSAGE_HEADER, RLGYM_STATE_MESSAGE_HEADER,
};
use rlgym_rust::communication::message::scan_is_safe;

#[test]
fn pipe_name_for_id() {
    assert_eq!(format_pipe_id(12), "\\\\.\\pipe\\12");
    assert_eq!(format_pipe_id(0), "\\\\.\\pipe\\0");
    assert_eq!(format_pipe_id(9071), "\\\\.\\pipe\\9071");
    assert_eq!(
        format_pipe_id(usize::MAX),
        format!("\\\\.\\pipe\\{}", usize::MAX)
    );
}

#[test]
fn global_pipe_settings() {
    assert_eq!(RLGYM_GLOBAL_PIPE_NAME, "\\\\.\\pipe\\RLGYM_GLOBAL_COMM_PIPE");
    assert_eq!(RLGYM_DEFAULT_PIPE_SIZE, 1400);
    assert_eq!(RLGYM_DEFAULT_TIMEOUT, 4000);
}

#[test]
fn tokens_are_the_float_bit_patterns() {
    assert_eq!(f32::from_bits(RLGYM_HEADER_END_TOKEN[0]), 13771.0);
    assert_eq!(f32::from_bits(RLGYM_HEADER_END_TOKEN[1]), 83712.0);
    assert_eq!(f32::from_bits(RLGYM_HEADER_END_TOKEN[2]), 83770.0);
    assert_eq!(f32::from_bits(RLGYM_BODY_END_TOKEN[0]), 82772.0);
    assert_eq!(f32::from_bits(RLGYM_STATE_MESSAGE_HEADER[0]), 63776.0);
    assert_eq!(token_vec(RLGYM_CONFIG_MESSAGE_HEADER), RLGYM_CONFIG_MESSAGE_HEADER.to_vec());
}

#[test]
fn float_words_to_bytes_little_endian() {
    let words = vec![1.0f32.to_bits(), (-2.5f32).to_bits()];
    let bytes = f32vec_as_u8_slice(&words);
    let mut expected = 1.0f32.to_le_bytes().to_vec();
    expected.extend((-2.5f32).to_le_bytes());
    assert_eq!(bytes, expected);
    assert_eq!(f32vec_as_u8_slice(&[]), Vec::<u8>::new());
}

#[test]
fn bytes_to_float_words() {
    let bytes = [0u8, 0, 0x80, 0x3f, 0, 0, 0, 0x40];
    assert_eq!(bytes_to_f32(&bytes, &8), vec![0x3f800000, 0x40000000]);
    assert_eq!(f32::from_bits(bytes_to_f32(&bytes, &8)[1]), 2.0);
    // a partial last float is read whole
    assert_eq!(bytes_to_f32(&bytes, &5), vec![0x3f800000, 0x40000000]);
    assert_eq!(bytes_to_f32(&bytes, &4), vec![0x3f800000]);
    assert_eq!(bytes_to_f32(&bytes, &0), Vec::<u32>::new());
}

#[test]
fn pipe_bytes_roundtrip() {
    let words: Vec<u32> = vec![0, 1, 0xdeadbeef, u32::MAX, 3.25f32.to_bits()];
    let bytes = f32vec_as_u8_slice(&words);
    assert_eq!(bytes.len(), 20);
    assert_eq!(bytes_to_f32(&bytes, &20), words);
}

#[test]
fn message_serializes_header_then_body() {
    let mut m = Message::new();
    assert_eq!(
        m.serialize(),
        [
            RLGYM_NULL_MESSAGE_HEADER.to_vec(),
            RLGYM_HEADER_END_TOKEN.to_vec(),
            RLGYM_NULL_MESSAGE_BODY.to_vec(),
            RLGYM_BODY_END_TOKEN.to_vec(),
        ]
        .concat()
    );
    m.set_body_header_vals(vec![7, 8], vec![]);
    assert_eq!(
        m.serialize(),
        [vec![7, 8], RLGYM_HEADER_END_TOKEN.to_vec(), RLGYM_BODY_END_TOKEN.to_vec()].concat()
    );
}

#[test]
fn outgoing_bytes_frame_the_message() {
    let body = vec![1.5f32.to_bits()];
    let bytes = outgoing_bytes(Some(RLGYM_CONFIG_MESSAGE_HEADER.to_vec()), Some(body.clone()));
    let mut m = Message::new();
    m.set_body_header_vals(RLGYM_CONFIG_MESSAGE_HEADER.to_vec(), body);
    assert_eq!(bytes, f32vec_as_u8_slice(&m.serialize()));
    assert_eq!(bytes.len(), 4 * 10);
    let default = outgoing_bytes(None, None);
    assert_eq!(default, f32vec_as_u8_slice(&Message::new().serialize()));
}

#[test]
fn header_match_rules() {
    let state = RLGYM_STATE_MESSAGE_HEADER.to_vec();
    assert!(header_matches(&vec![], &state));
    assert!(header_matches(&state, &state));
    assert!(!header_matches(&state, &RLGYM_CONFIG_MESSAGE_HEADER.to_vec()));
    assert!(!header_matches(&state, &state[..2].to_vec()));
}

#[test]
fn find_first_at_start() {
    let list = [RLGYM_HEADER_END_TOKEN.to_vec(), vec![4, 5]].concat();
    assert_eq!(_find_first(&list, RLGYM_HEADER_END_TOKEN.to_vec()), 0);
}

#[test]
fn find_first_compares_target_position() {
    // the scan compares list[i] with target[i], so it only accepts a match
    // that starts at an index below the target's length
    let list = vec![7, 2, 2, 2];
    assert_eq!(_find_first(&list, vec![2, 2, 2]), 1);
    let none = vec![9, 9, 9];
    assert_eq!(_find_first(&none, vec![1, 2, 3]), 0);
}

#[test]
fn find_first_end_scans_the_tail() {
    // the scan starts four values before the end
    let list = vec![1, 1, 7, 7, 7];
    assert_eq!(_find_first_end(&list, vec![7, 7, 7]), 2);
    assert_eq!(_find_first_end(&vec![0, 0, 0, 0], vec![1, 1, 1, 1]), 0);
}

#[test]
fn header_before_end_token() {
    let list = [RLGYM_HEADER_END_TOKEN.to_vec(), vec![1, 2, 3]].concat();
    assert_eq!(deserialize_header(&list), Vec::<u32>::new());
}

#[test]
fn scan_safety() {
    let token = RLGYM_HEADER_END_TOKEN.to_vec();
    // a real message has its header before the token: the scan reaches an
    // index past the token's length before it finds anything
    let message = [RLGYM_STATE_MESSAGE_HEADER.to_vec(), token.clone(), vec![1, 2]].concat();
    assert!(!scan_is_safe(&message, &token, 0));
    // a message that starts with the token is found at once
    let headless = [token.clone(), vec![1, 2]].concat();
    assert!(scan_is_safe(&headless, &token, 0));
    // a first value that matches while the window does not fit
    assert!(!scan_is_safe(&vec![token[0]], &token, 0));
    assert!(scan_is_safe(&vec![], &token, 0));
    assert!(scan_is_safe(&vec![0, 0], &token, 0));
}

#[test]
fn empty_header_reads_back() {
    let mut m = Message::new();
    m.set_body_header_vals(vec![], vec![4, 5, 6]);
    let words = m.serialize();
    assert!(rlgym_rust::communication::message::scan_is_safe(&words, &RLGYM_HEADER_END_TOKEN.to_vec(), 0));
    assert_eq!(deserialize_header(&words), Vec::<u32>::new());
}

#[test]
fn split_fails_at_each_step() {
    let h = RLGYM_HEADER_END_TOKEN;
    // the search from the start reaches index 3 without a hit
    let mut m = Message::new();
    assert_eq!(m.deserialize(&vec![1, 2, 3, 4, 5]), Err(SplitError::HeaderSearchFails));
    // token found at the start, but fewer than four values
    assert_eq!(m.deserialize(&vec![h[0], h[1], h[2]]), Err(SplitError::TooShort));
    // the end search starts at index 3, past the token's length
    assert_eq!(m.deserialize(&vec![h[0], h[1], h[2], 7, 8, 9, 10]), Err(SplitError::EndSearchFails));
    // both searches end, but the body would start at 3 and end at 0
    assert_eq!(m.deserialize(&vec![h[0], h[1], h[2], 7]), Err(SplitError::BodyRangeReversed));
    // the message is left as it was
    assert_eq!(m.header_values(), &RLGYM_NULL_MESSAGE_HEADER.to_vec());
    assert_eq!(m.body_values(), &RLGYM_NULL_MESSAGE_BODY.to_vec());
}

#[test]
fn serialized_message_does_not_split_back() {
    let mut m = Message::new();
    m.set_body_header_vals(vec![], vec![]);
    let words = m.serialize();
    let mut back = Message::new();
    assert!(back.deserialize(&words).is_err());
}

#[test]
fn receive_steps() {
    assert_eq!(receive_step(0, true, true), ReceiveStep::Done);
    assert_eq!(receive_step(9, true, true), ReceiveStep::Done);
    assert_eq!(receive_step(0, true, false), ReceiveStep::ReadAgain);
    assert_eq!(receive_step(8, false, true), ReceiveStep::ReadAgain);
    assert_eq!(receive_step(9, false, true), ReceiveStep::GiveUp);
    assert_eq!(receive_step(9, true, false), ReceiveStep::GiveUp);
}
