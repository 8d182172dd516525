use anduin::framer::{Framer, FramingState};

#[test]
fn frames_a_complete_header_block() {
    let input: Vec<u8> = b"GET / HTTP/1.1\r\nHost: x\r\n\r\n".to_vec();
    let (data, done) = Framer::run(&input);
    assert!(done);
    assert_eq!(data, input);
}

#[test]
fn incomplete_block_yields_all_bytes() {
    let input: Vec<u8> = b"GET / HTTP/1.1\r\nHost: x\r\n".to_vec();
    let (data, done) = Framer::run(&input);
    assert!(!done);
    assert_eq!(data, input);
}

#[test]
fn stops_at_first_terminator() {
    let input: Vec<u8> = b"A\r\n\r\nB\r\n\r\n".to_vec();
    let (data, done) = Framer::run(&input);
    assert!(done);
    assert_eq!(data, b"A\r\n\r\n".to_vec());
}

#[test]
fn capacity_bounds_the_header() {
    let mut input = vec![b'a'; 2000];
    input.extend_from_slice(b"\r\n\r\n");
    let (data, done) = Framer::run(&input);
    assert!(!done);
    assert_eq!(data.len(), 1024);
}

#[test]
fn terminator_ending_at_the_capacity_is_found() {
    let mut input = vec![b'a'; 1020];
    input.extend_from_slice(b"\r\n\r\n");
    let (data, done) = Framer::run(&input);
    assert!(done);
    assert_eq!(data.len(), 1024);
}

#[test]
fn terminator_past_the_capacity_is_missed() {
    let mut input = vec![b'a'; 1021];
    input.extend_from_slice(b"\r\n\r\n");
    let (data, done) = Framer::run(&input);
    assert!(!done);
    assert_eq!(data.len(), 1024);
}

#[test]
fn double_carriage_return_spoils_detection() {
    // The detector resets on a second consecutive carriage return, so this
    // input holds the terminator and is still not detected.
    let input: Vec<u8> = b"\r\r\n\r\n".to_vec();
    let (_, done) = Framer::run(&input);
    assert!(!done);
}

#[test]
fn later_terminator_is_still_found_after_a_double_carriage_return() {
    let input: Vec<u8> = b"a\r\rb\r\n\r\n".to_vec();
    let (data, done) = Framer::run(&input);
    assert!(done);
    assert_eq!(data, input);
}

#[test]
fn push_byte_walks_the_states() {
    let mut f = Framer::new();
    assert!(f.wants_more());
    f.push_byte(b'x');
    assert_eq!(f.state, FramingState::Normal);
    f.push_byte(b'\r');
    assert_eq!(f.state, FramingState::SawCR);
    f.push_byte(b'\n');
    assert_eq!(f.state, FramingState::SawCRLF);
    f.push_byte(b'\r');
    assert_eq!(f.state, FramingState::SawCRLFCR);
    f.push_byte(b'\n');
    assert_eq!(f.state, FramingState::Done);
    assert!(!f.wants_more());
    assert_eq!(f.data, b"x\r\n\r\n".to_vec());
}
