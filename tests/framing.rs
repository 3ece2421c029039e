use quad_net::protocol::{encode_frame, MessageReader, MAX_PAYLOAD};
use std::collections::VecDeque;

fn three_frames() -> Vec<u8> {
    let mut s = vec![3];
    s.extend_from_slice(b"abc");
    s.push(0);
    s.push(5);
    s.extend_from_slice(b"hello");
    s
}

#[test]
fn three_frames_in_one_read() {
    let mut reader = MessageReader::new();
    let mut queue: VecDeque<Vec<u8>> = reader.feed(&three_frames()).into();
    assert_eq!(queue.pop_front(), Some(b"abc".to_vec()));
    assert_eq!(queue.pop_front(), Some(Vec::new()));
    assert_eq!(queue.pop_front(), Some(b"hello".to_vec()));
    assert_eq!(queue.pop_front(), None);
    assert!(reader.feed(&[]).is_empty());
}

#[test]
fn three_frames_byte_by_byte() {
    let mut reader = MessageReader::new();
    let mut got = Vec::new();
    for b in three_frames() {
        got.extend(reader.feed(&[b]));
    }
    assert_eq!(got, vec![b"abc".to_vec(), Vec::new(), b"hello".to_vec()]);
    assert!(reader.feed(&[]).is_empty());
}

#[test]
fn frame_split_across_reads() {
    let s = three_frames();
    let mut reader = MessageReader::new();
    assert!(reader.feed(&s[..1]).is_empty());
    assert!(reader.feed(&s[1..3]).is_empty());
    assert_eq!(reader.feed(&s[3..4]), vec![b"abc".to_vec()]);
    assert_eq!(reader.feed(&s[4..7]), vec![Vec::new()]);
    assert_eq!(reader.feed(&s[7..]), vec![b"hello".to_vec()]);
}

#[test]
fn partial_frame_waits() {
    let mut reader = MessageReader::new();
    assert!(reader.feed(&[4, 1, 2]).is_empty());
    assert!(reader.feed(&[3]).is_empty());
    assert_eq!(reader.feed(&[4, 0]), vec![vec![1, 2, 3, 4], Vec::new()]);
}

#[test]
fn empty_payload_frame_is_one_zero_byte() {
    assert_eq!(encode_frame(&[]), Some(vec![0]));
}

#[test]
fn full_payload_round_trips() {
    let payload: Vec<u8> = (0..=254u8).collect();
    assert_eq!(payload.len(), MAX_PAYLOAD);
    let frame = encode_frame(&payload).unwrap();
    assert_eq!(frame.len(), 256);
    assert_eq!(frame[0], 255);
    let mut reader = MessageReader::new();
    assert_eq!(reader.feed(&frame), vec![payload]);
}

#[test]
fn oversized_payload_is_refused() {
    assert_eq!(encode_frame(&[7u8; 256]), None);
}

#[test]
fn frame_layout() {
    assert_eq!(encode_frame(b"hi"), Some(vec![2, b'h', b'i']));
}
