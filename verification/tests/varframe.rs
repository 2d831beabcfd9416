use rust_comm_processing::error::CommError;
use rust_comm_processing::message::Message;
use rust_comm_processing::varframe::{decode, encode, HEADER_SIZE, LENGTH_SIZE};

#[test]
fn header_is_tag_and_length() {
    assert_eq!(LENGTH_SIZE, 4);
    assert_eq!(HEADER_SIZE, 5);
}

#[test]
fn encode_prefixes_network_order_length() {
    let msg = Message::with_body(0, &[7, 8, 9]);
    assert_eq!(encode(&msg), Some(vec![0u8, 0, 0, 0, 3, 7, 8, 9]));
}

#[test]
fn encode_empty_body() {
    let msg = Message::with_body(3, &[]);
    assert_eq!(encode(&msg), Some(vec![3u8, 0, 0, 0, 0]));
}

#[test]
fn encode_long_body_uses_higher_length_bytes() {
    let body = vec![5u8; 0x1_0203];
    let msg = Message::with_body(1, &body);
    let bytes = encode(&msg).unwrap();
    assert_eq!(&bytes[..5], &[1u8, 0, 1, 2, 3]);
    assert_eq!(bytes.len(), 5 + 0x1_0203);
    assert_eq!(decode(&bytes), Ok((msg, 5 + 0x1_0203)));
}

#[test]
fn decode_reads_one_frame_and_leaves_the_rest() {
    let stream = [4u8, 0, 0, 0, 2, 10, 11, 0, 0, 0];
    assert_eq!(decode(&stream), Ok((Message::with_body(4, &[10, 11]), 7)));
}

#[test]
fn decode_short_header_is_short_read() {
    assert_eq!(decode(&[]), Err(CommError::ShortReadError));
    assert_eq!(decode(&[0, 0, 0, 0]), Err(CommError::ShortReadError));
}

#[test]
fn decode_short_body_is_short_read() {
    assert_eq!(decode(&[0, 0, 0, 0, 3, 1, 2]), Err(CommError::ShortReadError));
    assert_eq!(decode(&[0, 0, 0, 1, 0]), Err(CommError::ShortReadError));
}

#[test]
fn variable_frame_round_trip() {
    let msg = Message::with_body(0, b"test message");
    let bytes = encode(&msg).unwrap();
    let (back, used) = decode(&bytes).unwrap();
    assert_eq!(back, msg);
    assert_eq!(used, bytes.len());
    assert_eq!(back.body(), b"test message".to_vec());
}

#[test]
fn with_body_builds_the_frame() {
    let msg = Message::with_body(9, &[1, 2]);
    assert_eq!(msg.get_ref(), &vec![9u8, 1, 2]);
    assert_eq!(msg.len(), 3);
    assert_eq!(msg.body(), vec![1u8, 2]);
}
