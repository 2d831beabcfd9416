use rust_comm_processing::error::CommError;
use rust_comm_processing::message::{Message, MSG_SIZE, TAG_REPLY};
use rust_comm_processing::processing::{CommProcessing, Process};

#[test]
fn construction() {
    let msg = Message::new(MSG_SIZE);
    let _cp = CommProcessing::default();
    let _cq = CommProcessing::new();
    let bytes = CommProcessing::send_message(&msg);
    assert_eq!(bytes.len(), MSG_SIZE);
    assert_eq!(2 + 2, 4);
}

#[test]
fn send_message_writes_the_frame() {
    let msg = Message::from_frame(vec![0, 5, 6, 7]).unwrap();
    assert_eq!(CommProcessing::send_message(&msg), vec![0u8, 5, 6, 7]);
}

#[test]
fn buf_send_flushes_only_for_sentinels() {
    for tag in 0u8..=255 {
        let msg = Message::from_frame(vec![tag, 1, 2]).unwrap();
        let plan = CommProcessing::buf_send_message(&msg);
        assert_eq!(plan.bytes, vec![tag, 1, 2]);
        assert_eq!(plan.flush, tag == 2 || tag == 3 || tag == 4);
    }
}

#[test]
fn recv_message_fills_whole_frame() {
    let mut msg = Message::new(4);
    let r = CommProcessing::recv_message(&[1, 2, 3, 4], &mut msg);
    assert_eq!(r, Ok(()));
    assert_eq!(msg.get_ref(), &vec![1u8, 2, 3, 4]);
}

#[test]
fn recv_message_short_read_is_error() {
    let mut msg = Message::from_frame(vec![9, 9, 9, 9]).unwrap();
    let r = CommProcessing::recv_message(&[1, 2, 3], &mut msg);
    assert_eq!(r, Err(CommError::ShortReadError));
    assert_eq!(msg.get_ref(), &vec![9u8, 9, 9, 9]);
}

#[test]
fn recv_message_nothing_read_is_error() {
    let mut msg = Message::new(2);
    assert_eq!(CommProcessing::recv_message(&[], &mut msg), Err(CommError::ShortReadError));
    assert_eq!(msg.get_ref(), &vec![0u8, 0]);
}

#[test]
fn buf_recv_message_matches_recv_message() {
    let mut a = Message::new(3);
    let mut b = Message::new(3);
    assert_eq!(CommProcessing::buf_recv_message(&[4, 5, 6, 7], &mut a), Ok(()));
    assert_eq!(CommProcessing::recv_message(&[4, 5, 6, 7], &mut b), Ok(()));
    assert_eq!(a, b);
    assert_eq!(a.get_ref(), &vec![4u8, 5, 6]);
    assert_eq!(
        CommProcessing::buf_recv_message(&[4, 5], &mut a),
        Err(CommError::ShortReadError)
    );
}

#[test]
fn process_retypes_data_to_reply() {
    let mut msg = Message::from_frame(vec![0, 42, 43]).unwrap();
    CommProcessing::process_message(&mut msg);
    assert_eq!(msg.get_type(), TAG_REPLY);
    assert_eq!(msg.get_ref(), &vec![1u8, 42, 43]);
}

#[test]
fn process_keeps_sentinels() {
    for tag in [2u8, 3, 4] {
        let mut msg = Message::from_frame(vec![tag, 1]).unwrap();
        CommProcessing::process_message(&mut msg);
        assert_eq!(msg.get_ref(), &vec![tag, 1]);
    }
}

#[test]
fn process_retypes_application_tags() {
    for tag in [1u8, 5, 17, 255] {
        let mut msg = Message::from_frame(vec![tag, 8, 9]).unwrap();
        CommProcessing::process_message(&mut msg);
        assert_eq!(msg.get_ref(), &vec![1u8, 8, 9]);
    }
}

#[test]
fn round_trip_echoes_body_as_reply() {
    let sent = Message::from_frame(vec![0, b'h', b'i', 0]).unwrap();
    let bytes = CommProcessing::send_message(&sent);
    let mut at_listener = Message::new(sent.len());
    assert_eq!(CommProcessing::recv_message(&bytes, &mut at_listener), Ok(()));
    assert_eq!(at_listener, sent);
    CommProcessing::process_message(&mut at_listener);
    let back = CommProcessing::send_message(&at_listener);
    let mut reply = Message::new(sent.len());
    assert_eq!(CommProcessing::recv_message(&back, &mut reply), Ok(()));
    assert_eq!(reply.get_type(), TAG_REPLY);
    assert_eq!(&reply.get_ref()[1..], &sent.get_ref()[1..]);
}
