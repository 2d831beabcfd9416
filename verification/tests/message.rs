use rust_comm_processing::message::{
    is_control_tag, Message, MessageType, MSG_SIZE, TAG_DATA, TAG_END, TAG_FLUSH, TAG_QUIT,
    TAG_REPLY, TYPE_SIZE,
};

#[test]
fn new_message_is_zeroed_data() {
    let msg = Message::new(MSG_SIZE);
    assert_eq!(msg.len(), MSG_SIZE);
    assert_eq!(msg.get_type(), TAG_DATA);
    assert_eq!(msg.get_ref(), &vec![0u8; MSG_SIZE]);
}

#[test]
fn smallest_message_is_tag_only() {
    let msg = Message::new(TYPE_SIZE);
    assert_eq!(msg.len(), 1);
    assert_eq!(msg.get_ref(), &vec![0u8]);
}

#[test]
fn set_type_changes_first_byte_only() {
    let mut msg = Message::from_frame(vec![0, 10, 20, 30]).unwrap();
    msg.set_type(TAG_END);
    assert_eq!(msg.get_type(), 3);
    assert_eq!(msg.get_ref(), &vec![3u8, 10, 20, 30]);
}

#[test]
fn from_frame_rejects_empty_frame() {
    assert_eq!(Message::from_frame(Vec::new()), None);
}

#[test]
fn from_frame_keeps_bytes() {
    let msg = Message::from_frame(vec![7, 1, 2]).unwrap();
    assert_eq!(msg.get_type(), 7);
    assert_eq!(msg.len(), 3);
    assert_eq!(msg.get_ref(), &vec![7u8, 1, 2]);
}

#[test]
fn load_takes_first_frame_worth() {
    let mut msg = Message::new(3);
    msg.load(&[9, 8, 7, 6, 5]);
    assert_eq!(msg.get_ref(), &vec![9u8, 8, 7]);
    assert_eq!(msg.get_type(), 9);
}

#[test]
fn clone_is_equal() {
    let msg = Message::from_frame(vec![1, 2, 3]).unwrap();
    let copy = msg.clone();
    assert_eq!(copy, msg);
}

#[test]
fn reserved_tags_have_fixed_values() {
    assert_eq!(MessageType::DATA.tag(), 0);
    assert_eq!(MessageType::REPLY.tag(), 1);
    assert_eq!(MessageType::FLUSH.tag(), 2);
    assert_eq!(MessageType::END.tag(), 3);
    assert_eq!(MessageType::QUIT.tag(), 4);
    assert_eq!(TAG_REPLY, 1);
    assert_eq!(TAG_FLUSH, 2);
    assert_eq!(TAG_QUIT, 4);
}

#[test]
fn from_tag_inverts_tag() {
    assert_eq!(MessageType::from_tag(0), Some(MessageType::DATA));
    assert_eq!(MessageType::from_tag(1), Some(MessageType::REPLY));
    assert_eq!(MessageType::from_tag(2), Some(MessageType::FLUSH));
    assert_eq!(MessageType::from_tag(3), Some(MessageType::END));
    assert_eq!(MessageType::from_tag(4), Some(MessageType::QUIT));
    assert_eq!(MessageType::from_tag(5), None);
    assert_eq!(MessageType::from_tag(255), None);
}

#[test]
fn control_tags_are_flush_end_quit() {
    assert!(!is_control_tag(0));
    assert!(!is_control_tag(1));
    assert!(is_control_tag(2));
    assert!(is_control_tag(3));
    assert!(is_control_tag(4));
    assert!(!is_control_tag(5));
    assert!(!is_control_tag(200));
}
