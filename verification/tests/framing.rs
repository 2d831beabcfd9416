use rust_comm_processing::error::CommError;
use rust_comm_processing::framing::FrameReader;
use rust_comm_processing::message::Message;

#[test]
fn whole_frame_in_one_piece() {
    let mut reader = FrameReader::new(3);
    let out = reader.feed(&[1, 2, 3]);
    assert_eq!(out, vec![Message::from_frame(vec![1, 2, 3]).unwrap()]);
    assert_eq!(reader.needed(), 3);
    assert_eq!(reader.close(), Ok(()));
}

#[test]
fn frame_in_single_bytes() {
    let mut reader = FrameReader::new(3);
    assert_eq!(reader.feed(&[1]), vec![]);
    assert_eq!(reader.needed(), 2);
    assert_eq!(reader.feed(&[2]), vec![]);
    assert_eq!(reader.needed(), 1);
    let out = reader.feed(&[3]);
    assert_eq!(out, vec![Message::from_frame(vec![1, 2, 3]).unwrap()]);
    assert_eq!(reader.needed(), 3);
}

#[test]
fn piece_spanning_frames() {
    let mut reader = FrameReader::new(2);
    assert_eq!(reader.feed(&[1]), vec![]);
    let out = reader.feed(&[2, 3, 4, 5, 6, 7]);
    assert_eq!(
        out,
        vec![
            Message::from_frame(vec![1, 2]).unwrap(),
            Message::from_frame(vec![3, 4]).unwrap(),
            Message::from_frame(vec![5, 6]).unwrap(),
        ]
    );
    assert_eq!(reader.needed(), 1);
    assert_eq!(reader.close(), Err(CommError::ShortReadError));
}

#[test]
fn empty_piece_changes_nothing() {
    let mut reader = FrameReader::new(4);
    assert_eq!(reader.feed(&[9, 9]), vec![]);
    assert_eq!(reader.feed(&[]), vec![]);
    assert_eq!(reader.needed(), 2);
}

#[test]
fn close_at_boundary_is_clean() {
    let reader = FrameReader::new(5);
    assert_eq!(reader.close(), Ok(()));
}

#[test]
fn close_inside_frame_is_short_read() {
    let mut reader = FrameReader::new(5);
    assert_eq!(reader.feed(&[1, 2, 3, 4]), vec![]);
    assert_eq!(reader.close(), Err(CommError::ShortReadError));
}

#[test]
fn one_byte_frames() {
    let mut reader = FrameReader::new(1);
    let out = reader.feed(&[3, 4]);
    assert_eq!(
        out,
        vec![Message::from_frame(vec![3]).unwrap(), Message::from_frame(vec![4]).unwrap()]
    );
    assert_eq!(reader.close(), Ok(()));
}
