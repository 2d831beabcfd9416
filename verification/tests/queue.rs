use rust_comm_processing::queue::Queue;

#[test]
fn new_queue_is_empty() {
    let mut q: Queue<u32> = Queue::new();
    assert_eq!(q.len(), 0);
    assert_eq!(q.de_q(), None);
    assert_eq!(q.len(), 0);
}

#[test]
fn first_in_first_out() {
    let mut q: Queue<u32> = Queue::new();
    q.en_q(10);
    q.en_q(20);
    q.en_q(30);
    assert_eq!(q.len(), 3);
    assert_eq!(q.de_q(), Some(10));
    assert_eq!(q.de_q(), Some(20));
    q.en_q(40);
    assert_eq!(q.len(), 2);
    assert_eq!(q.de_q(), Some(30));
    assert_eq!(q.de_q(), Some(40));
    assert_eq!(q.de_q(), None);
}

#[test]
fn drain_hands_out_in_arrival_order() {
    let mut q: Queue<u8> = Queue::new();
    for i in 0u8..5 {
        q.en_q(i);
    }
    assert_eq!(q.drain(), vec![0u8, 1, 2, 3, 4]);
    assert_eq!(q.len(), 0);
    assert_eq!(q.drain(), Vec::<u8>::new());
}
