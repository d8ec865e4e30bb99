use axdriver::netbuf::{DevError, NetBuffers};

#[test]
fn alloc_tx_buffer_is_zero_filled_and_owned_by_caller() {
    let mut b = NetBuffers::new();
    let h = b.alloc_tx_buffer(5).unwrap();
    assert_eq!(b.packet(h), &vec![0u8; 5]);
    assert_eq!(b.live_len(), 1);
    assert_eq!(b.queued_len(), 0);
    let h2 = b.alloc_tx_buffer(0).unwrap();
    assert_ne!(h, h2);
    assert!(b.packet(h2).is_empty());
}

#[test]
fn write_then_take_retires_the_handle() {
    let mut b = NetBuffers::new();
    let h = b.alloc_tx_buffer(3).unwrap();
    b.write_packet(h, vec![1, 2, 3]);
    assert_eq!(b.packet(h), &vec![1, 2, 3]);
    let data = b.take_packet(h);
    assert_eq!(data, vec![1, 2, 3]);
    assert!(!b.is_live(h));
    assert_eq!(b.live_len(), 0);
}

#[test]
fn receive_with_nothing_completed_is_try_again_and_allocates_nothing() {
    let mut b = NetBuffers::new();
    assert_eq!(b.receive_completed(Vec::new()), Err(DevError::Again));
    assert_eq!(b.live_len(), 0);
    assert_eq!(b.queued_len(), 0);
}

#[test]
fn receive_keeps_completion_order() {
    let mut b = NetBuffers::new();
    let frames = vec![vec![1u8], vec![2u8, 2], vec![3u8, 3, 3]];
    let h1 = b.receive_completed(frames).unwrap();
    assert_eq!(b.packet(h1), &vec![1u8]);
    assert_eq!(b.queued_len(), 2);
    let h2 = b.receive_completed(vec![vec![4u8]]).unwrap();
    assert_eq!(b.packet(h2), &vec![2u8, 2]);
    let h3 = b.pop_received().unwrap();
    assert_eq!(b.packet(h3), &vec![3u8, 3, 3]);
    let h4 = b.receive_completed(Vec::new()).unwrap();
    assert_eq!(b.packet(h4), &vec![4u8]);
    assert_eq!(b.receive_completed(Vec::new()), Err(DevError::Again));
    assert_eq!(b.pop_received(), None);
    assert_eq!(b.live_len(), 4);
}

#[test]
fn recycle_rx_buffer_once_is_accepted() {
    let mut b = NetBuffers::new();
    let h = b.receive_completed(vec![vec![9u8, 9]]).unwrap();
    assert_eq!(b.recycle_rx_buffer(h), Ok(()));
    assert!(!b.is_live(h));
    assert_eq!(b.live_len(), 0);
}
