use esp8266_wifi::phy::{RxQueue, WifiDevice, WifiRxToken, MTU, RX_QUEUE_SIZE};

fn take(q: &mut RxQueue, t: WifiRxToken) -> Vec<u8> {
    let mut buf = [0xeeu8; MTU];
    let n = q.consume(t, &mut buf);
    assert!(buf[n..].iter().all(|b| *b == 0xee));
    buf[..n].to_vec()
}

#[test]
fn empty_queue_has_nothing_to_receive() {
    let q = RxQueue::new();
    assert_eq!(q.len(), 0);
    assert!(q.receive().is_none());
    let dev = WifiDevice::new(0);
    assert!(dev.receive(&q).is_none());
}

#[test]
fn frames_come_out_in_order() {
    let mut q = RxQueue::new();
    assert!(q.enqueue(&[1, 2, 3]));
    assert!(q.enqueue(&[4, 5]));
    let t = q.receive().unwrap();
    assert_eq!(t.len(), 3);
    assert_eq!(take(&mut q, t), vec![1, 2, 3]);
    let t = q.receive().unwrap();
    assert_eq!(take(&mut q, t), vec![4, 5]);
    assert!(q.receive().is_none());
}

#[test]
fn full_queue_drops_frames() {
    let mut q = RxQueue::new();
    for i in 0..RX_QUEUE_SIZE {
        assert!(q.enqueue(&[i as u8]));
    }
    assert!(!q.enqueue(&[99]));
    assert_eq!(q.len(), RX_QUEUE_SIZE);
    for i in 0..RX_QUEUE_SIZE {
        let t = q.receive().unwrap();
        assert_eq!(take(&mut q, t), vec![i as u8]);
    }
    assert_eq!(q.len(), 0);
}

#[test]
fn oversize_frame_is_dropped() {
    let mut q = RxQueue::new();
    assert!(!q.enqueue(&vec![0u8; MTU + 1]));
    assert!(q.enqueue(&vec![7u8; MTU]));
    assert_eq!(q.len(), 1);
}

#[test]
fn ring_wraps_around() {
    let mut q = RxQueue::new();
    for round in 0..10u8 {
        assert!(q.enqueue(&[round, round]));
        assert!(q.enqueue(&[round]));
        let t = q.receive().unwrap();
        assert_eq!(take(&mut q, t), vec![round, round]);
        let t = q.receive().unwrap();
        assert_eq!(take(&mut q, t), vec![round]);
    }
}

#[test]
fn token_survives_later_frames() {
    let mut q = RxQueue::new();
    assert!(q.enqueue(&[1]));
    let t = q.receive().unwrap();
    assert!(q.enqueue(&[2]));
    assert!(q.holds_front(&t));
    assert_eq!(take(&mut q, t), vec![1]);
    assert!(!q.holds_front(&t));
}

#[test]
fn device_receive_pairs_tokens() {
    let mut q = RxQueue::new();
    q.enqueue(&[9, 9]);
    let dev = WifiDevice::new(1);
    let (rx, tx) = dev.receive(&q).unwrap();
    assert_eq!(rx.len(), 2);
    assert_eq!(tx.interface_id(), 1);
    assert_eq!(dev.interface_id(), 1);
    assert_eq!(dev.max_transmission_unit(), 1514);
}

#[test]
fn transmit_builds_zeroed_frame() {
    let dev = WifiDevice::new(0);
    let frame = dev.transmit().consume(60);
    assert_eq!(frame.interface_id, 0);
    assert_eq!(frame.len, 60);
    assert!(frame.data.iter().all(|b| *b == 0));
    assert_eq!(dev.transmit().consume(MTU).len, MTU);
}

#[test]
fn stale_length_token_reads_slot_buffer() {
    let mut q = RxQueue::new();
    assert!(q.enqueue(&[1, 2, 3]));
    let old = q.receive().unwrap();
    assert_eq!(take(&mut q, old), vec![1, 2, 3]);
    for b in [4u8, 5, 6] {
        assert!(q.enqueue(&[b]));
    }
    for b in [4u8, 5, 6] {
        let t = q.receive().unwrap();
        assert_eq!(take(&mut q, t), vec![b]);
    }
    assert!(q.enqueue(&[9]));
    assert!(q.holds_front(&old));
    assert_eq!(take(&mut q, old), vec![9, 2, 3]);
    assert_eq!(q.len(), 0);
}
