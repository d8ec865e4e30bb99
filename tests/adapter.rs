use axdriver::drivers::DeviceType;
use axdriver::e1000e::{xmit_result, XmitConfig, E1000E, QS, RX_BATCH};
use axdriver::netbuf::DevError;
use axdriver::sim::SimCore;

const MAC: [u8; 6] = [0x52, 0x54, 0x00, 0x12, 0x34, 0x56];

#[test]
fn identity_and_sizes() {
    let dev = E1000E::new(SimCore::new(true, true), MAC);
    assert_eq!(dev.device_name(), "E1000 ");
    assert_eq!(dev.device_type(), DeviceType::Net);
    assert_eq!(dev.mac_address(), MAC);
    assert_eq!(dev.rx_queue_size(), QS);
    assert_eq!(dev.tx_queue_size(), 64);
}

#[test]
fn link_up_needs_no_interrupt_service() {
    let mut dev = E1000E::new(SimCore::new(true, false), MAC);
    assert!(dev.can_transmit());
    assert!(dev.can_receive());
    assert_eq!(dev.inner.irq_count(), 0);
}

#[test]
fn link_down_services_one_interrupt_round() {
    let mut dev = E1000E::new(SimCore::new(false, false), MAC);
    assert!(!dev.can_transmit());
    assert_eq!(dev.inner.irq_count(), 1);
    dev.inner.set_link_after_irq(true);
    assert!(dev.can_receive());
    assert_eq!(dev.inner.irq_count(), 2);
    assert!(dev.can_receive());
    assert_eq!(dev.inner.irq_count(), 2);
}

#[test]
fn receive_with_zero_frames_is_try_again() {
    let mut dev = E1000E::new(SimCore::new(true, true), MAC);
    assert_eq!(dev.receive(), Err(DevError::Again));
    assert_eq!(dev.bufs.live_len(), 0);
    assert_eq!(dev.inner.tx_clean_count(), 1);
    assert_eq!(dev.inner.rx_budgets(), &vec![RX_BATCH]);
}

#[test]
fn receive_two_frames_then_queue_then_try_again() {
    let mut core = SimCore::new(true, true);
    core.complete_frame(vec![0xaa, 1]);
    core.complete_frame(vec![0xbb, 2, 2]);
    let mut dev = E1000E::new(core, MAC);
    let h1 = dev.receive().unwrap();
    assert_eq!(dev.bufs.packet(h1), &vec![0xaa, 1]);
    assert_eq!(dev.bufs.queued_len(), 1);
    let h2 = dev.receive().unwrap();
    assert_eq!(dev.bufs.packet(h2), &vec![0xbb, 2, 2]);
    assert_eq!(dev.inner.rx_budgets().len(), 1);
    assert_eq!(dev.receive(), Err(DevError::Again));
    assert_eq!(dev.inner.rx_budgets().len(), 2);
    assert_eq!(dev.recycle_rx_buffer(h1), Ok(()));
    assert_eq!(dev.recycle_rx_buffer(h2), Ok(()));
    assert_eq!(dev.bufs.live_len(), 0);
}

#[test]
fn receive_takes_at_most_one_batch() {
    let mut core = SimCore::new(true, true);
    for i in 0..70u8 {
        core.complete_frame(vec![i]);
    }
    let mut dev = E1000E::new(core, MAC);
    let h = dev.receive().unwrap();
    assert_eq!(dev.bufs.packet(h), &vec![0u8]);
    assert_eq!(dev.bufs.queued_len(), RX_BATCH - 1);
    assert_eq!(dev.inner.pending_len(), 6);
}

#[test]
fn transmit_failure_is_try_again_and_retires_buffer() {
    let mut core = SimCore::new(true, true);
    core.set_accept(false);
    let mut dev = E1000E::new(core, MAC);
    let h = dev.alloc_tx_buffer(4).unwrap();
    dev.bufs.write_packet(h, vec![1, 2, 3, 4]);
    assert_eq!(dev.transmit(h), Err(DevError::Again));
    assert!(!dev.bufs.is_live(h));
    assert_eq!(dev.bufs.live_len(), 0);
    assert_eq!(dev.inner.sent(), &vec![(XmitConfig::single_segment(), vec![1u8, 2, 3, 4])]);
}

#[test]
fn transmit_success_retires_buffer_with_fixed_config() {
    let mut dev = E1000E::new(SimCore::new(true, true), MAC);
    let h = dev.alloc_tx_buffer(2).unwrap();
    assert_eq!(dev.transmit(h), Ok(()));
    assert!(!dev.bufs.is_live(h));
    assert_eq!(dev.inner.sent()[0].1, vec![0u8, 0]);
    let c = dev.inner.sent()[0].0;
    assert_eq!((c.timestamp, c.segs, c.ipv4, c.no_fcs, c.vlan_tag_present), (0, 1, true, true, false));
    assert_eq!(dev.recycle_tx_buffers(), Ok(()));
    assert_eq!(dev.mac_address(), MAC);
}

#[test]
fn xmit_result_maps_refusal() {
    assert_eq!(xmit_result(true), Ok(()));
    assert_eq!(xmit_result(false), Err(DevError::Again));
}
