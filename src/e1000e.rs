//! The E1000E network adapter: the operations the network stack calls,
//! over a wrapped driver core and the packet-buffer arena.
use vstd::prelude::*;
use crate::drivers::DeviceType;
use crate::netbuf::{delivered, frames_view, DevError, NetBufPtr, NetBuffers};

verus! {

/// Capacity of the receive and transmit queues reported to the network stack.
pub const QS: usize = 64;

/// Most frames taken from the driver core in one receive.
pub const RX_BATCH: usize = 64;

/// Per-packet transmit settings handed to the driver core.
#[derive(Clone, Copy, Debug, PartialEq, Eq, Structural)]
pub struct XmitConfig {
    pub timestamp: u64,
    pub segs: u16,
    pub ipv4: bool,
    pub no_fcs: bool,
    pub vlan_tag_present: bool,
}

impl XmitConfig {
    /// The settings every transmit uses.
    pub open spec fn spec_single_segment() -> XmitConfig {
        XmitConfig { timestamp: 0, segs: 1, ipv4: true, no_fcs: true, vlan_tag_present: false }
    }

    /// One segment, IPv4, frame check sequence appended by the hardware,
    /// no VLAN tag.
    pub fn single_segment() -> (r: Self)
        ensures
            r == Self::spec_single_segment(),
    {
        XmitConfig { timestamp: 0, segs: 1, ipv4: true, no_fcs: true, vlan_tag_present: false }
    }
}

/// The operations of the wrapped Ethernet driver core that the adapter uses.
/// Every implementation must define the spec functions: what its link
/// state is, how many rounds of interrupt and transmit-reclaim work it has
/// done, which packets it was handed and which frames it gave out. The
/// default bodies exist only so that code built without verification can
/// implement the trait; with them the contracts below cannot be met.
pub trait DriverCore {
    /// The cached link state.
    closed spec fn link_up(&self) -> bool {
        arbitrary()
    }

    /// Rounds of interrupt work serviced so far.
    closed spec fn irq_rounds(&self) -> nat {
        arbitrary()
    }

    /// Packets handed to the hardware so far, with their settings.
    closed spec fn transmitted(&self) -> Seq<(XmitConfig, Seq<u8>)> {
        arbitrary()
    }

    /// Rounds of transmit-descriptor reclaiming done so far.
    closed spec fn tx_cleans(&self) -> nat {
        arbitrary()
    }

    /// Received frames given out so far, oldest first.
    closed spec fn rx_taken(&self) -> Seq<Seq<u8>> {
        arbitrary()
    }

    /// Whether the cached link state is up.
    fn is_link_up(&self) -> (r: bool)
        ensures
            r == self.link_up(),
    ;

    /// Services one round of pending interrupt work.
    fn irq_handle(&mut self)
        ensures
            final(self).irq_rounds() == old(self).irq_rounds() + 1,
    ;

    /// Reclaims completed transmit descriptors.
    fn clean_tx_irq(&mut self)
        ensures
            final(self).tx_cleans() == old(self).tx_cleans() + 1,
            final(self).rx_taken() == old(self).rx_taken(),
    ;

    /// Takes at most `budget` completed receive frames, oldest first.
    fn clean_rx_irq(&mut self, budget: usize) -> (r: Vec<Vec<u8>>)
        ensures
            r@.len() <= budget,
            final(self).rx_taken() == old(self).rx_taken() + frames_view(r@),
            final(self).tx_cleans() == old(self).tx_cleans(),
    ;

    /// Hands one packet to the hardware; `false` when the core refused it.
    fn xmit(&mut self, config: &XmitConfig, packet: &[u8]) -> (r: bool)
        ensures
            final(self).transmitted() == old(self).transmitted().push((*config, packet@)),
            final(self).irq_rounds() == old(self).irq_rounds(),
            final(self).link_up() == old(self).link_up(),
    ;
}

/// Result of a transmit once the driver core has answered: any refusal is
/// reported as "try again".
pub fn xmit_result(accepted: bool) -> (r: Result<(), DevError>)
    ensures
        accepted ==> r is Ok,
        !accepted ==> r == Err::<(), DevError>(DevError::Again),
{
    if accepted {
        Ok(())
    } else {
        Err(DevError::Again)
    }
}

/// An E1000E network device: the driver core, its hardware address and the
/// buffers it shares with the network stack.
pub struct E1000E<C: DriverCore> {
    pub inner: C,
    pub mac: [u8; 6],
    pub bufs: NetBuffers,
}

impl<C: DriverCore> E1000E<C> {
    /// An operational device over a core that has been brought up and
    /// opened, with no buffers yet.
    pub fn new(inner: C, mac: [u8; 6]) -> (r: Self)
        ensures
            r.wf(),
            r.mac == mac,
            r.bufs.live() == Map::<u64, Seq<u8>>::empty(),
            r.bufs.queue() == Seq::<u64>::empty(),
            r.bufs.ids_left() == u64::MAX,
            r.inner == inner,
    {
        E1000E { inner, mac, bufs: NetBuffers::new() }
    }

    /// The buffer arena is well formed.
    pub open spec fn wf(&self) -> bool {
        self.bufs.wf()
    }

    /// Name under which the device is registered.
    pub fn device_name(&self) -> (r: &'static str)
        ensures
            r@ == "E1000 "@,
    {
        "E1000 "
    }

    /// The device is a network device.
    pub fn device_type(&self) -> (r: DeviceType)
        ensures
            r == DeviceType::Net,
    {
        DeviceType::Net
    }

    /// The burned-in hardware address read at bring-up.
    pub fn mac_address(&self) -> (r: [u8; 6])
        ensures
            r == self.mac,
    {
        self.mac
    }

    /// Whether the link is up. When the cached state is down, one round of
    /// interrupt work is serviced and the state read again. Buffers are
    /// not touched.
    pub fn can_transmit(&mut self) -> (r: bool)
        ensures
            final(self).bufs == old(self).bufs,
            final(self).mac == old(self).mac,
            old(self).inner.link_up() ==> r && final(self).inner == old(self).inner,
            !old(self).inner.link_up() ==> final(self).inner.irq_rounds() == old(self).inner.irq_rounds()
                + 1 && r == final(self).inner.link_up(),
    {
        self.link_ready()
    }

    /// Same check as `can_transmit`: the link serves both directions.
    pub fn can_receive(&mut self) -> (r: bool)
        ensures
            final(self).bufs == old(self).bufs,
            final(self).mac == old(self).mac,
            old(self).inner.link_up() ==> r && final(self).inner == old(self).inner,
            !old(self).inner.link_up() ==> final(self).inner.irq_rounds() == old(self).inner.irq_rounds()
                + 1 && r == final(self).inner.link_up(),
    {
        self.link_ready()
    }

    fn link_ready(&mut self) -> (r: bool)
        ensures
            final(self).bufs == old(self).bufs,
            final(self).mac == old(self).mac,
            old(self).inner.link_up() ==> r && final(self).inner == old(self).inner,
            !old(self).inner.link_up() ==> final(self).inner.irq_rounds() == old(self).inner.irq_rounds()
                + 1 && r == final(self).inner.link_up(),
    {
        if self.inner.is_link_up() {
            return true;
        }
        self.inner.irq_handle();
        self.inner.is_link_up()
    }

    /// Receive queue capacity reported to the network stack.
    pub fn rx_queue_size(&self) -> (r: usize)
        ensures
            r == QS,
    {
        QS
    }

    /// Transmit queue capacity reported to the network stack.
    pub fn tx_queue_size(&self) -> (r: usize)
        ensures
            r == QS,
    {
        QS
    }

    /// Takes back a received buffer the network stack is done with. Each
    /// delivered handle is recycled once.
    pub fn recycle_rx_buffer(&mut self, rx_buf: NetBufPtr) -> (r: Result<(), DevError>)
        requires
            old(self).wf(),
            old(self).bufs.owned_by_stack(rx_buf),
        ensures
            final(self).wf(),
            r is Ok,
            final(self).bufs.live() == old(self).bufs.live().remove(rx_buf.id),
            final(self).bufs.queue() == old(self).bufs.queue(),
            final(self).inner == old(self).inner,
    {
        self.bufs.recycle_rx_buffer(rx_buf)
    }

    /// Transmit buffers are retired inside `transmit`; nothing is deferred.
    pub fn recycle_tx_buffers(&mut self) -> (r: Result<(), DevError>)
        ensures
            r is Ok,
            *final(self) == *old(self),
    {
        Ok(())
    }

    /// Sends the packet in `tx_buf`. The buffer is retired whatever the
    /// driver core answers; a refusal is reported as "try again".
    pub fn transmit(&mut self, tx_buf: NetBufPtr) -> (r: Result<(), DevError>)
        requires
            old(self).wf(),
            old(self).bufs.owned_by_stack(tx_buf),
        ensures
            final(self).wf(),
            r is Ok || r == Err::<(), DevError>(DevError::Again),
            final(self).bufs.live() == old(self).bufs.live().remove(tx_buf.id),
            !final(self).bufs.live().contains_key(tx_buf.id),
            final(self).bufs.queue() == old(self).bufs.queue(),
            final(self).mac == old(self).mac,
            final(self).inner.transmitted() == old(self).inner.transmitted().push(
                (XmitConfig::spec_single_segment(), old(self).bufs.live()[tx_buf.id]),
            ),
            final(self).inner.irq_rounds() == old(self).inner.irq_rounds(),
            final(self).inner.link_up() == old(self).inner.link_up(),
    {
        let packet = self.bufs.take_packet(tx_buf);
        let config = XmitConfig::single_segment();
        let accepted = self.inner.xmit(&config, packet.as_slice());
        xmit_result(accepted)
    }

    /// Delivers one received packet: the oldest queued one if any, without
    /// asking the driver core; otherwise, after reclaiming transmit
    /// descriptors, the first of a new batch of completed frames, the rest
    /// being queued in completion order. With no frames: "try again".
    pub fn receive(&mut self) -> (r: Result<NetBufPtr, DevError>)
        requires
            old(self).wf(),
        ensures
            final(self).wf(),
            old(self).bufs.queue().len() > 0 ==> {
                &&& r == Ok::<NetBufPtr, DevError>(NetBufPtr { id: old(self).bufs.queue()[0] })
                &&& final(self).bufs.live() == old(self).bufs.live()
                &&& final(self).bufs.queue() == old(self).bufs.queue().drop_first()
                &&& final(self).inner == old(self).inner
            },
            final(self).mac == old(self).mac,
            old(self).bufs.queue().len() == 0 ==> {
                &&& final(self).inner.tx_cleans() == old(self).inner.tx_cleans() + 1
                &&& exists|frames: Seq<Vec<u8>>|
                    {
                        &&& frames.len() <= RX_BATCH
                        &&& final(self).inner.rx_taken() == old(self).inner.rx_taken() + frames_view(frames)
                        &&& #[trigger] delivered(old(self).bufs, frames, final(self).bufs, r)
                    }
            },
            r matches Ok(h) ==> final(self).bufs.owned_by_stack(h),
    {
        if self.bufs.queued_len() > 0 {
            return match self.bufs.pop_received() {
                Some(h) => Ok(h),
                None => Err(DevError::Again),
            };
        }
        self.inner.clean_tx_irq();
        let frames = self.inner.clean_rx_irq(RX_BATCH);
        let ghost fs = frames@;
        let r = self.bufs.receive_completed(frames);
        assert(delivered(old(self).bufs, fs, self.bufs, r));
        r
    }

    /// A zero-filled buffer of `size` bytes for the network stack to fill
    /// before passing it to `transmit`.
    pub fn alloc_tx_buffer(&mut self, size: usize) -> (r: Result<NetBufPtr, DevError>)
        requires
            old(self).wf(),
        ensures
            final(self).wf(),
            final(self).bufs.queue() == old(self).bufs.queue(),
            r is Err <==> old(self).bufs.ids_exhausted(),
            r matches Err(e) ==> e == DevError::NoMemory && final(self).bufs.live() == old(self).bufs.live(),
            r matches Ok(h) ==> {
                &&& !old(self).bufs.live().contains_key(h.id)
                &&& final(self).bufs.live() == old(self).bufs.live().insert(
                    h.id,
                    Seq::new(size as nat, |i: int| 0u8),
                )
                &&& final(self).bufs.owned_by_stack(h)
            },
            final(self).mac == old(self).mac,
            final(self).inner == old(self).inner,
    {
        self.bufs.alloc_tx_buffer(size)
    }
}

} // verus!
