//! Packet buffers that cross the hardware boundary, kept in an arena keyed
//! by handle, and the queue of received buffers not yet delivered.
//!
//! A live buffer belongs to exactly one owner: the receive queue while its
//! handle is queued, otherwise the network stack (or, during a transmit,
//! the adapter). A handle leaves the arena exactly once, by
//! `recycle_rx_buffer` or by `take_packet`.
use vstd::prelude::*;
use std::collections::HashMap;
use std::collections::VecDeque;

verus! {

broadcast use vstd::std_specs::hash::group_hash_axioms;

/// Errors reported to the network stack.
#[derive(Clone, Copy, Debug, PartialEq, Eq, Structural)]
pub enum DevError {
    /// No work is available now: retry later.
    Again,
    /// No buffer could be allocated.
    NoMemory,
}

/// A handle on one packet buffer of a `NetBuffers` arena.
#[derive(Clone, Copy, Debug, PartialEq, Eq, Structural)]
pub struct NetBufPtr {
    pub id: u64,
}

/// The buffer arena and the receive queue.
pub struct NetBuffers {
    bufs: HashMap<u64, Vec<u8>>,
    next_id: u64,
    rx_queue: VecDeque<u64>,
}

/// Packets of a list of frames, in order.
pub open spec fn frames_view(frames: Seq<Vec<u8>>) -> Seq<Seq<u8>> {
    frames.map_values(|f: Vec<u8>| f@)
}

/// What delivering one received buffer does, from `old` to `new`, when the
/// driver core reported `frames`: queued packets come first, then `frames`
/// in the order given.
pub open spec fn delivered(
    old: NetBuffers,
    frames: Seq<Vec<u8>>,
    new: NetBuffers,
    r: Result<NetBufPtr, DevError>,
) -> bool {
    let all = old.queued_packets() + frames_view(frames);
    if frames.len() > old.ids_left() {
        r == Err::<NetBufPtr, DevError>(DevError::NoMemory) && new.live() == old.live()
            && new.queue() == old.queue()
    } else if all.len() == 0 {
        r == Err::<NetBufPtr, DevError>(DevError::Again) && new.live() == old.live()
            && new.queue() == old.queue()
    } else {
        &&& r matches Ok(h) && new.owned_by_stack(h) && new.live()[h.id] == all[0]
            && (old.queue().len() == 0 ==> !old.live().contains_key(h.id))
        &&& new.queued_packets() == all.drop_first()
        &&& forall|i: int| old.queue().len() <= i + 1 < new.queue().len() + 1 && 0 <= i
            < new.queue().len() ==> !old.live().contains_key(#[trigger] new.queue()[i])
        &&& forall|k: u64| #[trigger] old.live().contains_key(k) ==> new.live().contains_key(k)
            && new.live()[k] == old.live()[k]
    }
}

impl NetBuffers {
    /// Live buffers by handle identifier.
    pub closed spec fn live(&self) -> Map<u64, Seq<u8>> {
        self.bufs@.map_values(|v: Vec<u8>| v@)
    }

    /// Identifiers of the received buffers not yet delivered, oldest first.
    pub closed spec fn queue(&self) -> Seq<u64> {
        self.rx_queue@
    }

    /// Contents of the queued buffers, oldest first.
    pub open spec fn queued_packets(&self) -> Seq<Seq<u8>> {
        self.queue().map_values(|h: u64| self.live()[h])
    }

    /// Whether `h` names a live buffer that the network stack owns: live,
    /// and not waiting in the receive queue.
    pub open spec fn owned_by_stack(&self, h: NetBufPtr) -> bool {
        self.live().contains_key(h.id) && !self.queue().contains(h.id)
    }

    /// Whether every handle identifier has been handed out.
    pub closed spec fn ids_exhausted(&self) -> bool {
        self.next_id == u64::MAX
    }

    /// Identifiers are below the next one handed out, and queued
    /// identifiers are live and distinct.
    pub closed spec fn wf(&self) -> bool {
        &&& forall|k: u64| #[trigger] self.bufs@.contains_key(k) ==> k < self.next_id
        &&& forall|i: int| 0 <= i < self.rx_queue@.len() ==> self.bufs@.contains_key(
            #[trigger] self.rx_queue@[i],
        )
        &&& self.rx_queue@.no_duplicates()
    }

    /// An empty arena and queue.
    pub fn new() -> (r: Self)
        ensures
            r.wf(),
            r.live() == Map::<u64, Seq<u8>>::empty(),
            r.queue() == Seq::<u64>::empty(),
            r.ids_left() == u64::MAX,
    {
        let r = NetBuffers { bufs: HashMap::new(), next_id: 0, rx_queue: VecDeque::new() };
        assert(r.live() =~= Map::<u64, Seq<u8>>::empty());
        r
    }

    /// Number of received buffers waiting for delivery.
    pub fn queued_len(&self) -> (r: usize)
        ensures
            r == self.queue().len(),
    {
        self.rx_queue.len()
    }

    /// Number of live buffers.
    pub fn live_len(&self) -> (r: usize)
        ensures
            r == self.live().len(),
    {
        proof {
            assert(self.live().dom() =~= self.bufs@.dom());
        }
        self.bufs.len()
    }

    /// Whether `h` names a live buffer.
    pub fn is_live(&self, h: NetBufPtr) -> (r: bool)
        ensures
            r == self.live().contains_key(h.id),
    {
        self.bufs.contains_key(&h.id)
    }

    /// Contents of a live buffer.
    pub fn packet(&self, h: NetBufPtr) -> (r: &Vec<u8>)
        requires
            self.live().contains_key(h.id),
        ensures
            r@ == self.live()[h.id],
    {
        self.bufs.get(&h.id).unwrap()
    }

    /// Stores a new buffer holding `data`, under a fresh handle.
    fn insert_fresh(&mut self, data: Vec<u8>) -> (r: NetBufPtr)
        requires
            old(self).wf(),
            old(self).next_id < u64::MAX,
        ensures
            final(self).wf(),
            r.id == old(self).next_id,
            final(self).next_id == old(self).next_id + 1,
            !old(self).live().contains_key(r.id),
            final(self).live() == old(self).live().insert(r.id, data@),
            final(self).queue() == old(self).queue(),
            final(self).queued_packets() == old(self).queued_packets(),
    {
        let id = self.next_id;
        self.bufs.insert(id, data);
        self.next_id = id + 1;
        proof {
            assert(self.live() =~= old(self).live().insert(id, data@));
            assert(self.queued_packets() =~= old(self).queued_packets());
        }
        NetBufPtr { id }
    }

    /// Allocates a zero-filled buffer of `size` bytes for the network stack
    /// to fill and hand to a transmit. Fails only when handle identifiers
    /// are exhausted.
    pub fn alloc_tx_buffer(&mut self, size: usize) -> (r: Result<NetBufPtr, DevError>)
        requires
            old(self).wf(),
        ensures
            final(self).wf(),
            final(self).queue() == old(self).queue(),
            r is Err <==> old(self).ids_exhausted(),
            r matches Err(e) ==> e == DevError::NoMemory && final(self).live() == old(self).live(),
            r matches Ok(h) ==> {
                &&& !old(self).live().contains_key(h.id)
                &&& final(self).live() == old(self).live().insert(h.id, Seq::new(size as nat, |i: int| 0u8))
                &&& final(self).owned_by_stack(h)
            },
    {
        if self.next_id == u64::MAX {
            return Err(DevError::NoMemory);
        }
        let mut data: Vec<u8> = Vec::new();
        let mut i: usize = 0;
        while i < size
            invariant
                i <= size,
                data@ == Seq::new(i as nat, |k: int| 0u8),
            decreases size - i,
        {
            data.push(0u8);
            i = i + 1;
            assert(data@ =~= Seq::new(i as nat, |k: int| 0u8));
        }
        let h = self.insert_fresh(data);
        proof {
            assert(!self.queue().contains(h.id));
        }
        Ok(h)
    }

    /// Replaces the contents of a buffer the network stack owns.
    pub fn write_packet(&mut self, h: NetBufPtr, data: Vec<u8>)
        requires
            old(self).wf(),
            old(self).owned_by_stack(h),
        ensures
            final(self).wf(),
            final(self).live() == old(self).live().insert(h.id, data@),
            final(self).queue() == old(self).queue(),
            final(self).queued_packets() == old(self).queued_packets(),
    {
        let ghost d = data@;
        self.bufs.insert(h.id, data);
        proof {
            assert(self.live() =~= old(self).live().insert(h.id, d));
            assert forall|i: int| 0 <= i < self.queue().len() implies self.queue()[i] != h.id by {
                assert(old(self).queue().contains(old(self).queue()[i]));
            }
            assert(self.queued_packets() =~= old(self).queued_packets());
        }
    }

    /// Takes a buffer the network stack owns out of the arena and returns
    /// its contents; the handle is retired.
    pub fn take_packet(&mut self, h: NetBufPtr) -> (r: Vec<u8>)
        requires
            old(self).wf(),
            old(self).owned_by_stack(h),
        ensures
            final(self).wf(),
            r@ == old(self).live()[h.id],
            final(self).live() == old(self).live().remove(h.id),
            final(self).queue() == old(self).queue(),
            final(self).queued_packets() == old(self).queued_packets(),
    {
        let r = self.bufs.remove(&h.id).unwrap();
        proof {
            assert(self.live() =~= old(self).live().remove(h.id));
            assert forall|i: int| 0 <= i < self.queue().len() implies self.queue()[i] != h.id by {
                assert(old(self).queue().contains(old(self).queue()[i]));
            }
            assert(self.queued_packets() =~= old(self).queued_packets());
        }
        r
    }

    /// Gives back a received buffer once the network stack is done with it.
    /// A handle may be recycled once: it must still be live and owned by
    /// the stack.
    pub fn recycle_rx_buffer(&mut self, h: NetBufPtr) -> (r: Result<(), DevError>)
        requires
            old(self).wf(),
            old(self).owned_by_stack(h),
        ensures
            final(self).wf(),
            r is Ok,
            final(self).live() == old(self).live().remove(h.id),
            !final(self).live().contains_key(h.id),
            final(self).queue() == old(self).queue(),
    {
        let _ = self.take_packet(h);
        Ok(())
    }

    /// How many more handle identifiers can be handed out.
    pub closed spec fn ids_left(&self) -> nat {
        (u64::MAX - self.next_id) as nat
    }

    /// Appends a newly received packet to the receive queue.
    fn enqueue(&mut self, data: Vec<u8>)
        requires
            old(self).wf(),
            old(self).next_id < u64::MAX,
        ensures
            final(self).wf(),
            final(self).next_id == old(self).next_id + 1,
            final(self).queued_packets() == old(self).queued_packets().push(data@),
            final(self).queue() == old(self).queue().push(old(self).next_id),
            final(self).live() == old(self).live().insert(old(self).next_id, data@),
    {
        let ghost d = data@;
        let h = self.insert_fresh(data);
        let ghost mid = self.queue();
        self.rx_queue.push_back(h.id);
        proof {
            assert(self.queue() == mid.push(h.id));
            assert forall|i: int| 0 <= i < mid.len() implies mid[i] != h.id by {
                assert(old(self).bufs@.contains_key(old(self).rx_queue@[i]));
            }
            assert(self.queued_packets() =~= old(self).queued_packets().push(d));
            assert forall|i: int, j: int| 0 <= i < j < self.rx_queue@.len() implies self.rx_queue@[i]
                != self.rx_queue@[j] by {
                if j < mid.len() {
                    assert(old(self).rx_queue@[i] != old(self).rx_queue@[j]);
                }
            }
            assert forall|i: int| 0 <= i < self.rx_queue@.len() implies self.bufs@.contains_key(
                #[trigger] self.rx_queue@[i]) by {
                if i < mid.len() {
                    assert(old(self).bufs@.contains_key(old(self).rx_queue@[i]));
                } else {
                    assert(self.live().dom().contains(h.id));
                }
            }
        }
    }

    /// Takes the oldest queued buffer; it is then owned by the network stack.
    pub fn pop_received(&mut self) -> (r: Option<NetBufPtr>)
        requires
            old(self).wf(),
        ensures
            final(self).wf(),
            final(self).live() == old(self).live(),
            old(self).queue().len() == 0 ==> r is None && final(self).queue() == old(self).queue(),
            old(self).queue().len() > 0 ==> r == Some(NetBufPtr { id: old(self).queue()[0] })
                && final(self).queue() == old(self).queue().drop_first()
                && final(self).queued_packets() == old(self).queued_packets().drop_first(),
            r matches Some(h) ==> final(self).owned_by_stack(h),
    {
        match self.rx_queue.pop_front() {
            Some(id) => {
                proof {
                    assert(self.queue() =~= old(self).queue().drop_first());
                    assert(old(self).queue().contains(id) ==> id == old(self).queue()[0]);
                    assert(!self.queue().contains(id)) by {
                        if self.queue().contains(id) {
                            let j = choose|j: int| 0 <= j < self.queue().len() && self.queue()[j] == id;
                            assert(old(self).queue()[j + 1] == old(self).queue()[0]);
                        }
                    }
                    assert(old(self).bufs@.contains_key(old(self).rx_queue@[0]));
                    assert(self.queued_packets() =~= old(self).queued_packets().drop_first());
                }
                Some(NetBufPtr { id })
            },
            None => None,
        }
    }

    /// Delivers one received buffer: the packets already queued come first,
    /// then `frames` in the order the driver core reported them. With
    /// nothing queued and no frames the answer is "try again" and nothing
    /// changes; nothing changes either when `frames` needs more handle
    /// identifiers than are left.
    pub fn receive_completed(&mut self, frames: Vec<Vec<u8>>) -> (r: Result<NetBufPtr, DevError>)
        requires
            old(self).wf(),
        ensures
            final(self).wf(),
            delivered(*old(self), frames@, *final(self), r),
    {
        if frames.len() as u64 > u64::MAX - self.next_id {
            return Err(DevError::NoMemory);
        }
        let ghost orig = frames@;
        let ghost all = old(self).queued_packets() + frames_view(frames@);
        let mut rest = frames;
        while rest.len() > 0
            invariant
                self.wf(),
                rest@ == orig.subrange(orig.len() - rest@.len(), orig.len() as int),
                rest@.len() <= orig.len(),
                self.next_id == old(self).next_id + (orig.len() - rest@.len()),
                orig.len() <= u64::MAX - old(self).next_id,
                self.queued_packets() == old(self).queued_packets() + frames_view(
                    orig.subrange(0, orig.len() - rest@.len()),
                ),
                rest@.len() == orig.len() ==> self.live() == old(self).live() && self.queue() == old(self).queue(),
                forall|k: u64| #[trigger] old(self).live().contains_key(k)
                    ==> self.live().contains_key(k) && self.live()[k] == old(self).live()[k],
                forall|k: u64| #[trigger] old(self).live().contains_key(k) ==> k < old(self).next_id,
                self.queue().len() == old(self).queue().len() + (orig.len() - rest@.len()),
                self.queue().subrange(0, old(self).queue().len() as int) == old(self).queue(),
                forall|i: int| old(self).queue().len() <= i < self.queue().len() ==> #[trigger] self.queue()[i]
                    >= old(self).next_id,
            decreases rest@.len(),
        {
            let ghost done = orig.len() - rest@.len();
            let ghost before = self.live();
            let f = rest.remove(0);
            self.enqueue(f);
            proof {
                assert(self.queue().subrange(0, old(self).queue().len() as int) =~= old(self).queue());
                assert(orig.subrange(0, done + 1) =~= orig.subrange(0, done).push(orig[done]));
                assert(frames_view(orig.subrange(0, done + 1)) =~= frames_view(orig.subrange(0, done)).push(orig[done]@));
                assert(rest@ =~= orig.subrange(orig.len() - rest@.len(), orig.len() as int));
            }
        }
        proof {
            assert(orig.subrange(0, orig.len() as int) =~= orig);
            assert(self.queued_packets() == all);
        }
        let ghost mid = self.queue();
        let r = match self.pop_received() {
            Some(h) => Ok(h),
            None => Err(DevError::Again),
        };
        proof {
            assert forall|k: u64| old(self).live().contains_key(k) implies k < old(self).next_id by {
                assert(old(self).bufs@.contains_key(k));
            }
            if old(self).queue().len() == 0 && mid.len() > 0 {
                assert(mid[0] >= old(self).next_id);
            }
            assert forall|i: int| old(self).queue().len() <= i + 1 < self.queue().len() + 1 && 0 <= i
                < self.queue().len() implies !old(self).live().contains_key(#[trigger] self.queue()[i]) by {
                assert(self.queue()[i] == mid[i + 1]);
                assert(mid[i + 1] >= old(self).next_id);
            }
        }
        r
    }
}

/// Received packets leave in completion order: packets already queued
/// come first, then the frames the driver core reported, in its order, and
/// a second delivery with no new frames hands out the next one in line.
pub proof fn lemma_receive_fifo(
    b0: NetBuffers,
    frames: Seq<Vec<u8>>,
    b1: NetBuffers,
    r1: Result<NetBufPtr, DevError>,
    b2: NetBuffers,
    r2: Result<NetBufPtr, DevError>,
)
    requires
        frames.len() <= b0.ids_left(),
        b0.queued_packets().len() + frames.len() >= 2,
        delivered(b0, frames, b1, r1),
        delivered(b1, Seq::empty(), b2, r2),
    ensures
        r1 matches Ok(h1) && b1.live()[h1.id] == (b0.queued_packets() + frames_view(frames))[0],
        r2 matches Ok(h2) && b2.live()[h2.id] == (b0.queued_packets() + frames_view(frames))[1],
        b2.queued_packets() == (b0.queued_packets() + frames_view(frames)).subrange(
            2,
            (b0.queued_packets().len() + frames.len()) as int,
        ),
{
    let all = b0.queued_packets() + frames_view(frames);
    assert(frames_view(Seq::<Vec<u8>>::empty()) =~= Seq::<Seq<u8>>::empty());
    assert(b1.queued_packets() + frames_view(Seq::<Vec<u8>>::empty()) =~= all.drop_first());
    assert(all.drop_first().drop_first() =~= all.subrange(2, all.len() as int));
}

/// A handle is recycled once: after `recycle_rx_buffer` has taken it back,
/// the network stack no longer owns it, so a second recycle of the same
/// handle does not meet that function's precondition.
pub proof fn lemma_recycle_once(before: NetBuffers, after: NetBuffers, h: NetBufPtr)
    requires
        before.owned_by_stack(h),
        after.live() == before.live().remove(h.id),
    ensures
        !after.owned_by_stack(h),
        after.live().len() + 1 == before.live().len() || !before.live().dom().finite(),
{
    if before.live().dom().finite() {
        assert(before.live().remove(h.id).dom() =~= before.live().dom().remove(h.id));
    }
}

} // verus!
