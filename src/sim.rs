//! A synthetic driver core: completed frames, link behaviour and transmit
//! answers are set by its owner, and every call it receives is recorded.
use vstd::prelude::*;
use crate::e1000e::{DriverCore, XmitConfig};
use crate::netbuf::frames_view;

verus! {

/// A driver core without hardware.
pub struct SimCore {
    link: bool,
    link_after_irq: bool,
    accept: bool,
    irq_log: Vec<bool>,
    tx_clean_log: Vec<usize>,
    taken: Ghost<Seq<Seq<u8>>>,
    rx_budgets: Vec<usize>,
    pending: Vec<Vec<u8>>,
    sent: Vec<(XmitConfig, Vec<u8>)>,
}

impl SimCore {
    /// A core whose link is `link_up`, becomes `link_after_irq` after a
    /// round of interrupt work, and accepts every packet.
    pub fn new(link_up: bool, link_after_irq: bool) -> (r: Self)
        ensures
            r.link_up() == link_up,
            r.irq_rounds() == 0,
            r.tx_cleans() == 0,
            r.rx_taken() == Seq::<Seq<u8>>::empty(),
            r.transmitted() == Seq::<(XmitConfig, Seq<u8>)>::empty(),
    {
        let r = SimCore {
            link: link_up,
            link_after_irq,
            accept: true,
            irq_log: Vec::new(),
            tx_clean_log: Vec::new(),
            taken: Ghost(Seq::empty()),
            rx_budgets: Vec::new(),
            pending: Vec::new(),
            sent: Vec::new(),
        };
        assert(r.transmitted() =~= Seq::<(XmitConfig, Seq<u8>)>::empty());
        r
    }

    /// Marks a received frame as completed by the hardware.
    pub fn complete_frame(&mut self, frame: Vec<u8>) {
        self.pending.push(frame);
    }

    /// Whether later transmits are accepted.
    pub fn set_accept(&mut self, accept: bool) {
        self.accept = accept;
    }

    /// Link state that the next round of interrupt work leaves.
    pub fn set_link_after_irq(&mut self, link_up: bool) {
        self.link_after_irq = link_up;
    }

    /// Rounds of interrupt work serviced so far.
    pub fn irq_count(&self) -> (r: usize)
        ensures
            r == self.irq_rounds(),
    {
        self.irq_log.len()
    }

    /// Times transmit descriptors were reclaimed.
    pub fn tx_clean_count(&self) -> (r: usize)
        ensures
            r == self.tx_cleans(),
    {
        self.tx_clean_log.len()
    }

    /// The budgets of the receive calls so far.
    pub fn rx_budgets(&self) -> &Vec<usize> {
        &self.rx_budgets
    }

    /// Completed frames not yet taken.
    pub fn pending_len(&self) -> usize {
        self.pending.len()
    }

    /// Packets handed to the hardware so far, with their settings.
    pub fn sent(&self) -> &Vec<(XmitConfig, Vec<u8>)> {
        &self.sent
    }
}

impl DriverCore for SimCore {
    closed spec fn link_up(&self) -> bool {
        self.link
    }

    closed spec fn irq_rounds(&self) -> nat {
        self.irq_log@.len()
    }

    closed spec fn transmitted(&self) -> Seq<(XmitConfig, Seq<u8>)> {
        self.sent@.map_values(|p: (XmitConfig, Vec<u8>)| (p.0, p.1@))
    }

    closed spec fn tx_cleans(&self) -> nat {
        self.tx_clean_log@.len()
    }

    closed spec fn rx_taken(&self) -> Seq<Seq<u8>> {
        self.taken@
    }

    fn is_link_up(&self) -> (r: bool) {
        self.link
    }

    fn irq_handle(&mut self) {
        self.link = self.link_after_irq;
        self.irq_log.push(self.link);
    }

    fn clean_tx_irq(&mut self) {
        self.tx_clean_log.push(self.pending.len());
    }

    fn clean_rx_irq(&mut self, budget: usize) -> (r: Vec<Vec<u8>>) {
        self.rx_budgets.push(budget);
        let mut r: Vec<Vec<u8>> = Vec::new();
        while r.len() < budget && self.pending.len() > 0
            invariant
                r@.len() <= budget,
                self.taken@ == old(self).taken@,
                self.tx_clean_log@ == old(self).tx_clean_log@,
            decreases self.pending@.len(),
        {
            let f = self.pending.remove(0);
            r.push(f);
        }
        self.taken = Ghost(self.taken@ + frames_view(r@));
        r
    }

    fn xmit(&mut self, config: &XmitConfig, packet: &[u8]) -> (r: bool) {
        let mut copy: Vec<u8> = Vec::new();
        let mut i: usize = 0;
        while i < packet.len()
            invariant
                i <= packet@.len(),
                copy@ == packet@.subrange(0, i as int),
            decreases packet@.len() - i,
        {
            copy.push(packet[i]);
            i = i + 1;
            assert(copy@ =~= packet@.subrange(0, i as int));
        }
        assert(copy@ =~= packet@);
        let ghost before = self.transmitted();
        self.sent.push((*config, copy));
        assert(self.transmitted() =~= before.push((*config, packet@)));
        self.accept
    }
}

} // verus!
