//! A worker thread of the backend, and what one pass over a virtqueue hands
//! back to the guest.
use vstd::prelude::*;

use crate::{BACKEND_EVENT, QUEUE_SIZE};

verus! {

/// The state of a worker thread that its decisions read.
#[derive(Clone, Copy)]
pub struct VhostUserVsockThread {
    /// Whether the driver negotiated `VIRTIO_RING_F_EVENT_IDX`.
    pub event_idx: bool,
    /// Whether the guest memory has been handed to the thread.
    pub has_mem: bool,
    /// Whether a vring worker has been attached to the thread.
    pub has_vring_worker: bool,
}

/// What a pass over a virtqueue does after a descriptor.
#[derive(Clone, Copy, Debug, PartialEq, Eq, Structural)]
pub enum QueueStep {
    /// Go on with the next available descriptor.
    Next,
    /// Put the descriptor back on the queue (go to the previous position) and stop.
    Rewind,
}

/// What became of an available descriptor of the RX queue.
#[derive(Clone, Copy, Debug, PartialEq, Eq, Structural)]
pub enum RxOutcome {
    /// A packet was received into it: the header length and the payload length.
    Received { hdr_len: u32, data_len: u32 },
    /// The backend had no packet for it.
    NotReceived,
    /// It does not hold a valid RX packet buffer.
    Invalid,
}

/// What became of an available descriptor of the TX queue.
#[derive(Clone, Copy, Debug, PartialEq, Eq, Structural)]
pub enum TxOutcome {
    /// Its packet was sent.
    Sent,
    /// The backend could not take its packet now.
    NotSent,
    /// It does not hold a valid TX packet.
    Invalid,
}

/// The used-ring entry that an RX descriptor gives, if any: a received
/// packet is used with its header and payload length, an invalid descriptor
/// with length 0, and a descriptor without a packet is put back.
pub open spec fn rx_entry(index: u16, outcome: RxOutcome) -> Option<(u16, u32)> {
    match outcome {
        RxOutcome::Received { hdr_len, data_len } => Some((index, (hdr_len + data_len) as u32)),
        RxOutcome::NotReceived => None,
        RxOutcome::Invalid => Some((index, 0u32)),
    }
}

/// A received packet is handed back whole: its used entry names its
/// descriptor, and its used length is its header length plus its payload
/// length, so it is never shorter than the header, a header-only packet
/// included.
pub proof fn lemma_received_packet_used_whole(index: u16, hdr_len: u32, data_len: u32)
    requires
        hdr_len + data_len <= u32::MAX,
    ensures
        rx_entry(index, RxOutcome::Received { hdr_len, data_len }) matches Some(e) && e.0 == index
            && e.1 == hdr_len + data_len && e.1 >= hdr_len && e.1 - hdr_len == data_len,
{
}

/// The used-ring entry that a TX descriptor gives, if any: sent and invalid
/// descriptors are used with length 0, an unsent one is put back.
pub open spec fn tx_entry(index: u16, outcome: TxOutcome) -> Option<(u16, u32)> {
    match outcome {
        TxOutcome::Sent => Some((index, 0u32)),
        TxOutcome::NotSent => None,
        TxOutcome::Invalid => Some((index, 0u32)),
    }
}

/// The used entries of a pass, the descriptors taken in order, and whether
/// the pass has stopped at a descriptor it put back.
pub struct UsedDescHeads {
    heads: Vec<(u16, u32)>,
    stopped: bool,
}

impl View for UsedDescHeads {
    type V = Seq<(u16, u32)>;

    closed spec fn view(&self) -> Seq<(u16, u32)> {
        self.heads@
    }
}

impl UsedDescHeads {
    /// Whether the pass has put a descriptor back, after which it examines no more.
    pub closed spec fn is_stopped(&self) -> bool {
        self.stopped
    }

    /// A pass that has used nothing yet.
    pub fn new() -> (r: Self)
        ensures
            r@ == Seq::<(u16, u32)>::empty(),
            !r.is_stopped(),
    {
        UsedDescHeads { heads: Vec::new(), stopped: false }
    }

    /// Whether the pass has put a descriptor back and stopped.
    pub fn stopped(&self) -> (b: bool)
        ensures
            b == self.is_stopped(),
    {
        self.stopped
    }

    /// Records what became of the RX descriptor `index`.
    pub fn add_rx(&mut self, index: u16, outcome: RxOutcome) -> (step: QueueStep)
        requires
            !old(self).is_stopped(),
            rx_entry(index, outcome) is Some ==> old(self)@.len() < QUEUE_SIZE,
            outcome matches RxOutcome::Received { hdr_len, data_len } ==> hdr_len + data_len
                <= u32::MAX,
        ensures
            step == (if outcome is NotReceived {
                QueueStep::Rewind
            } else {
                QueueStep::Next
            }),
            final(self).is_stopped() == (outcome is NotReceived),
            outcome matches RxOutcome::Received { hdr_len, data_len } ==> final(self)@
                == old(self)@.push((index, (hdr_len + data_len) as u32)),
            final(self)@ == (match rx_entry(index, outcome) {
                Some(e) => old(self)@.push(e),
                None => old(self)@,
            }),
    {
        match outcome {
            RxOutcome::Received { hdr_len, data_len } => {
                self.heads.push((index, hdr_len + data_len));
                QueueStep::Next
            },
            RxOutcome::NotReceived => {
                self.stopped = true;
                QueueStep::Rewind
            },
            RxOutcome::Invalid => {
                self.heads.push((index, 0));
                QueueStep::Next
            },
        }
    }

    /// Records what became of the TX descriptor `index`.
    pub fn add_tx(&mut self, index: u16, outcome: TxOutcome) -> (step: QueueStep)
        requires
            !old(self).is_stopped(),
            tx_entry(index, outcome) is Some ==> old(self)@.len() < QUEUE_SIZE,
        ensures
            step == (if outcome is NotSent {
                QueueStep::Rewind
            } else {
                QueueStep::Next
            }),
            final(self).is_stopped() == (outcome is NotSent),
            final(self)@ == (match tx_entry(index, outcome) {
                Some(e) => old(self)@.push(e),
                None => old(self)@,
            }),
    {
        match outcome {
            TxOutcome::Sent => {
                self.heads.push((index, 0));
                QueueStep::Next
            },
            TxOutcome::NotSent => {
                self.stopped = true;
                QueueStep::Rewind
            },
            TxOutcome::Invalid => {
                self.heads.push((index, 0));
                QueueStep::Next
            },
        }
    }

    /// How many descriptors the pass has used.
    pub fn len(&self) -> (n: usize)
        ensures
            n == self@.len(),
    {
        self.heads.len()
    }

    /// The used entries, in the order the descriptors were taken.
    pub fn heads(&self) -> (h: &Vec<(u16, u32)>)
        ensures
            h@ == self@,
    {
        &self.heads
    }

    /// Whether the guest is to be signalled, and the pass reports work done:
    /// exactly when something was used.
    pub fn signal(&self) -> (b: bool)
        ensures
            b == (self@.len() > 0),
    {
        self.heads.len() > 0
    }
}

impl VhostUserVsockThread {
    /// A thread without guest memory, vring worker or event index.
    pub fn new() -> (t: Self)
        ensures
            !t.event_idx,
            !t.has_mem,
            !t.has_vring_worker,
    {
        VhostUserVsockThread { event_idx: false, has_mem: false, has_vring_worker: false }
    }

    /// Attaches a vring worker; returns the data under which the backend's
    /// file descriptor is to be registered with it.
    pub fn set_vring_worker(&mut self) -> (data: u64)
        ensures
            final(self).has_vring_worker,
            final(self).event_idx == old(self).event_idx,
            final(self).has_mem == old(self).has_mem,
            data == BACKEND_EVENT as u64,
    {
        self.has_vring_worker = true;
        BACKEND_EVENT as u64
    }

    /// Begins a pass over the RX queue: none without guest memory (nothing is
    /// processed and no work is reported), else a pass that has used nothing.
    pub fn process_rx(&self) -> (r: Option<UsedDescHeads>)
        ensures
            r is Some <==> self.has_mem,
            r matches Some(p) ==> p@ == Seq::<(u16, u32)>::empty() && !p.is_stopped(),
    {
        if self.has_mem {
            Some(UsedDescHeads::new())
        } else {
            None
        }
    }

    /// Begins a pass over the TX queue: none without guest memory (nothing is
    /// processed and no work is reported), else a pass that has used nothing.
    pub fn process_tx(&self) -> (r: Option<UsedDescHeads>)
        ensures
            r is Some <==> self.has_mem,
            r matches Some(p) ==> p@ == Seq::<(u16, u32)>::empty() && !p.is_stopped(),
    {
        if self.has_mem {
            Some(UsedDescHeads::new())
        } else {
            None
        }
    }
}

} // verus!
