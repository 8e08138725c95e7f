//! The vsock device: what it offers the driver, its configuration space, and
//! how it handles an event on one of its queues.
use vstd::prelude::*;

use crate::event::EventLoop;
use crate::thread::VhostUserVsockThread;
use crate::{Error, NUM_QUEUES, QUEUE_SIZE};

verus! {

/// Device configuration space of a virtio-vsock device.
#[allow(non_camel_case_types)]
#[derive(Debug, Default, Copy, Clone, PartialEq, Eq, Structural)]
pub struct virtio_vsock_config {
    pub guest_cid: u64,
}

/// Little-endian encoding of a 64-bit value, byte by byte.
pub open spec fn le_byte(v: u64, i: int) -> u8 {
    ((v >> ((8 * i) as u64)) & 0xff) as u8
}

/// The number that eight bytes denote, least significant first.
pub open spec fn le_value(b: Seq<u8>) -> int {
    b[0] as int + b[1] as int * 0x100 + b[2] as int * 0x1_0000 + b[3] as int * 0x100_0000
        + b[4] as int * 0x1_0000_0000 + b[5] as int * 0x100_0000_0000 + b[6] as int
        * 0x1_0000_0000_0000 + b[7] as int * 0x100_0000_0000_0000
}

/// The little-endian bytes of `v` give back `v` when read least significant first.
proof fn lemma_le_bytes_give_value(bytes: Seq<u8>, guest_cid: u64)
    requires
        bytes.len() == 8,
        forall|i: int| 0 <= i < 8 ==> bytes[i] == le_byte(guest_cid, i),
    ensures
        le_value(bytes) == guest_cid,
{
    let v = guest_cid;
    let b0 = le_byte(v, 0);
    let b1 = le_byte(v, 1);
    let b2 = le_byte(v, 2);
    let b3 = le_byte(v, 3);
    let b4 = le_byte(v, 4);
    let b5 = le_byte(v, 5);
    let b6 = le_byte(v, 6);
    let b7 = le_byte(v, 7);
    assert(bytes[0] == b0 && bytes[1] == b1 && bytes[2] == b2 && bytes[3] == b3);
    assert(bytes[4] == b4 && bytes[5] == b5 && bytes[6] == b6 && bytes[7] == b7);
    assert(b0 == ((v >> 0u64) & 0xff) as u8);
    assert(b1 == ((v >> 8u64) & 0xff) as u8);
    assert(b2 == ((v >> 16u64) & 0xff) as u8);
    assert(b3 == ((v >> 24u64) & 0xff) as u8);
    assert(b4 == ((v >> 32u64) & 0xff) as u8);
    assert(b5 == ((v >> 40u64) & 0xff) as u8);
    assert(b6 == ((v >> 48u64) & 0xff) as u8);
    assert(b7 == ((v >> 56u64) & 0xff) as u8);
    assert(v == ((v >> 0u64) & 0xff) as u8 as int + ((v >> 8u64) & 0xff) as u8 as int * 0x100
        + ((v >> 16u64) & 0xff) as u8 as int * 0x1_0000 + ((v >> 24u64) & 0xff) as u8 as int
        * 0x100_0000 + ((v >> 32u64) & 0xff) as u8 as int * 0x1_0000_0000 + ((v >> 40u64) & 0xff)
        as u8 as int * 0x100_0000_0000 + ((v >> 48u64) & 0xff) as u8 as int * 0x1_0000_0000_0000
        + ((v >> 56u64) & 0xff) as u8 as int * 0x100_0000_0000_0000) by (bit_vector);
}

/// The eight bytes of `v`, least significant first.
pub open spec fn le_bytes(v: u64) -> Seq<u8> {
    Seq::new(8, |i: int| le_byte(v, i))
}

/// The eight bytes of `v`, most significant first.
pub open spec fn be_bytes(v: u64) -> Seq<u8> {
    le_bytes(v).reverse()
}

/// Whether `b` is `v` in one of the two byte orders that a host can have.
pub open spec fn host_order_bytes(b: Seq<u8>, v: u64) -> bool {
    b == le_bytes(v) || b == be_bytes(v)
}

/// The configuration space gives back the guest CID: its bytes, read in the
/// byte order they were written in, denote the CID.
pub proof fn lemma_config_bytes_give_guest_cid(bytes: Seq<u8>, guest_cid: u64)
    requires
        host_order_bytes(bytes, guest_cid),
    ensures
        bytes == le_bytes(guest_cid) ==> le_value(bytes) == guest_cid,
        bytes == be_bytes(guest_cid) ==> le_value(bytes.reverse()) == guest_cid,
{
    let le = le_bytes(guest_cid);
    lemma_le_bytes_give_value(le, guest_cid);
    assert(be_bytes(guest_cid).reverse() =~= le);
}

/// The bytes of `v` in the host's byte order (`u64::to_ne_bytes`): the
/// little-endian bytes on a little-endian host, the big-endian bytes on a
/// big-endian one. Which of the two is the host's is left unsaid.
#[verifier::external_body]
fn u64_to_ne_bytes(v: u64) -> (b: [u8; 8])
    ensures
        host_order_bytes(b@, v),
{
    v.to_ne_bytes()
}

impl virtio_vsock_config {
    /// The bytes of the configuration space as they lie in memory: the guest
    /// CID in the host's byte order.
    pub fn to_bytes(&self) -> (bytes: Vec<u8>)
        ensures
            host_order_bytes(bytes@, self.guest_cid),
    {
        let raw = u64_to_ne_bytes(self.guest_cid);
        let mut bytes: Vec<u8> = Vec::new();
        let mut i: usize = 0;
        while i < 8
            invariant
                0 <= i <= 8,
                raw@.len() == 8,
                bytes@ == raw@.take(i as int),
            decreases 8 - i,
        {
            bytes.push(raw[i]);
            assert(raw@.take(i + 1) =~= raw@.take(i as int).push(raw@[i as int]));
            i = i + 1;
        }
        assert(raw@.take(8) =~= raw@);
        bytes
    }
}

/// The feature bit `VIRTIO_F_VERSION_1` of `virtio_bindings::virtio_config`
/// (32 in that crate's bindings).
#[verifier::external_body]
fn virtio_f_version_1() -> (bit: u32)
    ensures
        bit == 32,
{
    virtio_bindings::virtio_config::VIRTIO_F_VERSION_1
}

/// The feature bit `VIRTIO_F_NOTIFY_ON_EMPTY` of `virtio_bindings::virtio_config`
/// (24 in that crate's bindings).
#[verifier::external_body]
fn virtio_f_notify_on_empty() -> (bit: u32)
    ensures
        bit == 24,
{
    virtio_bindings::virtio_config::VIRTIO_F_NOTIFY_ON_EMPTY
}

/// The feature bit `VIRTIO_RING_F_EVENT_IDX` of `virtio_bindings::virtio_ring`
/// (29 in that crate's bindings).
#[verifier::external_body]
fn virtio_ring_f_event_idx() -> (bit: u32)
    ensures
        bit == 29,
{
    virtio_bindings::virtio_ring::VIRTIO_RING_F_EVENT_IDX
}

/// The bits of `vhost::vhost_user::VhostUserVirtioFeatures::PROTOCOL_FEATURES`
/// (`0x4000_0000` in that crate's `bitflags!` declaration).
#[verifier::external_body]
fn protocol_features_bits() -> (bits: u64)
    ensures
        bits == 0x4000_0000,
{
    vhost::vhost_user::VhostUserVirtioFeatures::PROTOCOL_FEATURES.bits()
}

/// The bits of `vhost::vhost_user::VhostUserProtocolFeatures::CONFIG`
/// (`0x0000_0200` in that crate's `bitflags!` declaration).
#[verifier::external_body]
fn protocol_config_bits() -> (bits: u64)
    ensures
        bits == 0x200,
{
    vhost::vhost_user::VhostUserProtocolFeatures::CONFIG.bits()
}

/// The virtio features that the device offers: `VIRTIO_F_VERSION_1` (bit 32),
/// `VIRTIO_F_NOTIFY_ON_EMPTY` (bit 24), `VIRTIO_RING_F_EVENT_IDX` (bit 29) and
/// the vhost-user `PROTOCOL_FEATURES` flag (bit 30).
pub open spec fn device_features() -> u64 {
    0x1_6100_0000
}

/// The vhost-user protocol features that the device offers: `CONFIG` alone.
pub open spec fn device_protocol_features() -> u64 {
    0x200
}

/// Which queues thread 0 serves: both the RX and the TX queue.
pub open spec fn queue_mask() -> u64 {
    0b11
}

/// The bits of all the masks `masks` together.
pub open spec fn or_all(masks: Seq<u64>) -> u64
    decreases masks.len(),
{
    if masks.len() == 0 {
        0
    } else {
        or_all(masks.drop_last()) | masks.last()
    }
}

/// Whether the queue masks `masks`, one per thread, give each of the
/// `num_queues` queues to exactly one thread: no two masks share a queue, and
/// together they cover every queue and nothing else.
pub open spec fn serves_each_queue_once(masks: Seq<u64>, num_queues: u64) -> bool {
    &&& forall|i: int, j: int| 0 <= i < j < masks.len() ==> #[trigger] masks[i] & #[trigger] masks[j] == 0
    &&& or_all(masks) + 1 == 1u64 << num_queues
}

/// The vsock device with its worker threads.
pub struct VhostUserVsockBackend {
    threads: Vec<VhostUserVsockThread>,
    config: virtio_vsock_config,
    queues_per_thread: Vec<u64>,
}

/// The one mask `0b11` gives each of the two queues to its thread.
pub proof fn lemma_single_mask_serves_both_queues()
    ensures
        serves_each_queue_once(seq![queue_mask()], NUM_QUEUES as u64),
{
    let m = seq![queue_mask()];
    assert(m.drop_last() =~= Seq::<u64>::empty());
    assert(0u64 | 3u64 == 3u64) by (bit_vector);
    assert(1u64 << 2u64 == 4u64) by (bit_vector);
    assert(or_all(Seq::<u64>::empty()) == 0u64);
    assert(m.last() == 3u64);
    assert(or_all(m) == or_all(m.drop_last()) | m.last());
    assert(or_all(m) == 3u64);
}

impl VhostUserVsockBackend {
    /// One thread, which serves both queues.
    #[verifier::type_invariant]
    closed spec fn queues_well_assigned(self) -> bool {
        &&& self.threads@.len() == 1
        &&& self.queues_per_thread@ == seq![queue_mask()]
    }

    pub closed spec fn spec_threads(&self) -> Seq<VhostUserVsockThread> {
        self.threads@
    }

    pub closed spec fn spec_config(&self) -> virtio_vsock_config {
        self.config
    }

    pub closed spec fn spec_queues_per_thread(&self) -> Seq<u64> {
        self.queues_per_thread@
    }

    /// A device for the guest CID `guest_cid`, with `thread` as its one worker
    /// thread, which serves both queues.
    pub fn new(guest_cid: u32, thread: VhostUserVsockThread) -> (b: Self)
        ensures
            b.spec_config().guest_cid == guest_cid,
            b.spec_threads() == seq![thread],
            b.spec_queues_per_thread() == seq![queue_mask()],
    {
        let config = virtio_vsock_config { guest_cid: guest_cid as u64 };
        let mut queues_per_thread: Vec<u64> = Vec::new();
        let mut threads: Vec<VhostUserVsockThread> = Vec::new();
        threads.push(thread);
        queues_per_thread.push(0b11);
        assert(threads@ =~= seq![thread]);
        assert(queues_per_thread@ =~= seq![queue_mask()]);
        VhostUserVsockBackend { threads, config, queues_per_thread }
    }

    /// The state of thread `i`.
    pub fn thread(&self, i: usize) -> (t: VhostUserVsockThread)
        requires
            i < self.spec_threads().len(),
        ensures
            t == self.spec_threads()[i as int],
    {
        self.threads[i]
    }

    /// The number of worker threads.
    pub fn num_threads(&self) -> (n: usize)
        ensures
            n == self.spec_threads().len(),
    {
        self.threads.len()
    }

    /// The configuration space.
    pub fn config(&self) -> (c: virtio_vsock_config)
        ensures
            c == self.spec_config(),
    {
        self.config
    }

    /// The number of queues: 2.
    pub fn num_queues(&self) -> (n: usize)
        ensures
            n == NUM_QUEUES,
    {
        NUM_QUEUES
    }

    /// For each thread, the mask of the queues that it serves.
    pub fn queues_per_thread(&self) -> (q: Vec<u64>)
        ensures
            q@ == self.spec_queues_per_thread(),
            q@ == seq![queue_mask()],
            q@.len() == self.spec_threads().len(),
            serves_each_queue_once(q@, NUM_QUEUES as u64),
    {
        proof {
            use_type_invariant(self);
            lemma_single_mask_serves_both_queues();
        }
        let mut q: Vec<u64> = Vec::new();
        let mut i: usize = 0;
        while i < self.queues_per_thread.len()
            invariant
                i <= self.queues_per_thread@.len(),
                q@ == self.queues_per_thread@.take(i as int),
            decreases self.queues_per_thread@.len() - i,
        {
            q.push(self.queues_per_thread[i]);
            assert(self.queues_per_thread@.take(i + 1) =~= self.queues_per_thread@.take(
                i as int,
            ).push(self.queues_per_thread@[i as int]));
            i = i + 1;
        }
        assert(self.queues_per_thread@.take(i as int) =~= self.queues_per_thread@);
        q
    }

    /// The largest queue size: 128.
    pub fn max_queue_size(&self) -> (n: usize)
        ensures
            n == QUEUE_SIZE,
    {
        QUEUE_SIZE
    }

    /// The virtio features that the device offers.
    pub fn features(&self) -> (f: u64)
        ensures
            f == device_features(),
    {
        let version_1 = virtio_f_version_1() as u64;
        let notify_on_empty = virtio_f_notify_on_empty() as u64;
        let event_idx = virtio_ring_f_event_idx() as u64;
        let protocol = protocol_features_bits();
        let f = 1u64 << version_1 | 1u64 << notify_on_empty | 1u64 << event_idx | protocol;
        assert(1u64 << 32u64 | 1u64 << 24u64 | 1u64 << 29u64 | 0x4000_0000u64 == 0x1_6100_0000u64)
            by (bit_vector);
        f
    }

    /// The vhost-user protocol features that the device offers.
    pub fn protocol_features(&self) -> (f: u64)
        ensures
            f == device_protocol_features(),
    {
        protocol_config_bits()
    }

    /// Records on every thread whether the driver negotiated the event index.
    pub fn set_event_idx(&mut self, enabled: bool)
        ensures
            final(self).spec_threads().len() == old(self).spec_threads().len(),
            forall|i: int|
                0 <= i < final(self).spec_threads().len() ==> #[trigger] final(self).spec_threads()[i]
                    == (VhostUserVsockThread { event_idx: enabled, ..old(self).spec_threads()[i] }),
            final(self).spec_config() == old(self).spec_config(),
            final(self).spec_queues_per_thread() == old(self).spec_queues_per_thread(),
    {
        proof {
            use_type_invariant(&*self);
        }
        let mut threads: Vec<VhostUserVsockThread> = Vec::new();
        let mut i: usize = 0;
        while i < self.threads.len()
            invariant
                i <= self.threads@.len(),
                self.threads@ == old(self).spec_threads(),
                threads@.len() == i,
                forall|k: int|
                    0 <= k < i ==> #[trigger] threads@[k] == (VhostUserVsockThread {
                        event_idx: enabled,
                        ..old(self).spec_threads()[k]
                    }),
            decreases self.threads@.len() - i,
        {
            let mut t = self.threads[i];
            t.event_idx = enabled;
            threads.push(t);
            i = i + 1;
        }
        self.threads = threads;
    }

    /// Hands the guest memory to every thread.
    pub fn update_memory(&mut self)
        ensures
            final(self).spec_threads().len() == old(self).spec_threads().len(),
            forall|i: int|
                0 <= i < final(self).spec_threads().len() ==> #[trigger] final(self).spec_threads()[i]
                    == (VhostUserVsockThread { has_mem: true, ..old(self).spec_threads()[i] }),
            final(self).spec_config() == old(self).spec_config(),
            final(self).spec_queues_per_thread() == old(self).spec_queues_per_thread(),
    {
        proof {
            use_type_invariant(&*self);
        }
        let mut threads: Vec<VhostUserVsockThread> = Vec::new();
        let mut i: usize = 0;
        while i < self.threads.len()
            invariant
                i <= self.threads@.len(),
                self.threads@ == old(self).spec_threads(),
                threads@.len() == i,
                forall|k: int|
                    0 <= k < i ==> #[trigger] threads@[k] == (VhostUserVsockThread {
                        has_mem: true,
                        ..old(self).spec_threads()[k]
                    }),
            decreases self.threads@.len() - i,
        {
            let mut t = self.threads[i];
            t.has_mem = true;
            threads.push(t);
            i = i + 1;
        }
        self.threads = threads;
    }

    /// The configuration space as it lies in memory: the guest CID as eight
    /// bytes in the host's byte order, whatever offset and size are asked for.
    pub fn get_config(&self, offset: u32, size: u32) -> (bytes: Vec<u8>)
        ensures
            host_order_bytes(bytes@, self.spec_config().guest_cid),
    {
        self.config.to_bytes()
    }

    /// The exit event of thread `thread_index`: it comes after the two queue
    /// events and the backend event, as event index 4.
    pub fn exit_event(&self, thread_index: usize) -> (e: Option<u16>)
        requires
            thread_index < self.spec_threads().len(),
        ensures
            e == Some(4u16),
    {
        Some(4)
    }

    /// Starts handling `device_event` with the event set `evset` on thread
    /// `thread_id`, with that thread's event index.
    pub fn handle_event(&self, device_event: u16, evset: u32, thread_id: usize) -> (r: Result<
        EventLoop,
        Error,
    >)
        requires
            evset == 1 ==> thread_id < self.spec_threads().len(),
        ensures
            evset != 1 ==> r matches Err(Error::HandleEventNotEpollIn),
            evset == 1 && !crate::event::known_event(device_event) ==> r matches Err(
                Error::HandleEventUnknownEvent,
            ),
            evset == 1 && crate::event::known_event(device_event) ==> (r matches Ok(h)
                && h.spec_device_event() == device_event && h.spec_event_idx()
                == self.spec_threads()[thread_id as int].event_idx && (h.spec_action(), h.spec_work())
                == EventLoop::round_start(device_event, self.spec_threads()[thread_id as int].event_idx)),
    {
        if !EventLoop::accepts_event_set(evset) {
            return Err(Error::HandleEventNotEpollIn);
        }
        let event_idx = self.threads[thread_id].event_idx;
        EventLoop::start(device_event, evset, event_idx)
    }

    /// Attaches a vring worker to thread `thread_index`; returns the data under
    /// which the vsock backend's file descriptor is to be registered with it.
    pub fn set_vring_worker(&mut self, thread_index: usize) -> (data: u64)
        requires
            thread_index < old(self).spec_threads().len(),
        ensures
            data == crate::BACKEND_EVENT as u64,
            final(self).spec_threads() == old(self).spec_threads().update(
                thread_index as int,
                VhostUserVsockThread { has_vring_worker: true, ..old(self).spec_threads()[thread_index as int] },
            ),
            final(self).spec_config() == old(self).spec_config(),
            final(self).spec_queues_per_thread() == old(self).spec_queues_per_thread(),
    {
        proof {
            use_type_invariant(&*self);
        }
        let mut t = self.threads[thread_index];
        let data = t.set_vring_worker();
        let mut threads: Vec<VhostUserVsockThread> = Vec::new();
        let mut i: usize = 0;
        while i < self.threads.len()
            invariant
                i <= self.threads@.len(),
                self.threads@ == old(self).spec_threads(),
                thread_index < self.threads@.len(),
                threads@ == old(self).spec_threads().update(thread_index as int, t).take(i as int),
            decreases self.threads@.len() - i,
        {
            if i == thread_index {
                threads.push(t);
            } else {
                threads.push(self.threads[i]);
            }
            assert(old(self).spec_threads().update(thread_index as int, t).take(i + 1)
                =~= old(self).spec_threads().update(thread_index as int, t).take(i as int).push(
                threads@[i as int],
            ));
            i = i + 1;
        }
        assert(threads@ =~= old(self).spec_threads().update(thread_index as int, t));
        self.threads = threads;
        data
    }

    /// Whether `workers` vring workers fit the threads: one for each.
    pub fn accepts_vring_workers(&self, workers: usize) -> (ok: bool)
        ensures
            ok == (workers == self.spec_threads().len()),
    {
        workers == self.threads.len()
    }
}

} // verus!
