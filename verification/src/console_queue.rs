//! The console driver's own simple virtqueue: descriptors are handed out
//! round robin and published on the available ring; the device reports
//! finished buffers on the used ring.
use vstd::prelude::*;
use crate::console::DriverError;

verus! {

/// Entries of the available and used rings (the largest queue).
pub const RING_ENTRIES: usize = 256;

/// A descriptor: a buffer's address, length and flags, and the next
/// descriptor of its chain.
#[derive(Debug, Clone, Copy, PartialEq, Eq, Structural)]
pub struct QueueDesc {
    pub addr: u64,
    pub len: u32,
    pub flags: u16,
    pub next: u16,
}

/// The abstract state of a console queue.
pub struct ConsoleQueueView {
    pub index: u16,
    pub size: u16,
    pub descs: Seq<QueueDesc>,
    pub avail_idx: u16,
    pub avail_ring: Seq<u16>,
    pub next_desc: u16,
    pub last_used_idx: u16,
}

/// The descriptor table of a fresh queue of `size` entries: empty
/// descriptors, each chained to the next and the last to the first.
pub open spec fn fresh_descs(size: u16) -> Seq<QueueDesc> {
    Seq::new(size as nat, |i: int| QueueDesc { addr: 0, len: 0, flags: 0, next: ((i + 1) % (size as int)) as u16 })
}

/// The console's virtqueue.
pub struct ConsoleQueue {
    index: u16,
    size: u16,
    descs: Vec<QueueDesc>,
    avail_idx: u16,
    avail_ring: Vec<u16>,
    next_desc: u16,
    last_used_idx: u16,
}

impl View for ConsoleQueue {
    type V = ConsoleQueueView;

    closed spec fn view(&self) -> ConsoleQueueView {
        ConsoleQueueView {
            index: self.index,
            size: self.size,
            descs: self.descs@,
            avail_idx: self.avail_idx,
            avail_ring: self.avail_ring@,
            next_desc: self.next_desc,
            last_used_idx: self.last_used_idx,
        }
    }
}

/// A queue's shape: one descriptor per entry, a full available ring, at
/// most 256 entries.
pub open spec fn queue_wf(v: ConsoleQueueView) -> bool {
    &&& v.descs.len() == v.size
    &&& v.avail_ring.len() == RING_ENTRIES
    &&& v.size <= RING_ENTRIES
}

impl ConsoleQueue {
    /// A queue of `size` entries (at most 256): fresh descriptors, empty
    /// rings, nothing handed out or seen.
    pub fn new(index: u16, size: u16) -> (q: Self)
        requires
            size <= RING_ENTRIES,
        ensures
            q@ == (ConsoleQueueView {
                index,
                size,
                descs: fresh_descs(size),
                avail_idx: 0,
                avail_ring: Seq::new(RING_ENTRIES as nat, |i: int| 0u16),
                next_desc: 0,
                last_used_idx: 0,
            }),
            queue_wf(q@),
    {
        let mut descs: Vec<QueueDesc> = Vec::new();
        let mut i: u16 = 0;
        while i < size
            invariant
                i <= size,
                descs@ == fresh_descs(size).subrange(0, i as int),
            decreases size - i,
        {
            descs.push(QueueDesc { addr: 0, len: 0, flags: 0, next: (i + 1) % size });
            i = i + 1;
            assert(descs@ =~= fresh_descs(size).subrange(0, i as int));
        }
        let avail_ring = vec![0u16; RING_ENTRIES];
        assert(avail_ring@ =~= Seq::new(RING_ENTRIES as nat, |i: int| 0u16));
        assert(descs@ =~= fresh_descs(size));
        ConsoleQueue { index, size, descs, avail_idx: 0, avail_ring, next_desc: 0, last_used_idx: 0 }
    }

    /// Hand the buffer at `addr` of `len` bytes to the device: it goes into
    /// the next descriptor, whose number is published on the available ring;
    /// the available index and the next descriptor move on (round robin).
    /// `ResourceError` when the queue has no descriptors.
    pub fn add_buffer(&mut self, addr: u64, len: u32, flags: u16) -> (r: Result<(), DriverError>)
        requires
            queue_wf(old(self)@),
        ensures
            queue_wf(final(self)@),
            old(self)@.next_desc >= old(self)@.size ==> r == Err::<(), DriverError>(
                DriverError::ResourceError,
            ) && final(self)@ == old(self)@,
            old(self)@.next_desc < old(self)@.size ==> {
                let v = old(self)@;
                let d = v.next_desc;
                &&& r is Ok
                &&& final(self)@ == (ConsoleQueueView {
                    descs: v.descs.update(d as int, QueueDesc { addr, len, flags, ..v.descs[d as int] }),
                    avail_ring: v.avail_ring.update((v.avail_idx % v.size) as int, d),
                    avail_idx: ((v.avail_idx + 1) % 0x1_0000) as u16,
                    next_desc: ((d + 1) % (v.size as int)) as u16,
                    ..v
                })
            },
    {
        if self.next_desc >= self.size {
            return Err(DriverError::ResourceError);
        }
        let desc_idx = self.next_desc;
        let mut d = self.descs[desc_idx as usize];
        d.addr = addr;
        d.len = len;
        d.flags = flags;
        self.descs.set(desc_idx as usize, d);
        let slot = (self.avail_idx % self.size) as usize;
        self.avail_ring.set(slot, desc_idx);
        self.avail_idx = self.avail_idx.wrapping_add(1);
        self.next_desc = (self.next_desc + 1) % self.size;
        Ok(())
    }

    /// The next buffer the device finished, given the device's used index
    /// `used_idx` and its used ring: `None` when everything up to that index
    /// was seen, otherwise the ring entry (descriptor id, bytes written) at
    /// the last seen index, which then moves on.
    pub fn get_used_buffer(&mut self, used_idx: u16, used_ring: &[(u32, u32)]) -> (r: Option<(u32, u32)>)
        requires
            queue_wf(old(self)@),
            old(self)@.last_used_idx != used_idx ==> old(self)@.size > 0,
            used_ring@.len() == RING_ENTRIES,
        ensures
            queue_wf(final(self)@),
            old(self)@.last_used_idx == used_idx ==> r is None && final(self)@ == old(self)@,
            old(self)@.last_used_idx != used_idx ==> {
                let v = old(self)@;
                &&& r == Some(used_ring@[(v.last_used_idx % v.size) as int])
                &&& final(self)@ == (ConsoleQueueView {
                    last_used_idx: ((v.last_used_idx + 1) % 0x1_0000) as u16,
                    ..v
                })
            },
    {
        if self.last_used_idx == used_idx {
            return None;
        }
        let elem = used_ring[(self.last_used_idx % self.size) as usize];
        self.last_used_idx = self.last_used_idx.wrapping_add(1);
        Some(elem)
    }
}

} // verus!
