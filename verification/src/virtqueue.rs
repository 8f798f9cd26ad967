//! Split virtqueue (descriptor table, available ring, used ring) for VirtIO 1.0+.
//!
//! The queue keeps an image of the memory it shares with the device: the
//! descriptor table, the available ring with its index, and the used ring with
//! its index. The driver side (`add_buf`, `get_used_buf`, the free list) is
//! verified against that image; `device_complete` writes the used ring the way
//! the device does.
use vstd::prelude::*;
use crate::error::Errno;

verus! {

/// Descriptor continues via the `next` field.
pub const VIRTQ_DESC_F_NEXT: u16 = 1;
/// The device writes into the buffer (as opposed to reading it).
pub const VIRTQ_DESC_F_WRITE: u16 = 2;
/// The buffer holds a list of descriptors.
pub const VIRTQ_DESC_F_INDIRECT: u16 = 4;

/// Largest queue size that the VirtIO specification allows.
pub const VIRTQ_MAX_SIZE: u16 = 32768;

/// One entry of the descriptor table.
#[derive(Debug, Clone, Copy, PartialEq, Eq, Structural)]
pub struct VirtqDesc {
    /// Buffer address (guest physical).
    pub addr: u64,
    /// Buffer length.
    pub len: u32,
    /// Descriptor flags.
    pub flags: u16,
    /// Next descriptor index (if `flags & VIRTQ_DESC_F_NEXT`).
    pub next: u16,
}

/// One buffer handed to `add_buf`: address, length, and whether the device writes it.
pub type BufferSpec = (u64, u32, bool);

/// A zeroed descriptor.
pub open spec fn zero_desc() -> VirtqDesc {
    VirtqDesc { addr: 0, len: 0, flags: 0, next: 0 }
}

/// Whether `n` is a power of two (1, 2, 4, ...).
pub open spec fn is_pow2(n: int) -> bool
    decreases n,
{
    if n <= 0 {
        false
    } else if n == 1 {
        true
    } else {
        n % 2 == 0 && is_pow2(n / 2)
    }
}

/// Whether a descriptor links to a further descriptor.
pub open spec fn has_next(d: VirtqDesc) -> bool {
    d.flags & VIRTQ_DESC_F_NEXT != 0
}

/// The descriptor indices visited when a chain is walked from `start`, if the
/// walk stops (at a descriptor without `NEXT`) within `fuel` steps.
pub open spec fn chain(descs: Seq<VirtqDesc>, start: int, fuel: nat) -> Option<Seq<u16>>
    decreases fuel,
{
    if fuel == 0 || !(0 <= start < descs.len()) {
        None
    } else if !has_next(descs[start]) {
        Some(seq![start as u16])
    } else {
        match chain(descs, descs[start].next as int, (fuel - 1) as nat) {
            Some(rest) => Some(seq![start as u16] + rest),
            None => None,
        }
    }
}

/// The free list after `free_desc(index)`.
pub open spec fn free_after_release(free: Seq<u16>, size: int, index: u16) -> Seq<u16> {
    if index < size {
        free.push(index)
    } else {
        free
    }
}

/// What `alloc_desc` returns, given the free list.
pub open spec fn alloc_result(free: Seq<u16>) -> Option<u16> {
    if free.len() == 0 {
        None
    } else {
        Some(free.last())
    }
}

/// The free list after `alloc_desc`.
pub open spec fn free_after_alloc(free: Seq<u16>) -> Seq<u16> {
    if free.len() == 0 {
        free
    } else {
        free.drop_last()
    }
}

/// The `n` descriptors that `n` successive allocations hand out, in order.
pub open spec fn popped(free: Seq<u16>, n: nat) -> Seq<u16> {
    Seq::new(n, |k: int| free[free.len() - 1 - k])
}

/// Base flags of a buffer: `WRITE` when the device writes it.
pub open spec fn base_flags(writeable: bool) -> u16 {
    if writeable {
        VIRTQ_DESC_F_WRITE
    } else {
        0u16
    }
}

/// The descriptor that `add_buf` writes for the `k`-th buffer of a chain on `idxs`.
pub open spec fn chain_desc(bufs: Seq<BufferSpec>, idxs: Seq<u16>, k: int) -> VirtqDesc {
    let last = k + 1 >= idxs.len();
    VirtqDesc {
        addr: bufs[k].0,
        len: bufs[k].1,
        flags: if last {
            base_flags(bufs[k].2)
        } else {
            base_flags(bufs[k].2) | VIRTQ_DESC_F_NEXT
        },
        next: if last {
            0u16
        } else {
            idxs[k + 1]
        },
    }
}

/// The descriptor table after the first `k` descriptors of a chain are written, in order.
pub open spec fn fill_chain(
    descs: Seq<VirtqDesc>,
    bufs: Seq<BufferSpec>,
    idxs: Seq<u16>,
    k: nat,
) -> Seq<VirtqDesc>
    decreases k,
{
    if k == 0 {
        descs
    } else {
        fill_chain(descs, bufs, idxs, (k - 1) as nat).update(
            idxs[k - 1] as int,
            chain_desc(bufs, idxs, k - 1),
        )
    }
}

/// A split virtqueue.
pub struct VirtQueue {
    /// Queue index.
    pub index: u16,
    /// Queue size (a power of two).
    pub size: u16,
    desc_base: u64,
    avail_base: u64,
    used_base: u64,
    desc_table: Vec<VirtqDesc>,
    avail_ring: Vec<u16>,
    used_ring: Vec<(u32, u32)>,
    used_idx: u16,
    last_used_idx: u16,
    avail_idx_shadow: u16,
    free_list: Vec<u16>,
}

impl VirtQueue {
    /// Well-formedness: the rings have `size` slots, every free descriptor and
    /// every `next` link is a valid index.
    pub closed spec fn wf(&self) -> bool {
        &&& is_pow2(self.size as int)
        &&& self.size <= VIRTQ_MAX_SIZE
        &&& self.desc_table@.len() == self.size
        &&& self.avail_ring@.len() == self.size
        &&& self.used_ring@.len() == self.size
        &&& forall|i: int| 0 <= i < self.free_list@.len() ==> #[trigger] self.free_list@[i] < self.size
        &&& forall|i: int|
            0 <= i < self.desc_table@.len() ==> #[trigger] self.desc_table@[i].next < self.size
    }

    /// The queue index.
    pub closed spec fn index_view(&self) -> u16 {
        self.index
    }

    /// The queue size.
    pub closed spec fn size_view(&self) -> u16 {
        self.size
    }

    /// The free descriptor list; the last element is handed out next.
    pub closed spec fn free_view(&self) -> Seq<u16> {
        self.free_list@
    }

    /// The descriptor table.
    pub closed spec fn descs(&self) -> Seq<VirtqDesc> {
        self.desc_table@
    }

    /// The ring of the available ring.
    pub closed spec fn avail_view(&self) -> Seq<u16> {
        self.avail_ring@
    }

    /// The index of the available ring.
    pub closed spec fn avail_idx_view(&self) -> u16 {
        self.avail_idx_shadow
    }

    /// The elements `(id, len)` of the used ring.
    pub closed spec fn used_view(&self) -> Seq<(u32, u32)> {
        self.used_ring@
    }

    /// The index of the used ring, as the device last wrote it.
    pub closed spec fn used_idx_view(&self) -> u16 {
        self.used_idx
    }

    /// The used index up to which the driver has consumed elements.
    pub closed spec fn last_used_view(&self) -> u16 {
        self.last_used_idx
    }

    /// The three guest-physical base addresses: descriptor table, available ring, used ring.
    pub closed spec fn addrs(&self) -> (u64, u64, u64) {
        (self.desc_base, self.avail_base, self.used_base)
    }

    /// Create a queue of `size` descriptors whose three areas live at the given
    /// guest-physical addresses. The areas start zeroed and every descriptor is
    /// free. `size` must be a power of two no larger than 32768.
    pub fn new(index: u16, size: u16, desc_phys: u64, avail_phys: u64, used_phys: u64) -> (res:
        Result<Self, Errno>)
        ensures
            res is Err <==> !(is_pow2(size as int) && size <= VIRTQ_MAX_SIZE),
            res is Err ==> res->Err_0 == Errno::EINVAL,
            res matches Ok(q) ==> {
                &&& q.wf()
                &&& q.index_view() == index
                &&& q.size_view() == size
                &&& q.addrs() == (desc_phys, avail_phys, used_phys)
                &&& q.free_view() == Seq::new(size as nat, |i: int| i as u16)
                &&& q.descs() == Seq::new(size as nat, |i: int| zero_desc())
                &&& q.avail_view() == Seq::new(size as nat, |i: int| 0u16)
                &&& q.avail_idx_view() == 0
                &&& q.used_view() == Seq::new(size as nat, |i: int| (0u32, 0u32))
                &&& q.used_idx_view() == 0
                &&& q.last_used_view() == 0
            },
    {
        if !is_power_of_two(size) || size > VIRTQ_MAX_SIZE {
            return Err(Errno::EINVAL);
        }
        let mut free_list: Vec<u16> = Vec::new();
        let mut desc_table: Vec<VirtqDesc> = Vec::new();
        let mut avail_ring: Vec<u16> = Vec::new();
        let mut used_ring: Vec<(u32, u32)> = Vec::new();
        let mut i: u16 = 0;
        while i < size
            invariant
                i <= size,
                free_list@ == Seq::new(i as nat, |k: int| k as u16),
                desc_table@ == Seq::new(i as nat, |k: int| zero_desc()),
                avail_ring@ == Seq::new(i as nat, |k: int| 0u16),
                used_ring@ == Seq::new(i as nat, |k: int| (0u32, 0u32)),
            decreases size - i,
        {
            free_list.push(i);
            desc_table.push(VirtqDesc { addr: 0, len: 0, flags: 0, next: 0 });
            avail_ring.push(0);
            used_ring.push((0, 0));
            i = i + 1;
        }
        Ok(VirtQueue {
            index,
            size,
            desc_base: desc_phys,
            avail_base: avail_phys,
            used_base: used_phys,
            desc_table,
            avail_ring,
            used_ring,
            used_idx: 0,
            last_used_idx: 0,
            avail_idx_shadow: 0,
            free_list,
        })
    }

    /// Descriptor table physical address.
    pub fn desc_table_addr(&self) -> (r: u64)
        ensures
            r == self.addrs().0,
    {
        self.desc_base
    }

    /// Available ring physical address.
    pub fn avail_ring_addr(&self) -> (r: u64)
        ensures
            r == self.addrs().1,
    {
        self.avail_base
    }

    /// Used ring physical address.
    pub fn used_ring_addr(&self) -> (r: u64)
        ensures
            r == self.addrs().2,
    {
        self.used_base
    }

    /// All queue addresses (descriptor table, available ring, used ring).
    pub fn get_addresses(&self) -> (r: (u64, u64, u64))
        ensures
            r == self.addrs(),
    {
        (self.desc_table_addr(), self.avail_ring_addr(), self.used_ring_addr())
    }

    /// Allocate a descriptor from the free list (the most recently freed one).
    pub fn alloc_desc(&mut self) -> (r: Option<u16>)
        requires
            old(self).wf(),
        ensures
            final(self).wf(),
            r == alloc_result(old(self).free_view()),
            final(self).free_view() == free_after_alloc(old(self).free_view()),
            r matches Some(i) ==> i < old(self).size_view(),
            final(self).same_except_free(*old(self)),
    {
        let r = self.free_list.pop();
        proof {
            if self.free_list@.len() > 0 {
                assert(self.free_list@ =~= old(self).free_list@.drop_last());
            }
        }
        r
    }

    /// Everything but the free list is unchanged.
    pub closed spec fn same_except_free(&self, other: Self) -> bool {
        &&& self.index_view() == other.index_view()
        &&& self.size_view() == other.size_view()
        &&& self.addrs() == other.addrs()
        &&& self.descs() == other.descs()
        &&& self.avail_view() == other.avail_view()
        &&& self.avail_idx_view() == other.avail_idx_view()
        &&& self.used_view() == other.used_view()
        &&& self.used_idx_view() == other.used_idx_view()
        &&& self.last_used_view() == other.last_used_view()
    }

    /// Return a descriptor to the free list; indices outside the queue are ignored.
    pub fn free_desc(&mut self, index: u16)
        requires
            old(self).wf(),
        ensures
            final(self).wf(),
            final(self).free_view() == free_after_release(
                old(self).free_view(),
                old(self).size_view() as int,
                index,
            ),
            final(self).same_except_free(*old(self)),
    {
        if index < self.size {
            self.free_list.push(index);
        }
    }

    /// Add a chain of buffers to the queue and publish its head in the available ring.
    ///
    /// Returns the index of the first descriptor of the chain. An empty list is
    /// `EINVAL`; too few free descriptors is `ENOSPC`, after which the
    /// descriptors already taken stay taken (the free list is empty).
    pub fn add_buf(&mut self, buffers: &[BufferSpec]) -> (r: Result<u16, Errno>)
        requires
            old(self).wf(),
        ensures
            final(self).wf(),
            final(self).index_view() == old(self).index_view(),
            final(self).size_view() == old(self).size_view(),
            final(self).addrs() == old(self).addrs(),
            final(self).used_view() == old(self).used_view(),
            final(self).used_idx_view() == old(self).used_idx_view(),
            final(self).last_used_view() == old(self).last_used_view(),
            buffers@.len() == 0 ==> r == Err::<u16, Errno>(Errno::EINVAL) && *final(self) == *old(
                self,
            ),
            buffers@.len() > 0 && old(self).free_view().len() < buffers@.len() ==> {
                &&& r == Err::<u16, Errno>(Errno::ENOSPC)
                &&& final(self).free_view() == Seq::<u16>::empty()
                &&& final(self).descs() == old(self).descs()
                &&& final(self).avail_view() == old(self).avail_view()
                &&& final(self).avail_idx_view() == old(self).avail_idx_view()
            },
            buffers@.len() > 0 && old(self).free_view().len() >= buffers@.len() ==> {
                let n = buffers@.len();
                let idxs = popped(old(self).free_view(), n);
                let slot = old(self).avail_idx_view() % old(self).size_view();
                &&& r == Ok::<u16, Errno>(idxs[0])
                &&& final(self).free_view() == old(self).free_view().subrange(
                    0,
                    old(self).free_view().len() - n,
                )
                &&& final(self).descs() == fill_chain(old(self).descs(), buffers@, idxs, n)
                &&& final(self).avail_view() == old(self).avail_view().update(slot as int, idxs[0])
                &&& final(self).avail_idx_view() == old(self).avail_idx_view().wrapping_add(1)
            },
    {
        let n = buffers.len();
        if n == 0 {
            return Err(Errno::EINVAL);
        }
        let ghost free0 = self.free_list@;
        let mut desc_indices: Vec<u16> = Vec::new();
        let mut k: usize = 0;
        while k < n
            invariant
                self.wf(),
                n == buffers@.len(),
                k <= n,
                k <= free0.len(),
                free0 == old(self).free_list@,
                self.free_list@ == free0.subrange(0, free0.len() - k),
                desc_indices@ == popped(free0, k as nat),
                self.desc_table@ == old(self).desc_table@,
                self.index == old(self).index_view(),
                self.size == old(self).size_view(),
                self.addrs() == old(self).addrs(),
                self.avail_ring@ == old(self).avail_ring@,
                self.avail_idx_shadow == old(self).avail_idx_shadow,
                self.used_ring@ == old(self).used_ring@,
                self.used_idx == old(self).used_idx,
                self.last_used_idx == old(self).last_used_idx,
            decreases n - k,
        {
            match self.alloc_desc() {
                Some(idx) => {
                    desc_indices.push(idx);
                    proof {
                        assert(desc_indices@ =~= popped(free0, (k + 1) as nat));
                        assert(self.free_list@ =~= free0.subrange(0, free0.len() - (k + 1)));
                    }
                },
                None => {
                    proof {
                        assert(free0.len() - k == 0);
                        assert(self.free_list@ =~= Seq::<u16>::empty());
                    }
                    return Err(Errno::ENOSPC);
                },
            }
            k = k + 1;
        }
        let ghost idxs = desc_indices@;
        assert(forall|j: int| 0 <= j < idxs.len() ==> #[trigger] idxs[j] < self.size) by {
            assert forall|j: int| 0 <= j < idxs.len() implies #[trigger] idxs[j] < self.size by {
                let p = free0.len() - 1 - j;
                assert(old(self).free_list@[p] < self.size);
            }
        }
        let head = desc_indices[0];
        let mut i: usize = 0;
        while i < n
            invariant
                self.wf(),
                n == buffers@.len(),
                n == desc_indices@.len(),
                idxs == desc_indices@,
                i <= n,
                forall|j: int| 0 <= j < idxs.len() ==> #[trigger] idxs[j] < self.size,
                self.desc_table@ == fill_chain(old(self).desc_table@, buffers@, idxs, i as nat),
                n <= free0.len(),
                self.free_list@ == free0.subrange(0, free0.len() - n),
                self.index == old(self).index_view(),
                self.size == old(self).size_view(),
                self.addrs() == old(self).addrs(),
                self.avail_ring@ == old(self).avail_ring@,
                self.avail_idx_shadow == old(self).avail_idx_shadow,
                self.used_ring@ == old(self).used_ring@,
                self.used_idx == old(self).used_idx,
                self.last_used_idx == old(self).last_used_idx,
            decreases n - i,
        {
            let idx = desc_indices[i];
            let (addr, len, writeable) = buffers[i];
            let base: u16 = if writeable {
                VIRTQ_DESC_F_WRITE
            } else {
                0
            };
            let desc = if i + 1 < n {
                VirtqDesc { addr, len, flags: base | VIRTQ_DESC_F_NEXT, next: desc_indices[i + 1] }
            } else {
                VirtqDesc { addr, len, flags: base, next: 0 }
            };
            assert(desc == chain_desc(buffers@, idxs, i as int));
            self.desc_table.set(idx as usize, desc);
            i = i + 1;
        }
        let avail_idx = self.avail_idx_shadow;
        let ring_idx = avail_idx % self.size;
        self.avail_ring.set(ring_idx as usize, head);
        self.avail_idx_shadow = avail_idx.wrapping_add(1);
        Ok(head)
    }

    /// Whether the device has published used elements that the driver has not consumed.
    pub fn has_used_buf(&self) -> (r: bool)
        ensures
            r == (self.used_idx_view() != self.last_used_view()),
    {
        self.used_idx != self.last_used_idx
    }

    /// The element of the used ring that `get_used_buf` consumes next.
    pub closed spec fn next_used(&self) -> (u32, u32) {
        self.used_view()[(self.last_used_view() % self.size) as int]
    }

    /// Whether the descriptor chain named by the next used element can be
    /// walked: its head is a valid index and the walk ends within `size` steps.
    pub open spec fn next_used_chain_ok(&self) -> bool {
        chain(self.descs(), (self.next_used().0 as u16) as int, self.size_view() as nat) is Some
    }

    /// Check `next_used_chain_ok` at run time (false when nothing is pending).
    pub fn used_chain_valid(&self) -> (r: bool)
        requires
            self.wf(),
        ensures
            r == (self.has_used_spec() && self.next_used_chain_ok()),
    {
        if self.used_idx == self.last_used_idx {
            return false;
        }
        let slot = self.last_used_idx % self.size;
        let id = self.used_ring[slot as usize].0 as u16;
        let mut idx = id;
        let mut fuel: u16 = self.size;
        proof {
            assert(self.desc_table@.len() > 0);
        }
        loop
            invariant
                self.wf(),
                fuel <= self.size,
                self.has_used_spec(),
                self.next_used_chain_ok() == (chain(self.descs(), idx as int, fuel as nat) is Some),
            decreases fuel,
        {
            if fuel == 0 || idx >= self.size {
                return false;
            }
            let d = self.desc_table[idx as usize];
            if d.flags & VIRTQ_DESC_F_NEXT == 0 {
                return true;
            }
            idx = d.next;
            fuel = fuel - 1;
        }
    }

    /// Whether a used element is pending.
    pub open spec fn has_used_spec(&self) -> bool {
        self.used_idx_view() != self.last_used_view()
    }

    /// Take the next used element: returns `(descriptor index, length written
    /// by the device)` and returns every descriptor of its chain to the free list.
    pub fn get_used_buf(&mut self) -> (r: Option<(u16, u32)>)
        requires
            old(self).wf(),
            old(self).has_used_spec() ==> old(self).next_used_chain_ok(),
        ensures
            final(self).wf(),
            !old(self).has_used_spec() ==> r is None && *final(self) == *old(self),
            old(self).has_used_spec() ==> {
                let (id32, len) = old(self).next_used();
                let id = id32 as u16;
                &&& r == Some((id, len))
                &&& final(self).last_used_view() == old(self).last_used_view().wrapping_add(1)
                &&& final(self).free_view() == old(self).free_view() + chain(
                    old(self).descs(),
                    id as int,
                    old(self).size_view() as nat,
                )->Some_0
                &&& final(self).index_view() == old(self).index_view()
                &&& final(self).size_view() == old(self).size_view()
                &&& final(self).addrs() == old(self).addrs()
                &&& final(self).descs() == old(self).descs()
                &&& final(self).avail_view() == old(self).avail_view()
                &&& final(self).avail_idx_view() == old(self).avail_idx_view()
                &&& final(self).used_view() == old(self).used_view()
                &&& final(self).used_idx_view() == old(self).used_idx_view()
            },
    {
        if !self.has_used_buf() {
            return None;
        }
        let ring_idx = self.last_used_idx % self.size;
        let (id32, len) = self.used_ring[ring_idx as usize];
        let id = id32 as u16;
        self.last_used_idx = self.last_used_idx.wrapping_add(1);
        let ghost full = chain(self.desc_table@, id as int, self.size as nat)->Some_0;
        let ghost free0 = self.free_list@;
        let mut desc_idx = id;
        let ghost mut fuel: nat = self.size as nat;
        let ghost mut done: Seq<u16> = Seq::empty();
        loop
            invariant_except_break
                chain(self.desc_table@, desc_idx as int, fuel) is Some,
                full == done + chain(self.desc_table@, desc_idx as int, fuel)->Some_0,
                self.free_list@ == free0 + done,
            invariant
                self.wf(),
                self.desc_table@ == old(self).desc_table@,
                self.size == old(self).size_view(),
                self.index == old(self).index_view(),
                self.addrs() == old(self).addrs(),
                self.avail_ring@ == old(self).avail_ring@,
                self.avail_idx_shadow == old(self).avail_idx_shadow,
                self.used_ring@ == old(self).used_ring@,
                self.used_idx == old(self).used_idx,
                self.last_used_idx == old(self).last_used_idx.wrapping_add(1),
            ensures
                self.free_list@ == free0 + full,
            decreases fuel,
        {
            let desc = self.desc_table[desc_idx as usize];
            let next_flag = desc.flags & VIRTQ_DESC_F_NEXT != 0;
            let next = desc.next;
            proof {
                let rest = chain(self.desc_table@, desc_idx as int, fuel)->Some_0;
                if next_flag {
                    let tail = chain(self.desc_table@, next as int, (fuel - 1) as nat)->Some_0;
                    assert(rest == seq![desc_idx] + tail);
                    assert(full == (done + seq![desc_idx]) + tail);
                } else {
                    assert(rest == seq![desc_idx]);
                }
            }
            self.free_desc(desc_idx);
            proof {
                done = done + seq![desc_idx];
                assert(self.free_list@ =~= free0 + done);
            }
            if !next_flag {
                proof {
                    assert(full =~= done);
                    assert(self.free_list@ =~= free0 + full);
                }
                break;
            }
            desc_idx = next;
            proof {
                fuel = (fuel - 1) as nat;
            }
        }
        Some((id, len))
    }

    /// Write a used element as the device does when it has consumed the chain
    /// headed by `id`, having written `len` bytes, and advance the used index.
    pub fn device_complete(&mut self, id: u32, len: u32)
        requires
            old(self).wf(),
        ensures
            final(self).wf(),
            final(self).used_view() == old(self).used_view().update(
                (old(self).used_idx_view() % old(self).size_view()) as int,
                (id, len),
            ),
            final(self).used_idx_view() == old(self).used_idx_view().wrapping_add(1),
            final(self).last_used_view() == old(self).last_used_view(),
            final(self).free_view() == old(self).free_view(),
            final(self).descs() == old(self).descs(),
            final(self).avail_view() == old(self).avail_view(),
            final(self).avail_idx_view() == old(self).avail_idx_view(),
            final(self).index_view() == old(self).index_view(),
            final(self).size_view() == old(self).size_view(),
            final(self).addrs() == old(self).addrs(),
    {
        let slot = self.used_idx % self.size;
        self.used_ring.set(slot as usize, (id, len));
        self.used_idx = self.used_idx.wrapping_add(1);
    }

    /// The descriptor at `i` (as the device reads it).
    pub fn descriptor(&self, i: u16) -> (d: VirtqDesc)
        requires
            self.wf(),
            i < self.size_view(),
        ensures
            d == self.descs()[i as int],
    {
        self.desc_table[i as usize]
    }

    /// The available-ring entry in slot `slot` (as the device reads it).
    pub fn avail_entry(&self, slot: u16) -> (e: u16)
        requires
            self.wf(),
            slot < self.size_view(),
        ensures
            e == self.avail_view()[slot as int],
    {
        self.avail_ring[slot as usize]
    }

    /// The index of the available ring (as the device reads it).
    pub fn avail_idx(&self) -> (r: u16)
        ensures
            r == self.avail_idx_view(),
    {
        self.avail_idx_shadow
    }

    /// Number of free descriptors.
    pub fn free_count(&self) -> (r: usize)
        ensures
            r == self.free_view().len(),
    {
        self.free_list.len()
    }

    /// Notify the device (kick) after adding buffers: always needed.
    pub fn notify_needed(&self) -> (r: bool)
        ensures
            r,
    {
        true
    }
}

/// Freeing a valid descriptor and then allocating one hands back the same
/// descriptor and leaves the free list as it was.
pub proof fn lemma_free_then_alloc(free: Seq<u16>, size: int, index: u16)
    requires
        index < size,
    ensures
        alloc_result(free_after_release(free, size, index)) == Some(index),
        free_after_alloc(free_after_release(free, size, index)) == free,
{
    assert(free.push(index).drop_last() =~= free);
}

/// While the written descriptors are distinct, the table after writing the
/// first `k` of them holds descriptor `j` of the chain at `idxs[j]`, and is
/// unchanged elsewhere.
proof fn lemma_fill_chain_at(
    descs: Seq<VirtqDesc>,
    bufs: Seq<BufferSpec>,
    idxs: Seq<u16>,
    k: nat,
)
    requires
        k <= idxs.len(),
        idxs.no_duplicates(),
        forall|j: int| 0 <= j < idxs.len() ==> #[trigger] idxs[j] < descs.len(),
    ensures
        fill_chain(descs, bufs, idxs, k).len() == descs.len(),
        forall|j: int|
            0 <= j < k ==> #[trigger] fill_chain(descs, bufs, idxs, k)[idxs[j] as int]
                == chain_desc(bufs, idxs, j),
    decreases k,
{
    if k > 0 {
        lemma_fill_chain_at(descs, bufs, idxs, (k - 1) as nat);
        let prev = fill_chain(descs, bufs, idxs, (k - 1) as nat);
        assert forall|j: int| 0 <= j < k implies #[trigger] fill_chain(
            descs,
            bufs,
            idxs,
            k,
        )[idxs[j] as int] == chain_desc(bufs, idxs, j) by {
            if j < k - 1 {
                assert(idxs[j] != idxs[k - 1]);
            }
        }
    }
}

/// Walking the table from descriptor `k` of a written chain visits exactly the
/// rest of the chain.
proof fn lemma_walk_written_chain(
    table: Seq<VirtqDesc>,
    bufs: Seq<BufferSpec>,
    idxs: Seq<u16>,
    k: int,
    fuel: nat,
)
    requires
        0 <= k < idxs.len(),
        fuel >= idxs.len() - k,
        forall|j: int| 0 <= j < idxs.len() ==> #[trigger] idxs[j] < table.len(),
        forall|j: int|
            0 <= j < idxs.len() ==> #[trigger] table[idxs[j] as int] == chain_desc(bufs, idxs, j),
    ensures
        chain(table, idxs[k] as int, fuel) == Some(idxs.subrange(k, idxs.len() as int)),
    decreases idxs.len() - k,
{
    let d = table[idxs[k] as int];
    assert(d == chain_desc(bufs, idxs, k));
    let b = base_flags(bufs[k].2);
    assert(b == 0u16 || b == 2u16);
    if k + 1 >= idxs.len() {
        assert(d.flags == b);
        assert(b == 0u16 || b == 2u16 ==> b & 1u16 == 0u16) by (bit_vector);
        assert(!has_next(d));
        assert(idxs.subrange(k, idxs.len() as int) =~= seq![idxs[k]]);
    } else {
        assert(d.flags == b | 1u16);
        assert((b | 1u16) & 1u16 != 0u16) by (bit_vector);
        assert(has_next(d));
        assert(d.next == idxs[k + 1]);
        lemma_walk_written_chain(table, bufs, idxs, k + 1, (fuel - 1) as nat);
        assert(idxs.subrange(k, idxs.len() as int) =~= seq![idxs[k]] + idxs.subrange(
            k + 1,
            idxs.len() as int,
        ));
    }
}

/// A chain written by `add_buf` on distinct descriptors is walked back in
/// full: when the device returns its head, `get_used_buf` gives every one of
/// its descriptors back to the free list, in chain order.
pub proof fn lemma_written_chain_returns(
    descs: Seq<VirtqDesc>,
    bufs: Seq<BufferSpec>,
    idxs: Seq<u16>,
    size: nat,
)
    requires
        1 <= idxs.len() <= size,
        descs.len() == size,
        idxs.no_duplicates(),
        forall|j: int| 0 <= j < idxs.len() ==> #[trigger] idxs[j] < size,
    ensures
        chain(fill_chain(descs, bufs, idxs, idxs.len()), idxs[0] as int, size) == Some(idxs),
{
    lemma_fill_chain_at(descs, bufs, idxs, idxs.len());
    let table = fill_chain(descs, bufs, idxs, idxs.len());
    lemma_walk_written_chain(table, bufs, idxs, 0, size);
    assert(idxs.subrange(0, idxs.len() as int) =~= idxs);
}

/// Descriptors taken from a free list without repeats are distinct, so a
/// chain built from them can be walked back in full.
pub proof fn lemma_popped_distinct(free: Seq<u16>, n: nat)
    requires
        n <= free.len(),
        free.no_duplicates(),
    ensures
        popped(free, n).no_duplicates(),
{
    let p = popped(free, n);
    assert forall|a: int, b: int| 0 <= a < p.len() && 0 <= b < p.len() && a != b implies p[a]
        != p[b] by {
        assert(p[a] == free[free.len() - 1 - a]);
        assert(p[b] == free[free.len() - 1 - b]);
    }
}

/// Whether `n` is a power of two.
pub fn is_power_of_two(n: u16) -> (r: bool)
    ensures
        r == is_pow2(n as int),
{
    if n == 0 {
        return false;
    }
    let mut m: u16 = n;
    while m > 1
        invariant
            m >= 1,
            is_pow2(n as int) == is_pow2(m as int),
        decreases m,
    {
        if m % 2 != 0 {
            return false;
        }
        m = m / 2;
    }
    true
}

/// What `add_buf` writes: in a chain over distinct descriptors, descriptor
/// `idxs[k]` holds the `k`-th buffer's address and length, `WRITE` when the
/// device writes it, and `NEXT` with the following descriptor unless it is
/// the last; every other descriptor is left as it was.
pub proof fn lemma_fill_chain_describes(descs: Seq<VirtqDesc>, bufs: Seq<BufferSpec>, idxs: Seq<u16>, n: nat)
    requires
        n <= idxs.len(),
        idxs.no_duplicates(),
        forall|k: int| 0 <= k < idxs.len() ==> (#[trigger] idxs[k]) < descs.len(),
    ensures
        fill_chain(descs, bufs, idxs, n).len() == descs.len(),
        forall|k: int| 0 <= k < n ==> #[trigger] fill_chain(descs, bufs, idxs, n)[idxs[k] as int] == chain_desc(
            bufs,
            idxs,
            k,
        ),
        forall|d: int|
            0 <= d < descs.len() && (forall|k: int| 0 <= k < n ==> idxs[k] != d) ==> #[trigger] fill_chain(
                descs,
                bufs,
                idxs,
                n,
            )[d] == descs[d],
    decreases n,
{
    if n > 0 {
        lemma_fill_chain_describes(descs, bufs, idxs, (n - 1) as nat);
        let prev = fill_chain(descs, bufs, idxs, (n - 1) as nat);
        let cur = fill_chain(descs, bufs, idxs, n);
        assert(cur == prev.update(idxs[n - 1] as int, chain_desc(bufs, idxs, n - 1)));
        assert forall|k: int| 0 <= k < n implies #[trigger] cur[idxs[k] as int] == chain_desc(bufs, idxs, k) by {
            if k < n - 1 {
                assert(idxs[k] != idxs[n - 1]);
            }
        }
        assert forall|d: int|
            0 <= d < descs.len() && (forall|k: int| 0 <= k < n ==> idxs[k] != d) implies #[trigger] cur[d]
            == descs[d] by {
            assert(idxs[n - 1] != d);
            assert forall|k: int| 0 <= k < n - 1 implies idxs[k] != d by {}
        }
    }
}

impl VirtQueue {
    /// What a well-formed queue shows of its shape: a size that is a power of
    /// two (so at least 1) and at most 32768, a descriptor table and an
    /// available and used ring of `size` slots each, and free descriptors and
    /// `next` links that are all valid indices.
    pub proof fn lemma_wf_shape(&self)
        requires
            self.wf(),
        ensures
            is_pow2(self.size_view() as int),
            0 < self.size_view() <= VIRTQ_MAX_SIZE,
            self.descs().len() == self.size_view(),
            self.avail_view().len() == self.size_view(),
            self.used_view().len() == self.size_view(),
            forall|i: int| 0 <= i < self.free_view().len() ==> #[trigger] self.free_view()[i] < self.size_view(),
            forall|i: int| 0 <= i < self.descs().len() ==> #[trigger] self.descs()[i].next < self.size_view(),
    {
    }
}

/// What `add_buf` leaves in a well-formed queue whose free list holds no
/// descriptor twice, when it takes `n` buffers: descriptor `k` of the chain
/// (the `k`-th popped from the free list) holds buffer `k` with `WRITE` and
/// `NEXT` as `chain_desc` says, every other descriptor is untouched, and the
/// available slot `avail_idx % size` holds the chain's head.
pub proof fn lemma_add_buf_chain(q: VirtQueue, bufs: Seq<BufferSpec>, n: nat)
    requires
        q.wf(),
        q.free_view().no_duplicates(),
        0 < n <= q.free_view().len(),
        bufs.len() == n,
    ensures
        ({
            let idxs = popped(q.free_view(), n);
            let d = fill_chain(q.descs(), bufs, idxs, n);
            let slot = (q.avail_idx_view() % q.size_view()) as int;
            &&& idxs.no_duplicates()
            &&& d.len() == q.size_view()
            &&& forall|k: int| 0 <= k < n ==> #[trigger] d[idxs[k] as int] == chain_desc(bufs, idxs, k)
            &&& forall|x: int|
                0 <= x < q.size_view() && (forall|k: int| 0 <= k < n ==> idxs[k] != x) ==> #[trigger] d[x]
                    == q.descs()[x]
            &&& 0 <= slot < q.size_view()
            &&& q.avail_view().update(slot, idxs[0])[slot] == idxs[0]
        }),
{
    q.lemma_wf_shape();
    let idxs = popped(q.free_view(), n);
    lemma_popped_distinct(q.free_view(), n);
    assert forall|k: int| 0 <= k < idxs.len() implies (#[trigger] idxs[k]) < q.descs().len() by {
        assert(idxs[k] == q.free_view()[q.free_view().len() - 1 - k]);
    }
    lemma_fill_chain_describes(q.descs(), bufs, idxs, n);
}

} // verus!
