//! The split virtqueue: descriptor table, available ring and used ring laid
//! out in guest memory.
use vstd::prelude::*;

use super::barrier::{acquire_fence, release_fence};
use crate::virtio_gpu::numeric::{is_power_of_two, is_power_of_two_u16, spec_align_up};
use crate::virtio_gpu::transport::memory::{GuestAddress, GuestMemory, GuestMemoryError};
use crate::virtio_gpu::wire::{
    le16, le32, le64, lemma_le_round_trip, lemma_zero_u16, push_u16, push_u32, push_u64, read_u16, read_u32,
    read_u64, splice, to_array, u16_at, u32_at, u64_at,
};

verus! {

pub const DESC_F_NEXT: u16 = 1;
pub const DESC_F_WRITE: u16 = 2;
pub const DESC_F_INDIRECT: u16 = 4;

pub const AVAIL_F_NO_INTERRUPT: u16 = 1;
pub const USED_F_NO_NOTIFY: u16 = 1;

/// Largest queue size of a split virtqueue.
pub const MAX_SPLIT_QUEUE_SIZE: u16 = 32768;

/// One entry of the descriptor table: 16 bytes on the wire.
#[derive(Clone, Copy, Debug, Default, PartialEq, Eq)]
pub struct Descriptor {
    pub addr: GuestAddress,
    pub len: u32,
    pub flags: u16,
    pub next: u16,
}

impl Descriptor {
    pub const SIZE: usize = 16;

    /// The wire image: `addr`, `len`, `flags`, `next`, little-endian.
    pub open spec fn spec_bytes(self) -> Seq<u8> {
        le64(self.addr.0) + le32(self.len) + le16(self.flags) + le16(self.next)
    }

    pub open spec fn spec_decode(b: Seq<u8>) -> Descriptor {
        Descriptor {
            addr: GuestAddress(u64_at(b, 0)),
            len: u32_at(b, 8),
            flags: u16_at(b, 12),
            next: u16_at(b, 14),
        }
    }

    /// Whether the descriptor continues into `next`.
    pub open spec fn has_next(self) -> bool {
        self.flags & DESC_F_NEXT != 0
    }

    pub fn encode_le(self) -> (out: [u8; 16])
        ensures
            out@ == self.spec_bytes(),
    {
        let mut v: Vec<u8> = Vec::new();
        push_u64(&mut v, self.addr.0);
        push_u32(&mut v, self.len);
        push_u16(&mut v, self.flags);
        push_u16(&mut v, self.next);
        proof {
            lemma_le_round_trip();
        }
        to_array(&v)
    }

    pub fn decode_le(bytes: &[u8]) -> (r: Option<Self>)
        ensures
            r == (if bytes@.len() < 16 {
                None
            } else {
                Some(Self::spec_decode(bytes@))
            }),
    {
        if bytes.len() < 16 {
            return None;
        }
        Some(
            Self {
                addr: GuestAddress(read_u64(bytes, 0)),
                len: read_u32(bytes, 8),
                flags: read_u16(bytes, 12),
                next: read_u16(bytes, 14),
            },
        )
    }
}

/// Decoding the wire image of a descriptor, followed by anything, gives it
/// back.
pub proof fn lemma_descriptor_round_trip(d: Descriptor, rest: Seq<u8>)
    ensures
        d.spec_bytes().len() == 16,
        Descriptor::spec_decode(d.spec_bytes() + rest) == d,
{
    lemma_le_round_trip();
    let b = d.spec_bytes() + rest;
    assert(b.subrange(0, 8) =~= le64(d.addr.0));
    assert(b.subrange(8, 12) =~= le32(d.len));
    assert(b.subrange(12, 14) =~= le16(d.flags));
    assert(b.subrange(14, 16) =~= le16(d.next));
}

/// One entry of the used ring.
#[derive(Clone, Copy, Debug, Default, PartialEq, Eq)]
pub struct UsedElement {
    pub id: u32,
    pub len: u32,
}

#[derive(Clone, Copy, Debug, PartialEq, Eq)]
pub enum VirtQueueError {
    InvalidQueueSize,
    QueueFull,
    DescriptorUnavailable,
    InvalidDescriptor,
    InvalidMemory,
    GuestMemory(GuestMemoryError),
}

impl From<GuestMemoryError> for VirtQueueError {
    fn from(value: GuestMemoryError) -> (e: Self) {
        VirtQueueError::GuestMemory(value)
    }
}

impl vstd::std_specs::convert::FromSpecImpl<GuestMemoryError> for VirtQueueError {
    open spec fn obeys_from_spec() -> bool {
        true
    }

    open spec fn from_spec(v: GuestMemoryError) -> Self {
        VirtQueueError::GuestMemory(v)
    }
}

/// A queue size a split virtqueue accepts: a power of two up to 32768.
pub open spec fn valid_queue_size(queue_size: u16) -> bool {
    queue_size != 0 && queue_size <= MAX_SPLIT_QUEUE_SIZE && is_power_of_two(queue_size as int)
}

#[derive(Clone, Copy, Debug, PartialEq, Eq)]
pub struct SplitVirtQueueLayout {
    pub queue_size: u16,
    pub descriptor_offset: usize,
    pub available_offset: usize,
    pub used_offset: usize,
    pub total_size: usize,
}

impl SplitVirtQueueLayout {
    /// The layout of a queue of `queue_size` entries: the descriptor table (16
    /// bytes per entry) at offset 0, the available ring (flags, index, one
    /// 2-byte slot per entry, used event) at the next 2-aligned offset, and
    /// the used ring (flags, index, one 8-byte element per entry, avail event)
    /// at the next 4-aligned offset.
    pub open spec fn spec_new(queue_size: u16) -> SplitVirtQueueLayout {
        let descriptor_offset = 0int;
        let available_offset = spec_align_up(descriptor_offset + 16 * queue_size, 2);
        let used_offset = spec_align_up(available_offset + 6 + 2 * queue_size, 4);
        SplitVirtQueueLayout {
            queue_size,
            descriptor_offset: descriptor_offset as usize,
            available_offset: available_offset as usize,
            used_offset: used_offset as usize,
            total_size: (used_offset + 6 + 8 * queue_size) as usize,
        }
    }

    /// The layout of a valid queue size, as `new` computes it.
    pub open spec fn wf(self) -> bool {
        valid_queue_size(self.queue_size) && self == Self::spec_new(self.queue_size)
    }

    pub fn new(queue_size: u16) -> (r: Result<Self, VirtQueueError>)
        ensures
            valid_queue_size(queue_size) ==> r == Ok::<Self, VirtQueueError>(
                Self::spec_new(queue_size),
            ),
            !valid_queue_size(queue_size) ==> r == Err::<Self, VirtQueueError>(
                VirtQueueError::InvalidQueueSize,
            ),
            r matches Ok(l) ==> {
                &&& l.queue_size == queue_size
                &&& l.descriptor_offset == 0
                &&& l.available_offset == 16 * queue_size
                &&& l.used_offset % 4 == 0
                &&& l.available_offset + 6 + 2 * queue_size <= l.used_offset
                &&& l.used_offset < l.available_offset + 6 + 2 * queue_size + 4
                &&& l.total_size == l.used_offset + 6 + 8 * queue_size
            },
    {
        if queue_size == 0 || !is_power_of_two_u16(queue_size) {
            return Err(VirtQueueError::InvalidQueueSize);
        }
        if queue_size > MAX_SPLIT_QUEUE_SIZE {
            return Err(VirtQueueError::InvalidQueueSize);
        }
        let qs = queue_size as usize;
        let descriptor_offset: usize = 0;
        let descriptor_size = 16 * qs;
        let available_offset = align_up(descriptor_offset + descriptor_size, 2);
        let available_size = 6 + 2 * qs;
        let used_offset = align_up(available_offset + available_size, 4);
        let used_size = 6 + 8 * qs;
        let total_size = used_offset + used_size;
        proof {
            lemma_layout_regions(queue_size);
        }
        Ok(Self { queue_size, descriptor_offset, available_offset, used_offset, total_size })
    }

    pub fn descriptor_address(self, base: GuestAddress, index: u16) -> (r: Result<
        GuestAddress,
        VirtQueueError,
    >)
        requires
            self.wf(),
            base.0 + self.total_size <= u64::MAX,
        ensures
            index >= self.queue_size ==> r == Err::<GuestAddress, VirtQueueError>(
                VirtQueueError::InvalidDescriptor,
            ),
            index < self.queue_size ==> r == Ok::<GuestAddress, VirtQueueError>(
                GuestAddress((base.0 + self.descriptor_offset + 16 * index) as u64),
            ),
            index < self.queue_size ==> self.descriptor_offset + 16 * index + 16
                <= self.available_offset,
    {
        if index >= self.queue_size {
            return Err(VirtQueueError::InvalidDescriptor);
        }
        proof {
            lemma_layout_regions(self.queue_size);
        }
        Ok(base.offset(self.descriptor_offset + 16 * index as usize))
    }

    pub fn available_address(self, base: GuestAddress) -> (a: GuestAddress)
        requires
            self.wf(),
            base.0 + self.total_size <= u64::MAX,
        ensures
            a.0 == base.0 + self.available_offset,
    {
        proof {
            lemma_layout_regions(self.queue_size);
        }
        base.offset(self.available_offset)
    }

    pub fn used_address(self, base: GuestAddress) -> (a: GuestAddress)
        requires
            self.wf(),
            base.0 + self.total_size <= u64::MAX,
        ensures
            a.0 == base.0 + self.used_offset,
    {
        proof {
            lemma_layout_regions(self.queue_size);
        }
        base.offset(self.used_offset)
    }
}

/// The descriptor slots of a valid layout are 16 bytes each, pairwise
/// disjoint, and lie in the descriptor table, which ends where the available
/// ring begins; the available ring ends before the used ring, which ends at
/// the total size.
pub proof fn lemma_descriptor_slots_disjoint(l: SplitVirtQueueLayout, i: u16, j: u16)
    requires
        l.wf(),
        i < l.queue_size,
        j < l.queue_size,
        i != j,
    ensures
        l.descriptor_offset + 16 * i + 16 <= l.descriptor_offset + 16 * j
            || l.descriptor_offset + 16 * j + 16 <= l.descriptor_offset + 16 * i,
        l.descriptor_offset + 16 * i + 16 <= l.available_offset,
        l.available_offset + 6 + 2 * l.queue_size <= l.used_offset,
        l.used_offset + 6 + 8 * l.queue_size == l.total_size,
{
    lemma_layout_regions(l.queue_size);
}

/// `value` rounded up to a multiple of `alignment` (2 or 4).
fn align_up(value: usize, alignment: usize) -> (r: usize)
    requires
        alignment == 2 || alignment == 4,
        value + alignment - 1 <= usize::MAX,
    ensures
        r == spec_align_up(value as int, alignment as int),
{
    let x = value + (alignment - 1);
    if alignment == 2 {
        assert(x & !1usize == (x / 2) * 2) by (bit_vector);
    } else {
        assert(x & !3usize == (x / 4) * 4) by (bit_vector);
    }
    x & !(alignment - 1)
}

/// The regions of a valid layout: the descriptor table at 0, 16 bytes per
/// entry; the available ring right after it, 2-aligned; the used ring after
/// the available ring's `6 + 2 * size` bytes, 4-aligned; the whole of
/// `used_offset + 6 + 8 * size` bytes.
pub proof fn lemma_layout_regions(queue_size: u16)
    requires
        valid_queue_size(queue_size),
    ensures
        ({
            let l = SplitVirtQueueLayout::spec_new(queue_size);
            &&& l.descriptor_offset == 0
            &&& l.descriptor_offset % 16 == 0
            &&& l.available_offset == 16 * queue_size
            &&& l.available_offset % 2 == 0
            &&& l.used_offset % 4 == 0
            &&& l.available_offset + 6 + 2 * queue_size <= l.used_offset
            &&& l.used_offset <= l.available_offset + 6 + 2 * queue_size + 3
            &&& l.total_size == l.used_offset + 6 + 8 * queue_size
            &&& l.total_size <= 32 * 32768 + 16
        }),
{
    let qs = queue_size as int;
    let a = spec_align_up(16 * qs, 2);
    assert(a == 16 * qs);
    let u = spec_align_up(a + 6 + 2 * qs, 4);
    let v = a + 6 + 2 * qs;
    assert(u == ((v + 3) / 4) * 4);
    assert(u % 4 == 0 && v <= u <= v + 3) by {
        vstd::arithmetic::div_mod::lemma_fundamental_div_mod(v + 3, 4);
    }
}


/// The abstract state of a split virtqueue: the bytes of guest memory, where
/// the queue sits in it, and the driver-side bookkeeping.
pub struct QueueView {
    /// The bytes of guest memory.
    pub mem: Seq<u8>,
    /// The guest address of `mem[0]`.
    pub mem_start: u64,
    /// The guest address of the queue.
    pub base: u64,
    pub layout: SplitVirtQueueLayout,
    /// Which descriptors the driver side may hand out.
    pub free: Seq<bool>,
    /// The next available-ring position the device side will consume.
    pub next_avail: u16,
    /// The next used-ring position the driver side will consume.
    pub last_used: u16,
}

impl QueueView {
    pub open spec fn qs(self) -> int {
        self.layout.queue_size as int
    }

    /// The offset of the queue inside `mem`.
    pub open spec fn q0(self) -> int {
        self.base - self.mem_start
    }

    pub open spec fn desc_off(self, i: int) -> int {
        self.q0() + self.layout.descriptor_offset + 16 * i
    }

    pub open spec fn avail_idx_off(self) -> int {
        self.q0() + self.layout.available_offset + 2
    }

    pub open spec fn ring_off(self, slot: int) -> int {
        self.q0() + self.layout.available_offset + 4 + 2 * slot
    }

    pub open spec fn used_idx_off(self) -> int {
        self.q0() + self.layout.used_offset + 2
    }

    pub open spec fn used_elem_off(self, slot: int) -> int {
        self.q0() + self.layout.used_offset + 4 + 8 * slot
    }

    /// Descriptor `i` of the table.
    pub open spec fn desc_at(self, i: int) -> Descriptor {
        Descriptor::spec_decode(self.mem.subrange(self.desc_off(i), self.desc_off(i) + 16))
    }

    /// The available ring's index.
    pub open spec fn avail_idx(self) -> u16 {
        u16_at(self.mem, self.avail_idx_off())
    }

    /// Slot `slot` of the available ring.
    pub open spec fn avail_ring(self, slot: int) -> u16 {
        u16_at(self.mem, self.ring_off(slot))
    }

    /// The used ring's index.
    pub open spec fn used_idx(self) -> u16 {
        u16_at(self.mem, self.used_idx_off())
    }

    /// Element `slot` of the used ring.
    pub open spec fn used_elem(self, slot: int) -> UsedElement {
        UsedElement {
            id: u32_at(self.mem, self.used_elem_off(slot)),
            len: u32_at(self.mem, self.used_elem_off(slot) + 4),
        }
    }

    /// A valid layout, lying wholly inside guest memory, which ends within
    /// the address space, and one free flag per descriptor.
    pub open spec fn wf(self) -> bool {
        &&& self.layout.wf()
        &&& self.mem_start <= self.base
        &&& self.q0() + self.layout.total_size <= self.mem.len()
        &&& self.mem_start + self.mem.len() <= u64::MAX
        &&& self.free.len() == self.qs()
    }

    /// The same queue over memory `mem`.
    pub open spec fn with_mem(self, mem: Seq<u8>) -> QueueView {
        QueueView { mem, ..self }
    }
}

pub struct SplitVirtQueue {
    memory: GuestMemory,
    base: GuestAddress,
    layout: SplitVirtQueueLayout,
    free: Vec<bool>,
    next_avail: u16,
    last_used: u16,
}

impl View for SplitVirtQueue {
    type V = QueueView;

    closed spec fn view(&self) -> QueueView {
        QueueView {
            mem: self.memory.bytes(),
            mem_start: self.memory.start(),
            base: self.base.0,
            layout: self.layout,
            free: self.free@,
            next_avail: self.next_avail,
            last_used: self.last_used,
        }
    }
}

impl SplitVirtQueue {
    pub open spec fn wf(&self) -> bool {
        self@.wf()
    }

    /// Lays out a queue of `queue_size` entries at `base` and zeroes its
    /// memory; every descriptor starts free.
    pub fn new(memory: GuestMemory, base: GuestAddress, queue_size: u16) -> (r: Result<
        Self,
        VirtQueueError,
    >)
        requires
            memory.wf(),
        ensures
            !valid_queue_size(queue_size) ==> r == Err::<Self, VirtQueueError>(
                VirtQueueError::InvalidQueueSize,
            ),
            valid_queue_size(queue_size) && !memory.contains_range(
                base.0,
                SplitVirtQueueLayout::spec_new(queue_size).total_size as int,
            ) ==> r == Err::<Self, VirtQueueError>(
                VirtQueueError::GuestMemory(GuestMemoryError::OutOfBounds),
            ),
            valid_queue_size(queue_size) && memory.contains_range(
                base.0,
                SplitVirtQueueLayout::spec_new(queue_size).total_size as int,
            ) ==> (r matches Ok(q) && q.wf() && q@ == (QueueView {
                mem: splice(
                    memory.bytes(),
                    memory.rel(base.0),
                    Seq::new(
                        SplitVirtQueueLayout::spec_new(queue_size).total_size as nat,
                        |i: int| 0u8,
                    ),
                ),
                mem_start: memory.start(),
                base: base.0,
                layout: SplitVirtQueueLayout::spec_new(queue_size),
                free: Seq::new(queue_size as nat, |i: int| true),
                next_avail: 0,
                last_used: 0,
            }) && q@.avail_idx() == 0 && q@.used_idx() == 0 && q@.spec_pop_available().1 is None
                && q@.spec_pop_used().1 is None),
    {
        let layout = match SplitVirtQueueLayout::new(queue_size) {
            Ok(l) => l,
            Err(e) => return Err(e),
        };
        let mut queue = Self {
            memory,
            base,
            layout,
            free: vec![true; queue_size as usize],
            next_avail: 0,
            last_used: 0,
        };
        let ghost before = queue@;
        match queue.initialize() {
            Ok(()) => {},
            Err(e) => return Err(e),
        }
        assert(queue@.free =~= Seq::new(queue_size as nat, |i: int| true));
        proof {
            let v = queue@;
            lemma_layout_regions(queue_size);
            let q0 = v.q0();
            let total = v.layout.total_size as int;
            let zs = Seq::new(total as nat, |i: int| 0u8);
            let m0 = before.mem;
            assert(v.mem == splice(m0, q0, zs));
            assert forall|k: int| q0 <= k < q0 + total implies v.mem[k] == 0u8 by {
                assert(v.mem[k] == zs[k - q0]);
            }
            lemma_zero_u16(v.mem, v.avail_idx_off());
            lemma_zero_u16(v.mem, v.used_idx_off());
        }
        Ok(queue)
    }

    pub fn queue_size(&self) -> (n: u16)
        ensures
            n == self@.layout.queue_size,
    {
        self.layout.queue_size
    }

    pub fn layout(&self) -> (l: SplitVirtQueueLayout)
        ensures
            l == self@.layout,
    {
        self.layout
    }

    pub fn memory(&self) -> (m: &GuestMemory)
        ensures
            m.bytes() == self@.mem,
            m.start() == self@.mem_start,
    {
        &self.memory
    }

    /// Direct access to guest memory, as the other side of the queue has it.
    pub fn memory_mut(&mut self) -> (m: &mut GuestMemory)
        requires
            old(self).wf(),
        ensures
            m.wf(),
            m.bytes() == old(self)@.mem,
            m.start() == old(self)@.mem_start,
            final(self)@ == (QueueView {
                mem: final(m).bytes(),
                mem_start: final(m).start(),
                ..old(self)@
            }),
    {
        &mut self.memory
    }

    pub fn base(&self) -> (a: GuestAddress)
        ensures
            a.0 == self@.base,
    {
        self.base
    }

    /// Whether descriptor `index` may be handed out by `add_chain`; `false`
    /// for an index outside the table.
    pub fn is_free(&self, index: u16) -> (r: bool)
        ensures
            r == (index < self@.free.len() && self@.free[index as int]),
    {
        if (index as usize) < self.free.len() {
            self.free[index as usize]
        } else {
            false
        }
    }

    fn initialize(&mut self) -> (r: Result<(), VirtQueueError>)
        requires
            old(self).memory.wf(),
            old(self).layout.wf(),
            old(self).free@.len() == old(self).layout.queue_size,
        ensures
            old(self).memory.contains_range(old(self).base.0, old(self).layout.total_size as int)
                ==> r is Ok && final(self).wf() && final(self)@ == old(self)@.with_mem(
                splice(
                    old(self)@.mem,
                    old(self)@.q0(),
                    Seq::new(old(self).layout.total_size as nat, |i: int| 0u8),
                ),
            ),
            !old(self).memory.contains_range(old(self).base.0, old(self).layout.total_size as int)
                ==> r == Err::<(), VirtQueueError>(
                VirtQueueError::GuestMemory(GuestMemoryError::OutOfBounds),
            ),
    {
        let zeros = vec![0u8; self.layout.total_size];
        assert(zeros@ =~= Seq::new(self.layout.total_size as nat, |i: int| 0u8));
        match self.memory.write(self.base, zeros.as_slice()) {
            Ok(()) => Ok(()),
            Err(e) => Err(VirtQueueError::GuestMemory(e)),
        }
    }
}


/// A write into memory leaves every byte range it does not touch as it was,
/// and reading the written range gives back what was written.
pub proof fn lemma_splice_frame(s: Seq<u8>, at: int, b: Seq<u8>)
    requires
        0 <= at,
        at + b.len() <= s.len(),
    ensures
        splice(s, at, b).len() == s.len(),
        splice(s, at, b).subrange(at, at + b.len()) == b,
        forall|lo: int, hi: int|
            0 <= lo <= hi <= s.len() && (hi <= at || at + b.len() <= lo) ==> #[trigger] splice(
                s,
                at,
                b,
            ).subrange(lo, hi) == s.subrange(lo, hi),
{
    assert(splice(s, at, b).subrange(at, at + b.len()) =~= b);
    assert forall|lo: int, hi: int|
        0 <= lo <= hi <= s.len() && (hi <= at || at + b.len() <= lo) implies #[trigger] splice(
        s,
        at,
        b,
    ).subrange(lo, hi) == s.subrange(lo, hi) by {
        assert(splice(s, at, b).subrange(lo, hi) =~= s.subrange(lo, hi));
    }
}

impl QueueView {
    /// The queue after the driver publishes `head` in the available ring: the
    /// slot at the current index takes `head`, then the index advances
    /// (wrapping).
    pub open spec fn spec_add_available(self, head: u16) -> QueueView {
        let idx = self.avail_idx();
        let slot = idx % self.layout.queue_size;
        let m1 = splice(self.mem, self.ring_off(slot as int), le16(head));
        self.with_mem(splice(m1, self.avail_idx_off(), le16(idx.wrapping_add(1))))
    }

    /// The device side takes the next available head, if the driver has
    /// published one it has not taken yet.
    pub open spec fn spec_pop_available(self) -> (QueueView, Option<u16>) {
        if self.next_avail == self.avail_idx() {
            (self, None)
        } else {
            (
                QueueView { next_avail: self.next_avail.wrapping_add(1), ..self },
                Some(self.avail_ring((self.next_avail % self.layout.queue_size) as int)),
            )
        }
    }

    /// The queue after the device returns element `(id, len)` in the used
    /// ring: the element at the current index, then the index advances
    /// (wrapping).
    pub open spec fn spec_push_used(self, id: u32, len: u32) -> QueueView {
        let idx = self.used_idx();
        let slot = (idx % self.layout.queue_size) as int;
        let m1 = splice(self.mem, self.used_elem_off(slot), le32(id));
        let m2 = splice(m1, self.used_elem_off(slot) + 4, le32(len));
        self.with_mem(splice(m2, self.used_idx_off(), le16(idx.wrapping_add(1))))
    }
}

impl SplitVirtQueue {
    proof fn lemma_wf_facts(&self)
        requires
            self.wf(),
        ensures
            self.memory.wf(),
            self@.q0() >= 0,
            self.base.0 + self.layout.total_size <= u64::MAX,
            self@.qs() > 0,
            ({
                let l = self.layout;
                &&& l.descriptor_offset == 0
                &&& l.available_offset == 16 * l.queue_size
                &&& l.used_offset % 4 == 0
                &&& l.available_offset + 6 + 2 * l.queue_size <= l.used_offset
                &&& l.total_size == l.used_offset + 6 + 8 * l.queue_size
                &&& l.total_size <= 32 * 32768 + 16
            }),
    {
        lemma_layout_regions(self.layout.queue_size);
    }

    fn available_idx_address(&self) -> (a: GuestAddress)
        requires
            self.wf(),
        ensures
            self.memory.rel(a.0) == self@.avail_idx_off(),
            self.memory.contains_range(a.0, 2),
    {
        proof {
            self.lemma_wf_facts();
        }
        self.layout.available_address(self.base).offset(2)
    }

    fn available_ring_address(&self, index: u16) -> (a: GuestAddress)
        requires
            self.wf(),
            index < self.layout.queue_size,
        ensures
            self.memory.rel(a.0) == self@.ring_off(index as int),
            self.memory.contains_range(a.0, 2),
    {
        proof {
            self.lemma_wf_facts();
        }
        self.layout.available_address(self.base).offset(4 + 2 * index as usize)
    }

    fn used_idx_address(&self) -> (a: GuestAddress)
        requires
            self.wf(),
        ensures
            self.memory.rel(a.0) == self@.used_idx_off(),
            self.memory.contains_range(a.0, 2),
    {
        proof {
            self.lemma_wf_facts();
        }
        self.layout.used_address(self.base).offset(2)
    }

    fn used_element_address(&self, index: u16) -> (a: GuestAddress)
        requires
            self.wf(),
            index < self.layout.queue_size,
        ensures
            self.memory.rel(a.0) == self@.used_elem_off(index as int),
            self.memory.contains_range(a.0, 8),
            a.0 + 4 <= u64::MAX,
    {
        proof {
            self.lemma_wf_facts();
        }
        self.layout.used_address(self.base).offset(4 + 8 * index as usize)
    }

    /// Descriptor `index` of the table.
    pub fn descriptor(&self, index: u16) -> (r: Result<Descriptor, VirtQueueError>)
        requires
            self.wf(),
        ensures
            index >= self@.layout.queue_size ==> r == Err::<Descriptor, VirtQueueError>(
                VirtQueueError::InvalidDescriptor,
            ),
            index < self@.layout.queue_size ==> r == Ok::<Descriptor, VirtQueueError>(
                self@.desc_at(index as int),
            ),
    {
        proof {
            self.lemma_wf_facts();
        }
        let addr = match self.layout.descriptor_address(self.base, index) {
            Ok(a) => a,
            Err(e) => return Err(e),
        };
        let bytes = match self.memory.read(addr, 16) {
            Ok(b) => b,
            Err(e) => return Err(VirtQueueError::GuestMemory(e)),
        };
        match Descriptor::decode_le(bytes.as_slice()) {
            Some(d) => Ok(d),
            None => Err(VirtQueueError::InvalidDescriptor),
        }
    }

    /// Writes descriptor `index` of the table.
    pub fn set_descriptor(&mut self, index: u16, descriptor: Descriptor) -> (r: Result<
        (),
        VirtQueueError,
    >)
        requires
            old(self).wf(),
        ensures
            final(self).wf(),
            index >= old(self)@.layout.queue_size ==> r == Err::<(), VirtQueueError>(
                VirtQueueError::InvalidDescriptor,
            ) && final(self)@ == old(self)@,
            index < old(self)@.layout.queue_size ==> r is Ok && final(self)@ == old(self)@.with_mem(
                splice(old(self)@.mem, old(self)@.desc_off(index as int), descriptor.spec_bytes()),
            ),
    {
        proof {
            self.lemma_wf_facts();
            lemma_descriptor_round_trip(descriptor, Seq::empty());
        }
        let addr = match self.layout.descriptor_address(self.base, index) {
            Ok(a) => a,
            Err(e) => return Err(e),
        };
        let bytes = descriptor.encode_le();
        match self.memory.write(addr, &bytes) {
            Ok(()) => Ok(()),
            Err(e) => Err(VirtQueueError::GuestMemory(e)),
        }
    }

    /// The available ring's index.
    pub fn available_index(&self) -> (r: Result<u16, VirtQueueError>)
        requires
            self.wf(),
        ensures
            r == Ok::<u16, VirtQueueError>(self@.avail_idx()),
    {
        match self.memory.read_u16(self.available_idx_address()) {
            Ok(v) => Ok(v),
            Err(e) => Err(VirtQueueError::GuestMemory(e)),
        }
    }

    /// Publishes descriptor `head` in the available ring.
    pub fn add_available(&mut self, head: u16) -> (r: Result<(), VirtQueueError>)
        requires
            old(self).wf(),
        ensures
            final(self).wf(),
            head >= old(self)@.layout.queue_size ==> r == Err::<(), VirtQueueError>(
                VirtQueueError::InvalidDescriptor,
            ) && final(self)@ == old(self)@,
            head < old(self)@.layout.queue_size ==> r is Ok && final(self)@ == old(self)@.spec_add_available(head),
    {
        if head >= self.queue_size() {
            return Err(VirtQueueError::InvalidDescriptor);
        }
        let idx = match self.available_index() {
            Ok(i) => i,
            Err(e) => return Err(e),
        };
        let slot = idx % self.queue_size();
        let ring = self.available_ring_address(slot);
        match self.memory.write_u16(ring, head) {
            Ok(()) => {},
            Err(e) => return Err(VirtQueueError::GuestMemory(e)),
        }
        release_fence();
        let idx_addr = self.available_idx_address();
        match self.memory.write_u16(idx_addr, idx.wrapping_add(1)) {
            Ok(()) => {},
            Err(e) => return Err(VirtQueueError::GuestMemory(e)),
        }
        Ok(())
    }

    /// Takes the next head the driver published, if any.
    pub fn pop_available(&mut self) -> (r: Result<Option<u16>, VirtQueueError>)
        requires
            old(self).wf(),
        ensures
            final(self).wf(),
            r == Ok::<Option<u16>, VirtQueueError>(old(self)@.spec_pop_available().1),
            final(self)@ == old(self)@.spec_pop_available().0,
    {
        let avail_idx = match self.available_index() {
            Ok(i) => i,
            Err(e) => return Err(e),
        };
        if self.next_avail == avail_idx {
            return Ok(None);
        }
        let slot = self.next_avail % self.queue_size();
        let head = match self.memory.read_u16(self.available_ring_address(slot)) {
            Ok(h) => h,
            Err(e) => return Err(VirtQueueError::GuestMemory(e)),
        };
        self.next_avail = self.next_avail.wrapping_add(1);
        Ok(Some(head))
    }

    /// Takes the next head the driver published, as a chain.
    pub fn pop_chain(&mut self) -> (r: Result<Option<DescriptorChain>, VirtQueueError>)
        requires
            old(self).wf(),
        ensures
            final(self).wf(),
            r == Ok::<Option<DescriptorChain>, VirtQueueError>(
                match old(self)@.spec_pop_available().1 {
                    Some(h) => Some(DescriptorChain { head: h }),
                    None => None,
                },
            ),
            final(self)@ == old(self)@.spec_pop_available().0,
    {
        match self.pop_available() {
            Ok(Some(h)) => Ok(Some(DescriptorChain::new(h))),
            Ok(None) => Ok(None),
            Err(e) => Err(e),
        }
    }

    /// The used ring's index.
    pub fn used_index(&self) -> (r: Result<u16, VirtQueueError>)
        requires
            self.wf(),
        ensures
            r == Ok::<u16, VirtQueueError>(self@.used_idx()),
    {
        acquire_fence();
        match self.memory.read_u16(self.used_idx_address()) {
            Ok(v) => Ok(v),
            Err(e) => Err(VirtQueueError::GuestMemory(e)),
        }
    }

    /// Writes element `(id, len)` at the used index and advances it.
    fn write_used(&mut self, id: u32, len: u32) -> (r: Result<(), VirtQueueError>)
        requires
            old(self).wf(),
        ensures
            final(self).wf(),
            r is Ok,
            final(self)@ == old(self)@.spec_push_used(id, len),
    {
        proof {
            self.lemma_wf_facts();
        }
        let used_idx = match self.used_index() {
            Ok(i) => i,
            Err(e) => return Err(e),
        };
        let slot = used_idx % self.queue_size();
        let addr = self.used_element_address(slot);
        match self.memory.write_u32(addr, id) {
            Ok(()) => {},
            Err(e) => return Err(VirtQueueError::GuestMemory(e)),
        }
        match self.memory.write_u32(addr.offset(4), len) {
            Ok(()) => {},
            Err(e) => return Err(VirtQueueError::GuestMemory(e)),
        }
        release_fence();
        let idx_addr = self.used_idx_address();
        match self.memory.write_u16(idx_addr, used_idx.wrapping_add(1)) {
            Ok(()) => {},
            Err(e) => return Err(VirtQueueError::GuestMemory(e)),
        }
        Ok(())
    }

    /// Returns descriptor chain `id` to the driver with `len` bytes written.
    pub fn push_used(&mut self, id: u32, len: u32) -> (r: Result<(), VirtQueueError>)
        requires
            old(self).wf(),
        ensures
            final(self).wf(),
            id >= old(self)@.layout.queue_size ==> r == Err::<(), VirtQueueError>(
                VirtQueueError::InvalidDescriptor,
            ) && final(self)@ == old(self)@,
            id < old(self)@.layout.queue_size ==> r is Ok && final(self)@ == old(self)@.spec_push_used(id, len),
    {
        if id >= self.queue_size() as u32 {
            return Err(VirtQueueError::InvalidDescriptor);
        }
        self.write_used(id, len)
    }

    /// Writes element `(id, len)` in the used ring without checking `id`.
    pub fn add_used(&mut self, id: u32, len: u32) -> (r: Result<(), VirtQueueError>)
        requires
            old(self).wf(),
        ensures
            final(self).wf(),
            r is Ok,
            final(self)@ == old(self)@.spec_push_used(id, len),
    {
        self.write_used(id, len)
    }
}

#[derive(Debug, Clone, Copy)]
pub struct DescriptorChain {
    pub head: u16,
}

impl DescriptorChain {
    pub fn new(head: u16) -> (c: Self)
        ensures
            c.head == head,
    {
        Self { head }
    }
}


impl QueueView {
    /// The descriptor indices of the chain that starts at `i`, following
    /// `next` through at most `fuel` descriptors; `None` when an index leaves
    /// the table or the fuel runs out first (a cycle).
    pub open spec fn chain_from(self, i: int, fuel: nat) -> Option<Seq<u16>>
        decreases fuel,
    {
        if i < 0 || i >= self.qs() || fuel == 0 {
            None
        } else if !self.desc_at(i).has_next() {
            Some(seq![i as u16])
        } else {
            match self.chain_from(self.desc_at(i).next as int, (fuel - 1) as nat) {
                Some(rest) => Some(seq![i as u16] + rest),
                None => None,
            }
        }
    }

    /// The chain that starts at `head`: at most one descriptor per table entry.
    pub open spec fn chain(self, head: int) -> Option<Seq<u16>> {
        self.chain_from(head, self.qs() as nat)
    }

    /// The free flags with every index of `idx` set.
    pub open spec fn freed(free: Seq<bool>, idx: Seq<u16>) -> Seq<bool> {
        Seq::new(free.len(), |j: int| free[j] || idx.contains(j as u16))
    }

    /// The driver side takes the next used element, if the device has
    /// returned one it has not taken yet, and frees the descriptors of the
    /// chain it names (only its head, if the chain is broken).
    pub open spec fn spec_pop_used(self) -> (QueueView, Option<UsedElement>) {
        if self.last_used == self.used_idx() {
            (self, None)
        } else {
            let e = self.used_elem((self.last_used % self.layout.queue_size) as int);
            let free = if e.id < self.qs() {
                match self.chain(e.id as int) {
                    Some(idx) => Self::freed(self.free, idx),
                    None => self.free.update(e.id as int, true),
                }
            } else {
                self.free
            };
            (QueueView { last_used: self.last_used.wrapping_add(1), free, ..self }, Some(e))
        }
    }
}

proof fn lemma_chain_from_bounds(v: QueueView, i: int, fuel: nat)
    ensures
        v.chain_from(i, fuel) matches Some(idx) ==> idx.len() >= 1 && idx.len() <= fuel && idx[0]
            == i && forall|k: int| 0 <= k < idx.len() ==> #[trigger] idx[k] < v.qs(),
    decreases fuel,
{
    if 0 <= i < v.qs() && fuel > 0 && v.desc_at(i).has_next() {
        lemma_chain_from_bounds(v, v.desc_at(i).next as int, (fuel - 1) as nat);
        if let Some(rest) = v.chain_from(v.desc_at(i).next as int, (fuel - 1) as nat) {
            let idx = seq![i as u16] + rest;
            assert forall|k: int| 0 <= k < idx.len() implies #[trigger] idx[k] < v.qs() by {
                if k > 0 {
                    assert(idx[k] == rest[k - 1]);
                }
            }
        }
    }
}

/// A chain depends only on the descriptor table.
proof fn lemma_chain_same_table(v1: QueueView, v2: QueueView, i: int, fuel: nat)
    requires
        v1.mem == v2.mem,
        v1.mem_start == v2.mem_start,
        v1.base == v2.base,
        v1.layout == v2.layout,
    ensures
        v1.chain_from(i, fuel) == v2.chain_from(i, fuel),
    decreases fuel,
{
    if fuel > 0 && 0 <= i < v1.qs() {
        lemma_chain_same_table(v1, v2, v1.desc_at(i).next as int, (fuel - 1) as nat);
    }
}

impl SplitVirtQueue {
    /// The descriptors of the chain that starts at `head`, in order, each with
    /// its index. A chain that leaves the table or is longer than the queue
    /// (a cycle) is refused.
    pub fn descriptor_chain(&self, head: u16) -> (r: Result<Vec<(u16, Descriptor)>, VirtQueueError>)
        requires
            self.wf(),
        ensures
            match self@.chain(head as int) {
                None => r == Err::<Vec<(u16, Descriptor)>, VirtQueueError>(
                    VirtQueueError::InvalidDescriptor,
                ),
                Some(idx) => r matches Ok(v) && v@.len() == idx.len() && forall|k: int|
                    0 <= k < idx.len() ==> #[trigger] v@[k] == (idx[k], self@.desc_at(idx[k] as int)),
            },
    {
        let qs = self.queue_size();
        if head >= qs {
            return Err(VirtQueueError::InvalidDescriptor);
        }
        let mut chain: Vec<(u16, Descriptor)> = Vec::new();
        let mut current = head;
        let ghost mut prefix: Seq<u16> = Seq::empty();
        let mut k: u16 = 0;
        while k < qs
            invariant
                self.wf(),
                qs == self@.layout.queue_size,
                k <= qs,
                current < qs,
                prefix.len() == k,
                chain@.len() == k,
                forall|j: int|
                    0 <= j < k ==> #[trigger] chain@[j] == (prefix[j], self@.desc_at(prefix[j] as int)),
                self@.chain(head as int) == match self@.chain_from(current as int, (qs - k) as nat) {
                    Some(rest) => Some(prefix + rest),
                    None => None::<Seq<u16>>,
                },
            decreases qs - k,
        {
            let descriptor = match self.descriptor(current) {
                Ok(d) => d,
                Err(e) => return Err(e),
            };
            chain.push((current, descriptor));
            let ghost old_prefix = prefix;
            proof {
                prefix = prefix.push(current);
            }
            if descriptor.flags & DESC_F_NEXT == 0 {
                assert(prefix =~= old_prefix + seq![current]);
                return Ok(chain);
            }
            let next = descriptor.next;
            if next >= qs {
                return Err(VirtQueueError::InvalidDescriptor);
            }
            proof {
                let rest = self@.chain_from(next as int, (qs - k - 1) as nat);
                if let Some(r) = rest {
                    assert(old_prefix + (seq![current] + r) =~= prefix + r);
                }
            }
            current = next;
            k = k + 1;
        }
        // The chain is longer than the queue: it must loop.
        Err(VirtQueueError::InvalidDescriptor)
    }

    /// Takes the next used element, if any, and frees the descriptors of the
    /// chain it returns.
    pub fn pop_used(&mut self) -> (r: Result<Option<UsedElement>, VirtQueueError>)
        requires
            old(self).wf(),
        ensures
            final(self).wf(),
            r == Ok::<Option<UsedElement>, VirtQueueError>(old(self)@.spec_pop_used().1),
            final(self)@ == old(self)@.spec_pop_used().0,
    {
        proof {
            self.lemma_wf_facts();
        }
        let used_idx = match self.used_index() {
            Ok(i) => i,
            Err(e) => return Err(e),
        };
        if self.last_used == used_idx {
            return Ok(None);
        }
        let qs = self.queue_size();
        let slot = self.last_used % qs;
        let addr = self.used_element_address(slot);
        let id = match self.memory.read_u32(addr) {
            Ok(v) => v,
            Err(e) => return Err(VirtQueueError::GuestMemory(e)),
        };
        let len = match self.memory.read_u32(addr.offset(4)) {
            Ok(v) => v,
            Err(e) => return Err(VirtQueueError::GuestMemory(e)),
        };
        let ghost before = self@;
        self.last_used = self.last_used.wrapping_add(1);
        proof {
            lemma_chain_same_table(before, self@, id as int, qs as nat);
        }
        if id < qs as u32 {
            let head = id as u16;
            match self.descriptor_chain(head) {
                Ok(chain) => {
                    let ghost idx = self@.chain(head as int)->0;
                    proof {
                        lemma_chain_from_bounds(self@, head as int, qs as nat);
                    }
                    release_chain(&mut self.free, &chain, Ghost(idx));
                },
                Err(_) => {
                    self.free.set(head as usize, true);
                },
            }
        }
        Ok(Some(UsedElement { id, len }))
    }
}


/// Marks free every descriptor that `chain` lists.
fn release_chain(free: &mut Vec<bool>, chain: &Vec<(u16, Descriptor)>, Ghost(idx): Ghost<Seq<u16>>)
    requires
        chain@.len() == idx.len(),
        forall|k: int| 0 <= k < idx.len() ==> #[trigger] chain@[k].0 == idx[k],
        forall|k: int| 0 <= k < idx.len() ==> #[trigger] idx[k] < old(free)@.len(),
        old(free)@.len() <= 0x10000,
    ensures
        final(free)@ == QueueView::freed(old(free)@, idx),
{
    let ghost start = free@;
    let mut i: usize = 0;
    while i < chain.len()
        invariant
            i <= chain@.len(),
            chain@.len() == idx.len(),
            forall|k: int| 0 <= k < idx.len() ==> #[trigger] chain@[k].0 == idx[k],
            forall|k: int| 0 <= k < idx.len() ==> #[trigger] idx[k] < start.len(),
            start.len() <= 0x10000,
            free@ == QueueView::freed(start, idx.take(i as int)),
        decreases chain@.len() - i,
    {
        let index = chain[i].0;
        free.set(index as usize, true);
        proof {
            let t0 = idx.take(i as int);
            let t1 = idx.take(i + 1);
            assert(t1 =~= t0.push(index));
            assert forall|j: int| 0 <= j < start.len() implies #[trigger] free@[j] == (start[j]
                || t1.contains(j as u16)) by {
                assert(t1.contains(j as u16) <==> (t0.contains(j as u16) || index == j as u16)) by {
                    if t1.contains(j as u16) {
                        let k = choose|k: int| 0 <= k < t1.len() && t1[k] == j as u16;
                        if k < i {
                            assert(t0[k] == j as u16);
                        }
                    }
                    if t0.contains(j as u16) {
                        let k = choose|k: int| 0 <= k < t0.len() && t0[k] == j as u16;
                        assert(t1[k] == j as u16);
                    }
                    if index == j as u16 {
                        assert(t1[i as int] == j as u16);
                    }
                }
            }
            assert(free@ =~= QueueView::freed(start, t1));
        }
        i += 1;
    }
    assert(idx.take(idx.len() as int) =~= idx);
}


/// The indices below `n` whose flag in `free` is set, ascending.
pub open spec fn free_prefix(free: Seq<bool>, n: int) -> Seq<u16>
    decreases n,
{
    if n <= 0 {
        Seq::empty()
    } else if free[n - 1] {
        free_prefix(free, n - 1).push((n - 1) as u16)
    } else {
        free_prefix(free, n - 1)
    }
}

/// The free descriptor indices, ascending.
pub open spec fn free_indices(free: Seq<bool>) -> Seq<u16> {
    free_prefix(free, free.len() as int)
}

/// The free indices below `n` are ascending, below `n`, and free.
pub proof fn lemma_free_prefix(free: Seq<bool>, n: int)
    requires
        0 <= n <= free.len() <= 0x10000,
    ensures
        free_prefix(free, n).len() <= n,
        forall|k: int|
            0 <= k < free_prefix(free, n).len() ==> (#[trigger] free_prefix(free, n)[k] as int) < n
                && free[free_prefix(free, n)[k] as int],
        forall|a: int, b: int|
            0 <= a < b < free_prefix(free, n).len() ==> #[trigger] free_prefix(free, n)[a]
                < #[trigger] free_prefix(free, n)[b],
        forall|j: int|
            0 <= j < n && free[j] ==> #[trigger] free_prefix(free, n).contains(j as u16),
    decreases n,
{
    if n > 0 {
        lemma_free_prefix(free, n - 1);
        let p = free_prefix(free, n - 1);
        if free[n - 1] {
            let q = p.push((n - 1) as u16);
            assert forall|j: int| 0 <= j < n && free[j] implies #[trigger] q.contains(j as u16) by {
                if j < n - 1 {
                    assert(p.contains(j as u16));
                    let k = choose|k: int| 0 <= k < p.len() && p[k] == j as u16;
                    assert(q[k] == j as u16);
                } else {
                    assert(q[p.len() as int] == j as u16);
                }
            }
        }
    }
}

/// The free indices below `i` start the free indices below `n`.
pub proof fn lemma_free_prefix_grows(free: Seq<bool>, i: int, n: int)
    requires
        0 <= i <= n <= free.len(),
    ensures
        free_prefix(free, i).len() <= free_prefix(free, n).len(),
        free_prefix(free, n).subrange(0, free_prefix(free, i).len() as int) == free_prefix(free, i),
    decreases n - i,
{
    if i < n {
        lemma_free_prefix_grows(free, i, n - 1);
        let a = free_prefix(free, i);
        let b = free_prefix(free, n - 1);
        let c = free_prefix(free, n);
        assert(c.subrange(0, a.len() as int) =~= b.subrange(0, a.len() as int));
    } else {
        assert(free_prefix(free, n).subrange(0, free_prefix(free, n).len() as int) =~= free_prefix(
            free,
            n,
        ));
    }
}

/// The free flags with every index of `idx` cleared.
pub open spec fn taken(free: Seq<bool>, idx: Seq<u16>) -> Seq<bool> {
    Seq::new(free.len(), |j: int| free[j] && !idx.contains(j as u16))
}

impl SplitVirtQueue {
    /// Takes the `count` lowest free descriptors; fails, taking none, when
    /// `count` is 0, exceeds the queue size, or fewer are free.
    fn allocate_descriptors(&mut self, count: usize) -> (r: Result<Vec<u16>, VirtQueueError>)
        requires
            old(self).wf(),
        ensures
            final(self).wf(),
            ({
                let avail = free_indices(old(self)@.free);
                if count == 0 || count > old(self)@.qs() || avail.len() < count {
                    r == Err::<Vec<u16>, VirtQueueError>(VirtQueueError::QueueFull) && final(self)@
                        == old(self)@
                } else {
                    r matches Ok(v) && v@ == avail.take(count as int) && final(self)@ == (QueueView {
                        free: taken(old(self)@.free, v@),
                        ..old(self)@
                    })
                }
            }),
    {
        let qs = self.queue_size() as usize;
        if count == 0 || count > qs {
            return Err(VirtQueueError::QueueFull);
        }
        proof {
            lemma_free_prefix(self.free@, qs as int);
        }
        let mut descriptors: Vec<u16> = Vec::new();
        let mut i: usize = 0;
        while i < qs && descriptors.len() < count
            invariant
                i <= qs,
                qs == self.free@.len(),
                qs <= 32768,
                descriptors.len() <= count,
                descriptors@ == free_prefix(self.free@, i as int),
            decreases qs - i,
        {
            if self.free[i] {
                descriptors.push(i as u16);
            }
            i += 1;
        }
        proof {
            lemma_free_prefix_grows(self.free@, i as int, qs as int);
            lemma_free_prefix(self.free@, qs as int);
        }
        if descriptors.len() != count {
            return Err(VirtQueueError::QueueFull);
        }
        take_descriptors(&mut self.free, &descriptors);
        Ok(descriptors)
    }
}

/// Clears the free flag of every index in `descriptors`.
fn take_descriptors(free: &mut Vec<bool>, descriptors: &Vec<u16>)
    requires
        forall|a: int|
            0 <= a < descriptors@.len() ==> (#[trigger] descriptors@[a] as int) < old(free)@.len(),
        old(free)@.len() <= 0x10000,
    ensures
        final(free)@ == taken(old(free)@, descriptors@),
{
    let ghost start = free@;
    let ghost d = descriptors@;
    let mut k: usize = 0;
    while k < descriptors.len()
        invariant
            k <= descriptors@.len(),
            descriptors@ == d,
            forall|a: int| 0 <= a < d.len() ==> (#[trigger] d[a] as int) < start.len(),
            start.len() <= 0x10000,
            free@ == taken(start, d.take(k as int)),
        decreases descriptors@.len() - k,
    {
        let index = descriptors[k];
        free.set(index as usize, false);
        proof {
            let t0 = d.take(k as int);
            let t1 = d.take(k + 1);
            assert(t1 =~= t0.push(index));
            assert forall|j: int| 0 <= j < start.len() implies #[trigger] free@[j] == (
            start[j] && !t1.contains(j as u16)) by {
                assert(t1.contains(j as u16) <==> (t0.contains(j as u16) || index == j as u16))
                    by {
                    if t1.contains(j as u16) {
                        let a = choose|a: int| 0 <= a < t1.len() && t1[a] == j as u16;
                        if a < k {
                            assert(t0[a] == j as u16);
                        }
                    }
                    if t0.contains(j as u16) {
                        let a = choose|a: int| 0 <= a < t0.len() && t0[a] == j as u16;
                        assert(t1[a] == j as u16);
                    }
                    if index == j as u16 {
                        assert(t1[k as int] == j as u16);
                    }
                }
            }
            assert(free@ =~= taken(start, t1));
        }
        k += 1;
    }
    assert(d.take(d.len() as int) =~= d);
}


/// Descriptor `p` of `descs` as it is written into a chain over the table
/// entries `idx`: linked to the next entry, or, for the last, ending the chain.
pub open spec fn linked(descs: Seq<Descriptor>, idx: Seq<u16>, p: int) -> Descriptor {
    if p + 1 < descs.len() {
        Descriptor { flags: descs[p].flags | DESC_F_NEXT, next: idx[p + 1], ..descs[p] }
    } else {
        Descriptor { flags: descs[p].flags & !DESC_F_NEXT, next: 0, ..descs[p] }
    }
}

impl QueueView {
    /// Memory after the first `p` descriptors of a chain are written.
    pub open spec fn write_chain(self, descs: Seq<Descriptor>, idx: Seq<u16>, p: int) -> Seq<u8>
        decreases p,
    {
        if p <= 0 {
            self.mem
        } else {
            splice(
                self.write_chain(descs, idx, p - 1),
                self.desc_off(idx[p - 1] as int),
                linked(descs, idx, p - 1).spec_bytes(),
            )
        }
    }

    /// Adding the chain `descs`: it takes the lowest free table entries, one
    /// per descriptor, writes the descriptors linked in order, and publishes
    /// the first entry in the available ring. An empty chain is refused; a
    /// chain longer than the free entries leaves the queue full.
    pub open spec fn spec_add_chain(self, descs: Seq<Descriptor>) -> (
        QueueView,
        Result<u16, VirtQueueError>,
    ) {
        let n = descs.len() as int;
        let avail = free_indices(self.free);
        if n == 0 {
            (self, Err(VirtQueueError::InvalidDescriptor))
        } else if n > self.qs() || avail.len() < n {
            (self, Err(VirtQueueError::QueueFull))
        } else {
            let idx = avail.take(n);
            let v1 = QueueView {
                mem: self.write_chain(descs, idx, n),
                free: taken(self.free, idx),
                ..self
            };
            (v1.spec_add_available(idx[0]), Ok(idx[0]))
        }
    }
}

/// Writing a chain depends only on the memory and the table's place in it.
proof fn lemma_write_chain_same_table(
    v1: QueueView,
    v2: QueueView,
    descs: Seq<Descriptor>,
    idx: Seq<u16>,
    p: int,
)
    requires
        v1.mem == v2.mem,
        v1.mem_start == v2.mem_start,
        v1.base == v2.base,
        v1.layout == v2.layout,
    ensures
        v1.write_chain(descs, idx, p) == v2.write_chain(descs, idx, p),
    decreases p,
{
    if p > 0 {
        lemma_write_chain_same_table(v1, v2, descs, idx, p - 1);
    }
}

impl SplitVirtQueue {
    /// Adds the chain `descs` and publishes it; returns its head.
    pub fn add_chain(&mut self, descriptors: &[Descriptor]) -> (r: Result<u16, VirtQueueError>)
        requires
            old(self).wf(),
        ensures
            final(self).wf(),
            (final(self)@, r) == old(self)@.spec_add_chain(descriptors@),
    {
        if descriptors.len() == 0 {
            return Err(VirtQueueError::InvalidDescriptor);
        }
        let n = descriptors.len();
        let indices = match self.allocate_descriptors(n) {
            Ok(v) => v,
            Err(e) => return Err(e),
        };
        proof {
            lemma_free_prefix(old(self)@.free, old(self)@.qs());
        }
        let ghost v0 = self@;
        let ghost idx = indices@;
        let mut position: usize = 0;
        while position < n
            invariant
                n == descriptors@.len(),
                n == idx.len(),
                indices@ == idx,
                position <= n,
                self.wf(),
                v0.wf(),
                forall|a: int| 0 <= a < idx.len() ==> (#[trigger] idx[a] as int) < v0.qs(),
                self@ == (QueueView {
                    mem: v0.write_chain(descriptors@, idx, position as int),
                    ..v0
                }),
            decreases n - position,
        {
            let mut descriptor = descriptors[position];
            if position + 1 < n {
                descriptor.flags = descriptor.flags | DESC_F_NEXT;
                descriptor.next = indices[position + 1];
            } else {
                descriptor.flags = descriptor.flags & !DESC_F_NEXT;
                descriptor.next = 0;
            }
            assert(descriptor == linked(descriptors@, idx, position as int));
            match self.set_descriptor(indices[position], descriptor) {
                Ok(()) => {},
                Err(e) => return Err(e),
            }
            position += 1;
        }
        proof {
            lemma_write_chain_same_table(v0, old(self)@, descriptors@, idx, n as int);
        }
        let head = indices[0];
        match self.add_available(head) {
            Ok(()) => {},
            Err(e) => return Err(e),
        }
        Ok(head)
    }
}


impl QueueView {
    /// Whether `[addr, addr + len)` lies inside guest memory.
    pub open spec fn mem_contains(self, addr: u64, len: int) -> bool {
        self.mem_start <= addr && addr - self.mem_start + len <= self.mem.len()
    }

    /// The bytes the descriptors of the chain at `i` point to, concatenated,
    /// reading at most `fuel` descriptors (`None` when the walk would go on
    /// past that: the chain loops). The walk stops with an error at an index
    /// outside the table or a buffer outside guest memory.
    pub open spec fn read_walk(self, i: int, fuel: nat) -> Option<Result<Seq<u8>, VirtQueueError>>
        decreases fuel,
    {
        if fuel == 0 {
            None
        } else if i < 0 || i >= self.qs() {
            Some(Err(VirtQueueError::InvalidDescriptor))
        } else {
            let d = self.desc_at(i);
            if d.len > 0 && !self.mem_contains(d.addr.0, d.len as int) {
                Some(Err(VirtQueueError::GuestMemory(GuestMemoryError::OutOfBounds)))
            } else {
                let data = if d.len > 0 {
                    self.mem.subrange(d.addr.0 - self.mem_start, d.addr.0 - self.mem_start + d.len)
                } else {
                    Seq::empty()
                };
                if !d.has_next() {
                    Some(Ok(data))
                } else {
                    match self.read_walk(d.next as int, (fuel - 1) as nat) {
                        None => None,
                        Some(Err(e)) => Some(Err(e)),
                        Some(Ok(rest)) => Some(Ok(data + rest)),
                    }
                }
            }
        }
    }

    /// The walk of the chain at `head`: it ends within one step per table
    /// entry plus one, or it never ends.
    pub open spec fn read_chain_result(self, head: int) -> Option<Result<Seq<u8>, VirtQueueError>> {
        self.read_walk(head, (self.qs() + 1) as nat)
    }
}

/// A walk that has at least as much fuel as a chain needs ends.
proof fn lemma_walk_ends(v: QueueView, i: int, fuel: nat, f: nat)
    requires
        v.chain_from(i, fuel) is Some,
        f >= fuel,
    ensures
        v.read_walk(i, f) is Some,
    decreases fuel,
{
    let d = v.desc_at(i);
    if d.has_next() {
        lemma_walk_ends(v, d.next as int, (fuel - 1) as nat, (f - 1) as nat);
    }
}

/// A chain that `descriptor_chain` accepts (one that ends inside the table
/// within one descriptor per entry) can be read: its walk ends.
pub proof fn lemma_chain_can_be_read(v: QueueView, head: int)
    requires
        v.chain(head) is Some,
    ensures
        v.read_chain_result(head) is Some,
{
    lemma_walk_ends(v, head, v.qs() as nat, (v.qs() + 1) as nat);
}

/// The bytes of the buffer that `d` describes: `d.len` bytes of guest memory
/// from guest address `d.addr`.
pub open spec fn buffer_bytes(v: QueueView, d: Descriptor) -> Seq<u8> {
    if d.len == 0 {
        Seq::empty()
    } else {
        v.mem.subrange(d.addr.0 - v.mem_start, d.addr.0 - v.mem_start + d.len)
    }
}

/// The buffers of the descriptors `idx`, in order, one after the other.
pub open spec fn chain_bytes(v: QueueView, idx: Seq<u16>) -> Seq<u8>
    decreases idx.len(),
{
    if idx.len() == 0 {
        Seq::empty()
    } else {
        buffer_bytes(v, v.desc_at(idx[0] as int)) + chain_bytes(v, idx.drop_first())
    }
}

/// The sum of the lengths of the descriptors `idx`.
pub open spec fn chain_length(v: QueueView, idx: Seq<u16>) -> int
    decreases idx.len(),
{
    if idx.len() == 0 {
        0
    } else {
        v.desc_at(idx[0] as int).len + chain_length(v, idx.drop_first())
    }
}

/// Every non-empty buffer of the descriptors `idx` lies in guest memory.
pub open spec fn buffers_in_memory(v: QueueView, idx: Seq<u16>) -> bool {
    forall|k: int|
        0 <= k < idx.len() ==> (#[trigger] v.desc_at(idx[k] as int)).len == 0 || v.mem_contains(
            v.desc_at(idx[k] as int).addr.0,
            v.desc_at(idx[k] as int).len as int,
        )
}

/// The gathered buffers are as long as the descriptors say.
proof fn lemma_chain_bytes_length(v: QueueView, idx: Seq<u16>)
    requires
        buffers_in_memory(v, idx),
    ensures
        chain_bytes(v, idx).len() == chain_length(v, idx),
    decreases idx.len(),
{
    if idx.len() > 0 {
        let rest = idx.drop_first();
        assert forall|k: int| 0 <= k < rest.len() implies (#[trigger] v.desc_at(rest[k] as int)).len
            == 0 || v.mem_contains(
            v.desc_at(rest[k] as int).addr.0,
            v.desc_at(rest[k] as int).len as int,
        ) by {
            assert(rest[k] == idx[k + 1]);
            assert(v.desc_at(idx[k + 1] as int) == v.desc_at(rest[k] as int));
        }
        lemma_chain_bytes_length(v, rest);
        assert(v.desc_at(idx[0] as int) == v.desc_at(idx[0] as int));
    }
}

/// The walk from `i` gathers the buffers of the chain from `i`, or stops at
/// the first buffer outside guest memory.
proof fn lemma_walk_gathers(v: QueueView, i: int, fuel: nat, f: nat)
    requires
        v.chain_from(i, fuel) is Some,
        f >= fuel,
    ensures
        ({
            let idx = v.chain_from(i, fuel)->0;
            v.read_walk(i, f) == if buffers_in_memory(v, idx) {
                Some(Ok::<Seq<u8>, VirtQueueError>(chain_bytes(v, idx)))
            } else {
                Some(Err::<Seq<u8>, VirtQueueError>(
                    VirtQueueError::GuestMemory(GuestMemoryError::OutOfBounds),
                ))
            }
        }),
    decreases fuel,
{
    let idx = v.chain_from(i, fuel)->0;
    let d = v.desc_at(i);
    assert(idx[0] == i as u16);
    assert(v.desc_at(idx[0] as int) == d);
    if d.len > 0 && !v.mem_contains(d.addr.0, d.len as int) {
        assert(!buffers_in_memory(v, idx));
    } else if !d.has_next() {
        assert(idx =~= seq![i as u16]);
        assert(idx.drop_first() =~= Seq::<u16>::empty());
        assert(chain_bytes(v, Seq::<u16>::empty()) == Seq::<u8>::empty());
        assert(chain_bytes(v, idx) == buffer_bytes(v, d) + chain_bytes(v, idx.drop_first()));
        assert(chain_bytes(v, idx) =~= buffer_bytes(v, d));
        assert(buffers_in_memory(v, idx));
    } else {
        let next = d.next as int;
        let rest = v.chain_from(next, (fuel - 1) as nat)->0;
        lemma_walk_gathers(v, next, (fuel - 1) as nat, (f - 1) as nat);
        assert(idx == seq![i as u16] + rest);
        assert(idx.drop_first() =~= rest);
        assert(chain_bytes(v, idx) == buffer_bytes(v, d) + chain_bytes(v, rest));
        if buffers_in_memory(v, rest) {
            assert forall|k: int| 0 <= k < idx.len() implies (#[trigger] v.desc_at(
                idx[k] as int,
            )).len == 0 || v.mem_contains(
                v.desc_at(idx[k] as int).addr.0,
                v.desc_at(idx[k] as int).len as int,
            ) by {
                if k > 0 {
                    assert(idx[k] == rest[k - 1]);
                    assert(v.desc_at(rest[k - 1] as int) == v.desc_at(idx[k] as int));
                }
            }
        } else {
            let k = choose|k: int|
                0 <= k < rest.len() && !((#[trigger] v.desc_at(rest[k] as int)).len == 0
                    || v.mem_contains(
                    v.desc_at(rest[k] as int).addr.0,
                    v.desc_at(rest[k] as int).len as int,
                ));
            assert(idx[k + 1] == rest[k]);
            assert(v.desc_at(idx[k + 1] as int) == v.desc_at(rest[k] as int));
            assert(!buffers_in_memory(v, idx));
        }
    }
}

/// Reading a chain gives, for each of its descriptors in chain order, exactly
/// the `len` bytes of guest memory at its `addr`, one after the other, so as
/// many bytes as the descriptors' lengths add up to; if any buffer lies
/// outside guest memory, the read fails with `OutOfBounds`.
pub proof fn lemma_read_chain_gathers_buffers(v: QueueView, head: int)
    requires
        v.chain(head) is Some,
    ensures
        ({
            let idx = v.chain(head)->0;
            &&& buffers_in_memory(v, idx) ==> v.read_chain_result(head) == Some(
                Ok::<Seq<u8>, VirtQueueError>(chain_bytes(v, idx)),
            ) && chain_bytes(v, idx).len() == chain_length(v, idx)
            &&& !buffers_in_memory(v, idx) ==> v.read_chain_result(head) == Some(
                Err::<Seq<u8>, VirtQueueError>(
                    VirtQueueError::GuestMemory(GuestMemoryError::OutOfBounds),
                ),
            )
        }),
{
    let idx = v.chain(head)->0;
    lemma_walk_gathers(v, head, v.qs() as nat, (v.qs() + 1) as nat);
    if buffers_in_memory(v, idx) {
        lemma_chain_bytes_length(v, idx);
    }
}

/// `prefix` in front of the outcome of the rest of a walk.
pub open spec fn after_prefix(
    prefix: Seq<u8>,
    w: Option<Result<Seq<u8>, VirtQueueError>>,
) -> Option<Result<Seq<u8>, VirtQueueError>> {
    match w {
        Some(Ok(rest)) => Some(Ok(prefix + rest)),
        other => other,
    }
}

impl SplitVirtQueue {
    /// The bytes of all the buffers of `chain`, in order. A chain that loops
    /// without ever leaving the table would be walked forever, so it is not
    /// accepted; a chain that `descriptor_chain` returns is
    /// (`lemma_chain_can_be_read`).
    pub fn read_chain(&self, chain: &DescriptorChain) -> (r: Result<Vec<u8>, VirtQueueError>)
        requires
            self.wf(),
            self@.read_chain_result(chain.head as int) is Some,
        ensures
            match self@.read_chain_result(chain.head as int) {
                Some(Ok(bytes)) => r matches Ok(v) && v@ == bytes,
                Some(Err(e)) => r == Err::<Vec<u8>, VirtQueueError>(e),
                None => false,
            },
    {
        let mut data: Vec<u8> = Vec::new();
        let mut index = chain.head;
        let ghost mut fuel: nat = (self@.qs() + 1) as nat;
        loop
            invariant
                self.wf(),
                self@.read_walk(index as int, fuel) is Some,
                self@.read_chain_result(chain.head as int) == after_prefix(
                    data@,
                    self@.read_walk(index as int, fuel),
                ),
            decreases fuel,
        {
            let desc = match self.descriptor(index) {
                Ok(d) => d,
                Err(e) => return Err(e),
            };
            if desc.len > 0 {
                let bytes = match self.memory.read(desc.addr, desc.len as usize) {
                    Ok(b) => b,
                    Err(e) => return Err(VirtQueueError::GuestMemory(e)),
                };
                let ghost before = data@;
                let ghost seg = bytes@;
                let mut bytes = bytes;
                data.append(&mut bytes);
                proof {
                    assert(data@ == before + seg);
                    let rest = self@.read_walk(desc.next as int, (fuel - 1) as nat);
                    if let Some(Ok(r)) = rest {
                        assert((before + seg) + r =~= before + (seg + r));
                    }
                }
            } else {
                proof {
                    assert(data@ + Seq::<u8>::empty() =~= data@);
                    let rest = self@.read_walk(desc.next as int, (fuel - 1) as nat);
                    if let Some(Ok(r)) = rest {
                        assert(data@ + (Seq::<u8>::empty() + r) =~= data@ + r);
                    }
                }
            }
            if desc.flags & DESC_F_NEXT == 0 {
                return Ok(data);
            }
            index = desc.next;
            proof {
                fuel = (fuel - 1) as nat;
            }
        }
    }
}


/// A driver that has handed the device everything it published, publishing
/// `head`, is followed by the device taking exactly `head`, and nothing more.
pub proof fn lemma_available_fifo(v: QueueView, head: u16)
    requires
        v.wf(),
        head < v.qs(),
        v.next_avail == v.avail_idx(),
    ensures
        ({
            let v1 = v.spec_add_available(head);
            let (v2, h) = v1.spec_pop_available();
            &&& v1.wf()
            &&& v1.avail_idx() == v.avail_idx().wrapping_add(1)
            &&& h == Some(head)
            &&& v2.spec_pop_available().1 is None
        }),
{
    lemma_layout_regions(v.layout.queue_size);
    lemma_le_round_trip();
    let idx = v.avail_idx();
    let slot = (idx % v.layout.queue_size) as int;
    let m1 = splice(v.mem, v.ring_off(slot), le16(head));
    lemma_splice_frame(v.mem, v.ring_off(slot), le16(head));
    lemma_splice_frame(m1, v.avail_idx_off(), le16(idx.wrapping_add(1)));
    let v1 = v.spec_add_available(head);
    assert(v1.mem.subrange(v1.avail_idx_off(), v1.avail_idx_off() + 2) == le16(idx.wrapping_add(1)));
    assert(v1.mem.subrange(v1.ring_off(slot), v1.ring_off(slot) + 2) == m1.subrange(
        v1.ring_off(slot),
        v1.ring_off(slot) + 2,
    ));
}

/// A driver that has taken every used element, after the device returns
/// `(id, len)`, takes exactly that element, and nothing more.
pub proof fn lemma_used_fifo(v: QueueView, id: u32, len: u32)
    requires
        v.wf(),
        v.last_used == v.used_idx(),
    ensures
        ({
            let v1 = v.spec_push_used(id, len);
            let (v2, e) = v1.spec_pop_used();
            &&& v1.wf()
            &&& v1.used_idx() == v.used_idx().wrapping_add(1)
            &&& v1.used_elem((v.used_idx() % v.layout.queue_size) as int) == (UsedElement { id, len })
            &&& e == Some(UsedElement { id, len })
            &&& v2.spec_pop_used().1 is None
        }),
{
    lemma_layout_regions(v.layout.queue_size);
    lemma_le_round_trip();
    let idx = v.used_idx();
    let slot = (idx % v.layout.queue_size) as int;
    let o = v.used_elem_off(slot);
    let m1 = splice(v.mem, o, le32(id));
    let m2 = splice(m1, o + 4, le32(len));
    lemma_splice_frame(v.mem, o, le32(id));
    lemma_splice_frame(m1, o + 4, le32(len));
    lemma_splice_frame(m2, v.used_idx_off(), le16(idx.wrapping_add(1)));
    let v1 = v.spec_push_used(id, len);
    assert(v1.mem.subrange(v1.used_idx_off(), v1.used_idx_off() + 2) == le16(idx.wrapping_add(1)));
    assert(v1.mem.subrange(o, o + 4) == m2.subrange(o, o + 4));
    assert(m2.subrange(o, o + 4) == m1.subrange(o, o + 4));
    assert(v1.mem.subrange(o + 4, o + 8) == m2.subrange(o + 4, o + 8));
}

/// Writing the first `p` descriptors of a chain over ascending table entries
/// `idx` puts each where it belongs and leaves the other entries, and all the
/// memory past the descriptor table, as they were.
proof fn lemma_write_chain_effect(v: QueueView, descs: Seq<Descriptor>, idx: Seq<u16>, p: int)
    requires
        v.wf(),
        0 <= p <= idx.len(),
        idx.len() == descs.len(),
        forall|a: int| 0 <= a < idx.len() ==> (#[trigger] idx[a] as int) < v.qs(),
        forall|a: int, b: int| 0 <= a < b < idx.len() ==> #[trigger] idx[a] < #[trigger] idx[b],
    ensures
        ({
            let w = v.with_mem(v.write_chain(descs, idx, p));
            &&& w.mem.len() == v.mem.len()
            &&& forall|k: int| 0 <= k < p ==> #[trigger] w.desc_at(idx[k] as int) == linked(descs, idx, k)
            &&& forall|j: int|
                0 <= j < v.qs() && !idx.take(p).contains(j as u16) ==> #[trigger] w.desc_at(j)
                    == v.desc_at(j)
            &&& forall|lo: int, hi: int|
                v.q0() + 16 * v.qs() <= lo <= hi <= v.mem.len() ==> #[trigger] w.mem.subrange(lo, hi)
                    == v.mem.subrange(lo, hi)
        }),
    decreases p,
{
    lemma_layout_regions(v.layout.queue_size);
    if p > 0 {
        lemma_write_chain_effect(v, descs, idx, p - 1);
        let prev = v.with_mem(v.write_chain(descs, idx, p - 1));
        let w = v.with_mem(v.write_chain(descs, idx, p));
        let e = idx[p - 1] as int;
        let at = v.desc_off(e);
        let d = linked(descs, idx, p - 1);
        lemma_descriptor_round_trip(d, Seq::empty());
        assert(d.spec_bytes() + Seq::<u8>::empty() =~= d.spec_bytes());
        lemma_splice_frame(prev.mem, at, d.spec_bytes());
        assert(w.mem == splice(prev.mem, at, d.spec_bytes()));
        assert forall|k: int| 0 <= k < p implies #[trigger] w.desc_at(idx[k] as int) == linked(
            descs,
            idx,
            k,
        ) by {
            if k < p - 1 {
                assert(idx[k] < idx[p - 1]);
                assert(prev.desc_at(idx[k] as int) == linked(descs, idx, k));
            }
        }
        assert forall|j: int|
            0 <= j < v.qs() && !idx.take(p).contains(j as u16) implies #[trigger] w.desc_at(j)
            == v.desc_at(j) by {
            assert(idx.take(p)[p - 1] == idx[p - 1]);
            if idx.take(p - 1).contains(j as u16) {
                let a = choose|a: int| 0 <= a < p - 1 && #[trigger] idx.take(p - 1)[a] == j as u16;
                assert(idx.take(p)[a] == j as u16);
            }
            assert(prev.desc_at(j) == v.desc_at(j));
        }
        assert forall|lo: int, hi: int|
            v.q0() + 16 * v.qs() <= lo <= hi <= v.mem.len() implies #[trigger] w.mem.subrange(lo, hi)
            == v.mem.subrange(lo, hi) by {
            assert(prev.mem.subrange(lo, hi) == v.mem.subrange(lo, hi));
        }
    }
}

/// Descriptors written linked over the entries `idx`, from position `p` on,
/// form the chain `idx[p..]`.
proof fn lemma_linked_chain(w: QueueView, descs: Seq<Descriptor>, idx: Seq<u16>, p: int, fuel: nat)
    requires
        idx.len() == descs.len(),
        0 <= p < idx.len(),
        fuel >= idx.len() - p,
        forall|a: int| 0 <= a < idx.len() ==> (#[trigger] idx[a] as int) < w.qs(),
        forall|k: int|
            0 <= k < idx.len() ==> #[trigger] w.desc_at(idx[k] as int) == linked(descs, idx, k),
    ensures
        w.chain_from(idx[p] as int, fuel) == Some(idx.subrange(p, idx.len() as int)),
    decreases idx.len() - p,
{
    let n = idx.len() as int;
    let f = descs[p].flags;
    let d = w.desc_at(idx[p] as int);
    assert(d == linked(descs, idx, p));
    if p + 1 < n {
        assert((f | 1u16) & 1u16 != 0u16) by (bit_vector);
        assert(d.has_next());
        lemma_linked_chain(w, descs, idx, p + 1, (fuel - 1) as nat);
        assert(seq![idx[p]] + idx.subrange(p + 1, n) =~= idx.subrange(p, n));
    } else {
        assert((f & !1u16) & 1u16 == 0u16) by (bit_vector);
        assert(!d.has_next());
        assert(seq![idx[p]] =~= idx.subrange(p, n));
    }
}

/// Chains read the same from two tables with the same descriptors.
proof fn lemma_chain_same_descs(v1: QueueView, v2: QueueView, i: int, fuel: nat)
    requires
        v1.qs() == v2.qs(),
        forall|j: int| 0 <= j < v1.qs() ==> #[trigger] v1.desc_at(j) == v2.desc_at(j),
    ensures
        v1.chain_from(i, fuel) == v2.chain_from(i, fuel),
    decreases fuel,
{
    if fuel > 0 && 0 <= i < v1.qs() {
        assert(v1.desc_at(i) == v2.desc_at(i));
        lemma_chain_same_descs(v1, v2, v1.desc_at(i).next as int, (fuel - 1) as nat);
    }
}

/// Adding a chain writes its descriptors, linked in order, into the lowest
/// free table entries, takes those entries, and publishes the first: the
/// chain read back from the head is exactly those entries.
pub proof fn lemma_add_chain_links(v: QueueView, descs: Seq<Descriptor>)
    requires
        v.wf(),
        v.spec_add_chain(descs).1 is Ok,
    ensures
        ({
            let (v1, r) = v.spec_add_chain(descs);
            let n = descs.len() as int;
            let idx = free_indices(v.free).take(n);
            &&& v1.wf()
            &&& r == Ok::<u16, VirtQueueError>(idx[0])
            &&& v1.chain(idx[0] as int) == Some(idx)
            &&& forall|k: int| 0 <= k < n ==> #[trigger] v1.desc_at(idx[k] as int) == linked(descs, idx, k)
            &&& forall|k: int| 0 <= k < n ==> !v1.free[#[trigger] idx[k] as int]
            &&& v1.avail_ring((v.avail_idx() % v.layout.queue_size) as int) == idx[0]
            &&& v1.avail_idx() == v.avail_idx().wrapping_add(1)
            &&& v1.used_idx() == v.used_idx()
            &&& v1.last_used == v.last_used
        }),
{
    lemma_layout_regions(v.layout.queue_size);
    lemma_le_round_trip();
    let n = descs.len() as int;
    let avail = free_indices(v.free);
    lemma_free_prefix(v.free, v.qs());
    let idx = avail.take(n);
    assert forall|a: int| 0 <= a < idx.len() implies (#[trigger] idx[a] as int) < v.qs() by {
        assert(idx[a] == avail[a]);
    }
    assert forall|a: int, b: int| 0 <= a < b < idx.len() implies #[trigger] idx[a] < #[trigger] idx[b] by {
        assert(idx[a] == avail[a] && idx[b] == avail[b]);
    }
    lemma_write_chain_effect(v, descs, idx, n);
    let w = QueueView { mem: v.write_chain(descs, idx, n), free: taken(v.free, idx), ..v };
    assert(w.avail_idx() == v.avail_idx()) by {
        assert(w.mem.subrange(w.avail_idx_off(), w.avail_idx_off() + 2) == v.mem.subrange(
            v.avail_idx_off(),
            v.avail_idx_off() + 2,
        ));
    }
    assert(w.used_idx() == v.used_idx()) by {
        assert(w.mem.subrange(w.used_idx_off(), w.used_idx_off() + 2) == v.mem.subrange(
            v.used_idx_off(),
            v.used_idx_off() + 2,
        ));
    }
    let head = idx[0];
    let v1 = w.spec_add_available(head);
    let i0 = w.avail_idx();
    let slot = (i0 % w.layout.queue_size) as int;
    let m1 = splice(w.mem, w.ring_off(slot), le16(head));
    lemma_splice_frame(w.mem, w.ring_off(slot), le16(head));
    lemma_splice_frame(m1, w.avail_idx_off(), le16(i0.wrapping_add(1)));
    assert forall|j: int| 0 <= j < v.qs() implies #[trigger] v1.desc_at(j) == w.desc_at(j) by {
        assert(v1.mem.subrange(v1.desc_off(j), v1.desc_off(j) + 16) == m1.subrange(
            w.desc_off(j),
            w.desc_off(j) + 16,
        ));
    }
    assert forall|k: int| 0 <= k < n implies #[trigger] v1.desc_at(idx[k] as int) == linked(
        descs,
        idx,
        k,
    ) by {
        let wv = v.with_mem(v.write_chain(descs, idx, n));
        assert(wv.desc_at(idx[k] as int) == linked(descs, idx, k));
        assert(v1.desc_at(idx[k] as int) == w.desc_at(idx[k] as int));
    }
    lemma_linked_chain(v1, descs, idx, 0, v.qs() as nat);
    assert(idx.subrange(0, n) =~= idx);
    assert forall|k: int| 0 <= k < n implies !v1.free[#[trigger] idx[k] as int] by {
        assert(idx.contains(idx[k]));
    }
    assert(v1.avail_idx() == i0.wrapping_add(1)) by {
        assert(v1.mem.subrange(v1.avail_idx_off(), v1.avail_idx_off() + 2) == le16(
            i0.wrapping_add(1),
        ));
    }
    assert(v1.avail_ring(slot) == head) by {
        assert(v1.mem.subrange(v1.ring_off(slot), v1.ring_off(slot) + 2) == m1.subrange(
            w.ring_off(slot),
            w.ring_off(slot) + 2,
        ));
    }
    assert(v1.used_idx() == w.used_idx()) by {
        assert(v1.mem.subrange(v1.used_idx_off(), v1.used_idx_off() + 2) == w.mem.subrange(
            w.used_idx_off(),
            w.used_idx_off() + 2,
        ));
    }
}


/// A chain that is added, returned by the device with `len` bytes and then
/// taken back by the driver gives back exactly the used element and frees
/// exactly the descriptors it took: the free flags are as before.
pub proof fn lemma_chain_round_trip(v: QueueView, descs: Seq<Descriptor>, len: u32)
    requires
        v.wf(),
        v.spec_add_chain(descs).1 is Ok,
        v.last_used == v.used_idx(),
    ensures
        ({
            let (v1, r) = v.spec_add_chain(descs);
            let head = r->Ok_0;
            let v2 = v1.spec_push_used(head as u32, len);
            let (v3, e) = v2.spec_pop_used();
            &&& e == Some(UsedElement { id: head as u32, len })
            &&& v3.free == v.free
            &&& v3.spec_pop_used().1 is None
        }),
{
    lemma_layout_regions(v.layout.queue_size);
    lemma_le_round_trip();
    lemma_add_chain_links(v, descs);
    let (v1, r) = v.spec_add_chain(descs);
    let n = descs.len() as int;
    let idx = free_indices(v.free).take(n);
    let head = idx[0];
    lemma_used_fifo(v1, head as u32, len);
    let v2 = v1.spec_push_used(head as u32, len);
    let i0 = v1.used_idx();
    let slot = (i0 % v1.layout.queue_size) as int;
    let o = v1.used_elem_off(slot);
    let m1 = splice(v1.mem, o, le32(head as u32));
    let m2 = splice(m1, o + 4, le32(len));
    lemma_splice_frame(v1.mem, o, le32(head as u32));
    lemma_splice_frame(m1, o + 4, le32(len));
    lemma_splice_frame(m2, v1.used_idx_off(), le16(i0.wrapping_add(1)));
    assert forall|j: int| 0 <= j < v1.qs() implies #[trigger] v2.desc_at(j) == v1.desc_at(j) by {
        assert(v2.mem.subrange(v2.desc_off(j), v2.desc_off(j) + 16) == v1.mem.subrange(
            v1.desc_off(j),
            v1.desc_off(j) + 16,
        ));
    }
    lemma_chain_same_descs(v2, v1, head as int, v1.qs() as nat);
    lemma_free_prefix(v.free, v.qs());
    let avail = free_indices(v.free);
    let (v3, e) = v2.spec_pop_used();
    assert(v3.free =~= v.free) by {
        assert forall|j: int| 0 <= j < v.free.len() implies #[trigger] v3.free[j] == v.free[j] by {
            if idx.contains(j as u16) {
                let a = choose|a: int| 0 <= a < idx.len() && #[trigger] idx[a] == j as u16;
                assert(idx[a] == avail[a]);
            }
        }
    }
}

} // verus!
