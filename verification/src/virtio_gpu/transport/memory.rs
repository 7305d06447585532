//! Guest physical memory as the device sees it: one contiguous region of bytes
//! that starts at a guest address.
use vstd::prelude::*;

use crate::virtio_gpu::wire::{
    le16, le32, le64, lemma_le_round_trip, push_u16, push_u32, push_u64, read_u16, read_u32,
    read_u64, splice, u16_at, u32_at, u64_at, write_at,
};

verus! {

/// A guest physical address.
#[derive(Clone, Copy, Debug, Default, PartialEq, Eq)]
pub struct GuestAddress(pub u64);

impl GuestAddress {
    /// The address `offset` bytes further on.
    pub fn offset(self, offset: usize) -> (a: GuestAddress)
        requires
            self.0 + offset <= u64::MAX,
        ensures
            a.0 == self.0 + offset,
    {
        GuestAddress(self.0 + offset as u64)
    }

    pub fn raw_value(self) -> (r: u64)
        ensures
            r == self.0,
    {
        self.0
    }
}

#[derive(Clone, Copy, Debug, PartialEq, Eq)]
pub enum GuestMemoryError {
    /// The access does not lie wholly inside the region.
    OutOfBounds,
}

/// A region of guest memory.
pub struct GuestMemory {
    base: GuestAddress,
    data: Vec<u8>,
}

impl GuestMemory {
    /// The guest address of the first byte of the region.
    pub closed spec fn start(&self) -> u64 {
        self.base.0
    }

    /// The bytes of the region.
    pub closed spec fn bytes(&self) -> Seq<u8> {
        self.data@
    }

    /// The region ends within the 64-bit address space.
    pub open spec fn wf(&self) -> bool {
        self.start() + self.bytes().len() <= u64::MAX
    }

    /// Whether `[addr, addr + len)` lies wholly inside the region.
    pub open spec fn contains_range(&self, addr: u64, len: int) -> bool {
        &&& self.start() <= addr
        &&& addr - self.start() + len <= self.bytes().len()
    }

    /// The offset of `addr` inside the region.
    pub open spec fn rel(&self, addr: u64) -> int {
        addr - self.start()
    }

    /// A zero-filled region of `size` bytes at `base`.
    pub fn new(base: GuestAddress, size: usize) -> (m: Self)
        requires
            base.0 + size <= u64::MAX,
        ensures
            m.wf(),
            m.start() == base.0,
            m.bytes() == Seq::new(size as nat, |i: int| 0u8),
    {
        let data = vec![0u8; size];
        let m = GuestMemory { base, data };
        assert(m.bytes() =~= Seq::new(size as nat, |i: int| 0u8));
        m
    }

    pub fn base(&self) -> (a: GuestAddress)
        ensures
            a.0 == self.start(),
    {
        self.base
    }

    pub fn size(&self) -> (n: usize)
        ensures
            n == self.bytes().len(),
    {
        self.data.len()
    }

    /// The offset of `[addr, addr + len)` in the region, if it lies inside.
    fn locate(&self, addr: u64, len: usize) -> (r: Option<usize>)
        ensures
            r is Some <==> self.contains_range(addr, len as int),
            r is Some ==> r->0 == self.rel(addr),
    {
        if addr < self.base.0 {
            return None;
        }
        let off = addr - self.base.0;
        let size = self.data.len();
        if off > size as u64 {
            return None;
        }
        let off = off as usize;
        if len > size - off {
            return None;
        }
        Some(off)
    }

    /// The `len` bytes at `addr`.
    pub fn read(&self, addr: GuestAddress, len: usize) -> (r: Result<Vec<u8>, GuestMemoryError>)
        ensures
            self.contains_range(addr.0, len as int) ==> r is Ok && r->Ok_0@ == self.bytes().subrange(
                self.rel(addr.0),
                self.rel(addr.0) + len,
            ),
            !self.contains_range(addr.0, len as int) ==> r == Err::<Vec<u8>, _>(
                GuestMemoryError::OutOfBounds,
            ),
    {
        match self.locate(addr.0, len) {
            None => Err(GuestMemoryError::OutOfBounds),
            Some(off) => {
                let size = self.data.len();
                let mut out: Vec<u8> = Vec::new();
                let mut i: usize = 0;
                while i < len
                    invariant
                        i <= len,
                        size == self.bytes().len(),
                        off + len <= self.bytes().len(),
                        off == self.rel(addr.0),
                        self.data@ == self.bytes(),
                        out@ == self.bytes().subrange(off as int, off + i),
                    decreases len - i,
                {
                    out.push(self.data[off + i]);
                    i += 1;
                    assert(out@ =~= self.bytes().subrange(off as int, off + i));
                }
                Ok(out)
            },
        }
    }

    /// Writes `bytes` at `addr`; nothing is written unless all of it fits.
    pub fn write(&mut self, addr: GuestAddress, bytes: &[u8]) -> (r: Result<(), GuestMemoryError>)
        requires
            old(self).wf(),
        ensures
            final(self).wf(),
            final(self).start() == old(self).start(),
            old(self).contains_range(addr.0, bytes@.len() as int) ==> r is Ok && final(self).bytes()
                == splice(old(self).bytes(), old(self).rel(addr.0), bytes@),
            !old(self).contains_range(addr.0, bytes@.len() as int) ==> r == Err::<(), _>(
                GuestMemoryError::OutOfBounds,
            ) && final(self).bytes() == old(self).bytes(),
    {
        let len = bytes.len();
        match self.locate(addr.0, len) {
            None => Err(GuestMemoryError::OutOfBounds),
            Some(off) => {
                write_at(&mut self.data, off, bytes);
                Ok(())
            },
        }
    }

    /// The little-endian `u16` at `addr`.
    pub fn read_u16(&self, addr: GuestAddress) -> (r: Result<u16, GuestMemoryError>)
        ensures
            self.contains_range(addr.0, 2) ==> r == Ok::<u16, GuestMemoryError>(
                u16_at(self.bytes(), self.rel(addr.0)),
            ),
            !self.contains_range(addr.0, 2) ==> r == Err::<u16, _>(GuestMemoryError::OutOfBounds),
    {
        match self.locate(addr.0, 2) {
            None => Err(GuestMemoryError::OutOfBounds),
            Some(off) => Ok(read_u16(self.data.as_slice(), off)),
        }
    }

    /// The little-endian `u32` at `addr`.
    pub fn read_u32(&self, addr: GuestAddress) -> (r: Result<u32, GuestMemoryError>)
        ensures
            self.contains_range(addr.0, 4) ==> r == Ok::<u32, GuestMemoryError>(
                u32_at(self.bytes(), self.rel(addr.0)),
            ),
            !self.contains_range(addr.0, 4) ==> r == Err::<u32, _>(GuestMemoryError::OutOfBounds),
    {
        match self.locate(addr.0, 4) {
            None => Err(GuestMemoryError::OutOfBounds),
            Some(off) => Ok(read_u32(self.data.as_slice(), off)),
        }
    }

    /// The little-endian `u64` at `addr`.
    pub fn read_u64(&self, addr: GuestAddress) -> (r: Result<u64, GuestMemoryError>)
        ensures
            self.contains_range(addr.0, 8) ==> r == Ok::<u64, GuestMemoryError>(
                u64_at(self.bytes(), self.rel(addr.0)),
            ),
            !self.contains_range(addr.0, 8) ==> r == Err::<u64, _>(GuestMemoryError::OutOfBounds),
    {
        match self.locate(addr.0, 8) {
            None => Err(GuestMemoryError::OutOfBounds),
            Some(off) => Ok(read_u64(self.data.as_slice(), off)),
        }
    }

    /// Writes `value` little-endian at `addr`.
    pub fn write_u16(&mut self, addr: GuestAddress, value: u16) -> (r: Result<(), GuestMemoryError>)
        requires
            old(self).wf(),
        ensures
            final(self).wf(),
            final(self).start() == old(self).start(),
            old(self).contains_range(addr.0, 2) ==> r is Ok && final(self).bytes() == splice(
                old(self).bytes(),
                old(self).rel(addr.0),
                le16(value),
            ),
            !old(self).contains_range(addr.0, 2) ==> r == Err::<(), _>(
                GuestMemoryError::OutOfBounds,
            ) && final(self).bytes() == old(self).bytes(),
    {
        proof {
            lemma_le_round_trip();
        }
        let mut b: Vec<u8> = Vec::new();
        push_u16(&mut b, value);
        assert(b@ =~= le16(value));
        self.write(addr, b.as_slice())
    }

    /// Writes `value` little-endian at `addr`.
    pub fn write_u32(&mut self, addr: GuestAddress, value: u32) -> (r: Result<(), GuestMemoryError>)
        requires
            old(self).wf(),
        ensures
            final(self).wf(),
            final(self).start() == old(self).start(),
            old(self).contains_range(addr.0, 4) ==> r is Ok && final(self).bytes() == splice(
                old(self).bytes(),
                old(self).rel(addr.0),
                le32(value),
            ),
            !old(self).contains_range(addr.0, 4) ==> r == Err::<(), _>(
                GuestMemoryError::OutOfBounds,
            ) && final(self).bytes() == old(self).bytes(),
    {
        proof {
            lemma_le_round_trip();
        }
        let mut b: Vec<u8> = Vec::new();
        push_u32(&mut b, value);
        assert(b@ =~= le32(value));
        self.write(addr, b.as_slice())
    }

    /// Writes `value` little-endian at `addr`.
    pub fn write_u64(&mut self, addr: GuestAddress, value: u64) -> (r: Result<(), GuestMemoryError>)
        requires
            old(self).wf(),
        ensures
            final(self).wf(),
            final(self).start() == old(self).start(),
            old(self).contains_range(addr.0, 8) ==> r is Ok && final(self).bytes() == splice(
                old(self).bytes(),
                old(self).rel(addr.0),
                le64(value),
            ),
            !old(self).contains_range(addr.0, 8) ==> r == Err::<(), _>(
                GuestMemoryError::OutOfBounds,
            ) && final(self).bytes() == old(self).bytes(),
    {
        proof {
            lemma_le_round_trip();
        }
        let mut b: Vec<u8> = Vec::new();
        push_u64(&mut b, value);
        assert(b@ =~= le64(value));
        self.write(addr, b.as_slice())
    }
}

/// What a write puts into memory is what a read of the same place gives
/// back, and bytes outside the written range keep their values.
pub proof fn lemma_splice_read_back(s: Seq<u8>, at: int, b: Seq<u8>)
    requires
        0 <= at,
        at + b.len() <= s.len(),
    ensures
        splice(s, at, b).len() == s.len(),
        splice(s, at, b).subrange(at, at + b.len()) == b,
        forall|i: int|
            0 <= i < s.len() && !(at <= i < at + b.len()) ==> #[trigger] splice(s, at, b)[i] == s[i],
{
    assert(splice(s, at, b).subrange(at, at + b.len()) =~= b);
}

} // verus!
