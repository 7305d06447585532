//! Blob resource requests: creation with guest memory entries, mapping and
//! unmapping.
use vstd::prelude::*;

use crate::virtio_gpu::protocol::header::{lemma_header_decode_prefix, lemma_header_round_trip};
use crate::virtio_gpu::wire::{
    le32, le64, lemma_le_round_trip, push_bytes, push_u32, push_u64, read_u32, read_u64, to_array,
    u32_at, u64_at,
};
use crate::virtio_gpu::protocol::{
    CMD_RESOURCE_CREATE_BLOB, CMD_RESOURCE_MAP_BLOB, CMD_RESOURCE_UNMAP_BLOB, CtrlHeader,
};

verus! {

/// A guest memory entry used by RESOURCE_CREATE_BLOB: `addr` (u64), `length`
/// (u32), `padding` (u32).
#[derive(Clone, Copy, Debug, Default, PartialEq, Eq)]
pub struct MemEntry {
    pub addr: u64,
    pub length: u32,
    pub padding: u32,
}

impl MemEntry {
    pub const SIZE: usize = 16;

    /// The wire image: the fields in order, little-endian.
    pub open spec fn spec_bytes(self) -> Seq<u8> {
        le64(self.addr) + le32(self.length) + le32(self.padding)
    }

    /// The structure read from the first 16 bytes of `b`.
    pub open spec fn spec_decode(b: Seq<u8>) -> Self {
        MemEntry {
            addr: u64_at(b, 0),
            length: u32_at(b, 8),
            padding: u32_at(b, 12),
        }
    }

    pub fn encode_le(self) -> (out: [u8; 16])
        ensures
            out@ == self.spec_bytes(),
    {
        let mut v: Vec<u8> = Vec::new();
        push_u64(&mut v, self.addr);
        push_u32(&mut v, self.length);
        push_u32(&mut v, self.padding);
        proof {
            lemma_le_round_trip();
        }
        to_array(&v)
    }

    /// Decodes the first 16 bytes; `None` exactly when fewer are given.
    pub fn decode_le(bytes: &[u8]) -> (r: Option<Self>)
        ensures
            r == (if bytes@.len() < 16 {
                None
            } else {
                Some(Self::spec_decode(bytes@))
            }),
    {
        if bytes.len() < 16 {
            return None;
        }
        Some(
            Self {
                addr: read_u64(bytes, 0),
                length: read_u32(bytes, 8),
                padding: read_u32(bytes, 12),
            },
        )
    }
}

/// Decoding the wire image of a `MemEntry` gives it back.
pub proof fn lemma_mem_entry_round_trip(x: MemEntry)
    ensures
        x.spec_bytes().len() == 16,
        MemEntry::spec_decode(x.spec_bytes()) == x,
{
    lemma_le_round_trip();
    let b = x.spec_bytes();
    assert(b.subrange(0, 8) =~= le64(x.addr));
    assert(b.subrange(8, 12) =~= le32(x.length));
    assert(b.subrange(12, 16) =~= le32(x.padding));
}

/// RESOURCE_CREATE_BLOB request: the fixed part of the wire structure. Memory
/// entries follow it.
#[derive(Clone, Copy, Debug, PartialEq, Eq)]
pub struct ResourceCreateBlob {
    pub header: CtrlHeader,
    pub resource_id: u32,
    pub blob_mem: u32,
    pub blob_flags: u32,
    pub nr_entries: u32,
    pub blob_id: u64,
    pub size: u64,
}

impl ResourceCreateBlob {
    pub const SIZE: usize = 56;

    /// The wire image: the fields in order, little-endian.
    pub open spec fn spec_bytes(self) -> Seq<u8> {
        self.header.spec_bytes() + le32(self.resource_id) + le32(self.blob_mem) + le32(self.blob_flags) + le32(self.nr_entries) + le64(self.blob_id) + le64(self.size)
    }

    /// The structure read from the first 56 bytes of `b`.
    pub open spec fn spec_decode(b: Seq<u8>) -> Self {
        ResourceCreateBlob {
            header: CtrlHeader::spec_decode(b),
            resource_id: u32_at(b, 24),
            blob_mem: u32_at(b, 28),
            blob_flags: u32_at(b, 32),
            nr_entries: u32_at(b, 36),
            blob_id: u64_at(b, 40),
            size: u64_at(b, 48),
        }
    }

    pub fn encode_le(self) -> (out: [u8; 56])
        ensures
            out@ == self.spec_bytes(),
    {
        let mut v: Vec<u8> = Vec::new();
        push_bytes(&mut v, &self.header.encode_le());
        push_u32(&mut v, self.resource_id);
        push_u32(&mut v, self.blob_mem);
        push_u32(&mut v, self.blob_flags);
        push_u32(&mut v, self.nr_entries);
        push_u64(&mut v, self.blob_id);
        push_u64(&mut v, self.size);
        proof {
            lemma_le_round_trip();
        }
        to_array(&v)
    }

    /// Decodes the first 56 bytes; `None` exactly when fewer are given.
    pub fn decode_le(bytes: &[u8]) -> (r: Option<Self>)
        ensures
            r == (if bytes@.len() < 56 {
                None
            } else {
                Some(Self::spec_decode(bytes@))
            }),
    {
        if bytes.len() < 56 {
            return None;
        }
        let header = match CtrlHeader::decode_le(bytes) {
            Some(h) => h,
            None => return None,
        };
        Some(
            Self {
                header,
                resource_id: read_u32(bytes, 24),
                blob_mem: read_u32(bytes, 28),
                blob_flags: read_u32(bytes, 32),
                nr_entries: read_u32(bytes, 36),
                blob_id: read_u64(bytes, 40),
                size: read_u64(bytes, 48),
            },
        )
    }

    /// A request with a plain `RESOURCE_CREATE_BLOB` header.
    pub open spec fn spec_new(
        resource_id: u32,
        blob_mem: u32,
        blob_flags: u32,
        blob_id: u64,
        size: u64,
        nr_entries: u32,
    ) -> Self {
        ResourceCreateBlob {
            header: CtrlHeader::spec_new(CMD_RESOURCE_CREATE_BLOB),
            resource_id,
            blob_mem,
            blob_flags,
            nr_entries,
            blob_id,
            size,
        }
    }

    pub fn new(
        resource_id: u32,
        blob_mem: u32,
        blob_flags: u32,
        blob_id: u64,
        size: u64,
        nr_entries: u32,
    ) -> (r: Self)
        ensures
            r == Self::spec_new(resource_id, blob_mem, blob_flags, blob_id, size, nr_entries),
            r.header.typ == CMD_RESOURCE_CREATE_BLOB,
            r.header.flags == 0 && r.header.fence_id == 0 && r.header.ctx_id == 0,
            r.header.ring_idx == 0,
            r.resource_id == resource_id,
            r.blob_mem == blob_mem,
            r.blob_flags == blob_flags,
            r.blob_id == blob_id,
            r.size == size,
            r.nr_entries == nr_entries,
    {
        Self {
            header: CtrlHeader::new(CMD_RESOURCE_CREATE_BLOB),
            resource_id,
            blob_mem,
            blob_flags,
            nr_entries,
            blob_id,
            size,
        }
    }

    /// The request followed by its memory entries; the number of entries
    /// must be `nr_entries`.
    pub fn encode_with_entries(&self, entries: &[MemEntry]) -> (out: Vec<u8>)
        requires
            entries@.len() == self.nr_entries,
        ensures
            out@ == self.spec_bytes() + entries_bytes(entries@),
    {
        let mut out: Vec<u8> = Vec::new();
        push_bytes(&mut out, &self.encode_le());
        let mut i: usize = 0;
        while i < entries.len()
            invariant
                i <= entries@.len(),
                out@ == self.spec_bytes() + entries_bytes(entries@.take(i as int)),
            decreases entries@.len() - i,
        {
            push_bytes(&mut out, &entries[i].encode_le());
            proof {
                let t = entries@.take(i + 1);
                assert(t.drop_last() =~= entries@.take(i as int));
                assert(out@ =~= self.spec_bytes() + entries_bytes(t));
            }
            i += 1;
        }
        assert(entries@.take(entries@.len() as int) =~= entries@);
        out
    }
}

/// Decoding the wire image of a `ResourceCreateBlob` gives it back.
pub proof fn lemma_resource_create_blob_round_trip(x: ResourceCreateBlob)
    ensures
        x.spec_bytes().len() == 56,
        ResourceCreateBlob::spec_decode(x.spec_bytes()) == x,
{
    lemma_le_round_trip();
    let b = x.spec_bytes();
    lemma_header_round_trip(x.header, Seq::empty());
    assert(b.subrange(0, 24) =~= x.header.spec_bytes());
    lemma_header_decode_prefix(x.header, b);
    assert(b.subrange(24, 28) =~= le32(x.resource_id));
    assert(b.subrange(28, 32) =~= le32(x.blob_mem));
    assert(b.subrange(32, 36) =~= le32(x.blob_flags));
    assert(b.subrange(36, 40) =~= le32(x.nr_entries));
    assert(b.subrange(40, 48) =~= le64(x.blob_id));
    assert(b.subrange(48, 56) =~= le64(x.size));
}

/// Where each field of a `RESOURCE_CREATE_BLOB` request lies on the wire:
/// the command type at byte 0, the context at 16, then the resource id at 24,
/// the blob memory type at 28, the flags at 32, the entry count at 36, the
/// blob id at 40 and the size at 48, all little-endian.
pub proof fn lemma_resource_create_blob_layout(x: ResourceCreateBlob)
    ensures
        ({
            let b = x.spec_bytes();
            &&& b.len() == 56
            &&& u32_at(b, 0) == x.header.typ
            &&& u32_at(b, 16) == x.header.ctx_id
            &&& u32_at(b, 24) == x.resource_id
            &&& u32_at(b, 28) == x.blob_mem
            &&& u32_at(b, 32) == x.blob_flags
            &&& u32_at(b, 36) == x.nr_entries
            &&& u64_at(b, 40) == x.blob_id
            &&& u64_at(b, 48) == x.size
        }),
{
    lemma_le_round_trip();
    let b = x.spec_bytes();
    let h = x.header.spec_bytes();
    assert(h.subrange(0, 4) =~= le32(x.header.typ));
    assert(h.subrange(16, 20) =~= le32(x.header.ctx_id));
    assert(b.subrange(0, 4) =~= h.subrange(0, 4));
    assert(b.subrange(16, 20) =~= h.subrange(16, 20));
    assert(b.subrange(24, 28) =~= le32(x.resource_id));
    assert(b.subrange(28, 32) =~= le32(x.blob_mem));
    assert(b.subrange(32, 36) =~= le32(x.blob_flags));
    assert(b.subrange(36, 40) =~= le32(x.nr_entries));
    assert(b.subrange(40, 48) =~= le64(x.blob_id));
    assert(b.subrange(48, 56) =~= le64(x.size));
}

/// The wire images of `entries`, one after another.
pub open spec fn entries_bytes(entries: Seq<MemEntry>) -> Seq<u8>
    decreases entries.len(),
{
    if entries.len() == 0 {
        Seq::empty()
    } else {
        entries_bytes(entries.drop_last()) + entries.last().spec_bytes()
    }
}

/// RESOURCE_MAP_BLOB request.
#[derive(Clone, Copy, Debug, PartialEq, Eq)]
pub struct ResourceMapBlob {
    pub header: CtrlHeader,
    pub resource_id: u32,
    pub padding: u32,
    pub offset: u64,
}

impl ResourceMapBlob {
    pub const SIZE: usize = 40;

    /// The wire image: the fields in order, little-endian.
    pub open spec fn spec_bytes(self) -> Seq<u8> {
        self.header.spec_bytes() + le32(self.resource_id) + le32(self.padding) + le64(self.offset)
    }

    /// The structure read from the first 40 bytes of `b`.
    pub open spec fn spec_decode(b: Seq<u8>) -> Self {
        ResourceMapBlob {
            header: CtrlHeader::spec_decode(b),
            resource_id: u32_at(b, 24),
            padding: u32_at(b, 28),
            offset: u64_at(b, 32),
        }
    }

    pub fn encode_le(self) -> (out: [u8; 40])
        ensures
            out@ == self.spec_bytes(),
    {
        let mut v: Vec<u8> = Vec::new();
        push_bytes(&mut v, &self.header.encode_le());
        push_u32(&mut v, self.resource_id);
        push_u32(&mut v, self.padding);
        push_u64(&mut v, self.offset);
        proof {
            lemma_le_round_trip();
        }
        to_array(&v)
    }

    /// Decodes the first 40 bytes; `None` exactly when fewer are given.
    pub fn decode_le(bytes: &[u8]) -> (r: Option<Self>)
        ensures
            r == (if bytes@.len() < 40 {
                None
            } else {
                Some(Self::spec_decode(bytes@))
            }),
    {
        if bytes.len() < 40 {
            return None;
        }
        let header = match CtrlHeader::decode_le(bytes) {
            Some(h) => h,
            None => return None,
        };
        Some(
            Self {
                header,
                resource_id: read_u32(bytes, 24),
                padding: read_u32(bytes, 28),
                offset: read_u64(bytes, 32),
            },
        )
    }

    pub fn new(resource_id: u32, offset: u64) -> (r: Self)
        ensures
            r == (ResourceMapBlob {
                header: CtrlHeader::spec_new(CMD_RESOURCE_MAP_BLOB),
                resource_id,
                padding: 0,
                offset,
            }),
    {
        Self { header: CtrlHeader::new(CMD_RESOURCE_MAP_BLOB), resource_id, padding: 0, offset }
    }
}

/// Decoding the wire image of a `ResourceMapBlob` gives it back.
pub proof fn lemma_resource_map_blob_round_trip(x: ResourceMapBlob)
    ensures
        x.spec_bytes().len() == 40,
        ResourceMapBlob::spec_decode(x.spec_bytes()) == x,
{
    lemma_le_round_trip();
    let b = x.spec_bytes();
    lemma_header_round_trip(x.header, Seq::empty());
    assert(b.subrange(0, 24) =~= x.header.spec_bytes());
    lemma_header_decode_prefix(x.header, b);
    assert(b.subrange(24, 28) =~= le32(x.resource_id));
    assert(b.subrange(28, 32) =~= le32(x.padding));
    assert(b.subrange(32, 40) =~= le64(x.offset));
}

/// RESOURCE_UNMAP_BLOB request.
#[derive(Clone, Copy, Debug, PartialEq, Eq)]
pub struct ResourceUnmapBlob {
    pub header: CtrlHeader,
    pub resource_id: u32,
    pub padding: u32,
}

impl ResourceUnmapBlob {
    pub const SIZE: usize = 32;

    /// The wire image: the fields in order, little-endian.
    pub open spec fn spec_bytes(self) -> Seq<u8> {
        self.header.spec_bytes() + le32(self.resource_id) + le32(self.padding)
    }

    /// The structure read from the first 32 bytes of `b`.
    pub open spec fn spec_decode(b: Seq<u8>) -> Self {
        ResourceUnmapBlob {
            header: CtrlHeader::spec_decode(b),
            resource_id: u32_at(b, 24),
            padding: u32_at(b, 28),
        }
    }

    pub fn encode_le(self) -> (out: [u8; 32])
        ensures
            out@ == self.spec_bytes(),
    {
        let mut v: Vec<u8> = Vec::new();
        push_bytes(&mut v, &self.header.encode_le());
        push_u32(&mut v, self.resource_id);
        push_u32(&mut v, self.padding);
        proof {
            lemma_le_round_trip();
        }
        to_array(&v)
    }

    /// Decodes the first 32 bytes; `None` exactly when fewer are given.
    pub fn decode_le(bytes: &[u8]) -> (r: Option<Self>)
        ensures
            r == (if bytes@.len() < 32 {
                None
            } else {
                Some(Self::spec_decode(bytes@))
            }),
    {
        if bytes.len() < 32 {
            return None;
        }
        let header = match CtrlHeader::decode_le(bytes) {
            Some(h) => h,
            None => return None,
        };
        Some(
            Self {
                header,
                resource_id: read_u32(bytes, 24),
                padding: read_u32(bytes, 28),
            },
        )
    }

    pub fn new(resource_id: u32) -> (r: Self)
        ensures
            r == (ResourceUnmapBlob {
                header: CtrlHeader::spec_new(CMD_RESOURCE_UNMAP_BLOB),
                resource_id,
                padding: 0,
            }),
    {
        Self { header: CtrlHeader::new(CMD_RESOURCE_UNMAP_BLOB), resource_id, padding: 0 }
    }
}

/// Decoding the wire image of a `ResourceUnmapBlob` gives it back.
pub proof fn lemma_resource_unmap_blob_round_trip(x: ResourceUnmapBlob)
    ensures
        x.spec_bytes().len() == 32,
        ResourceUnmapBlob::spec_decode(x.spec_bytes()) == x,
{
    lemma_le_round_trip();
    let b = x.spec_bytes();
    lemma_header_round_trip(x.header, Seq::empty());
    assert(b.subrange(0, 24) =~= x.header.spec_bytes());
    lemma_header_decode_prefix(x.header, b);
    assert(b.subrange(24, 28) =~= le32(x.resource_id));
    assert(b.subrange(28, 32) =~= le32(x.padding));
}

/// Every entry takes 16 bytes.
proof fn lemma_entries_bytes_len(entries: Seq<MemEntry>)
    ensures
        entries_bytes(entries).len() == 16 * entries.len(),
    decreases entries.len(),
{
    if entries.len() > 0 {
        lemma_le_round_trip();
        lemma_entries_bytes_len(entries.drop_last());
    }
}

/// Entry `i`'s wire image sits at `16 * i` among the entries, so that it
/// decodes back to the entry.
pub proof fn lemma_entries_bytes(entries: Seq<MemEntry>, i: int)
    requires
        0 <= i < entries.len(),
    ensures
        entries_bytes(entries).len() == 16 * entries.len(),
        entries_bytes(entries).subrange(16 * i, 16 * i + 16) == entries[i].spec_bytes(),
        MemEntry::spec_decode(entries_bytes(entries).subrange(16 * i, 16 * i + 16)) == entries[i],
    decreases entries.len(),
{
    lemma_le_round_trip();
    lemma_entries_bytes_len(entries);
    lemma_mem_entry_round_trip(entries[i]);
    let front = entries.drop_last();
    lemma_entries_bytes_len(front);
    if i < entries.len() - 1 {
        lemma_entries_bytes(front, i);
        assert(front[i] == entries[i]);
        assert(entries_bytes(entries).subrange(16 * i, 16 * i + 16) =~= entries_bytes(
            front,
        ).subrange(16 * i, 16 * i + 16));
    } else {
        assert(entries_bytes(entries).subrange(16 * i, 16 * i + 16) =~= entries.last().spec_bytes());
    }
}

} // verus!
