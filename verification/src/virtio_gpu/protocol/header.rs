//! The control header that starts every VirtIO-GPU request and response.
use vstd::prelude::*;

use crate::virtio_gpu::wire::{
    le32, le64, lemma_le_round_trip, push_bytes, push_u32, push_u64, read_u32, read_u64,
    to_array, u32_at, u64_at,
};

verus! {

/// `struct virtio_gpu_ctrl_hdr`: 24 bytes on the wire.
#[derive(Clone, Copy, Default, PartialEq, Eq, Debug)]
pub struct CtrlHeader {
    pub typ: u32,
    pub flags: u32,
    pub fence_id: u64,
    pub ctx_id: u32,
    pub ring_idx: u8,
    pub padding: [u8; 3],
}

impl CtrlHeader {
    pub const SIZE: usize = 24;

    /// The wire image: `typ`, `flags`, `fence_id`, `ctx_id` little-endian,
    /// then `ring_idx` and the three padding bytes.
    pub open spec fn spec_bytes(self) -> Seq<u8> {
        le32(self.typ) + le32(self.flags) + le64(self.fence_id) + le32(self.ctx_id) + seq![
            self.ring_idx,
        ] + self.padding@
    }

    /// The header read from the first 24 bytes of `b`.
    pub open spec fn spec_decode(b: Seq<u8>) -> CtrlHeader {
        CtrlHeader {
            typ: u32_at(b, 0),
            flags: u32_at(b, 4),
            fence_id: u64_at(b, 8),
            ctx_id: u32_at(b, 16),
            ring_idx: b[20],
            padding: [b[21], b[22], b[23]],
        }
    }

    /// A header with command type `typ` and every other field zero.
    pub open spec fn spec_new(typ: u32) -> CtrlHeader {
        CtrlHeader { typ, flags: 0, fence_id: 0, ctx_id: 0, ring_idx: 0, padding: [0u8, 0u8, 0u8] }
    }

    pub fn new(typ: u32) -> (h: Self)
        ensures
            h == Self::spec_new(typ),
            h.typ == typ,
            h.flags == 0,
            h.fence_id == 0,
            h.ctx_id == 0,
            h.ring_idx == 0,
            h.padding == [0u8, 0u8, 0u8],
    {
        Self { typ, flags: 0, fence_id: 0, ctx_id: 0, ring_idx: 0, padding: [0u8, 0u8, 0u8] }
    }

    pub fn with_context(self, ctx_id: u32) -> (h: Self)
        ensures
            h == (CtrlHeader { ctx_id, ..self }),
    {
        let mut h = self;
        h.ctx_id = ctx_id;
        h
    }

    /// Requests a fence: sets `fence_id` and the fence flag (bit 0).
    pub fn with_fence(self, fence_id: u64) -> (h: Self)
        ensures
            h == (CtrlHeader { fence_id, flags: self.flags | 1u32, ..self }),
    {
        let mut h = self;
        h.fence_id = fence_id;
        h.flags = h.flags | 1u32;
        h
    }

    /// Selects a fence ring: sets `ring_idx` and the ring flag (bit 1).
    /// Ring indices are below 64.
    pub fn with_ring(self, ring_idx: u8) -> (h: Self)
        requires
            ring_idx < 64,
        ensures
            h == (CtrlHeader { ring_idx, flags: self.flags | 2u32, ..self }),
    {
        let mut h = self;
        h.ring_idx = ring_idx;
        h.flags = h.flags | 2u32;
        h
    }

    pub fn encode_le(self) -> (out: [u8; 24])
        ensures
            out@ == self.spec_bytes(),
    {
        let mut v: Vec<u8> = Vec::new();
        push_u32(&mut v, self.typ);
        push_u32(&mut v, self.flags);
        push_u64(&mut v, self.fence_id);
        push_u32(&mut v, self.ctx_id);
        v.push(self.ring_idx);
        push_bytes(&mut v, &self.padding);
        proof {
            lemma_le_round_trip();
        }
        to_array(&v)
    }

    /// Decodes the first 24 bytes; `None` exactly when fewer are given.
    pub fn decode_le(bytes: &[u8]) -> (r: Option<Self>)
        ensures
            r == (if bytes@.len() < 24 {
                None
            } else {
                Some(Self::spec_decode(bytes@))
            }),
    {
        if bytes.len() < 24 {
            return None;
        }
        Some(
            Self {
                typ: read_u32(bytes, 0),
                flags: read_u32(bytes, 4),
                fence_id: read_u64(bytes, 8),
                ctx_id: read_u32(bytes, 16),
                ring_idx: bytes[20],
                padding: [bytes[21], bytes[22], bytes[23]],
            },
        )
    }
}

/// Decoding the wire image of a header, followed by anything, gives the header
/// back.
pub proof fn lemma_header_round_trip(h: CtrlHeader, rest: Seq<u8>)
    ensures
        h.spec_bytes().len() == 24,
        CtrlHeader::spec_decode(h.spec_bytes() + rest) == h,
{
    lemma_le_round_trip();
    let b = h.spec_bytes() + rest;
    assert(b.subrange(0, 4) =~= le32(h.typ));
    assert(b.subrange(4, 8) =~= le32(h.flags));
    assert(b.subrange(8, 16) =~= le64(h.fence_id));
    assert(b.subrange(16, 20) =~= le32(h.ctx_id));
    let d = CtrlHeader::spec_decode(b);
    assert(d.padding@ =~= h.padding@);
    assert(d.padding == h.padding);
}

/// Bytes that start with the wire image of `h` decode to `h`.
pub proof fn lemma_header_decode_prefix(h: CtrlHeader, b: Seq<u8>)
    requires
        b.len() >= 24,
        b.subrange(0, 24) == h.spec_bytes(),
    ensures
        CtrlHeader::spec_decode(b) == h,
{
    lemma_header_round_trip(h, b.subrange(24, b.len() as int));
    assert(b =~= h.spec_bytes() + b.subrange(24, b.len() as int));
}

} // verus!
