//! 3D context requests.
use vstd::prelude::*;

use crate::virtio_gpu::protocol::header::{lemma_header_decode_prefix, lemma_header_round_trip};
use crate::virtio_gpu::wire::{
    array_at, le32, lemma_le_round_trip, lemma_spec_array_at, push_bytes, push_u32, read_u32,
    spec_array_at, to_array, u32_at,
};
use crate::virtio_gpu::protocol::{
    CAPSET_VENUS, CMD_CTX_ATTACH_RESOURCE, CMD_CTX_CREATE, CMD_CTX_DESTROY,
    CMD_CTX_DETACH_RESOURCE, CtrlHeader,
};

verus! {

/// Context initialization flags: the low 8 bits select the capability set.
pub const CONTEXT_INIT_CAPSET_ID_MASK: u32 = 0x0000_00FF;

/// Context creation request: the header, `nlen`, `context_init` and a 64-byte
/// debug name (96 bytes).
#[derive(Clone, Copy, Debug, PartialEq, Eq)]
pub struct ContextCreate {
    pub header: CtrlHeader,
    pub nlen: u32,
    pub context_init: u32,
    pub debug_name: [u8; 64],
}

impl ContextCreate {
    pub const SIZE: usize = 96;

    /// The wire image: the fields in order, little-endian.
    pub open spec fn spec_bytes(self) -> Seq<u8> {
        self.header.spec_bytes() + le32(self.nlen) + le32(self.context_init) + self.debug_name@
    }

    /// The structure read from the first 96 bytes of `b`.
    pub open spec fn spec_decode(b: Seq<u8>) -> Self {
        ContextCreate {
            header: CtrlHeader::spec_decode(b),
            nlen: u32_at(b, 24),
            context_init: u32_at(b, 28),
            debug_name: spec_array_at(b, 32),
        }
    }

    pub fn encode_le(self) -> (out: [u8; 96])
        ensures
            out@ == self.spec_bytes(),
    {
        let mut v: Vec<u8> = Vec::new();
        push_bytes(&mut v, &self.header.encode_le());
        push_u32(&mut v, self.nlen);
        push_u32(&mut v, self.context_init);
        push_bytes(&mut v, &self.debug_name);
        proof {
            lemma_le_round_trip();
        }
        to_array(&v)
    }

    /// Decodes the first 96 bytes; `None` exactly when fewer are given.
    pub fn decode_le(bytes: &[u8]) -> (r: Option<Self>)
        ensures
            r == (if bytes@.len() < 96 {
                None
            } else {
                Some(Self::spec_decode(bytes@))
            }),
    {
        if bytes.len() < 96 {
            return None;
        }
        let header = match CtrlHeader::decode_le(bytes) {
            Some(h) => h,
            None => return None,
        };
        Some(
            Self {
                header,
                nlen: read_u32(bytes, 24),
                context_init: read_u32(bytes, 28),
                debug_name: array_at(bytes, 32),
            },
        )
    }

    /// The debug name as stored: the first (at most 64) bytes of `name`,
    /// zero-padded to 64 bytes.
    pub open spec fn spec_debug_name(name: Seq<u8>) -> Seq<u8> {
        let len = if name.len() < 64 {
            name.len() as int
        } else {
            64
        };
        name.subrange(0, len) + Seq::new((64 - len) as nat, |i: int| 0u8)
    }

    /// A context creation request for context `ctx_id`, naming it with at
    /// most 64 bytes of `name`; `nlen` is the number of bytes kept.
    pub fn new(ctx_id: u32, context_init: u32, name: &[u8]) -> (r: Self)
        ensures
            r.header == (CtrlHeader { ctx_id, ..CtrlHeader::spec_new(CMD_CTX_CREATE) }),
            r.nlen == if name@.len() < 64 {
                name@.len()
            } else {
                64
            },
            r.context_init == context_init,
            r.debug_name@ == Self::spec_debug_name(name@),
    {
        let mut debug_name = [0u8; 64];
        let len = if name.len() < 64 {
            name.len()
        } else {
            64
        };
        let mut i: usize = 0;
        while i < len
            invariant
                i <= len,
                len <= 64,
                len <= name@.len(),
                forall|j: int| 0 <= j < i ==> debug_name@[j] == name@[j],
                forall|j: int| i <= j < 64 ==> debug_name@[j] == 0u8,
            decreases len - i,
        {
            debug_name[i] = name[i];
            i += 1;
        }
        assert(debug_name@ =~= Self::spec_debug_name(name@));
        Self {
            header: CtrlHeader::new(CMD_CTX_CREATE).with_context(ctx_id),
            nlen: len as u32,
            context_init,
            debug_name,
        }
    }

    /// A Venus context creation request.
    pub fn venus(ctx_id: u32, name: &[u8]) -> (r: Self)
        ensures
            r.header == (CtrlHeader { ctx_id, ..CtrlHeader::spec_new(CMD_CTX_CREATE) }),
            r.nlen == if name@.len() < 64 {
                name@.len()
            } else {
                64
            },
            r.context_init == CAPSET_VENUS,
            r.debug_name@ == Self::spec_debug_name(name@),
    {
        Self::new(ctx_id, CAPSET_VENUS, name)
    }

    /// The capability set selected by the low 8 bits of `context_init`.
    pub fn capset_id(self) -> (r: u32)
        ensures
            r == self.context_init & CONTEXT_INIT_CAPSET_ID_MASK,
    {
        self.context_init & CONTEXT_INIT_CAPSET_ID_MASK
    }

    /// Whether the context is created for the Venus capset.
    pub fn is_venus(self) -> (r: bool)
        ensures
            r == (self.context_init & CONTEXT_INIT_CAPSET_ID_MASK == CAPSET_VENUS),
    {
        self.capset_id() == CAPSET_VENUS
    }
}

/// Decoding the wire image of a `ContextCreate` gives it back.
pub proof fn lemma_context_create_round_trip(x: ContextCreate)
    ensures
        x.spec_bytes().len() == 96,
        ContextCreate::spec_decode(x.spec_bytes()) == x,
{
    lemma_le_round_trip();
    let b = x.spec_bytes();
    lemma_header_round_trip(x.header, Seq::empty());
    assert(b.subrange(0, 24) =~= x.header.spec_bytes());
    lemma_header_decode_prefix(x.header, b);
    assert(b.subrange(24, 28) =~= le32(x.nlen));
    assert(b.subrange(28, 32) =~= le32(x.context_init));
    assert(b.subrange(32, 96) =~= x.debug_name@);
    lemma_spec_array_at(b, 32, x.debug_name);
}

/// CTX_DESTROY request: the header alone.
#[derive(Clone, Copy, Debug, PartialEq, Eq)]
pub struct ContextDestroy {
    pub header: CtrlHeader,
}

impl ContextDestroy {
    pub const SIZE: usize = 24;

    pub fn new(ctx_id: u32) -> (r: Self)
        ensures
            r.header == (CtrlHeader { ctx_id, ..CtrlHeader::spec_new(CMD_CTX_DESTROY) }),
    {
        Self { header: CtrlHeader::new(CMD_CTX_DESTROY).with_context(ctx_id) }
    }

    pub fn encode_le(self) -> (out: [u8; 24])
        ensures
            out@ == self.header.spec_bytes(),
    {
        self.header.encode_le()
    }

    /// Decodes the header; `None` exactly when fewer than 24 bytes are given.
    pub fn decode_le(bytes: &[u8]) -> (r: Option<Self>)
        ensures
            r == (if bytes@.len() < 24 {
                None
            } else {
                Some(ContextDestroy { header: CtrlHeader::spec_decode(bytes@) })
            }),
    {
        match CtrlHeader::decode_le(bytes) {
            Some(header) => Some(Self { header }),
            None => None,
        }
    }
}

/// Decoding the wire image of a `ContextDestroy` gives it back.
pub proof fn lemma_context_destroy_round_trip(x: ContextDestroy)
    ensures
        x.header.spec_bytes().len() == 24,
        (ContextDestroy { header: CtrlHeader::spec_decode(x.header.spec_bytes()) }) == x,
{
    lemma_header_round_trip(x.header, Seq::empty());
    assert(x.header.spec_bytes() + Seq::<u8>::empty() =~= x.header.spec_bytes());
}

/// CTX_ATTACH_RESOURCE request.
#[derive(Clone, Copy, Debug, PartialEq, Eq)]
pub struct ContextAttachResource {
    pub header: CtrlHeader,
    pub resource_id: u32,
    pub padding: u32,
}

impl ContextAttachResource {
    pub const SIZE: usize = 32;

    /// The wire image: the fields in order, little-endian.
    pub open spec fn spec_bytes(self) -> Seq<u8> {
        self.header.spec_bytes() + le32(self.resource_id) + le32(self.padding)
    }

    /// The structure read from the first 32 bytes of `b`.
    pub open spec fn spec_decode(b: Seq<u8>) -> Self {
        ContextAttachResource {
            header: CtrlHeader::spec_decode(b),
            resource_id: u32_at(b, 24),
            padding: u32_at(b, 28),
        }
    }

    pub fn encode_le(self) -> (out: [u8; 32])
        ensures
            out@ == self.spec_bytes(),
    {
        let mut v: Vec<u8> = Vec::new();
        push_bytes(&mut v, &self.header.encode_le());
        push_u32(&mut v, self.resource_id);
        push_u32(&mut v, self.padding);
        proof {
            lemma_le_round_trip();
        }
        to_array(&v)
    }

    /// Decodes the first 32 bytes; `None` exactly when fewer are given.
    pub fn decode_le(bytes: &[u8]) -> (r: Option<Self>)
        ensures
            r == (if bytes@.len() < 32 {
                None
            } else {
                Some(Self::spec_decode(bytes@))
            }),
    {
        if bytes.len() < 32 {
            return None;
        }
        let header = match CtrlHeader::decode_le(bytes) {
            Some(h) => h,
            None => return None,
        };
        Some(
            Self {
                header,
                resource_id: read_u32(bytes, 24),
                padding: read_u32(bytes, 28),
            },
        )
    }

    pub fn new(ctx_id: u32, resource_id: u32) -> (r: Self)
        ensures
            r == (ContextAttachResource {
                header: CtrlHeader { ctx_id, ..CtrlHeader::spec_new(CMD_CTX_ATTACH_RESOURCE) },
                resource_id,
                padding: 0,
            }),
    {
        Self { header: CtrlHeader::new(CMD_CTX_ATTACH_RESOURCE).with_context(ctx_id), resource_id, padding: 0 }
    }
}

/// Decoding the wire image of a `ContextAttachResource` gives it back.
pub proof fn lemma_context_attach_resource_round_trip(x: ContextAttachResource)
    ensures
        x.spec_bytes().len() == 32,
        ContextAttachResource::spec_decode(x.spec_bytes()) == x,
{
    lemma_le_round_trip();
    let b = x.spec_bytes();
    lemma_header_round_trip(x.header, Seq::empty());
    assert(b.subrange(0, 24) =~= x.header.spec_bytes());
    lemma_header_decode_prefix(x.header, b);
    assert(b.subrange(24, 28) =~= le32(x.resource_id));
    assert(b.subrange(28, 32) =~= le32(x.padding));
}

/// CTX_DETACH_RESOURCE request.
#[derive(Clone, Copy, Debug, PartialEq, Eq)]
pub struct ContextDetachResource {
    pub header: CtrlHeader,
    pub resource_id: u32,
    pub padding: u32,
}

impl ContextDetachResource {
    pub const SIZE: usize = 32;

    /// The wire image: the fields in order, little-endian.
    pub open spec fn spec_bytes(self) -> Seq<u8> {
        self.header.spec_bytes() + le32(self.resource_id) + le32(self.padding)
    }

    /// The structure read from the first 32 bytes of `b`.
    pub open spec fn spec_decode(b: Seq<u8>) -> Self {
        ContextDetachResource {
            header: CtrlHeader::spec_decode(b),
            resource_id: u32_at(b, 24),
            padding: u32_at(b, 28),
        }
    }

    pub fn encode_le(self) -> (out: [u8; 32])
        ensures
            out@ == self.spec_bytes(),
    {
        let mut v: Vec<u8> = Vec::new();
        push_bytes(&mut v, &self.header.encode_le());
        push_u32(&mut v, self.resource_id);
        push_u32(&mut v, self.padding);
        proof {
            lemma_le_round_trip();
        }
        to_array(&v)
    }

    /// Decodes the first 32 bytes; `None` exactly when fewer are given.
    pub fn decode_le(bytes: &[u8]) -> (r: Option<Self>)
        ensures
            r == (if bytes@.len() < 32 {
                None
            } else {
                Some(Self::spec_decode(bytes@))
            }),
    {
        if bytes.len() < 32 {
            return None;
        }
        let header = match CtrlHeader::decode_le(bytes) {
            Some(h) => h,
            None => return None,
        };
        Some(
            Self {
                header,
                resource_id: read_u32(bytes, 24),
                padding: read_u32(bytes, 28),
            },
        )
    }

    pub fn new(ctx_id: u32, resource_id: u32) -> (r: Self)
        ensures
            r == (ContextDetachResource {
                header: CtrlHeader { ctx_id, ..CtrlHeader::spec_new(CMD_CTX_DETACH_RESOURCE) },
                resource_id,
                padding: 0,
            }),
    {
        Self { header: CtrlHeader::new(CMD_CTX_DETACH_RESOURCE).with_context(ctx_id), resource_id, padding: 0 }
    }
}

/// Decoding the wire image of a `ContextDetachResource` gives it back.
pub proof fn lemma_context_detach_resource_round_trip(x: ContextDetachResource)
    ensures
        x.spec_bytes().len() == 32,
        ContextDetachResource::spec_decode(x.spec_bytes()) == x,
{
    lemma_le_round_trip();
    let b = x.spec_bytes();
    lemma_header_round_trip(x.header, Seq::empty());
    assert(b.subrange(0, 24) =~= x.header.spec_bytes());
    lemma_header_decode_prefix(x.header, b);
    assert(b.subrange(24, 28) =~= le32(x.resource_id));
    assert(b.subrange(28, 32) =~= le32(x.padding));
}

} // verus!
