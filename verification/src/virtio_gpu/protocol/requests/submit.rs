//! SUBMIT_3D request.
use vstd::prelude::*;

use crate::virtio_gpu::protocol::header::{lemma_header_decode_prefix, lemma_header_round_trip};
use crate::virtio_gpu::protocol::{CMD_SUBMIT_3D, CtrlHeader};
use crate::virtio_gpu::wire::{
    le32, lemma_le_round_trip, push_bytes, push_u32, read_u32, to_array, u32_at,
};

verus! {

/// SUBMIT_3D request: the header, the command stream's `size` and padding
/// (32 bytes). The command stream itself follows in the descriptor chain.
#[derive(Clone, Copy, Debug, PartialEq, Eq)]
pub struct Submit3D {
    pub header: CtrlHeader,
    pub size: u32,
    pub padding: u32,
}

impl Submit3D {
    pub const SIZE: usize = 32;

    /// The wire image: the fields in order, little-endian.
    pub open spec fn spec_bytes(self) -> Seq<u8> {
        self.header.spec_bytes() + le32(self.size) + le32(self.padding)
    }

    /// The structure read from the first 32 bytes of `b`.
    pub open spec fn spec_decode(b: Seq<u8>) -> Self {
        Submit3D {
            header: CtrlHeader::spec_decode(b),
            size: u32_at(b, 24),
            padding: u32_at(b, 28),
        }
    }

    pub fn encode_le(self) -> (out: [u8; 32])
        ensures
            out@ == self.spec_bytes(),
    {
        let mut v: Vec<u8> = Vec::new();
        push_bytes(&mut v, &self.header.encode_le());
        push_u32(&mut v, self.size);
        push_u32(&mut v, self.padding);
        proof {
            lemma_le_round_trip();
        }
        to_array(&v)
    }

    /// Decodes the first 32 bytes; `None` exactly when fewer are given.
    pub fn decode_le(bytes: &[u8]) -> (r: Option<Self>)
        ensures
            r == (if bytes@.len() < 32 {
                None
            } else {
                Some(Self::spec_decode(bytes@))
            }),
    {
        if bytes.len() < 32 {
            return None;
        }
        let header = match CtrlHeader::decode_le(bytes) {
            Some(h) => h,
            None => return None,
        };
        Some(
            Self {
                header,
                size: read_u32(bytes, 24),
                padding: read_u32(bytes, 28),
            },
        )
    }

    pub fn new(ctx_id: u32, size: u32) -> (r: Self)
        ensures
            r == (Submit3D {
                header: CtrlHeader { ctx_id, ..CtrlHeader::spec_new(CMD_SUBMIT_3D) },
                size,
                padding: 0,
            }),
    {
        Self { header: CtrlHeader::new(CMD_SUBMIT_3D).with_context(ctx_id), size, padding: 0 }
    }
}

/// Decoding the wire image of a `Submit3D` gives it back.
pub proof fn lemma_submit_3d_round_trip(x: Submit3D)
    ensures
        x.spec_bytes().len() == 32,
        Submit3D::spec_decode(x.spec_bytes()) == x,
{
    lemma_le_round_trip();
    let b = x.spec_bytes();
    lemma_header_round_trip(x.header, Seq::empty());
    assert(b.subrange(0, 24) =~= x.header.spec_bytes());
    lemma_header_decode_prefix(x.header, b);
    assert(b.subrange(24, 28) =~= le32(x.size));
    assert(b.subrange(28, 32) =~= le32(x.padding));
}

/// A complete SUBMIT_3D request together with its command stream.
#[derive(Clone, Debug, PartialEq, Eq)]
pub struct Submit3DCommand {
    pub request: Submit3D,
    pub command_stream: Vec<u8>,
}

impl Submit3DCommand {
    /// A request for context `ctx_id` whose size is the stream's length; the
    /// stream must fit a 32-bit size.
    pub fn new(ctx_id: u32, command_stream: Vec<u8>) -> (r: Self)
        requires
            command_stream@.len() <= u32::MAX,
        ensures
            r.request == (Submit3D {
                header: CtrlHeader { ctx_id, ..CtrlHeader::spec_new(CMD_SUBMIT_3D) },
                size: command_stream@.len() as u32,
                padding: 0,
            }),
            r.command_stream@ == command_stream@,
    {
        let request = Submit3D::new(ctx_id, command_stream.len() as u32);
        Self { request, command_stream }
    }

    /// The request followed by the command stream.
    pub fn encode(&self) -> (out: Vec<u8>)
        ensures
            out@ == self.request.spec_bytes() + self.command_stream@,
    {
        let mut out: Vec<u8> = Vec::new();
        push_bytes(&mut out, &self.request.encode_le());
        push_bytes(&mut out, self.command_stream.as_slice());
        out
    }

    pub fn command_stream_size(&self) -> (n: usize)
        ensures
            n == self.command_stream@.len(),
    {
        self.command_stream.len()
    }
}

} // verus!
