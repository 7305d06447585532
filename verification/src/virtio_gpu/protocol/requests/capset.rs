//! Capability-set requests and responses.
use vstd::prelude::*;

use crate::virtio_gpu::protocol::header::{lemma_header_decode_prefix, lemma_header_round_trip};
use crate::virtio_gpu::wire::{
    copy_range, le32, lemma_le_round_trip, push_bytes, push_u32, read_u32, to_array, u32_at,
};
use crate::virtio_gpu::protocol::{CAPSET_VENUS, CMD_GET_CAPSET, CMD_GET_CAPSET_INFO, CtrlHeader};

verus! {

/// GET_CAPSET_INFO request: the header, `capset_index` and padding (32 bytes).
#[derive(Clone, Copy, Debug, PartialEq, Eq)]
pub struct GetCapsetInfo {
    pub header: CtrlHeader,
    pub capset_index: u32,
    pub padding: u32,
}

impl GetCapsetInfo {
    pub const SIZE: usize = 32;

    /// The wire image: the fields in order, little-endian.
    pub open spec fn spec_bytes(self) -> Seq<u8> {
        self.header.spec_bytes() + le32(self.capset_index) + le32(self.padding)
    }

    /// The structure read from the first 32 bytes of `b`.
    pub open spec fn spec_decode(b: Seq<u8>) -> Self {
        GetCapsetInfo {
            header: CtrlHeader::spec_decode(b),
            capset_index: u32_at(b, 24),
            padding: u32_at(b, 28),
        }
    }

    pub fn encode_le(self) -> (out: [u8; 32])
        ensures
            out@ == self.spec_bytes(),
    {
        let mut v: Vec<u8> = Vec::new();
        push_bytes(&mut v, &self.header.encode_le());
        push_u32(&mut v, self.capset_index);
        push_u32(&mut v, self.padding);
        proof {
            lemma_le_round_trip();
        }
        to_array(&v)
    }

    /// Decodes the first 32 bytes; `None` exactly when fewer are given.
    pub fn decode_le(bytes: &[u8]) -> (r: Option<Self>)
        ensures
            r == (if bytes@.len() < 32 {
                None
            } else {
                Some(Self::spec_decode(bytes@))
            }),
    {
        if bytes.len() < 32 {
            return None;
        }
        let header = match CtrlHeader::decode_le(bytes) {
            Some(h) => h,
            None => return None,
        };
        Some(
            Self {
                header,
                capset_index: read_u32(bytes, 24),
                padding: read_u32(bytes, 28),
            },
        )
    }

    pub fn new(capset_index: u32) -> (r: Self)
        ensures
            r == (GetCapsetInfo {
                header: CtrlHeader::spec_new(CMD_GET_CAPSET_INFO),
                capset_index,
                padding: 0,
            }),
    {
        Self { header: CtrlHeader::new(CMD_GET_CAPSET_INFO), capset_index, padding: 0 }
    }

    /// The same request as `new`: the index is that of the Venus capset.
    pub fn venus(capset_index: u32) -> (r: Self)
        ensures
            r == (GetCapsetInfo {
                header: CtrlHeader::spec_new(CMD_GET_CAPSET_INFO),
                capset_index,
                padding: 0,
            }),
    {
        Self::new(capset_index)
    }
}

/// Decoding the wire image of a `GetCapsetInfo` gives it back.
pub proof fn lemma_get_capset_info_round_trip(x: GetCapsetInfo)
    ensures
        x.spec_bytes().len() == 32,
        GetCapsetInfo::spec_decode(x.spec_bytes()) == x,
{
    lemma_le_round_trip();
    let b = x.spec_bytes();
    lemma_header_round_trip(x.header, Seq::empty());
    assert(b.subrange(0, 24) =~= x.header.spec_bytes());
    lemma_header_decode_prefix(x.header, b);
    assert(b.subrange(24, 28) =~= le32(x.capset_index));
    assert(b.subrange(28, 32) =~= le32(x.padding));
}

/// Response payload of GET_CAPSET_INFO: the header, `capset_id`,
/// `capset_max_version`, `capset_max_size` and padding (40 bytes).
#[derive(Clone, Copy, Debug, PartialEq, Eq)]
pub struct CapsetInfo {
    pub header: CtrlHeader,
    pub capset_id: u32,
    pub capset_max_version: u32,
    pub capset_max_size: u32,
    pub padding: u32,
}

impl CapsetInfo {
    pub const SIZE: usize = 40;

    /// The wire image: the fields in order, little-endian.
    pub open spec fn spec_bytes(self) -> Seq<u8> {
        self.header.spec_bytes() + le32(self.capset_id) + le32(self.capset_max_version) + le32(self.capset_max_size) + le32(self.padding)
    }

    /// The structure read from the first 40 bytes of `b`.
    pub open spec fn spec_decode(b: Seq<u8>) -> Self {
        CapsetInfo {
            header: CtrlHeader::spec_decode(b),
            capset_id: u32_at(b, 24),
            capset_max_version: u32_at(b, 28),
            capset_max_size: u32_at(b, 32),
            padding: u32_at(b, 36),
        }
    }

    /// Decodes the first 40 bytes; `None` exactly when fewer are given.
    pub fn decode_le(bytes: &[u8]) -> (r: Option<Self>)
        ensures
            r == (if bytes@.len() < 40 {
                None
            } else {
                Some(Self::spec_decode(bytes@))
            }),
    {
        if bytes.len() < 40 {
            return None;
        }
        let header = match CtrlHeader::decode_le(bytes) {
            Some(h) => h,
            None => return None,
        };
        Some(
            Self {
                header,
                capset_id: read_u32(bytes, 24),
                capset_max_version: read_u32(bytes, 28),
                capset_max_size: read_u32(bytes, 32),
                padding: read_u32(bytes, 36),
            },
        )
    }

    /// Whether the capset described is Venus.
    pub fn is_venus(self) -> (r: bool)
        ensures
            r == (self.capset_id == CAPSET_VENUS),
    {
        self.capset_id == CAPSET_VENUS
    }
}

/// GET_CAPSET request: the header, `capset_id` and `capset_version` (32 bytes).
#[derive(Clone, Copy, Debug, PartialEq, Eq)]
pub struct GetCapset {
    pub header: CtrlHeader,
    pub capset_id: u32,
    pub capset_version: u32,
}

impl GetCapset {
    pub const SIZE: usize = 32;

    /// The wire image: the fields in order, little-endian.
    pub open spec fn spec_bytes(self) -> Seq<u8> {
        self.header.spec_bytes() + le32(self.capset_id) + le32(self.capset_version)
    }

    /// The structure read from the first 32 bytes of `b`.
    pub open spec fn spec_decode(b: Seq<u8>) -> Self {
        GetCapset {
            header: CtrlHeader::spec_decode(b),
            capset_id: u32_at(b, 24),
            capset_version: u32_at(b, 28),
        }
    }

    pub fn encode_le(self) -> (out: [u8; 32])
        ensures
            out@ == self.spec_bytes(),
    {
        let mut v: Vec<u8> = Vec::new();
        push_bytes(&mut v, &self.header.encode_le());
        push_u32(&mut v, self.capset_id);
        push_u32(&mut v, self.capset_version);
        proof {
            lemma_le_round_trip();
        }
        to_array(&v)
    }

    /// Decodes the first 32 bytes; `None` exactly when fewer are given.
    pub fn decode_le(bytes: &[u8]) -> (r: Option<Self>)
        ensures
            r == (if bytes@.len() < 32 {
                None
            } else {
                Some(Self::spec_decode(bytes@))
            }),
    {
        if bytes.len() < 32 {
            return None;
        }
        let header = match CtrlHeader::decode_le(bytes) {
            Some(h) => h,
            None => return None,
        };
        Some(
            Self {
                header,
                capset_id: read_u32(bytes, 24),
                capset_version: read_u32(bytes, 28),
            },
        )
    }

    pub fn new(capset_id: u32, capset_version: u32) -> (r: Self)
        ensures
            r == (GetCapset {
                header: CtrlHeader::spec_new(CMD_GET_CAPSET),
                capset_id,
                capset_version,
            }),
    {
        Self { header: CtrlHeader::new(CMD_GET_CAPSET), capset_id, capset_version }
    }

    /// A request for version `version` of the Venus capset.
    pub fn venus(version: u32) -> (r: Self)
        ensures
            r == (GetCapset {
                header: CtrlHeader::spec_new(CMD_GET_CAPSET),
                capset_id: CAPSET_VENUS,
                capset_version: version,
            }),
    {
        Self::new(CAPSET_VENUS, version)
    }
}

/// Decoding the wire image of a `GetCapset` gives it back.
pub proof fn lemma_get_capset_round_trip(x: GetCapset)
    ensures
        x.spec_bytes().len() == 32,
        GetCapset::spec_decode(x.spec_bytes()) == x,
{
    lemma_le_round_trip();
    let b = x.spec_bytes();
    lemma_header_round_trip(x.header, Seq::empty());
    assert(b.subrange(0, 24) =~= x.header.spec_bytes());
    lemma_header_decode_prefix(x.header, b);
    assert(b.subrange(24, 28) =~= le32(x.capset_id));
    assert(b.subrange(28, 32) =~= le32(x.capset_version));
}

/// Variable-length GET_CAPSET response: the header followed by an opaque
/// capset payload, kept as bytes (Venus defines its contents separately).
#[derive(Clone, Debug, PartialEq, Eq)]
pub struct CapsetResponse {
    pub header: CtrlHeader,
    pub data: Vec<u8>,
}

impl CapsetResponse {
    pub const HEADER_SIZE: usize = 24;

    /// Decodes the header and keeps every byte after it as the payload;
    /// `None` exactly when fewer than 24 bytes are given.
    pub fn decode_le(bytes: &[u8]) -> (r: Option<Self>)
        ensures
            bytes@.len() < 24 ==> r is None,
            bytes@.len() >= 24 ==> (r matches Some(c) && c.header == CtrlHeader::spec_decode(bytes@)
                && c.data@ == bytes@.subrange(24, bytes@.len() as int)),
    {
        if bytes.len() < 24 {
            return None;
        }
        let header = match CtrlHeader::decode_le(bytes) {
            Some(h) => h,
            None => return None,
        };
        Some(Self { header, data: copy_range(bytes, 24, bytes.len() - 24) })
    }

    pub fn data_len(&self) -> (n: usize)
        ensures
            n == self.data@.len(),
    {
        self.data.len()
    }

    /// Whether the payload is empty.
    pub fn is_empty(&self) -> (b: bool)
        ensures
            b == (self.data@.len() == 0),
    {
        self.data.len() == 0
    }
}

} // verus!
