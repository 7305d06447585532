//! VirtIO-GPU control-queue responses.
use vstd::prelude::*;
use vstd::slice::slice_subrange;

use super::commands::{
    RESP_OK_CAPSET, RESP_OK_CAPSET_INFO, RESP_OK_DISPLAY_INFO, RESP_OK_EDID, RESP_OK_MAP_INFO,
    RESP_OK_NODATA, RESP_OK_RESOURCE_UUID,
};
use super::header::{lemma_header_decode_prefix, lemma_header_round_trip, CtrlHeader};
use crate::virtio_gpu::wire::{
    array_at, le32, lemma_le_round_trip, lemma_spec_array_at, push_bytes, push_u32, read_u32,
    spec_array_at, to_array, u32_at,
};

verus! {

// -----------------------------------------------------------------------------
// Common response helpers
// -----------------------------------------------------------------------------
/// A response of type `expected_type` is read from at least `size` bytes
/// (and at least a header) whose header carries that type.
pub open spec fn spec_response_ok(b: Seq<u8>, expected_type: u32, size: int) -> bool {
    b.len() >= size && b.len() >= 24 && CtrlHeader::spec_decode(b).typ == expected_type
}

fn decode_header(bytes: &[u8], expected_type: u32, size: usize) -> (r: Option<CtrlHeader>)
    ensures
        r == (if spec_response_ok(bytes@, expected_type, size as int) {
            Some(CtrlHeader::spec_decode(bytes@))
        } else {
            None
        }),
{
    if bytes.len() < size {
        return None;
    }
    let header = match CtrlHeader::decode_le(bytes) {
        Some(h) => h,
        None => return None,
    };
    if header.typ != expected_type {
        return None;
    }
    Some(header)
}

// -----------------------------------------------------------------------------
// Display information
// -----------------------------------------------------------------------------
pub const MAX_SCANOUTS: usize = 16;

/// A rectangle on a scanout.
#[derive(Clone, Copy, Debug, Default, PartialEq, Eq)]
pub struct Rect {
    pub x: u32,
    pub y: u32,
    pub width: u32,
    pub height: u32,
}

impl Rect {
    pub const SIZE: usize = 16;

    /// The wire image: the fields in order, little-endian.
    pub open spec fn spec_bytes(self) -> Seq<u8> {
        le32(self.x) + le32(self.y) + le32(self.width) + le32(self.height)
    }

    /// The structure read from the first 16 bytes of `b`.
    pub open spec fn spec_decode(b: Seq<u8>) -> Self {
        Rect {
            x: u32_at(b, 0),
            y: u32_at(b, 4),
            width: u32_at(b, 8),
            height: u32_at(b, 12),
        }
    }

    pub fn encode_le(self) -> (out: [u8; 16])
        ensures
            out@ == self.spec_bytes(),
    {
        let mut v: Vec<u8> = Vec::new();
        push_u32(&mut v, self.x);
        push_u32(&mut v, self.y);
        push_u32(&mut v, self.width);
        push_u32(&mut v, self.height);
        proof {
            lemma_le_round_trip();
        }
        to_array(&v)
    }

    /// Decodes the first 16 bytes; `None` exactly when fewer are given.
    pub fn decode_le(bytes: &[u8]) -> (r: Option<Self>)
        ensures
            r == (if bytes@.len() < 16 {
                None
            } else {
                Some(Self::spec_decode(bytes@))
            }),
    {
        if bytes.len() < 16 {
            return None;
        }
        Some(
            Self {
                x: read_u32(bytes, 0),
                y: read_u32(bytes, 4),
                width: read_u32(bytes, 8),
                height: read_u32(bytes, 12),
            },
        )
    }
}

/// Decoding the wire image of a `Rect` gives it back.
pub proof fn lemma_rect_round_trip(x: Rect)
    ensures
        x.spec_bytes().len() == 16,
        Rect::spec_decode(x.spec_bytes()) == x,
{
    lemma_le_round_trip();
    let b = x.spec_bytes();
    assert(b.subrange(0, 4) =~= le32(x.x));
    assert(b.subrange(4, 8) =~= le32(x.y));
    assert(b.subrange(8, 12) =~= le32(x.width));
    assert(b.subrange(12, 16) =~= le32(x.height));
}

/// One scanout of the display information response.
#[derive(Clone, Copy, Debug, Default, PartialEq, Eq)]
pub struct DisplayOne {
    pub rect: Rect,
    pub enabled: u32,
    pub flags: u32,
}

impl DisplayOne {
    pub const SIZE: usize = 24;

    /// The wire image: the fields in order, little-endian.
    pub open spec fn spec_bytes(self) -> Seq<u8> {
        self.rect.spec_bytes() + le32(self.enabled) + le32(self.flags)
    }

    /// The structure read from the first 24 bytes of `b`.
    pub open spec fn spec_decode(b: Seq<u8>) -> Self {
        DisplayOne {
            rect: Rect::spec_decode(b.subrange(0, 16)),
            enabled: u32_at(b, 16),
            flags: u32_at(b, 20),
        }
    }

    pub fn encode_le(self) -> (out: [u8; 24])
        ensures
            out@ == self.spec_bytes(),
    {
        let mut v: Vec<u8> = Vec::new();
        push_bytes(&mut v, &self.rect.encode_le());
        push_u32(&mut v, self.enabled);
        push_u32(&mut v, self.flags);
        proof {
            lemma_le_round_trip();
        }
        to_array(&v)
    }

    /// Decodes the first 24 bytes; `None` exactly when fewer are given.
    pub fn decode_le(bytes: &[u8]) -> (r: Option<Self>)
        ensures
            r == (if bytes@.len() < 24 {
                None
            } else {
                Some(Self::spec_decode(bytes@))
            }),
    {
        if bytes.len() < 24 {
            return None;
        }
        let rect = match Rect::decode_le(slice_subrange(bytes, 0, 16)) {
            Some(r) => r,
            None => return None,
        };
        Some(
            Self {
                rect,
                enabled: read_u32(bytes, 16),
                flags: read_u32(bytes, 20),
            },
        )
    }
}

/// Decoding the wire image of a `DisplayOne` gives it back.
pub proof fn lemma_display_one_round_trip(x: DisplayOne)
    ensures
        x.spec_bytes().len() == 24,
        DisplayOne::spec_decode(x.spec_bytes()) == x,
{
    lemma_le_round_trip();
    let b = x.spec_bytes();
    lemma_rect_round_trip(x.rect);
    assert(b.subrange(0, 16) =~= x.rect.spec_bytes());
    assert(b.subrange(16, 20) =~= le32(x.enabled));
    assert(b.subrange(20, 24) =~= le32(x.flags));
}

/// The wire images of `modes`, one after another.
pub open spec fn modes_bytes(modes: Seq<DisplayOne>) -> Seq<u8>
    decreases modes.len(),
{
    if modes.len() == 0 {
        Seq::empty()
    } else {
        modes_bytes(modes.drop_last()) + modes.last().spec_bytes()
    }
}

/// Every mode takes 24 bytes.
proof fn lemma_modes_bytes_len(modes: Seq<DisplayOne>)
    ensures
        modes_bytes(modes).len() == 24 * modes.len(),
    decreases modes.len(),
{
    if modes.len() > 0 {
        lemma_le_round_trip();
        lemma_rect_round_trip(modes.last().rect);
        lemma_modes_bytes_len(modes.drop_last());
    }
}

/// Mode `i`'s wire image sits at `24 * i` in the images of all modes.
pub proof fn lemma_modes_bytes(modes: Seq<DisplayOne>, i: int)
    requires
        0 <= i < modes.len(),
    ensures
        modes_bytes(modes).len() == 24 * modes.len(),
        modes_bytes(modes).subrange(24 * i, 24 * i + 24) == modes[i].spec_bytes(),
    decreases modes.len(),
{
    lemma_le_round_trip();
    lemma_rect_round_trip(modes.last().rect);
    lemma_modes_bytes_len(modes);
    let front = modes.drop_last();
    lemma_modes_bytes_len(front);
    if i < modes.len() - 1 {
        lemma_modes_bytes(front, i);
        assert(front[i] == modes[i]);
        assert(modes_bytes(modes).subrange(24 * i, 24 * i + 24) =~= modes_bytes(front).subrange(
            24 * i,
            24 * i + 24,
        ));
    } else {
        assert(modes_bytes(modes).subrange(24 * i, 24 * i + 24) =~= modes.last().spec_bytes());
    }
}

/// The display information response: a header and one entry per scanout.
#[derive(Clone, Copy, Debug, PartialEq, Eq)]
pub struct RespDisplayInfo {
    pub header: CtrlHeader,
    pub pmodes: [DisplayOne; 16],
}

impl RespDisplayInfo {
    pub const SIZE: usize = 408;

    /// The wire image: the header, then each scanout's entry.
    pub open spec fn spec_bytes(self) -> Seq<u8> {
        self.header.spec_bytes() + modes_bytes(self.pmodes@)
    }

    /// Entry `i` as read from `b`.
    pub open spec fn spec_mode_at(b: Seq<u8>, i: int) -> DisplayOne {
        DisplayOne::spec_decode(b.subrange(24 + 24 * i, 48 + 24 * i))
    }

    pub fn encode_le(self) -> (out: [u8; 408])
        ensures
            out@ == self.spec_bytes(),
    {
        let mut v: Vec<u8> = Vec::new();
        push_bytes(&mut v, &self.header.encode_le());
        let mut i: usize = 0;
        while i < 16
            invariant
                i <= 16,
                v@ == self.header.spec_bytes() + modes_bytes(self.pmodes@.take(i as int)),
            decreases 16 - i,
        {
            let ghost before = v@;
            push_bytes(&mut v, &self.pmodes[i].encode_le());
            proof {
                let t = self.pmodes@.take(i + 1);
                assert(t.drop_last() =~= self.pmodes@.take(i as int));
                assert(v@ =~= self.header.spec_bytes() + modes_bytes(t));
            }
            i += 1;
        }
        assert(self.pmodes@.take(16) =~= self.pmodes@);
        proof {
            lemma_modes_bytes(self.pmodes@, 0);
            lemma_header_round_trip(self.header, Seq::empty());
        }
        to_array(&v)
    }

    /// Decodes a `RESP_OK_DISPLAY_INFO` response; `None` unless at least 408
    /// bytes are given and the header carries that response type.
    pub fn decode_le(bytes: &[u8]) -> (r: Option<Self>)
        ensures
            spec_response_ok(bytes@, RESP_OK_DISPLAY_INFO, 408) ==> (r matches Some(d) && d.header
                == CtrlHeader::spec_decode(bytes@) && forall|i: int|
                0 <= i < 16 ==> #[trigger] d.pmodes[i] == Self::spec_mode_at(bytes@, i)),
            !spec_response_ok(bytes@, RESP_OK_DISPLAY_INFO, 408) ==> r is None,
    {
        let header = match decode_header(bytes, RESP_OK_DISPLAY_INFO, 408) {
            Some(h) => h,
            None => return None,
        };
        let blank = DisplayOne {
            rect: Rect { x: 0, y: 0, width: 0, height: 0 },
            enabled: 0,
            flags: 0,
        };
        let mut pmodes = [blank; 16];
        let mut i: usize = 0;
        while i < 16
            invariant
                i <= 16,
                bytes@.len() >= 408,
                forall|j: int| 0 <= j < i ==> #[trigger] pmodes[j] == Self::spec_mode_at(bytes@, j),
            decreases 16 - i,
        {
            let start = 24 + i * 24;
            let mode = match DisplayOne::decode_le(slice_subrange(bytes, start, start + 24)) {
                Some(m) => m,
                None => return None,
            };
            pmodes[i] = mode;
            i += 1;
        }
        Some(Self { header, pmodes })
    }
}

/// Decoding the wire image of a display information response gives it back.
pub proof fn lemma_resp_display_info_round_trip(x: RespDisplayInfo)
    ensures
        x.spec_bytes().len() == 408,
        spec_response_ok(x.spec_bytes(), RESP_OK_DISPLAY_INFO, 408) <==> x.header.typ
            == RESP_OK_DISPLAY_INFO,
        CtrlHeader::spec_decode(x.spec_bytes()) == x.header,
        forall|i: int|
            0 <= i < 16 ==> #[trigger] RespDisplayInfo::spec_mode_at(x.spec_bytes(), i)
                == x.pmodes[i],
{
    let b = x.spec_bytes();
    lemma_header_round_trip(x.header, modes_bytes(x.pmodes@));
    lemma_modes_bytes(x.pmodes@, 0);
    assert forall|i: int| 0 <= i < 16 implies #[trigger] RespDisplayInfo::spec_mode_at(b, i)
        == x.pmodes[i] by {
        lemma_modes_bytes(x.pmodes@, i);
        assert(b.subrange(24 + 24 * i, 48 + 24 * i) =~= modes_bytes(x.pmodes@).subrange(
            24 * i,
            24 * i + 24,
        ));
        lemma_display_one_round_trip(x.pmodes[i]);
    }
}

// -----------------------------------------------------------------------------
// Capset information
// -----------------------------------------------------------------------------
/// The capability-set information response.
#[derive(Clone, Copy, Debug, Default, PartialEq, Eq)]
pub struct RespCapsetInfo {
    pub header: CtrlHeader,
    pub capset_id: u32,
    pub capset_max_version: u32,
    pub capset_max_size: u32,
    pub padding: u32,
}

impl RespCapsetInfo {
    pub const SIZE: usize = 40;

    /// The wire image: the fields in order, little-endian.
    pub open spec fn spec_bytes(self) -> Seq<u8> {
        self.header.spec_bytes() + le32(self.capset_id) + le32(self.capset_max_version) + le32(self.capset_max_size) + le32(self.padding)
    }

    /// The structure read from the first 40 bytes of `b`.
    pub open spec fn spec_decode(b: Seq<u8>) -> Self {
        RespCapsetInfo {
            header: CtrlHeader::spec_decode(b),
            capset_id: u32_at(b, 24),
            capset_max_version: u32_at(b, 28),
            capset_max_size: u32_at(b, 32),
            padding: u32_at(b, 36),
        }
    }

    /// Decodes a `RESP_OK_CAPSET_INFO` response; `None` unless at least 40 bytes are given
    /// and the header carries that response type.
    pub fn decode_le(bytes: &[u8]) -> (r: Option<Self>)
        ensures
            r == (if spec_response_ok(bytes@, RESP_OK_CAPSET_INFO, 40) {
                Some(Self::spec_decode(bytes@))
            } else {
                None
            }),
    {
        let header = match decode_header(bytes, RESP_OK_CAPSET_INFO, 40) {
            Some(h) => h,
            None => return None,
        };
        Some(
            Self {
                header,
                capset_id: read_u32(bytes, 24),
                capset_max_version: read_u32(bytes, 28),
                capset_max_size: read_u32(bytes, 32),
                padding: read_u32(bytes, 36),
            },
        )
    }
}

// -----------------------------------------------------------------------------
// Capset
// -----------------------------------------------------------------------------
/// The capability-set response: a header and the opaque capset bytes that
/// follow it, borrowed from the response.
#[derive(Clone, Debug, PartialEq, Eq)]
pub struct RespCapset<'a> {
    pub header: CtrlHeader,
    pub data: &'a [u8],
}

impl<'a> RespCapset<'a> {
    pub const HEADER_SIZE: usize = 24;

    /// Decodes a `RESP_OK_CAPSET` response; the payload is everything after
    /// the header.
    pub fn decode_le(bytes: &'a [u8]) -> (r: Option<Self>)
        ensures
            spec_response_ok(bytes@, RESP_OK_CAPSET, 24) ==> (r matches Some(c) && c.header
                == CtrlHeader::spec_decode(bytes@) && c.data@ == bytes@.subrange(
                24,
                bytes@.len() as int,
            )),
            !spec_response_ok(bytes@, RESP_OK_CAPSET, 24) ==> r is None,
    {
        let header = match decode_header(bytes, RESP_OK_CAPSET, 24) {
            Some(h) => h,
            None => return None,
        };
        Some(Self { header, data: slice_subrange(bytes, 24, bytes.len()) })
    }
}

// -----------------------------------------------------------------------------
// EDID
// -----------------------------------------------------------------------------
pub const EDID_SIZE: usize = 1024;

/// The EDID response.
#[derive(Clone, Copy, Debug, PartialEq, Eq)]
pub struct RespEdid {
    pub header: CtrlHeader,
    pub size: u32,
    pub padding: u32,
    pub edid: [u8; 1024],
}

impl RespEdid {
    pub const SIZE: usize = 1056;

    /// The wire image: the fields in order, little-endian.
    pub open spec fn spec_bytes(self) -> Seq<u8> {
        self.header.spec_bytes() + le32(self.size) + le32(self.padding) + self.edid@
    }

    /// The structure read from the first 1056 bytes of `b`.
    pub open spec fn spec_decode(b: Seq<u8>) -> Self {
        RespEdid {
            header: CtrlHeader::spec_decode(b),
            size: u32_at(b, 24),
            padding: u32_at(b, 28),
            edid: spec_array_at(b, 32),
        }
    }

    /// Decodes a `RESP_OK_EDID` response; `None` unless at least 1056 bytes are given
    /// and the header carries that response type.
    pub fn decode_le(bytes: &[u8]) -> (r: Option<Self>)
        ensures
            r == (if spec_response_ok(bytes@, RESP_OK_EDID, 1056) {
                Some(Self::spec_decode(bytes@))
            } else {
                None
            }),
    {
        let header = match decode_header(bytes, RESP_OK_EDID, 1056) {
            Some(h) => h,
            None => return None,
        };
        Some(
            Self {
                header,
                size: read_u32(bytes, 24),
                padding: read_u32(bytes, 28),
                edid: array_at(bytes, 32),
            },
        )
    }
}

// -----------------------------------------------------------------------------
// Resource UUID
// -----------------------------------------------------------------------------
pub const UUID_SIZE: usize = 16;

/// The resource UUID response.
#[derive(Clone, Copy, Debug, PartialEq, Eq)]
pub struct RespResourceUuid {
    pub header: CtrlHeader,
    pub uuid: [u8; 16],
}

impl RespResourceUuid {
    pub const SIZE: usize = 40;

    /// The wire image: the fields in order, little-endian.
    pub open spec fn spec_bytes(self) -> Seq<u8> {
        self.header.spec_bytes() + self.uuid@
    }

    /// The structure read from the first 40 bytes of `b`.
    pub open spec fn spec_decode(b: Seq<u8>) -> Self {
        RespResourceUuid {
            header: CtrlHeader::spec_decode(b),
            uuid: spec_array_at(b, 24),
        }
    }

    /// Decodes a `RESP_OK_RESOURCE_UUID` response; `None` unless at least 40 bytes are given
    /// and the header carries that response type.
    pub fn decode_le(bytes: &[u8]) -> (r: Option<Self>)
        ensures
            r == (if spec_response_ok(bytes@, RESP_OK_RESOURCE_UUID, 40) {
                Some(Self::spec_decode(bytes@))
            } else {
                None
            }),
    {
        let header = match decode_header(bytes, RESP_OK_RESOURCE_UUID, 40) {
            Some(h) => h,
            None => return None,
        };
        Some(
            Self {
                header,
                uuid: array_at(bytes, 24),
            },
        )
    }
}

// -----------------------------------------------------------------------------
// Map information
// -----------------------------------------------------------------------------
/// The blob map information response.
#[derive(Clone, Copy, Debug, Default, PartialEq, Eq)]
pub struct RespMapInfo {
    pub header: CtrlHeader,
    pub map_info: u32,
    pub padding: u32,
}

impl RespMapInfo {
    pub const SIZE: usize = 32;

    /// The wire image: the fields in order, little-endian.
    pub open spec fn spec_bytes(self) -> Seq<u8> {
        self.header.spec_bytes() + le32(self.map_info) + le32(self.padding)
    }

    /// The structure read from the first 32 bytes of `b`.
    pub open spec fn spec_decode(b: Seq<u8>) -> Self {
        RespMapInfo {
            header: CtrlHeader::spec_decode(b),
            map_info: u32_at(b, 24),
            padding: u32_at(b, 28),
        }
    }

    /// Decodes a `RESP_OK_MAP_INFO` response; `None` unless at least 32 bytes are given
    /// and the header carries that response type.
    pub fn decode_le(bytes: &[u8]) -> (r: Option<Self>)
        ensures
            r == (if spec_response_ok(bytes@, RESP_OK_MAP_INFO, 32) {
                Some(Self::spec_decode(bytes@))
            } else {
                None
            }),
    {
        let header = match decode_header(bytes, RESP_OK_MAP_INFO, 32) {
            Some(h) => h,
            None => return None,
        };
        Some(
            Self {
                header,
                map_info: read_u32(bytes, 24),
                padding: read_u32(bytes, 28),
            },
        )
    }
}

/// The success response without payload.
#[derive(Debug, Clone, Copy)]
pub struct RespOkNoData {
    pub header: CtrlHeader,
}

impl RespOkNoData {
    pub const SIZE: usize = 24;

    pub fn new() -> (r: Self)
        ensures
            r.header == CtrlHeader::spec_new(RESP_OK_NODATA),
    {
        Self { header: CtrlHeader::new(RESP_OK_NODATA) }
    }

    pub fn encode_le(&self) -> (out: Vec<u8>)
        ensures
            out@ == self.header.spec_bytes(),
    {
        let mut v: Vec<u8> = Vec::new();
        push_bytes(&mut v, &self.header.encode_le());
        v
    }
}

} // verus!
