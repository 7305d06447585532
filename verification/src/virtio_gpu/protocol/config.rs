//! The VirtIO-GPU device configuration space.
use vstd::prelude::*;

use crate::virtio_gpu::wire::{read_u32, u32_at};

verus! {

/// VirtIO-GPU display-change event.
pub const EVENT_DISPLAY: u32 = 0x1;

/// VirtIO-GPU device configuration space.
///
/// The first four fields are part of the base VirtIO-GPU configuration.
/// `blob_alignment` is present when the device exposes the blob-alignment
/// configuration field.
#[derive(Clone, Copy, Debug, Default, PartialEq, Eq)]
pub struct GpuConfig {
    pub events_read: u32,
    pub events_clear: u32,
    pub num_scanouts: u32,
    pub num_capsets: u32,
    pub blob_alignment: Option<u32>,
}

impl GpuConfig {
    pub const BASE_SIZE: usize = 16;
    pub const WITH_BLOB_ALIGNMENT_SIZE: usize = 20;

    /// The configuration read from `b`: four little-endian words, and the
    /// blob alignment when a fifth is present.
    pub open spec fn spec_decode(b: Seq<u8>) -> GpuConfig {
        GpuConfig {
            events_read: u32_at(b, 0),
            events_clear: u32_at(b, 4),
            num_scanouts: u32_at(b, 8),
            num_capsets: u32_at(b, 12),
            blob_alignment: if b.len() >= 20 {
                Some(u32_at(b, 16))
            } else {
                None
            },
        }
    }

    /// Decodes the configuration; `None` exactly when fewer than 16 bytes
    /// are given.
    pub fn decode_le(bytes: &[u8]) -> (r: Option<Self>)
        ensures
            r == (if bytes@.len() < 16 {
                None
            } else {
                Some(Self::spec_decode(bytes@))
            }),
    {
        if bytes.len() < 16 {
            return None;
        }
        let blob_alignment = if bytes.len() >= 20 {
            Some(read_u32(bytes, 16))
        } else {
            None
        };
        Some(
            Self {
                events_read: read_u32(bytes, 0),
                events_clear: read_u32(bytes, 4),
                num_scanouts: read_u32(bytes, 8),
                num_capsets: read_u32(bytes, 12),
                blob_alignment,
            },
        )
    }

    /// Whether the display-change event bit is set in `events_read`.
    pub fn display_event_pending(self) -> (r: bool)
        ensures
            r == (self.events_read & EVENT_DISPLAY != 0),
    {
        self.events_read & EVENT_DISPLAY != 0
    }
}

} // verus!
