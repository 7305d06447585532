//! RESOURCE_ATTACH_BACKING request: a resource and the guest memory entries
//! that back it.
use vstd::prelude::*;

use crate::virtio_gpu::protocol::header::CtrlHeader;
use crate::virtio_gpu::wire::{read_u32, read_u64, u32_at, u64_at};

verus! {

/// The fixed part of the request.
pub struct VirtioGpuResourceAttachBacking {
    pub header: CtrlHeader,
    pub resource_id: u32,
    pub nr_entries: u32,
}

/// One guest memory entry: `addr` (u64), `length` (u32), `padding` (u32).
#[derive(Clone, Copy, Debug)]
pub struct VirtioGpuMemEntry {
    pub addr: u64,
    pub length: u32,
    pub padding: u32,
}

impl VirtioGpuMemEntry {
    /// The entry stored at byte `at` of `b`.
    pub open spec fn spec_at(b: Seq<u8>, at: int) -> VirtioGpuMemEntry {
        VirtioGpuMemEntry {
            addr: u64_at(b, at),
            length: u32_at(b, at + 8),
            padding: u32_at(b, at + 12),
        }
    }
}

pub struct ResourceAttachBacking {
    pub resource_id: u32,
    pub nr_entries: u32,
    pub entries: Vec<VirtioGpuMemEntry>,
}

impl ResourceAttachBacking {
    /// The request is read from a header, the resource and the entry count,
    /// followed by all of the 16-byte entries it announces.
    pub open spec fn spec_decodes(data: Seq<u8>) -> bool {
        data.len() >= 32 && data.len() >= 32 + 16 * u32_at(data, 28)
    }

    /// Decodes the request; `None` when the data is shorter than the header
    /// and count, or than the entries the count announces.
    pub fn decode(data: &[u8]) -> (r: Option<Self>)
        ensures
            !Self::spec_decodes(data@) ==> r is None,
            Self::spec_decodes(data@) ==> (r matches Some(a) && a.resource_id == u32_at(data@, 24)
                && a.nr_entries == u32_at(data@, 28) && a.entries@.len() == a.nr_entries
                && forall|k: int|
                0 <= k < a.nr_entries ==> #[trigger] a.entries@[k] == VirtioGpuMemEntry::spec_at(
                    data@,
                    32 + 16 * k,
                )),
    {
        if data.len() < 32 {
            return None;
        }
        let resource_id = read_u32(data, 24);
        let nr_entries = read_u32(data, 28);
        let mut entries: Vec<VirtioGpuMemEntry> = Vec::new();
        let mut offset: usize = 32;
        let mut i: u32 = 0;
        while i < nr_entries
            invariant
                i <= nr_entries,
                nr_entries == u32_at(data@, 28),
                offset == 32 + 16 * i,
                offset <= data@.len(),
                entries@.len() == i,
                forall|k: int|
                    0 <= k < i ==> #[trigger] entries@[k] == VirtioGpuMemEntry::spec_at(
                        data@,
                        32 + 16 * k,
                    ),
            decreases nr_entries - i,
        {
            if data.len() - offset < 16 {
                return None;
            }
            let addr = read_u64(data, offset);
            let length = read_u32(data, offset + 8);
            let padding = read_u32(data, offset + 12);
            entries.push(VirtioGpuMemEntry { addr, length, padding });
            offset += 16;
            i += 1;
        }
        Some(Self { resource_id, nr_entries, entries })
    }
}

} // verus!
