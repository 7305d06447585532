//! RESOURCE_FLUSH request.
use vstd::prelude::*;

use crate::virtio_gpu::wire::{read_u32, u32_at};

verus! {

#[derive(Debug, PartialEq, Eq)]
pub struct ResourceFlush {
    pub resource_id: u32,
    /// `x`, `y`, `width`, `height`.
    pub rect: [u32; 4],
}

impl ResourceFlush {
    pub const SIZE: usize = 44;

    /// Decodes the resource and rectangle after the header; `None` exactly
    /// when fewer than 44 bytes are given.
    pub fn decode(data: &[u8]) -> (r: Option<Self>)
        ensures
            data@.len() < 44 ==> r is None,
            data@.len() >= 44 ==> (r matches Some(f) && f.resource_id == u32_at(data@, 24)
                && f.rect@ == seq![
                u32_at(data@, 28),
                u32_at(data@, 32),
                u32_at(data@, 36),
                u32_at(data@, 40),
            ]),
    {
        if data.len() < 44 {
            return None;
        }
        let resource_id = read_u32(data, 24);
        let x = read_u32(data, 28);
        let y = read_u32(data, 32);
        let width = read_u32(data, 36);
        let height = read_u32(data, 40);
        let rect = [x, y, width, height];
        assert(rect@ =~= seq![x, y, width, height]);
        Some(Self { resource_id, rect })
    }
}

} // verus!
