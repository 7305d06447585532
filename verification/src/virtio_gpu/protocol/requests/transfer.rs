//! TRANSFER_TO_HOST_2D request.
use vstd::prelude::*;

use crate::virtio_gpu::protocol::responses::Rect;
use crate::virtio_gpu::wire::{read_u32, read_u64, u32_at, u64_at};

verus! {

pub struct ResourceTransferToHost2D {
    pub resource_id: u32,
    pub rect: Rect,
    pub offset: u64,
}

impl ResourceTransferToHost2D {
    /// Decodes the resource (bytes 24..28), the rectangle (28..44) and the
    /// offset (48..56). Fewer than 40 bytes are refused; the fields are read
    /// up to byte 56, so a request of 40 to 55 bytes is not accepted either.
    pub fn decode(data: &[u8]) -> (r: Option<Self>)
        requires
            data@.len() < 40 || data@.len() >= 56,
        ensures
            data@.len() < 40 ==> r is None,
            data@.len() >= 56 ==> (r matches Some(t) && t.resource_id == u32_at(data@, 24)
                && t.rect == (Rect {
                x: u32_at(data@, 28),
                y: u32_at(data@, 32),
                width: u32_at(data@, 36),
                height: u32_at(data@, 40),
            }) && t.offset == u64_at(data@, 48)),
    {
        if data.len() < 40 {
            return None;
        }
        let resource_id = read_u32(data, 24);
        let rect = Rect {
            x: read_u32(data, 28),
            y: read_u32(data, 32),
            width: read_u32(data, 36),
            height: read_u32(data, 40),
        };
        let offset = read_u64(data, 48);
        Some(Self { resource_id, rect, offset })
    }
}

} // verus!
