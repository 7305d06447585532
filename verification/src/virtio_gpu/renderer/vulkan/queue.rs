//! Choosing the queue family to submit graphics work to.
use vstd::prelude::*;

verus! {

/// `VK_QUEUE_GRAPHICS_BIT`.
pub const QUEUE_GRAPHICS_BIT: u32 = 0x1;

/// A queue family as the selection sees it: its index, its
/// `VkQueueFlags` and its queue count.
#[derive(Debug, Clone, Copy, PartialEq, Eq)]
pub struct QueueFamily {
    pub index: u32,
    pub queue_flags: u32,
    pub queue_count: u32,
}

impl QueueFamily {
    /// Whether the family supports graphics.
    pub open spec fn spec_graphics(self) -> bool {
        self.queue_flags & QUEUE_GRAPHICS_BIT == QUEUE_GRAPHICS_BIT
    }

    /// The index of the first family that supports graphics, if any.
    pub fn graphics(queues: &[QueueFamily]) -> (r: Option<u32>)
        ensures
            r is None ==> forall|k: int| 0 <= k < queues@.len() ==> !(#[trigger] queues@[k]).spec_graphics(),
            r matches Some(index) ==> exists|k: int|
                0 <= k < queues@.len() && (#[trigger] queues@[k]).spec_graphics() && queues@[k].index
                    == index && forall|j: int| 0 <= j < k ==> !(#[trigger] queues@[j]).spec_graphics(),
    {
        let mut k: usize = 0;
        while k < queues.len()
            invariant
                k <= queues@.len(),
                forall|j: int| 0 <= j < k ==> !(#[trigger] queues@[j]).spec_graphics(),
            decreases queues@.len() - k,
        {
            if queues[k].queue_flags & QUEUE_GRAPHICS_BIT == QUEUE_GRAPHICS_BIT {
                assert(queues@[k as int].spec_graphics());
                return Some(queues[k].index);
            }
            k += 1;
        }
        None
    }
}

} // verus!
