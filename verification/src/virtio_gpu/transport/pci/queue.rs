use vstd::prelude::*;

verus! {

/// The per-queue registers that the transport keeps for each virtqueue.
#[derive(Debug, Clone, Copy, PartialEq, Eq)]
pub struct QueueState {
    pub size: u16,
    pub enabled: bool,
    pub desc_addr: u64,
    pub driver_addr: u64,
    pub device_addr: u64,
    pub notify_off: u16,
}

impl QueueState {
    /// Every register zero and the queue disabled.
    pub open spec fn default_spec() -> QueueState {
        QueueState {
            size: 0,
            enabled: false,
            desc_addr: 0,
            driver_addr: 0,
            device_addr: 0,
            notify_off: 0,
        }
    }
}

impl Default for QueueState {
    fn default() -> (q: Self)
        ensures
            q == Self::default_spec(),
    {
        QueueState {
            size: 0,
            enabled: false,
            desc_addr: 0,
            driver_addr: 0,
            device_addr: 0,
            notify_off: 0,
        }
    }
}

} // verus!
