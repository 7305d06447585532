//! Choosing the physical device to render with.
use vstd::prelude::*;

verus! {

/// `VkPhysicalDeviceType` values.
pub const PHYSICAL_DEVICE_TYPE_OTHER: i32 = 0;
pub const PHYSICAL_DEVICE_TYPE_INTEGRATED_GPU: i32 = 1;
pub const PHYSICAL_DEVICE_TYPE_DISCRETE_GPU: i32 = 2;
pub const PHYSICAL_DEVICE_TYPE_VIRTUAL_GPU: i32 = 3;
pub const PHYSICAL_DEVICE_TYPE_CPU: i32 = 4;

/// A physical device as the selection sees it: its raw handle and its type.
#[derive(Debug, Clone, Copy, PartialEq, Eq)]
pub struct PhysicalDevice {
    pub physical_device: u64,
    pub device_type: i32,
}

/// How much a device of each type is preferred: discrete GPUs first, then
/// integrated, then virtual, then anything else, and a CPU last.
pub open spec fn spec_score(device_type: i32) -> i32 {
    if device_type == PHYSICAL_DEVICE_TYPE_DISCRETE_GPU {
        1000i32
    } else if device_type == PHYSICAL_DEVICE_TYPE_INTEGRATED_GPU {
        500i32
    } else if device_type == PHYSICAL_DEVICE_TYPE_VIRTUAL_GPU {
        300i32
    } else if device_type == PHYSICAL_DEVICE_TYPE_CPU {
        -100000i32
    } else {
        0i32
    }
}

impl PhysicalDevice {
    pub fn score(device_type: i32) -> (s: i32)
        ensures
            s == spec_score(device_type),
    {
        if device_type == PHYSICAL_DEVICE_TYPE_DISCRETE_GPU {
            1000
        } else if device_type == PHYSICAL_DEVICE_TYPE_INTEGRATED_GPU {
            500
        } else if device_type == PHYSICAL_DEVICE_TYPE_VIRTUAL_GPU {
            300
        } else if device_type == PHYSICAL_DEVICE_TYPE_CPU {
            -100000
        } else {
            0
        }
    }

    /// The position of the preferred device: the first of those with the
    /// highest score; `None` when there is no device.
    pub fn pick_best(devices: &[PhysicalDevice]) -> (r: Option<usize>)
        ensures
            devices@.len() == 0 ==> r is None,
            devices@.len() > 0 ==> (r matches Some(i) && i < devices@.len() && (forall|j: int|
                0 <= j < devices@.len() ==> spec_score(#[trigger] devices@[j].device_type)
                    <= spec_score(devices@[i as int].device_type)) && (forall|j: int|
                0 <= j < i ==> spec_score(#[trigger] devices@[j].device_type) < spec_score(
                    devices@[i as int].device_type,
                ))),
    {
        let mut best: Option<usize> = None;
        let mut best_score: i32 = i32::MIN;
        let mut k: usize = 0;
        while k < devices.len()
            invariant
                k <= devices@.len(),
                k > 0 ==> best is Some,
                k == 0 ==> best is None,
                k == 0 ==> best_score == i32::MIN,
                best matches Some(i) ==> i < k && best_score == spec_score(
                    devices@[i as int].device_type,
                ),
                forall|j: int|
                    0 <= j < k ==> spec_score(#[trigger] devices@[j].device_type) <= best_score,
                best matches Some(i) ==> forall|j: int|
                    0 <= j < i ==> spec_score(#[trigger] devices@[j].device_type) < best_score,
            decreases devices@.len() - k,
        {
            let score = Self::score(devices[k].device_type);
            if score > best_score {
                best_score = score;
                best = Some(k);
            }
            k += 1;
        }
        best
    }
}

} // verus!
