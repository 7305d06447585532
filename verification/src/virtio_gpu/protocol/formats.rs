//! VirtIO-GPU resource pixel formats.
use vstd::prelude::*;

verus! {

/// VirtIO-GPU resource pixel formats.
///
/// Their numbers are defined by the VirtIO-GPU specification and are part of
/// the wire protocol.
#[derive(Clone, Copy, Debug, PartialEq, Eq)]
pub enum VirtioGpuFormat {
    B8G8R8A8Unorm,
    B8G8R8X8Unorm,
    A8R8G8B8Unorm,
    X8R8G8B8Unorm,
    R8G8B8A8Unorm,
    X8B8G8R8Unorm,
    A8B8G8R8Unorm,
    R8G8B8X8Unorm,
}

impl VirtioGpuFormat {
    /// The wire number of each format.
    pub open spec fn spec_as_u32(self) -> u32 {
        match self {
            VirtioGpuFormat::B8G8R8A8Unorm => 1,
            VirtioGpuFormat::B8G8R8X8Unorm => 2,
            VirtioGpuFormat::A8R8G8B8Unorm => 3,
            VirtioGpuFormat::X8R8G8B8Unorm => 4,
            VirtioGpuFormat::R8G8B8A8Unorm => 67,
            VirtioGpuFormat::X8B8G8R8Unorm => 68,
            VirtioGpuFormat::A8B8G8R8Unorm => 121,
            VirtioGpuFormat::R8G8B8X8Unorm => 134,
        }
    }

    pub fn as_u32(self) -> (r: u32)
        ensures
            r == self.spec_as_u32(),
    {
        match self {
            VirtioGpuFormat::B8G8R8A8Unorm => 1,
            VirtioGpuFormat::B8G8R8X8Unorm => 2,
            VirtioGpuFormat::A8R8G8B8Unorm => 3,
            VirtioGpuFormat::X8R8G8B8Unorm => 4,
            VirtioGpuFormat::R8G8B8A8Unorm => 67,
            VirtioGpuFormat::X8B8G8R8Unorm => 68,
            VirtioGpuFormat::A8B8G8R8Unorm => 121,
            VirtioGpuFormat::R8G8B8X8Unorm => 134,
        }
    }

    /// The format whose wire number is `value`, if any.
    pub open spec fn spec_from_u32(value: u32) -> Option<VirtioGpuFormat> {
        if value == 1 {
            Some(VirtioGpuFormat::B8G8R8A8Unorm)
        } else if value == 2 {
            Some(VirtioGpuFormat::B8G8R8X8Unorm)
        } else if value == 3 {
            Some(VirtioGpuFormat::A8R8G8B8Unorm)
        } else if value == 4 {
            Some(VirtioGpuFormat::X8R8G8B8Unorm)
        } else if value == 67 {
            Some(VirtioGpuFormat::R8G8B8A8Unorm)
        } else if value == 68 {
            Some(VirtioGpuFormat::X8B8G8R8Unorm)
        } else if value == 121 {
            Some(VirtioGpuFormat::A8B8G8R8Unorm)
        } else if value == 134 {
            Some(VirtioGpuFormat::R8G8B8X8Unorm)
        } else {
            None
        }
    }

    /// The format whose wire number is `value`; `None` for any other number.
    pub fn from_u32(value: u32) -> (r: Option<Self>)
        ensures
            r == Self::spec_from_u32(value),
            r matches Some(f) ==> f.spec_as_u32() == value,
            r is None ==> forall|f: VirtioGpuFormat| #[trigger] f.spec_as_u32() != value,
    {
        match value {
            1 => Some(VirtioGpuFormat::B8G8R8A8Unorm),
            2 => Some(VirtioGpuFormat::B8G8R8X8Unorm),
            3 => Some(VirtioGpuFormat::A8R8G8B8Unorm),
            4 => Some(VirtioGpuFormat::X8R8G8B8Unorm),
            67 => Some(VirtioGpuFormat::R8G8B8A8Unorm),
            68 => Some(VirtioGpuFormat::X8B8G8R8Unorm),
            121 => Some(VirtioGpuFormat::A8B8G8R8Unorm),
            134 => Some(VirtioGpuFormat::R8G8B8X8Unorm),
            _ => None,
        }
    }
}

/// Distinct formats have distinct wire numbers, so a format's number names
/// it and nothing else.
pub proof fn lemma_format_numbers_distinct(a: VirtioGpuFormat, b: VirtioGpuFormat)
    ensures
        a.spec_as_u32() == b.spec_as_u32() ==> a == b,
{
}

/// Every format is read back from its own wire number.
pub proof fn lemma_format_round_trip(f: VirtioGpuFormat)
    ensures
        VirtioGpuFormat::spec_from_u32(f.spec_as_u32()) == Some(f),
{
}

} // verus!
