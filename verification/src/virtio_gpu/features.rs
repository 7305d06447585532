//! VirtIO-GPU feature bits.
use vstd::prelude::*;

verus! {

/// A set of VirtIO-GPU feature bits.
#[derive(Clone, Copy, Debug, PartialEq, Eq)]
pub struct GpuFeatures {
    pub bits: u64,
}

impl GpuFeatures {
    /// 3D (virgl) commands.
    pub const VIRGL: u64 = 0x1;
    /// EDID requests.
    pub const EDID: u64 = 0x2;
    /// Resource UUID assignment.
    pub const RESOURCE_UUID: u64 = 0x4;
    /// Blob resources.
    pub const RESOURCE_BLOB: u64 = 0x8;
    /// Context initialisation with a capability set.
    pub const CONTEXT_INIT: u64 = 0x10;
    /// VIRTIO_F_VERSION_1 (bit 32).
    pub const VERSION_1: u64 = 0x1_0000_0000;
    /// Every bit this device knows.
    pub const ALL: u64 = 0x1_0000_001f;

    pub fn empty() -> (f: Self)
        ensures
            f.bits == 0,
    {
        GpuFeatures { bits: 0 }
    }

    /// Every feature this device offers.
    pub fn all() -> (f: Self)
        ensures
            f.bits == Self::ALL,
    {
        GpuFeatures { bits: Self::ALL }
    }

    /// Keeps the known bits of `bits` and drops the others.
    pub fn from_bits_truncate(bits: u64) -> (f: Self)
        ensures
            f.bits == bits & Self::ALL,
    {
        GpuFeatures { bits: bits & Self::ALL }
    }

    pub fn bits(&self) -> (b: u64)
        ensures
            b == self.bits,
    {
        self.bits
    }

    /// Whether every bit of `other` is set in `self`.
    pub fn contains(&self, other: u64) -> (b: bool)
        ensures
            b == (self.bits & other == other),
    {
        self.bits & other == other
    }
}

} // verus!
