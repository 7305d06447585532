//! The VirtIO-GPU device state that the transport drives: feature
//! negotiation, the device status register and the configuration generation.
use vstd::prelude::*;

use crate::virtio_gpu::features::GpuFeatures;

verus! {

/// The VirtIO device status register.
#[derive(Clone, Copy, Debug, PartialEq, Eq)]
pub struct DeviceStatus {
    pub bits: u8,
}

impl DeviceStatus {
    pub const ACKNOWLEDGE: u8 = 1;
    pub const DRIVER: u8 = 2;
    pub const DRIVER_OK: u8 = 4;
    pub const FEATURES_OK: u8 = 8;
    pub const DEVICE_NEEDS_RESET: u8 = 64;
    pub const FAILED: u8 = 128;
    /// Every status bit the VirtIO specification defines.
    pub const ALL: u8 = 0xcf;

    pub fn bits(&self) -> (b: u8)
        ensures
            b == self.bits,
    {
        self.bits
    }

    pub fn is_empty(&self) -> (b: bool)
        ensures
            b == (self.bits == 0),
    {
        self.bits == 0
    }

    /// Whether every bit of `mask` is set.
    pub fn contains(&self, mask: u8) -> (b: bool)
        ensures
            b == (self.bits & mask == mask),
    {
        self.bits & mask == mask
    }
}

#[derive(Clone, Copy, Debug, PartialEq, Eq)]
pub enum DeviceError {
    /// The driver asked for a feature that the device does not offer.
    UnsupportedFeatures,
    /// Features cannot change once FEATURES_OK is set.
    FeaturesLocked,
    /// A status bit that is not defined, or clearing a bit without a reset.
    InvalidStatus,
    /// No such virtqueue.
    InvalidQueue,
}

/// Number of virtqueues of the device (control and cursor).
pub const DEVICE_NUM_QUEUES: u16 = 2;

#[derive(Clone, Copy, Debug, PartialEq, Eq)]
pub struct VirtioGpuDevice {
    pub device_features: GpuFeatures,
    pub driver_features: GpuFeatures,
    pub status: DeviceStatus,
    pub config_generation: u8,
}

impl VirtioGpuDevice {
    /// A freshly reset device that offers every feature it knows.
    pub open spec fn spec_new() -> VirtioGpuDevice {
        VirtioGpuDevice {
            device_features: GpuFeatures { bits: GpuFeatures::ALL },
            driver_features: GpuFeatures { bits: 0 },
            status: DeviceStatus { bits: 0 },
            config_generation: 0,
        }
    }

    pub fn new() -> (d: Self)
        ensures
            d == Self::spec_new(),
    {
        VirtioGpuDevice {
            device_features: GpuFeatures::all(),
            driver_features: GpuFeatures::empty(),
            status: DeviceStatus { bits: 0 },
            config_generation: 0,
        }
    }

    pub fn device_features(&self) -> (f: GpuFeatures)
        ensures
            f == self.device_features,
    {
        self.device_features
    }

    pub fn driver_features(&self) -> (f: GpuFeatures)
        ensures
            f == self.driver_features,
    {
        self.driver_features
    }

    pub fn status(&self) -> (s: DeviceStatus)
        ensures
            s == self.status,
    {
        self.status
    }

    pub fn config_generation(&self) -> (g: u8)
        ensures
            g == self.config_generation,
    {
        self.config_generation
    }

    /// The outcome of the driver writing `features` as its feature bitmap.
    pub open spec fn spec_set_driver_features(self, features: u64) -> (
        VirtioGpuDevice,
        Result<(), DeviceError>,
    ) {
        if self.status.bits & DeviceStatus::FEATURES_OK == DeviceStatus::FEATURES_OK {
            (self, Err(DeviceError::FeaturesLocked))
        } else if features & self.device_features.bits != features {
            (self, Err(DeviceError::UnsupportedFeatures))
        } else {
            (
                VirtioGpuDevice {
                    driver_features: GpuFeatures { bits: features & GpuFeatures::ALL },
                    ..self
                },
                Ok(()),
            )
        }
    }

    /// Accepts the driver's feature bitmap if the device offers every bit of it
    /// and FEATURES_OK is not yet set.
    pub fn set_driver_features(&mut self, features: u64) -> (r: Result<(), DeviceError>)
        ensures
            (*final(self), r) == old(self).spec_set_driver_features(features),
    {
        if self.status.contains(DeviceStatus::FEATURES_OK) {
            return Err(DeviceError::FeaturesLocked);
        }
        if features & self.device_features.bits != features {
            return Err(DeviceError::UnsupportedFeatures);
        }
        self.driver_features = GpuFeatures::from_bits_truncate(features);
        Ok(())
    }

    /// The outcome of the driver writing `status` to the status register.
    /// Zero resets the device; otherwise only defined bits may be written and
    /// no bit that is set may be cleared.
    pub open spec fn spec_set_status(self, status: u8) -> (VirtioGpuDevice, Result<(), DeviceError>) {
        if status == 0 {
            (
                VirtioGpuDevice {
                    driver_features: GpuFeatures { bits: 0 },
                    status: DeviceStatus { bits: 0 },
                    ..self
                },
                Ok(()),
            )
        } else if status & DeviceStatus::ALL != status || status & self.status.bits
            != self.status.bits {
            (self, Err(DeviceError::InvalidStatus))
        } else {
            (VirtioGpuDevice { status: DeviceStatus { bits: status }, ..self }, Ok(()))
        }
    }

    pub fn set_status(&mut self, status: u8) -> (r: Result<(), DeviceError>)
        ensures
            (*final(self), r) == old(self).spec_set_status(status),
    {
        if status == 0 {
            self.driver_features = GpuFeatures::empty();
            self.status = DeviceStatus { bits: 0 };
            return Ok(());
        }
        if status & DeviceStatus::ALL != status || status & self.status.bits != self.status.bits {
            return Err(DeviceError::InvalidStatus);
        }
        self.status = DeviceStatus { bits: status };
        Ok(())
    }

    /// Whether queue `index` may be enabled: it must exist, and feature
    /// negotiation must be complete.
    pub open spec fn spec_queue_ready(self, index: u16) -> Result<bool, DeviceError> {
        if index >= DEVICE_NUM_QUEUES {
            Err(DeviceError::InvalidQueue)
        } else {
            Ok(self.status.bits & DeviceStatus::FEATURES_OK == DeviceStatus::FEATURES_OK)
        }
    }

    pub fn queue_ready(&self, index: u16) -> (r: Result<bool, DeviceError>)
        ensures
            r == self.spec_queue_ready(index),
    {
        if index >= DEVICE_NUM_QUEUES {
            return Err(DeviceError::InvalidQueue);
        }
        Ok(self.status.contains(DeviceStatus::FEATURES_OK))
    }

    /// The driver has accepted only features the device offers, and the
    /// status register holds only defined bits.
    pub open spec fn consistent(self) -> bool {
        &&& self.driver_features.bits & self.device_features.bits == self.driver_features.bits
        &&& self.status.bits & DeviceStatus::ALL == self.status.bits
    }
}

/// A new device is consistent, and every feature or status write keeps it
/// so, whether it is accepted or refused; neither changes what the device
/// offers.
pub proof fn lemma_device_stays_consistent(d: VirtioGpuDevice, features: u64, status: u8)
    requires
        d.consistent(),
    ensures
        VirtioGpuDevice::spec_new().consistent(),
        d.spec_set_driver_features(features).0.consistent(),
        d.spec_set_status(status).0.consistent(),
        d.spec_set_driver_features(features).0.device_features == d.device_features,
        d.spec_set_status(status).0.device_features == d.device_features,
{
    let all = GpuFeatures::ALL;
    let dev = d.device_features.bits;
    assert(0u64 & all == 0u64) by (bit_vector);
    assert(0u64 & dev == 0u64) by (bit_vector);
    assert(0u8 & DeviceStatus::ALL == 0u8) by (bit_vector);
    assert(features & dev == features ==> (features & all) & dev == features & all)
        by (bit_vector);
}

} // verus!
