//! VirtIO PCI common configuration space.
//!
//! Layout follows the modern VirtIO PCI transport specification.
//!
//! `CommonConfig` stores the mutable PCI common configuration state.
//! Device/driver feature bitmaps themselves remain owned by
//! `VirtioGpuDevice`; this structure only stores the selector registers.
use vstd::prelude::*;

verus! {

#[derive(Debug, Clone, Copy, PartialEq, Eq)]
pub struct CommonConfig {
    /// Selects the 32-bit half of the device feature bitmap.
    pub device_feature_select: u32,
    /// Selects the 32-bit half of the driver feature bitmap.
    pub driver_feature_select: u32,
    /// MSI-X vector for configuration interrupts.
    pub config_msix_vector: u16,
    /// Number of available virtqueues.
    pub num_queues: u16,
    /// VirtIO device status.
    pub device_status: u8,
    /// Configuration generation counter.
    pub config_generation: u8,
    /// Currently selected virtqueue.
    pub queue_select: u16,
    /// Size of the currently selected virtqueue.
    pub queue_size: u16,
    /// MSI-X vector assigned to the currently selected queue.
    pub queue_msix_vector: u16,
    /// Enables/disables the currently selected queue.
    pub queue_enable: u16,
    /// Queue notification offset.
    pub queue_notify_off: u16,
    /// Descriptor table physical address.
    pub queue_desc: u64,
    /// Driver area physical address.
    pub queue_driver: u64,
    /// Device area physical address.
    pub queue_device: u64,
    /// Queue notification data.
    pub queue_notify_data: u16,
    /// Queue reset control.
    pub queue_reset: u16,
}

impl CommonConfig {
    /// Sentinel value meaning that no MSI-X vector is assigned.
    pub const MSIX_VECTOR_NONE: u16 = 0xffff;

    pub const DEVICE_FEATURE_SELECT: u64 = 0x00;
    pub const DEVICE_FEATURE: u64 = 0x04;
    pub const DRIVER_FEATURE_SELECT: u64 = 0x08;
    pub const DRIVER_FEATURE: u64 = 0x0c;
    pub const CONFIG_MSIX_VECTOR: u64 = 0x10;
    pub const NUM_QUEUES: u64 = 0x12;
    pub const DEVICE_STATUS: u64 = 0x14;
    pub const CONFIG_GENERATION: u64 = 0x15;
    pub const QUEUE_SELECT: u64 = 0x16;
    pub const QUEUE_SIZE: u64 = 0x18;
    pub const QUEUE_MSIX_VECTOR: u64 = 0x1a;
    pub const QUEUE_ENABLE: u64 = 0x1c;
    pub const QUEUE_NOTIFY_OFF: u64 = 0x1e;
    pub const QUEUE_DESC: u64 = 0x20;
    pub const QUEUE_DRIVER: u64 = 0x28;
    pub const QUEUE_DEVICE: u64 = 0x30;
    pub const QUEUE_NOTIFY_DATA: u64 = 0x38;
    pub const QUEUE_RESET: u64 = 0x3a;
    pub const SIZE: u64 = 0x3c;

    /// The reset state: no vectors assigned, every other register zero.
    pub open spec fn spec_new(num_queues: u16, config_generation: u8) -> CommonConfig {
        CommonConfig {
            device_feature_select: 0,
            driver_feature_select: 0,
            config_msix_vector: Self::MSIX_VECTOR_NONE,
            num_queues,
            device_status: 0,
            config_generation,
            queue_select: 0,
            queue_size: 0,
            queue_msix_vector: Self::MSIX_VECTOR_NONE,
            queue_enable: 0,
            queue_notify_off: 0,
            queue_desc: 0,
            queue_driver: 0,
            queue_device: 0,
            queue_notify_data: 0,
            queue_reset: 0,
        }
    }

    pub fn new(num_queues: u16, config_generation: u8) -> (c: Self)
        ensures
            c == Self::spec_new(num_queues, config_generation),
            c.num_queues == num_queues,
            c.config_generation == config_generation,
            c.config_msix_vector == 0xffff && c.queue_msix_vector == 0xffff,
            c.device_feature_select == 0 && c.driver_feature_select == 0,
            c.device_status == 0 && c.queue_select == 0 && c.queue_size == 0,
            c.queue_enable == 0 && c.queue_notify_off == 0 && c.queue_notify_data == 0,
            c.queue_desc == 0 && c.queue_driver == 0 && c.queue_device == 0,
            c.queue_reset == 0,
    {
        Self {
            device_feature_select: 0,
            driver_feature_select: 0,
            config_msix_vector: Self::MSIX_VECTOR_NONE,
            num_queues,
            device_status: 0,
            config_generation,
            queue_select: 0,
            queue_size: 0,
            queue_msix_vector: Self::MSIX_VECTOR_NONE,
            queue_enable: 0,
            queue_notify_off: 0,
            queue_desc: 0,
            queue_driver: 0,
            queue_device: 0,
            queue_notify_data: 0,
            queue_reset: 0,
        }
    }

    /// The configuration with the selected queue's registers reset; the
    /// device-wide registers and the queue selector are kept.
    pub open spec fn spec_reset_queue(self) -> CommonConfig {
        CommonConfig {
            queue_size: 0,
            queue_msix_vector: Self::MSIX_VECTOR_NONE,
            queue_enable: 0,
            queue_notify_off: 0,
            queue_desc: 0,
            queue_driver: 0,
            queue_device: 0,
            queue_notify_data: 0,
            queue_reset: 0,
            ..self
        }
    }

    /// Reset the currently selected queue.
    pub fn reset_queue(&mut self)
        ensures
            *final(self) == old(self).spec_reset_queue(),
    {
        self.queue_size = 0;
        self.queue_msix_vector = Self::MSIX_VECTOR_NONE;
        self.queue_enable = 0;
        self.queue_notify_off = 0;
        self.queue_desc = 0;
        self.queue_driver = 0;
        self.queue_device = 0;
        self.queue_notify_data = 0;
        self.queue_reset = 0;
    }

    // ---------------------------------------------------------------------
    // Read access
    // ---------------------------------------------------------------------
    /// The 32-bit registers this structure holds: the two feature selectors.
    pub open spec fn spec_read_u32(self, offset: u64) -> Option<u32> {
        if offset == Self::DEVICE_FEATURE_SELECT {
            Some(self.device_feature_select)
        } else if offset == Self::DRIVER_FEATURE_SELECT {
            Some(self.driver_feature_select)
        } else {
            None
        }
    }

    /// Read a 32-bit common configuration register.
    ///
    /// Feature bitmap registers are intentionally not handled here because
    /// the actual device feature bitmap belongs to `VirtioGpuDevice`.
    pub fn read_u32(&self, offset: u64) -> (r: Option<u32>)
        ensures
            r == self.spec_read_u32(offset),
    {
        if offset == Self::DEVICE_FEATURE_SELECT {
            Some(self.device_feature_select)
        } else if offset == Self::DRIVER_FEATURE_SELECT {
            Some(self.driver_feature_select)
        } else {
            None
        }
    }

    /// The 16-bit registers.
    pub open spec fn spec_read_u16(self, offset: u64) -> Option<u16> {
        if offset == Self::CONFIG_MSIX_VECTOR {
            Some(self.config_msix_vector)
        } else if offset == Self::NUM_QUEUES {
            Some(self.num_queues)
        } else if offset == Self::QUEUE_SELECT {
            Some(self.queue_select)
        } else if offset == Self::QUEUE_SIZE {
            Some(self.queue_size)
        } else if offset == Self::QUEUE_MSIX_VECTOR {
            Some(self.queue_msix_vector)
        } else if offset == Self::QUEUE_ENABLE {
            Some(self.queue_enable)
        } else if offset == Self::QUEUE_NOTIFY_OFF {
            Some(self.queue_notify_off)
        } else if offset == Self::QUEUE_NOTIFY_DATA {
            Some(self.queue_notify_data)
        } else if offset == Self::QUEUE_RESET {
            Some(self.queue_reset)
        } else {
            None
        }
    }

    /// Read a 16-bit common configuration register.
    pub fn read_u16(&self, offset: u64) -> (r: Option<u16>)
        ensures
            r == self.spec_read_u16(offset),
    {
        if offset == Self::CONFIG_MSIX_VECTOR {
            Some(self.config_msix_vector)
        } else if offset == Self::NUM_QUEUES {
            Some(self.num_queues)
        } else if offset == Self::QUEUE_SELECT {
            Some(self.queue_select)
        } else if offset == Self::QUEUE_SIZE {
            Some(self.queue_size)
        } else if offset == Self::QUEUE_MSIX_VECTOR {
            Some(self.queue_msix_vector)
        } else if offset == Self::QUEUE_ENABLE {
            Some(self.queue_enable)
        } else if offset == Self::QUEUE_NOTIFY_OFF {
            Some(self.queue_notify_off)
        } else if offset == Self::QUEUE_NOTIFY_DATA {
            Some(self.queue_notify_data)
        } else if offset == Self::QUEUE_RESET {
            Some(self.queue_reset)
        } else {
            None
        }
    }

    /// The 8-bit registers.
    pub open spec fn spec_read_u8(self, offset: u64) -> Option<u8> {
        if offset == Self::DEVICE_STATUS {
            Some(self.device_status)
        } else if offset == Self::CONFIG_GENERATION {
            Some(self.config_generation)
        } else {
            None
        }
    }

    /// Read an 8-bit common configuration register.
    pub fn read_u8(&self, offset: u64) -> (r: Option<u8>)
        ensures
            r == self.spec_read_u8(offset),
    {
        if offset == Self::DEVICE_STATUS {
            Some(self.device_status)
        } else if offset == Self::CONFIG_GENERATION {
            Some(self.config_generation)
        } else {
            None
        }
    }

    /// The 64-bit registers: the three queue area addresses.
    pub open spec fn spec_read_u64(self, offset: u64) -> Option<u64> {
        if offset == Self::QUEUE_DESC {
            Some(self.queue_desc)
        } else if offset == Self::QUEUE_DRIVER {
            Some(self.queue_driver)
        } else if offset == Self::QUEUE_DEVICE {
            Some(self.queue_device)
        } else {
            None
        }
    }

    /// Read a 64-bit common configuration register.
    pub fn read_u64(&self, offset: u64) -> (r: Option<u64>)
        ensures
            r == self.spec_read_u64(offset),
    {
        if offset == Self::QUEUE_DESC {
            Some(self.queue_desc)
        } else if offset == Self::QUEUE_DRIVER {
            Some(self.queue_driver)
        } else if offset == Self::QUEUE_DEVICE {
            Some(self.queue_device)
        } else {
            None
        }
    }

    // ---------------------------------------------------------------------
    // Write access
    // ---------------------------------------------------------------------
    /// The state after a 32-bit write, and whether the register accepted it.
    pub open spec fn spec_write_u32(self, offset: u64, value: u32) -> (CommonConfig, bool) {
        if offset == Self::DEVICE_FEATURE_SELECT {
            (CommonConfig { device_feature_select: value, ..self }, true)
        } else if offset == Self::DRIVER_FEATURE_SELECT {
            (CommonConfig { driver_feature_select: value, ..self }, true)
        } else {
            (self, false)
        }
    }

    /// Write a 32-bit common configuration register.
    ///
    /// The actual feature bitmaps are handled by `VirtioGpuDevice`.
    pub fn write_u32(&mut self, offset: u64, value: u32) -> (r: bool)
        ensures
            (*final(self), r) == old(self).spec_write_u32(offset, value),
    {
        if offset == Self::DEVICE_FEATURE_SELECT {
            self.device_feature_select = value;
            true
        } else if offset == Self::DRIVER_FEATURE_SELECT {
            self.driver_feature_select = value;
            true
        } else {
            false
        }
    }

    /// The state after a 16-bit write, and whether the register accepted it.
    /// `NUM_QUEUES`, `QUEUE_NOTIFY_OFF` and `QUEUE_NOTIFY_DATA` are read-only;
    /// `QUEUE_RESET` accepts only 1, which resets the selected queue.
    pub open spec fn spec_write_u16(self, offset: u64, value: u16) -> (CommonConfig, bool) {
        if offset == Self::CONFIG_MSIX_VECTOR {
            (CommonConfig { config_msix_vector: value, ..self }, true)
        } else if offset == Self::QUEUE_SELECT {
            (CommonConfig { queue_select: value, ..self }, true)
        } else if offset == Self::QUEUE_SIZE {
            (CommonConfig { queue_size: value, ..self }, true)
        } else if offset == Self::QUEUE_MSIX_VECTOR {
            (CommonConfig { queue_msix_vector: value, ..self }, true)
        } else if offset == Self::QUEUE_ENABLE {
            (CommonConfig { queue_enable: value, ..self }, true)
        } else if offset == Self::QUEUE_RESET && value == 1 {
            (self.spec_reset_queue(), true)
        } else {
            (self, false)
        }
    }

    /// Write a 16-bit common configuration register.
    pub fn write_u16(&mut self, offset: u64, value: u16) -> (r: bool)
        ensures
            (*final(self), r) == old(self).spec_write_u16(offset, value),
    {
        if offset == Self::CONFIG_MSIX_VECTOR {
            self.config_msix_vector = value;
            true
        } else if offset == Self::QUEUE_SELECT {
            self.queue_select = value;
            true
        } else if offset == Self::QUEUE_SIZE {
            self.queue_size = value;
            true
        } else if offset == Self::QUEUE_MSIX_VECTOR {
            self.queue_msix_vector = value;
            true
        } else if offset == Self::QUEUE_ENABLE {
            self.queue_enable = value;
            true
        } else if offset == Self::QUEUE_RESET {
            if value != 1 {
                return false;
            }
            self.reset_queue();
            true
        } else {
            // NUM_QUEUES, QUEUE_NOTIFY_OFF and QUEUE_NOTIFY_DATA are
            // read-only; anything else is not a 16-bit register.
            false
        }
    }

    /// The state after an 8-bit write: only the device status is writable.
    pub open spec fn spec_write_u8(self, offset: u64, value: u8) -> (CommonConfig, bool) {
        if offset == Self::DEVICE_STATUS {
            (CommonConfig { device_status: value, ..self }, true)
        } else {
            (self, false)
        }
    }

    /// Write an 8-bit common configuration register.
    pub fn write_u8(&mut self, offset: u64, value: u8) -> (r: bool)
        ensures
            (*final(self), r) == old(self).spec_write_u8(offset, value),
    {
        if offset == Self::DEVICE_STATUS {
            self.device_status = value;
            true
        } else {
            // The configuration generation is read-only.
            false
        }
    }

    /// The state after a 64-bit write to one of the queue area addresses.
    pub open spec fn spec_write_u64(self, offset: u64, value: u64) -> (CommonConfig, bool) {
        if offset == Self::QUEUE_DESC {
            (CommonConfig { queue_desc: value, ..self }, true)
        } else if offset == Self::QUEUE_DRIVER {
            (CommonConfig { queue_driver: value, ..self }, true)
        } else if offset == Self::QUEUE_DEVICE {
            (CommonConfig { queue_device: value, ..self }, true)
        } else {
            (self, false)
        }
    }

    /// Write a 64-bit common configuration register.
    pub fn write_u64(&mut self, offset: u64, value: u64) -> (r: bool)
        ensures
            (*final(self), r) == old(self).spec_write_u64(offset, value),
    {
        if offset == Self::QUEUE_DESC {
            self.queue_desc = value;
            true
        } else if offset == Self::QUEUE_DRIVER {
            self.queue_driver = value;
            true
        } else if offset == Self::QUEUE_DEVICE {
            self.queue_device = value;
            true
        } else {
            false
        }
    }
}

impl Default for CommonConfig {
    fn default() -> (c: Self)
        ensures
            c == Self::spec_new(2, 0),
    {
        Self::new(2, 0)
    }
}

/// A register that accepts a write reads back the value written, and a
/// register that refuses one is left unchanged, at each access width.
/// The one exception is `QUEUE_RESET`, whose accepted write (1) resets the
/// queue, so that it reads back 0.
pub proof fn lemma_common_config_write_then_read(
    c: CommonConfig,
    offset: u64,
    v8: u8,
    v16: u16,
    v32: u32,
    v64: u64,
)
    ensures
        c.spec_write_u8(offset, v8).1 ==> c.spec_write_u8(offset, v8).0.spec_read_u8(offset) == Some(
            v8,
        ),
        !c.spec_write_u8(offset, v8).1 ==> c.spec_write_u8(offset, v8).0 == c,
        c.spec_write_u16(offset, v16).1 && offset != CommonConfig::QUEUE_RESET ==> c.spec_write_u16(
            offset,
            v16,
        ).0.spec_read_u16(offset) == Some(v16),
        c.spec_write_u16(offset, v16).1 && offset == CommonConfig::QUEUE_RESET ==> c.spec_write_u16(
            offset,
            v16,
        ).0.spec_read_u16(offset) == Some(0u16),
        !c.spec_write_u16(offset, v16).1 ==> c.spec_write_u16(offset, v16).0 == c,
        c.spec_write_u32(offset, v32).1 ==> c.spec_write_u32(offset, v32).0.spec_read_u32(offset)
            == Some(v32),
        !c.spec_write_u32(offset, v32).1 ==> c.spec_write_u32(offset, v32).0 == c,
        c.spec_write_u64(offset, v64).1 ==> c.spec_write_u64(offset, v64).0.spec_read_u64(offset)
            == Some(v64),
        !c.spec_write_u64(offset, v64).1 ==> c.spec_write_u64(offset, v64).0 == c,
{
}

/// The registers a reset of the selected queue clears read back their reset
/// values, and the device-wide registers keep theirs.
pub proof fn lemma_reset_queue_clears_queue_registers(c: CommonConfig)
    ensures
        c.spec_reset_queue().spec_read_u16(CommonConfig::QUEUE_SIZE) == Some(0u16),
        c.spec_reset_queue().spec_read_u16(CommonConfig::QUEUE_ENABLE) == Some(0u16),
        c.spec_reset_queue().spec_read_u64(CommonConfig::QUEUE_DESC) == Some(0u64),
        c.spec_reset_queue().spec_read_u64(CommonConfig::QUEUE_DRIVER) == Some(0u64),
        c.spec_reset_queue().spec_read_u64(CommonConfig::QUEUE_DEVICE) == Some(0u64),
        c.spec_reset_queue().num_queues == c.num_queues,
        c.spec_reset_queue().config_generation == c.config_generation,
        c.spec_reset_queue().device_status == c.device_status,
        c.spec_reset_queue().queue_select == c.queue_select,
{
}

} // verus!
