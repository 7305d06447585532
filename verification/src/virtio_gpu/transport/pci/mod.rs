pub mod common;
pub mod queue;

use vstd::prelude::*;
use vstd::slice::slice_subrange;

use crate::virtio_gpu::device::{lemma_device_stays_consistent, DeviceError, DeviceStatus, VirtioGpuDevice};
use crate::virtio_gpu::features::GpuFeatures;
use crate::virtio_gpu::numeric::{is_power_of_two, is_power_of_two_u16};
use crate::virtio_gpu::wire::{
    fill_zero, le32, le64, lemma_le_round_trip, push_u32, push_u64, read_u32, read_u64, splice,
    to_array, u32_at, u64_at, write_at,
};

pub use common::CommonConfig;
pub use queue::QueueState;

verus! {

pub const PCI_VENDOR_ID_VIRTIO: u16 = 0x1af4;
pub const PCI_DEVICE_ID_GPU: u16 = 0x1050;

pub const PCI_CAP_ID_VENDOR: u8 = 0x09;

pub const VIRTIO_PCI_CAP_COMMON_CFG: u8 = 1;
pub const VIRTIO_PCI_CAP_NOTIFY_CFG: u8 = 2;
pub const VIRTIO_PCI_CAP_ISR_CFG: u8 = 3;
pub const VIRTIO_PCI_CAP_DEVICE_CFG: u8 = 4;
pub const VIRTIO_PCI_CAP_PCI_CFG: u8 = 5;
pub const VIRTIO_PCI_CAP_SHARED_MEMORY_CFG: u8 = 8;

/// Number of virtqueues the transport exposes.
pub const NUM_QUEUES: u16 = 2;

/// Largest queue size a driver may configure.
pub const MAX_QUEUE_SIZE: u16 = 32768;

/// Standard VirtIO PCI vendor capability: the 16-byte `struct virtio_pci_cap`.
///
/// Bytes: 0 cap_vndr, 1 cap_next, 2 cap_len, 3 cfg_type, 4 bar, 5..8 padding,
/// 8 offset, 12 length.
#[derive(Debug, Clone, Copy, PartialEq, Eq)]
pub struct VirtioPciCapability {
    pub cap_next: u8,
    pub cap_len: u8,
    pub cfg_type: u8,
    pub bar: u8,
    pub offset: u32,
    pub length: u32,
}

impl VirtioPciCapability {
    pub const SIZE: usize = 16;

    pub open spec fn spec_new(cfg_type: u8, bar: u8, offset: u32, length: u32) -> Self {
        VirtioPciCapability { cap_next: 0, cap_len: 16, cfg_type, bar, offset, length }
    }

    pub fn new(cfg_type: u8, bar: u8, offset: u32, length: u32) -> (c: Self)
        ensures
            c == Self::spec_new(cfg_type, bar, offset, length),
            c.cap_next == 0 && c.cap_len == 16,
            c.cfg_type == cfg_type,
            c.bar == bar,
            c.offset == offset,
            c.length == length,
    {
        Self { cap_next: 0, cap_len: 16, cfg_type, bar, offset, length }
    }

    /// The wire image: the vendor capability id, the four header bytes, three
    /// zero padding bytes, then `offset` and `length` little-endian.
    pub open spec fn spec_bytes(self) -> Seq<u8> {
        seq![PCI_CAP_ID_VENDOR, self.cap_next, self.cap_len, self.cfg_type, self.bar, 0u8, 0u8, 0u8]
            + le32(self.offset) + le32(self.length)
    }

    pub open spec fn spec_decode(b: Seq<u8>) -> Self {
        VirtioPciCapability {
            cap_next: b[1],
            cap_len: b[2],
            cfg_type: b[3],
            bar: b[4],
            offset: u32_at(b, 8),
            length: u32_at(b, 12),
        }
    }

    /// A capability is read only from at least 16 bytes that carry the vendor
    /// capability id and claim a length of at least 16.
    pub open spec fn spec_decodes(b: Seq<u8>) -> bool {
        b.len() >= 16 && b[0] == PCI_CAP_ID_VENDOR && b[2] >= 16
    }

    pub fn encode_le(self) -> (out: [u8; 16])
        ensures
            out@ == self.spec_bytes(),
    {
        let mut v: Vec<u8> = Vec::new();
        v.push(PCI_CAP_ID_VENDOR);
        v.push(self.cap_next);
        v.push(self.cap_len);
        v.push(self.cfg_type);
        v.push(self.bar);
        v.push(0u8);
        v.push(0u8);
        v.push(0u8);
        push_u32(&mut v, self.offset);
        push_u32(&mut v, self.length);
        proof {
            lemma_le_round_trip();
            assert(v@ =~= self.spec_bytes());
        }
        to_array(&v)
    }

    pub fn decode_le(bytes: &[u8]) -> (r: Option<Self>)
        ensures
            r == (if Self::spec_decodes(bytes@) {
                Some(Self::spec_decode(bytes@))
            } else {
                None
            }),
    {
        if bytes.len() < 16 {
            return None;
        }
        if bytes[0] != PCI_CAP_ID_VENDOR {
            return None;
        }
        if bytes[2] < 16 {
            return None;
        }
        Some(
            Self {
                cap_next: bytes[1],
                cap_len: bytes[2],
                cfg_type: bytes[3],
                bar: bytes[4],
                offset: read_u32(bytes, 8),
                length: read_u32(bytes, 12),
            },
        )
    }
}

/// Decoding an encoded capability gives it back, followed by anything, as
/// long as it claims a length of at least 16 bytes.
pub proof fn lemma_capability_round_trip(c: VirtioPciCapability, rest: Seq<u8>)
    requires
        c.cap_len >= 16,
    ensures
        c.spec_bytes().len() == 16,
        VirtioPciCapability::spec_decodes(c.spec_bytes() + rest),
        VirtioPciCapability::spec_decode(c.spec_bytes() + rest) == c,
{
    lemma_le_round_trip();
    let b = c.spec_bytes() + rest;
    assert(b.subrange(8, 12) =~= le32(c.offset));
    assert(b.subrange(12, 16) =~= le32(c.length));
}

/// VirtIO PCI notification capability: the standard capability followed by
/// `le32 notify_off_multiplier`.
#[derive(Debug, Clone, Copy, PartialEq, Eq)]
pub struct VirtioPciNotifyCapability {
    pub cap: VirtioPciCapability,
    pub notify_off_multiplier: u32,
}

impl VirtioPciNotifyCapability {
    pub const SIZE: usize = 20;

    pub open spec fn spec_new(bar: u8, offset: u32, length: u32, notify_off_multiplier: u32) -> Self {
        VirtioPciNotifyCapability {
            cap: VirtioPciCapability {
                cap_next: 0,
                cap_len: 20,
                cfg_type: VIRTIO_PCI_CAP_NOTIFY_CFG,
                bar,
                offset,
                length,
            },
            notify_off_multiplier,
        }
    }

    pub fn new(bar: u8, offset: u32, length: u32, notify_off_multiplier: u32) -> (c: Self)
        ensures
            c == Self::spec_new(bar, offset, length, notify_off_multiplier),
            c.cap.cap_next == 0 && c.cap.cap_len == 20,
            c.cap.cfg_type == VIRTIO_PCI_CAP_NOTIFY_CFG,
            c.cap.bar == bar,
            c.cap.offset == offset,
            c.cap.length == length,
            c.notify_off_multiplier == notify_off_multiplier,
    {
        Self {
            cap: VirtioPciCapability {
                cap_next: 0,
                cap_len: 20,
                cfg_type: VIRTIO_PCI_CAP_NOTIFY_CFG,
                bar,
                offset,
                length,
            },
            notify_off_multiplier,
        }
    }

    pub open spec fn spec_bytes(self) -> Seq<u8> {
        self.cap.spec_bytes() + le32(self.notify_off_multiplier)
    }

    /// A notification capability is read from at least 20 bytes holding a
    /// valid capability of the notification type that claims at least 20 bytes.
    pub open spec fn spec_decodes(b: Seq<u8>) -> bool {
        &&& b.len() >= 20
        &&& VirtioPciCapability::spec_decodes(b)
        &&& VirtioPciCapability::spec_decode(b).cfg_type == VIRTIO_PCI_CAP_NOTIFY_CFG
        &&& VirtioPciCapability::spec_decode(b).cap_len >= 20
    }

    pub open spec fn spec_decode(b: Seq<u8>) -> Self {
        VirtioPciNotifyCapability {
            cap: VirtioPciCapability::spec_decode(b),
            notify_off_multiplier: u32_at(b, 16),
        }
    }

    pub fn encode_le(self) -> (out: [u8; 20])
        ensures
            out@ == self.spec_bytes(),
    {
        let mut v: Vec<u8> = Vec::new();
        let head = self.cap.encode_le();
        let mut i: usize = 0;
        while i < 16
            invariant
                i <= 16,
                head@ == self.cap.spec_bytes(),
                v@ == head@.subrange(0, i as int),
            decreases 16 - i,
        {
            v.push(head[i]);
            i += 1;
            assert(v@ =~= head@.subrange(0, i as int));
        }
        push_u32(&mut v, self.notify_off_multiplier);
        proof {
            lemma_le_round_trip();
            assert(head@.subrange(0, 16) =~= head@);
        }
        to_array(&v)
    }

    pub fn decode_le(bytes: &[u8]) -> (r: Option<Self>)
        ensures
            r == (if Self::spec_decodes(bytes@) {
                Some(Self::spec_decode(bytes@))
            } else {
                None
            }),
    {
        if bytes.len() < 20 {
            return None;
        }
        let cap = match VirtioPciCapability::decode_le(bytes) {
            Some(cap) => cap,
            None => return None,
        };
        if cap.cfg_type != VIRTIO_PCI_CAP_NOTIFY_CFG {
            return None;
        }
        if cap.cap_len < 20 {
            return None;
        }
        Some(Self { cap, notify_off_multiplier: read_u32(bytes, 16) })
    }
}

/// Decoding an encoded notification capability gives it back, as long as it
/// is of the notification type and claims at least 20 bytes (as `new` makes).
pub proof fn lemma_notify_capability_round_trip(c: VirtioPciNotifyCapability)
    requires
        c.cap.cap_len >= 20,
        c.cap.cfg_type == VIRTIO_PCI_CAP_NOTIFY_CFG,
    ensures
        c.spec_bytes().len() == 20,
        VirtioPciNotifyCapability::spec_decodes(c.spec_bytes()),
        VirtioPciNotifyCapability::spec_decode(c.spec_bytes()) == c,
{
    lemma_le_round_trip();
    lemma_capability_round_trip(c.cap, le32(c.notify_off_multiplier));
    let b = c.spec_bytes();
    assert(b.subrange(16, 20) =~= le32(c.notify_off_multiplier));
}

#[derive(Debug, Clone, Copy, PartialEq, Eq)]
pub struct PciBar {
    pub index: u8,
    /// Absolute BAR base address.
    pub base: u64,
    /// BAR size in bytes.
    pub size: u64,
}

impl PciBar {
    pub fn new(index: u8, base: u64, size: u64) -> (b: Self)
        ensures
            b == (PciBar { index, base, size }),
    {
        Self { index, base, size }
    }

    /// Whether the BAR-relative range `[offset, offset + length)` lies in the BAR.
    pub open spec fn spec_contains(self, offset: u64, length: u64) -> bool {
        offset + length <= self.size
    }

    /// Check a BAR-relative range.
    pub fn contains(&self, offset: u64, length: u64) -> (r: bool)
        ensures
            r == self.spec_contains(offset, length),
    {
        match offset.checked_add(length) {
            Some(end) => end <= self.size,
            None => false,
        }
    }

    /// Check an absolute address range.
    pub fn contains_abs(&self, address: u64, length: u64) -> (r: bool)
        ensures
            r == (self.base <= address && address - self.base + length <= self.size),
    {
        if address < self.base {
            return false;
        }
        let offset = address - self.base;
        self.contains(offset, length)
    }
}

#[derive(Debug, Clone, Copy, PartialEq, Eq)]
pub enum PciTransportError {
    InvalidBar,
    CapabilityOutOfBounds,
    InvalidCapability,
    UnsupportedAccess,
    QueueNotSelected,
    InvalidRegister,
    InvalidValue,
    InvalidQueueIndex,
    Device(DeviceError),
}

impl From<DeviceError> for PciTransportError {
    fn from(value: DeviceError) -> (e: Self) {
        PciTransportError::Device(value)
    }
}

impl vstd::std_specs::convert::FromSpecImpl<DeviceError> for PciTransportError {
    open spec fn obeys_from_spec() -> bool {
        true
    }

    open spec fn from_spec(v: DeviceError) -> Self {
        PciTransportError::Device(v)
    }
}


/// The abstract state of the PCI transport.
pub struct TransportState {
    pub device: VirtioGpuDevice,
    pub common_config: CommonConfig,
    /// The six BAR slots.
    pub bars: Seq<Option<PciBar>>,
    /// The capabilities, in the order they were added.
    pub capabilities: Seq<VirtioPciCapability>,
    /// The registers kept for each virtqueue.
    pub queue_states: Seq<QueueState>,
    /// The device-specific configuration space.
    pub device_config: Seq<u8>,
    pub selected_queue: Option<u16>,
    pub notify_off_multiplier: u32,
    pub isr_status: u8,
}

/// The state a queue starts in, and returns to when the device is reset.
pub open spec fn initial_queue_state() -> QueueState {
    QueueState {
        size: MAX_QUEUE_SIZE,
        enabled: false,
        desc_addr: 0,
        driver_addr: 0,
        device_addr: 0,
        notify_off: 0,
    }
}

/// The unsigned value of the little-endian bytes `b` (at most eight of them).
pub open spec fn le_value(b: Seq<u8>) -> u64 {
    u64_at(b + Seq::new((8 - b.len()) as nat, |i: int| 0u8), 0)
}

/// Whether `width` is a valid device-configuration access width.
pub open spec fn valid_width(width: usize) -> bool {
    width == 1 || width == 2 || width == 4 || width == 8
}

impl TransportState {
    /// Six BAR slots, one state per queue, at most that many queues announced,
    /// and a selected queue, if any, among them.
    pub open spec fn wf(self) -> bool {
        &&& self.bars.len() == 6
        &&& self.queue_states.len() == NUM_QUEUES
        &&& self.common_config.num_queues <= NUM_QUEUES
        &&& (self.selected_queue matches Some(q) ==> q < NUM_QUEUES)
    }

    /// The transport of a freshly attached `device`.
    pub open spec fn spec_new(device: VirtioGpuDevice) -> TransportState {
        TransportState {
            device,
            common_config: CommonConfig::spec_new(NUM_QUEUES, device.config_generation),
            bars: Seq::new(6, |i: int| None::<PciBar>),
            capabilities: Seq::empty(),
            queue_states: Seq::new(NUM_QUEUES as nat, |i: int| initial_queue_state()),
            device_config: Seq::empty(),
            selected_queue: None,
            notify_off_multiplier: 0,
            isr_status: 0,
        }
    }

    /// The index of the selected queue, if one is selected and announced.
    pub open spec fn spec_selected_index(self) -> Result<int, PciTransportError> {
        match self.selected_queue {
            None => Err(PciTransportError::QueueNotSelected),
            Some(q) => if q >= self.common_config.num_queues {
                Err(PciTransportError::InvalidQueueIndex)
            } else {
                Ok(q as int)
            },
        }
    }

    /// The BAR in slot `index`, if there is one.
    pub open spec fn spec_bar(self, index: u8) -> Option<PciBar> {
        if index < 6 {
            self.bars[index as int]
        } else {
            None
        }
    }

    /// Selecting queue `q` loads its saved registers into the common
    /// configuration; an index the device does not announce is refused.
    pub open spec fn spec_select_queue(self, q: u16) -> (TransportState, Result<(), PciTransportError>) {
        if q >= self.common_config.num_queues {
            (self, Err(PciTransportError::InvalidQueueIndex))
        } else {
            let st = self.queue_states[q as int];
            (
                TransportState {
                    common_config: CommonConfig {
                        queue_select: q,
                        queue_size: st.size,
                        queue_msix_vector: CommonConfig::MSIX_VECTOR_NONE,
                        queue_enable: if st.enabled {
                            1u16
                        } else {
                            0u16
                        },
                        queue_notify_off: st.notify_off,
                        queue_desc: st.desc_addr,
                        queue_driver: st.driver_addr,
                        queue_device: st.device_addr,
                        ..self.common_config
                    },
                    selected_queue: Some(q),
                    ..self
                },
                Ok(()),
            )
        }
    }

    /// The state after a device reset: fresh common configuration, no queue
    /// selected, every queue back to its initial state, a zeroed device
    /// configuration and a clear interrupt status. BARs and capabilities stay.
    pub open spec fn spec_reset(self) -> TransportState {
        TransportState {
            common_config: CommonConfig::spec_new(NUM_QUEUES, self.device.config_generation),
            selected_queue: None,
            queue_states: Seq::new(NUM_QUEUES as nat, |i: int| initial_queue_state()),
            device_config: Seq::new(self.device_config.len(), |i: int| 0u8),
            isr_status: 0,
            ..self
        }
    }

    /// The 32-bit half `select` of `bits`, or 0 past the second half.
    pub open spec fn feature_word(bits: u64, select: u32) -> u64 {
        if select > 1 {
            0
        } else {
            (bits >> ((select * 32) as u64)) & 0xffff_ffffu64
        }
    }

    /// A read of `width` bytes at `offset` of the common configuration.
    pub open spec fn spec_read_common(self, offset: u64, width: usize) -> Result<
        u64,
        PciTransportError,
    > {
        let c = self.common_config;
        if offset == CommonConfig::DEVICE_FEATURE_SELECT && width == 4 {
            Ok(c.device_feature_select as u64)
        } else if offset == CommonConfig::DEVICE_FEATURE && width == 4 {
            Ok(Self::feature_word(self.device.device_features.bits, c.device_feature_select))
        } else if offset == CommonConfig::DRIVER_FEATURE_SELECT && width == 4 {
            Ok(c.driver_feature_select as u64)
        } else if offset == CommonConfig::DRIVER_FEATURE && width == 4 {
            Ok(Self::feature_word(self.device.driver_features.bits, c.driver_feature_select))
        } else if offset == CommonConfig::CONFIG_MSIX_VECTOR && width == 2 {
            Ok(c.config_msix_vector as u64)
        } else if offset == CommonConfig::NUM_QUEUES && width == 2 {
            Ok(c.num_queues as u64)
        } else if offset == CommonConfig::DEVICE_STATUS && width == 1 {
            Ok(self.device.status.bits as u64)
        } else if offset == CommonConfig::CONFIG_GENERATION && width == 1 {
            Ok(self.device.config_generation as u64)
        } else if offset == CommonConfig::QUEUE_SELECT && width == 2 {
            Ok(c.queue_select as u64)
        } else if offset == CommonConfig::QUEUE_SIZE && width == 2 {
            Ok(c.queue_size as u64)
        } else if offset == CommonConfig::QUEUE_MSIX_VECTOR && width == 2 {
            Ok(c.queue_msix_vector as u64)
        } else if offset == CommonConfig::QUEUE_ENABLE && width == 2 {
            Ok(c.queue_enable as u64)
        } else if offset == CommonConfig::QUEUE_NOTIFY_OFF && width == 2 {
            Ok(c.queue_notify_off as u64)
        } else if offset == CommonConfig::QUEUE_DESC && width == 8 {
            Ok(c.queue_desc)
        } else if offset == CommonConfig::QUEUE_DRIVER && width == 8 {
            Ok(c.queue_driver)
        } else if offset == CommonConfig::QUEUE_DEVICE && width == 8 {
            Ok(c.queue_device)
        } else if offset == CommonConfig::QUEUE_NOTIFY_DATA && width == 2 {
            Ok(c.queue_notify_data as u64)
        } else if offset == CommonConfig::QUEUE_RESET && width == 2 {
            Ok(c.queue_reset as u64)
        } else {
            Err(PciTransportError::UnsupportedAccess)
        }
    }

    /// The state with queue `index`'s saved registers replaced by `st`.
    pub open spec fn with_queue(self, index: int, st: QueueState) -> TransportState {
        TransportState { queue_states: self.queue_states.update(index, st), ..self }
    }

    /// The driver's feature bitmap after writing `value` into half `select`.
    pub open spec fn merged_features(current: u64, select: u32, value: u64) -> u64 {
        let mask = 0xffff_ffffu64 << ((select * 32) as u64);
        (current & !mask) | ((value & 0xffff_ffffu64) << ((select * 32) as u64))
    }

    /// A write of `value`, `width` bytes wide, at `offset` of the common
    /// configuration: the resulting state and the outcome. A refused write
    /// leaves the state unchanged.
    pub open spec fn spec_write_common(self, offset: u64, width: usize, value: u64) -> (
        TransportState,
        Result<(), PciTransportError>,
    ) {
        let c = self.common_config;
        if offset == CommonConfig::DEVICE_FEATURE_SELECT && width == 4 {
            (
                TransportState {
                    common_config: CommonConfig { device_feature_select: value as u32, ..c },
                    ..self
                },
                Ok(()),
            )
        } else if offset == CommonConfig::DRIVER_FEATURE_SELECT && width == 4 {
            (
                TransportState {
                    common_config: CommonConfig { driver_feature_select: value as u32, ..c },
                    ..self
                },
                Ok(()),
            )
        } else if offset == CommonConfig::DRIVER_FEATURE && width == 4 {
            if c.driver_feature_select > 1 {
                (self, Ok(()))
            } else {
                let features = Self::merged_features(
                    self.device.driver_features.bits,
                    c.driver_feature_select,
                    value,
                );
                let (dev, r) = self.device.spec_set_driver_features(features);
                match r {
                    Ok(()) => (TransportState { device: dev, ..self }, Ok(())),
                    Err(e) => (self, Err(PciTransportError::Device(e))),
                }
            }
        } else if offset == CommonConfig::CONFIG_MSIX_VECTOR && width == 2 {
            (
                TransportState {
                    common_config: CommonConfig { config_msix_vector: value as u16, ..c },
                    ..self
                },
                Ok(()),
            )
        } else if offset == CommonConfig::DEVICE_STATUS && width == 1 {
            let (dev, r) = self.device.spec_set_status(value as u8);
            match r {
                Err(e) => (self, Err(PciTransportError::Device(e))),
                Ok(()) => {
                    let s1 = TransportState {
                        device: dev,
                        common_config: CommonConfig { device_status: dev.status.bits, ..c },
                        ..self
                    };
                    if dev.status.bits == 0 {
                        (s1.spec_reset(), Ok(()))
                    } else {
                        (s1, Ok(()))
                    }
                },
            }
        } else if offset == CommonConfig::QUEUE_SELECT && width == 2 {
            self.spec_select_queue(value as u16)
        } else if offset == CommonConfig::QUEUE_SIZE && width == 2 {
            match self.spec_selected_index() {
                Err(e) => (self, Err(e)),
                Ok(i) => {
                    let qs = value as u16;
                    if qs == 0 || qs > MAX_QUEUE_SIZE || !is_power_of_two(qs as int) {
                        (self, Err(PciTransportError::InvalidValue))
                    } else {
                        (
                            TransportState {
                                common_config: CommonConfig { queue_size: qs, ..c },
                                ..self.with_queue(i, QueueState { size: qs, ..self.queue_states[i] })
                            },
                            Ok(()),
                        )
                    }
                },
            }
        } else if offset == CommonConfig::QUEUE_MSIX_VECTOR && width == 2 {
            match self.spec_selected_index() {
                Err(e) => (self, Err(e)),
                Ok(i) => (
                    TransportState {
                        common_config: CommonConfig { queue_msix_vector: value as u16, ..c },
                        ..self
                    },
                    Ok(()),
                ),
            }
        } else if offset == CommonConfig::QUEUE_ENABLE && width == 2 {
            match self.spec_selected_index() {
                Err(e) => (self, Err(e)),
                Ok(i) => {
                    if value as u16 != 1 {
                        (self, Err(PciTransportError::InvalidValue))
                    } else if c.queue_size == 0 {
                        (self, Err(PciTransportError::InvalidValue))
                    } else {
                        match self.device.spec_queue_ready(c.queue_select) {
                            Err(e) => (self, Err(PciTransportError::Device(e))),
                            Ok(false) => (self, Err(PciTransportError::QueueNotSelected)),
                            Ok(true) => (
                                TransportState {
                                    common_config: CommonConfig { queue_enable: 1, ..c },
                                    ..self.with_queue(
                                        i,
                                        QueueState { enabled: true, ..self.queue_states[i] },
                                    )
                                },
                                Ok(()),
                            ),
                        }
                    }
                },
            }
        } else if offset == CommonConfig::QUEUE_DESC && width == 8 {
            match self.spec_selected_index() {
                Err(e) => (self, Err(e)),
                Ok(i) => (
                    TransportState {
                        common_config: CommonConfig { queue_desc: value, ..c },
                        ..self.with_queue(i, QueueState { desc_addr: value, ..self.queue_states[i] })
                    },
                    Ok(()),
                ),
            }
        } else if offset == CommonConfig::QUEUE_DRIVER && width == 8 {
            match self.spec_selected_index() {
                Err(e) => (self, Err(e)),
                Ok(i) => (
                    TransportState {
                        common_config: CommonConfig { queue_driver: value, ..c },
                        ..self.with_queue(
                            i,
                            QueueState { driver_addr: value, ..self.queue_states[i] },
                        )
                    },
                    Ok(()),
                ),
            }
        } else if offset == CommonConfig::QUEUE_DEVICE && width == 8 {
            match self.spec_selected_index() {
                Err(e) => (self, Err(e)),
                Ok(i) => (
                    TransportState {
                        common_config: CommonConfig { queue_device: value, ..c },
                        ..self.with_queue(
                            i,
                            QueueState { device_addr: value, ..self.queue_states[i] },
                        )
                    },
                    Ok(()),
                ),
            }
        } else if offset == CommonConfig::QUEUE_NOTIFY_DATA && width == 2 {
            match self.spec_selected_index() {
                Err(e) => (self, Err(e)),
                Ok(i) => (
                    TransportState {
                        common_config: CommonConfig { queue_notify_data: value as u16, ..c },
                        ..self
                    },
                    Ok(()),
                ),
            }
        } else if offset == CommonConfig::QUEUE_RESET && width == 2 {
            if value != 1 {
                (self, Err(PciTransportError::InvalidValue))
            } else {
                match self.spec_selected_index() {
                    Err(e) => (self, Err(e)),
                    Ok(i) => (
                        TransportState {
                            common_config: CommonConfig {
                                queue_size: 0,
                                queue_enable: 0,
                                queue_desc: 0,
                                queue_driver: 0,
                                queue_device: 0,
                                queue_notify_data: 0,
                                queue_reset: 0,
                                ..c
                            },
                            ..self.with_queue(i, QueueState::default_spec())
                        },
                        Ok(()),
                    ),
                }
            }
        } else {
            // DEVICE_FEATURE, NUM_QUEUES, CONFIG_GENERATION and QUEUE_NOTIFY_OFF
            // are read-only; anything else is not a register of that width.
            (self, Err(PciTransportError::UnsupportedAccess))
        }
    }
}


impl TransportState {
    /// Adding a capability: its BAR must exist, it must be well formed, lie
    /// inside the BAR and be suitably aligned for its type. A device
    /// configuration capability sizes the device configuration space
    /// (zero-filled when its size changes).
    pub open spec fn spec_add_capability(self, cap: VirtioPciCapability) -> (
        TransportState,
        Result<(), PciTransportError>,
    ) {
        match self.spec_bar(cap.bar) {
            None => (self, Err(PciTransportError::InvalidBar)),
            Some(bar) => if cap.cap_len < 16 || cap.cfg_type == 0 {
                (self, Err(PciTransportError::InvalidCapability))
            } else if !bar.spec_contains(cap.offset as u64, cap.length as u64) {
                (self, Err(PciTransportError::CapabilityOutOfBounds))
            } else if cap.cfg_type == VIRTIO_PCI_CAP_COMMON_CFG && cap.offset % 4 != 0 {
                (self, Err(PciTransportError::InvalidCapability))
            } else if cap.cfg_type == VIRTIO_PCI_CAP_NOTIFY_CFG && (cap.offset % 2 != 0
                || cap.length < 2) {
                (self, Err(PciTransportError::InvalidCapability))
            } else if cap.cfg_type == VIRTIO_PCI_CAP_DEVICE_CFG && cap.offset % 4 != 0 {
                (self, Err(PciTransportError::InvalidCapability))
            } else if cap.cfg_type == VIRTIO_PCI_CAP_ISR_CFG && cap.length < 1 {
                (self, Err(PciTransportError::InvalidCapability))
            } else {
                let cfg = if cap.cfg_type == VIRTIO_PCI_CAP_DEVICE_CFG
                    && self.device_config.len() != cap.length {
                    Seq::new(cap.length as nat, |i: int| 0u8)
                } else {
                    self.device_config
                };
                (
                    TransportState {
                        capabilities: self.capabilities.push(cap),
                        device_config: cfg,
                        ..self
                    },
                    Ok(()),
                )
            },
        }
    }

    /// Adding the notification capability: its BAR must exist, and it must be
    /// 2-aligned, at least 2 bytes long and inside the BAR. It sets the
    /// notification offset multiplier.
    pub open spec fn spec_add_notify_capability(self, cap: VirtioPciNotifyCapability) -> (
        TransportState,
        Result<(), PciTransportError>,
    ) {
        match self.spec_bar(cap.cap.bar) {
            None => (self, Err(PciTransportError::InvalidBar)),
            Some(bar) => if cap.cap.offset % 2 != 0 || cap.cap.length < 2 {
                (self, Err(PciTransportError::InvalidCapability))
            } else if !bar.spec_contains(cap.cap.offset as u64, cap.cap.length as u64) {
                (self, Err(PciTransportError::CapabilityOutOfBounds))
            } else {
                (
                    TransportState {
                        notify_off_multiplier: cap.notify_off_multiplier,
                        capabilities: self.capabilities.push(cap.cap),
                        ..self
                    },
                    Ok(()),
                )
            },
        }
    }

    /// The first capability of type `cfg_type`, if any.
    pub open spec fn spec_capability(self, cfg_type: u8) -> Option<VirtioPciCapability> {
        if exists|i: int| 0 <= i < self.capabilities.len() && self.capabilities[i].cfg_type == cfg_type {
            let i = choose|i: int|
                0 <= i < self.capabilities.len() && self.capabilities[i].cfg_type == cfg_type
                    && forall|j: int| 0 <= j < i ==> self.capabilities[j].cfg_type != cfg_type;
            Some(self.capabilities[i])
        } else {
            None
        }
    }

    /// The outcome of a device configuration access: the width must be 1, 2,
    /// 4 or 8 and the bytes must lie inside the space.
    pub open spec fn spec_device_config_access(self, offset: u64, width: usize) -> Result<
        (),
        PciTransportError,
    > {
        if !valid_width(width) {
            Err(PciTransportError::UnsupportedAccess)
        } else if offset + width > self.device_config.len() {
            Err(PciTransportError::InvalidValue)
        } else {
            Ok(())
        }
    }
}

/// The PCI transport. Every field is public and the view shows each of them;
/// the operations require and keep `wf`.
pub struct VirtioPciTransport {
    pub device: VirtioGpuDevice,
    /// VirtIO PCI common configuration state.
    pub common_config: CommonConfig,
    /// The six BAR slots.
    pub bars: [Option<PciBar>; 6],
    /// The capabilities, in the order they were added.
    pub capabilities: Vec<VirtioPciCapability>,
    /// The registers kept for each virtqueue.
    pub queue_states: [QueueState; 2],
    /// Device-specific configuration space.
    pub device_config: Vec<u8>,
    /// Queue currently selected through QUEUE_SELECT.
    pub selected_queue: Option<u16>,
    /// VirtIO notification multiplier.
    pub notify_off_multiplier: u32,
    /// Interrupt status register.
    pub isr_status: u8,
}

impl View for VirtioPciTransport {
    type V = TransportState;

    open spec fn view(&self) -> TransportState {
        TransportState {
            device: self.device,
            common_config: self.common_config,
            bars: self.bars@,
            capabilities: self.capabilities@,
            queue_states: self.queue_states@,
            device_config: self.device_config@,
            selected_queue: self.selected_queue,
            notify_off_multiplier: self.notify_off_multiplier,
            isr_status: self.isr_status,
        }
    }
}

impl VirtioPciTransport {
    pub open spec fn wf(&self) -> bool {
        self@.wf()
    }

    pub fn new(device: VirtioGpuDevice) -> (t: Self)
        ensures
            t@ == TransportState::spec_new(device),
            t.wf(),
    {
        let config_generation = device.config_generation();
        let queue_state = QueueState {
            size: MAX_QUEUE_SIZE,
            enabled: false,
            desc_addr: 0,
            driver_addr: 0,
            device_addr: 0,
            notify_off: 0,
        };
        let t = Self {
            device,
            common_config: CommonConfig::new(NUM_QUEUES, config_generation),
            bars: [None, None, None, None, None, None],
            capabilities: Vec::new(),
            queue_states: [queue_state, queue_state],
            device_config: Vec::new(),
            selected_queue: None,
            notify_off_multiplier: 0,
            isr_status: 0,
        };
        assert(t@.bars =~= Seq::new(6, |i: int| None::<PciBar>));
        assert(t@.queue_states =~= Seq::new(NUM_QUEUES as nat, |i: int| initial_queue_state()));
        t
    }

    pub fn common_config(&self) -> (c: &CommonConfig)
        ensures
            *c == self@.common_config,
    {
        &self.common_config
    }

    pub fn common_config_mut(&mut self) -> (c: &mut CommonConfig)
        ensures
            *c == old(self)@.common_config,
            final(self)@ == (TransportState { common_config: *final(c), ..old(self)@ }),
    {
        &mut self.common_config
    }

    /// Installs `bar` in its slot; slots are 0..6 and a BAR may not be empty.
    pub fn add_bar(&mut self, bar: PciBar) -> (r: Result<(), PciTransportError>)
        requires
            old(self).wf(),
        ensures
            final(self).wf(),
            bar.index >= 6 || bar.size == 0 ==> r == Err::<(), _>(PciTransportError::InvalidBar)
                && final(self)@ == old(self)@,
            bar.index < 6 && bar.size != 0 ==> r is Ok && final(self)@ == (TransportState {
                bars: old(self)@.bars.update(bar.index as int, Some(bar)),
                ..old(self)@
            }),
    {
        if bar.index >= 6 || bar.size == 0 {
            return Err(PciTransportError::InvalidBar);
        }
        self.bars[bar.index as usize] = Some(bar);
        Ok(())
    }

    pub fn bar(&self, index: u8) -> (r: Option<PciBar>)
        requires
            self.wf(),
        ensures
            r == self@.spec_bar(index),
    {
        if index < 6 {
            self.bars[index as usize]
        } else {
            None
        }
    }

    pub fn add_capability(&mut self, capability: VirtioPciCapability) -> (r: Result<
        (),
        PciTransportError,
    >)
        requires
            old(self).wf(),
        ensures
            final(self).wf(),
            (final(self)@, r) == old(self)@.spec_add_capability(capability),
    {
        let bar = match self.bar(capability.bar) {
            Some(bar) => bar,
            None => return Err(PciTransportError::InvalidBar),
        };
        if capability.cap_len < 16 {
            return Err(PciTransportError::InvalidCapability);
        }
        if capability.cfg_type == 0 {
            return Err(PciTransportError::InvalidCapability);
        }
        if !bar.contains(capability.offset as u64, capability.length as u64) {
            return Err(PciTransportError::CapabilityOutOfBounds);
        }
        if capability.cfg_type == VIRTIO_PCI_CAP_COMMON_CFG {
            if capability.offset % 4 != 0 {
                return Err(PciTransportError::InvalidCapability);
            }
        } else if capability.cfg_type == VIRTIO_PCI_CAP_NOTIFY_CFG {
            if capability.offset % 2 != 0 {
                return Err(PciTransportError::InvalidCapability);
            }
            if capability.length < 2 {
                return Err(PciTransportError::InvalidCapability);
            }
        } else if capability.cfg_type == VIRTIO_PCI_CAP_DEVICE_CFG {
            if capability.offset % 4 != 0 {
                return Err(PciTransportError::InvalidCapability);
            }
            let len = capability.length as usize;
            if self.device_config.len() != len {
                self.device_config = vec![0u8; len];
                assert(self.device_config@ =~= Seq::new(capability.length as nat, |i: int| 0u8));
            }
        } else if capability.cfg_type == VIRTIO_PCI_CAP_ISR_CFG {
            if capability.length < 1 {
                return Err(PciTransportError::InvalidCapability);
            }
        }
        self.capabilities.push(capability);
        Ok(())
    }

    pub fn add_notify_capability(&mut self, capability: VirtioPciNotifyCapability) -> (r: Result<
        (),
        PciTransportError,
    >)
        requires
            old(self).wf(),
        ensures
            final(self).wf(),
            (final(self)@, r) == old(self)@.spec_add_notify_capability(capability),
    {
        let bar = match self.bar(capability.cap.bar) {
            Some(bar) => bar,
            None => return Err(PciTransportError::InvalidBar),
        };
        if capability.cap.offset % 2 != 0 {
            return Err(PciTransportError::InvalidCapability);
        }
        if capability.cap.length < 2 {
            return Err(PciTransportError::InvalidCapability);
        }
        if !bar.contains(capability.cap.offset as u64, capability.cap.length as u64) {
            return Err(PciTransportError::CapabilityOutOfBounds);
        }
        self.notify_off_multiplier = capability.notify_off_multiplier;
        self.capabilities.push(capability.cap);
        Ok(())
    }

    pub fn capabilities(&self) -> (r: &[VirtioPciCapability])
        ensures
            r@ == self@.capabilities,
    {
        self.capabilities.as_slice()
    }

    /// The first capability of type `cfg_type`.
    pub fn capability(&self, cfg_type: u8) -> (r: Option<VirtioPciCapability>)
        ensures
            r == self@.spec_capability(cfg_type),
    {
        let mut i: usize = 0;
        while i < self.capabilities.len()
            invariant
                i <= self@.capabilities.len(),
                self.capabilities@ == self@.capabilities,
                forall|j: int| 0 <= j < i ==> self@.capabilities[j].cfg_type != cfg_type,
            decreases self@.capabilities.len() - i,
        {
            if self.capabilities[i].cfg_type == cfg_type {
                let c = self.capabilities[i];
                proof {
                    let caps = self@.capabilities;
                    assert(0 <= i < caps.len() && caps[i as int].cfg_type == cfg_type);
                    let k = choose|k: int|
                        0 <= k < caps.len() && caps[k].cfg_type == cfg_type && forall|j: int|
                            0 <= j < k ==> caps[j].cfg_type != cfg_type;
                    assert(k == i as int);
                }
                return Some(c);
            }
            i += 1;
        }
        None
    }

    pub fn notify_off_multiplier(&self) -> (r: u32)
        ensures
            r == self@.notify_off_multiplier,
    {
        self.notify_off_multiplier
    }

    pub fn isr_status(&self) -> (r: u8)
        ensures
            r == self@.isr_status,
    {
        self.isr_status
    }

    /// Reading the ISR status register clears it, as required by VirtIO PCI.
    pub fn read_isr(&mut self) -> (r: u8)
        ensures
            r == old(self)@.isr_status,
            final(self)@ == (TransportState { isr_status: 0, ..old(self)@ }),
    {
        let status = self.isr_status;
        self.isr_status = 0;
        status
    }

    /// Raises the interrupt bits of `status`.
    pub fn set_isr_status(&mut self, status: u8)
        ensures
            final(self)@ == (TransportState { isr_status: old(self)@.isr_status | status, ..old(self)@ }),
    {
        self.isr_status = self.isr_status | status;
    }

    pub fn select_queue(&mut self, queue_index: u16) -> (r: Result<(), PciTransportError>)
        requires
            old(self).wf(),
        ensures
            final(self).wf(),
            (final(self)@, r) == old(self)@.spec_select_queue(queue_index),
    {
        if queue_index >= self.common_config.num_queues {
            return Err(PciTransportError::InvalidQueueIndex);
        }
        self.common_config.queue_select = queue_index;
        self.selected_queue = Some(queue_index);
        let state = self.queue_states[queue_index as usize];
        self.common_config.queue_size = state.size;
        self.common_config.queue_msix_vector = CommonConfig::MSIX_VECTOR_NONE;
        self.common_config.queue_enable = if state.enabled {
            1u16
        } else {
            0u16
        };
        self.common_config.queue_notify_off = state.notify_off;
        self.common_config.queue_desc = state.desc_addr;
        self.common_config.queue_driver = state.driver_addr;
        self.common_config.queue_device = state.device_addr;
        Ok(())
    }

    pub fn selected_queue(&self) -> (r: Option<u16>)
        ensures
            r == self@.selected_queue,
    {
        self.selected_queue
    }

    pub fn offered_features(&self) -> (r: GpuFeatures)
        ensures
            r == self@.device.device_features,
    {
        self.device.device_features()
    }

    fn selected_queue_index(&self) -> (r: Result<usize, PciTransportError>)
        requires
            self.wf(),
        ensures
            match self@.spec_selected_index() {
                Ok(i) => r == Ok::<usize, PciTransportError>(i as usize) && i < NUM_QUEUES,
                Err(e) => r == Err::<usize, PciTransportError>(e),
            },
    {
        let index = match self.selected_queue {
            Some(index) => index,
            None => return Err(PciTransportError::QueueNotSelected),
        };
        if index >= self.common_config.num_queues {
            return Err(PciTransportError::InvalidQueueIndex);
        }
        Ok(index as usize)
    }
}


impl VirtioPciTransport {
    pub fn read_common(&self, offset: u64, width: usize) -> (r: Result<u64, PciTransportError>)
        ensures
            r == self@.spec_read_common(offset, width),
    {
        let c = &self.common_config;
        if offset == CommonConfig::DEVICE_FEATURE_SELECT && width == 4 {
            Ok(c.device_feature_select as u64)
        } else if offset == CommonConfig::DEVICE_FEATURE && width == 4 {
            let select = c.device_feature_select;
            if select > 1 {
                return Ok(0);
            }
            let bits = self.device.device_features().bits();
            Ok((bits >> (select * 32) as u64) & 0xffff_ffffu64)
        } else if offset == CommonConfig::DRIVER_FEATURE_SELECT && width == 4 {
            Ok(c.driver_feature_select as u64)
        } else if offset == CommonConfig::DRIVER_FEATURE && width == 4 {
            let select = c.driver_feature_select;
            if select > 1 {
                return Ok(0);
            }
            let bits = self.device.driver_features().bits();
            Ok((bits >> (select * 32) as u64) & 0xffff_ffffu64)
        } else if offset == CommonConfig::CONFIG_MSIX_VECTOR && width == 2 {
            Ok(c.config_msix_vector as u64)
        } else if offset == CommonConfig::NUM_QUEUES && width == 2 {
            Ok(c.num_queues as u64)
        } else if offset == CommonConfig::DEVICE_STATUS && width == 1 {
            Ok(self.device.status().bits() as u64)
        } else if offset == CommonConfig::CONFIG_GENERATION && width == 1 {
            Ok(self.device.config_generation() as u64)
        } else if offset == CommonConfig::QUEUE_SELECT && width == 2 {
            Ok(c.queue_select as u64)
        } else if offset == CommonConfig::QUEUE_SIZE && width == 2 {
            Ok(c.queue_size as u64)
        } else if offset == CommonConfig::QUEUE_MSIX_VECTOR && width == 2 {
            Ok(c.queue_msix_vector as u64)
        } else if offset == CommonConfig::QUEUE_ENABLE && width == 2 {
            Ok(c.queue_enable as u64)
        } else if offset == CommonConfig::QUEUE_NOTIFY_OFF && width == 2 {
            Ok(c.queue_notify_off as u64)
        } else if offset == CommonConfig::QUEUE_DESC && width == 8 {
            Ok(c.queue_desc)
        } else if offset == CommonConfig::QUEUE_DRIVER && width == 8 {
            Ok(c.queue_driver)
        } else if offset == CommonConfig::QUEUE_DEVICE && width == 8 {
            Ok(c.queue_device)
        } else if offset == CommonConfig::QUEUE_NOTIFY_DATA && width == 2 {
            Ok(c.queue_notify_data as u64)
        } else if offset == CommonConfig::QUEUE_RESET && width == 2 {
            Ok(c.queue_reset as u64)
        } else {
            Err(PciTransportError::UnsupportedAccess)
        }
    }

    pub fn write_common(&mut self, offset: u64, width: usize, value: u64) -> (r: Result<
        (),
        PciTransportError,
    >)
        requires
            old(self).wf(),
        ensures
            final(self).wf(),
            (final(self)@, r) == old(self)@.spec_write_common(offset, width, value),
    {
        if offset == CommonConfig::DEVICE_FEATURE_SELECT && width == 4 {
            self.common_config.device_feature_select = value as u32;
        } else if offset == CommonConfig::DRIVER_FEATURE_SELECT && width == 4 {
            self.common_config.driver_feature_select = value as u32;
        } else if offset == CommonConfig::DRIVER_FEATURE && width == 4 {
            let select = self.common_config.driver_feature_select;
            if select > 1 {
                return Ok(());
            }
            let current = self.device.driver_features().bits();
            let mask = 0xffff_ffffu64 << (select * 32) as u64;
            let features = (current & !mask) | ((value & 0xffff_ffffu64) << (select * 32) as u64);
            match self.device.set_driver_features(features) {
                Ok(()) => {},
                Err(e) => return Err(PciTransportError::Device(e)),
            }
        } else if offset == CommonConfig::CONFIG_MSIX_VECTOR && width == 2 {
            self.common_config.config_msix_vector = value as u16;
        } else if offset == CommonConfig::DEVICE_STATUS && width == 1 {
            let status = value as u8;
            match self.device.set_status(status) {
                Ok(()) => {},
                Err(e) => return Err(PciTransportError::Device(e)),
            }
            self.common_config.device_status = self.device.status().bits();
            if self.device.status().is_empty() {
                self.reset_transport_state();
            }
        } else if offset == CommonConfig::QUEUE_SELECT && width == 2 {
            return self.select_queue(value as u16);
        } else if offset == CommonConfig::QUEUE_SIZE && width == 2 {
            let queue_size = value as u16;
            let index = match self.selected_queue_index() {
                Ok(index) => index,
                Err(e) => return Err(e),
            };
            if queue_size == 0 || queue_size > MAX_QUEUE_SIZE || !is_power_of_two_u16(queue_size) {
                return Err(PciTransportError::InvalidValue);
            }
            let mut st = self.queue_states[index];
            st.size = queue_size;
            self.queue_states[index] = st;
            self.common_config.queue_size = queue_size;
        } else if offset == CommonConfig::QUEUE_MSIX_VECTOR && width == 2 {
            match self.selected_queue_index() {
                Ok(_) => {},
                Err(e) => return Err(e),
            }
            self.common_config.queue_msix_vector = value as u16;
        } else if offset == CommonConfig::QUEUE_ENABLE && width == 2 {
            let index = match self.selected_queue_index() {
                Ok(index) => index,
                Err(e) => return Err(e),
            };
            // The driver is not supposed to write 0 here: queue disabling and
            // reset go through QUEUE_RESET.
            let enable = value as u16;
            if enable != 1 {
                return Err(PciTransportError::InvalidValue);
            }
            let queue_index = self.common_config.queue_select;
            if self.common_config.queue_size == 0 {
                return Err(PciTransportError::InvalidValue);
            }
            match self.device.queue_ready(queue_index) {
                Ok(true) => {},
                Ok(false) => return Err(PciTransportError::QueueNotSelected),
                Err(e) => return Err(PciTransportError::Device(e)),
            }
            let mut st = self.queue_states[index];
            st.enabled = true;
            self.queue_states[index] = st;
            self.common_config.queue_enable = 1;
        } else if offset == CommonConfig::QUEUE_DESC && width == 8 {
            let index = match self.selected_queue_index() {
                Ok(index) => index,
                Err(e) => return Err(e),
            };
            let mut st = self.queue_states[index];
            st.desc_addr = value;
            self.queue_states[index] = st;
            self.common_config.queue_desc = value;
        } else if offset == CommonConfig::QUEUE_DRIVER && width == 8 {
            let index = match self.selected_queue_index() {
                Ok(index) => index,
                Err(e) => return Err(e),
            };
            let mut st = self.queue_states[index];
            st.driver_addr = value;
            self.queue_states[index] = st;
            self.common_config.queue_driver = value;
        } else if offset == CommonConfig::QUEUE_DEVICE && width == 8 {
            let index = match self.selected_queue_index() {
                Ok(index) => index,
                Err(e) => return Err(e),
            };
            let mut st = self.queue_states[index];
            st.device_addr = value;
            self.queue_states[index] = st;
            self.common_config.queue_device = value;
        } else if offset == CommonConfig::QUEUE_NOTIFY_DATA && width == 2 {
            match self.selected_queue_index() {
                Ok(_) => {},
                Err(e) => return Err(e),
            }
            self.common_config.queue_notify_data = value as u16;
        } else if offset == CommonConfig::QUEUE_RESET && width == 2 {
            if value != 1 {
                return Err(PciTransportError::InvalidValue);
            }
            let index = match self.selected_queue_index() {
                Ok(index) => index,
                Err(e) => return Err(e),
            };
            self.queue_states[index] = QueueState::default();
            self.common_config.queue_size = 0;
            self.common_config.queue_enable = 0;
            self.common_config.queue_desc = 0;
            self.common_config.queue_driver = 0;
            self.common_config.queue_device = 0;
            self.common_config.queue_notify_data = 0;
            // queue_reset is a reset request: the device completes the reset
            // and returns the field to 0.
            self.common_config.queue_reset = 0;
        } else {
            // DEVICE_FEATURE, NUM_QUEUES, CONFIG_GENERATION and
            // QUEUE_NOTIFY_OFF are read-only from the driver side.
            return Err(PciTransportError::UnsupportedAccess);
        }
        Ok(())
    }

    fn reset_transport_state(&mut self)
        requires
            old(self).wf(),
        ensures
            final(self).wf(),
            final(self)@ == old(self)@.spec_reset(),
    {
        self.common_config = CommonConfig::new(NUM_QUEUES, self.device.config_generation());
        self.selected_queue = None;
        let queue_state = QueueState {
            size: MAX_QUEUE_SIZE,
            enabled: false,
            desc_addr: 0,
            driver_addr: 0,
            device_addr: 0,
            notify_off: 0,
        };
        self.queue_states = [queue_state, queue_state];
        fill_zero(&mut self.device_config);
        self.isr_status = 0;
        assert(self@.queue_states =~= Seq::new(NUM_QUEUES as nat, |i: int| initial_queue_state()));
    }

    /// Installs BAR 0 and the common, notification, ISR and device
    /// configuration capabilities inside it.
    pub fn initialize_default_capabilities(&mut self) -> (r: Result<(), PciTransportError>)
        requires
            old(self).wf(),
        ensures
            final(self).wf(),
            r is Ok,
            final(self)@.bars == old(self)@.bars.update(
                0,
                Some(PciBar { index: 0, base: 0x1000_0000, size: 0x1000 }),
            ),
            final(self)@.capabilities == old(self)@.capabilities + seq![
                VirtioPciCapability::spec_new(VIRTIO_PCI_CAP_COMMON_CFG, 0, 0, 0x3c),
                VirtioPciNotifyCapability::spec_new(0, 0x100, 0x100, 4).cap,
                VirtioPciCapability::spec_new(VIRTIO_PCI_CAP_ISR_CFG, 0, 0x200, 1),
                VirtioPciCapability::spec_new(VIRTIO_PCI_CAP_DEVICE_CFG, 0, 0x300, 0x100),
            ],
            final(self)@.notify_off_multiplier == 4,
            final(self)@.device_config.len() == 0x100,
            old(self)@.device_config.len() != 0x100 ==> final(self)@.device_config == Seq::new(
                0x100,
                |i: int| 0u8,
            ),
            old(self)@.device_config.len() == 0x100 ==> final(self)@.device_config == old(self)@.device_config,
            final(self)@.device == old(self)@.device,
            final(self)@.common_config == old(self)@.common_config,
            final(self)@.queue_states == old(self)@.queue_states,
            final(self)@.selected_queue == old(self)@.selected_queue,
            final(self)@.isr_status == old(self)@.isr_status,
    {
        let common_bar = PciBar::new(0, 0x1000_0000, 0x1000);
        let r = self.add_bar(common_bar);
        assert(r is Ok);
        let r = self.add_capability(
            VirtioPciCapability::new(VIRTIO_PCI_CAP_COMMON_CFG, 0, 0x000, CommonConfig::SIZE as u32),
        );
        assert(r is Ok);
        let r = self.add_notify_capability(VirtioPciNotifyCapability::new(0, 0x100, 0x100, 4));
        assert(r is Ok);
        let r = self.add_capability(VirtioPciCapability::new(VIRTIO_PCI_CAP_ISR_CFG, 0, 0x200, 1));
        assert(r is Ok);
        let r = self.add_capability(
            VirtioPciCapability::new(VIRTIO_PCI_CAP_DEVICE_CFG, 0, 0x300, 0x100),
        );
        assert(r is Ok);
        assert(self@.capabilities =~= old(self)@.capabilities + seq![
            VirtioPciCapability::spec_new(VIRTIO_PCI_CAP_COMMON_CFG, 0, 0, 0x3c),
            VirtioPciNotifyCapability::spec_new(0, 0x100, 0x100, 4).cap,
            VirtioPciCapability::spec_new(VIRTIO_PCI_CAP_ISR_CFG, 0, 0x200, 1),
            VirtioPciCapability::spec_new(VIRTIO_PCI_CAP_DEVICE_CFG, 0, 0x300, 0x100),
        ]);
        Ok(())
    }

    /// Reads `width` bytes at `offset` of the device configuration space as a
    /// little-endian value.
    pub fn read_device_config(&self, offset: u64, width: usize) -> (r: Result<
        u64,
        PciTransportError,
    >)
        ensures
            match self@.spec_device_config_access(offset, width) {
                Err(e) => r == Err::<u64, PciTransportError>(e),
                Ok(()) => r == Ok::<u64, PciTransportError>(
                    le_value(self@.device_config.subrange(offset as int, offset + width)),
                ),
            },
    {
        if !(width == 1 || width == 2 || width == 4 || width == 8) {
            return Err(PciTransportError::UnsupportedAccess);
        }
        let len = self.device_config.len() as u64;
        let end = match offset.checked_add(width as u64) {
            Some(end) => end,
            None => return Err(PciTransportError::InvalidValue),
        };
        if end > len {
            return Err(PciTransportError::InvalidValue);
        }
        let start = offset as usize;
        let size = self.device_config.len();
        let mut bytes: Vec<u8> = Vec::new();
        let mut i: usize = 0;
        while i < 8
            invariant
                i <= 8,
                size == self.device_config@.len(),
                valid_width(width),
                start + width <= self.device_config@.len(),
                bytes@.len() == i,
                forall|j: int|
                    0 <= j < i ==> #[trigger] bytes@[j] == if j < width {
                        self.device_config@[start + j]
                    } else {
                        0u8
                    },
            decreases 8 - i,
        {
            if i < width {
                bytes.push(self.device_config[start + i]);
            } else {
                bytes.push(0u8);
            }
            i += 1;
        }
        let v = read_u64(bytes.as_slice(), 0);
        let ghost part = self@.device_config.subrange(offset as int, offset + width);
        assert(bytes@ =~= part + Seq::new((8 - part.len()) as nat, |i: int| 0u8));
        assert(bytes@.subrange(0, 8) =~= bytes@);
        Ok(v)
    }

    /// Writes the low `width` bytes of `value`, little-endian, at `offset` of
    /// the device configuration space.
    pub fn write_device_config(&mut self, offset: u64, width: usize, value: u64) -> (r: Result<
        (),
        PciTransportError,
    >)
        requires
            old(self).wf(),
        ensures
            final(self).wf(),
            match old(self)@.spec_device_config_access(offset, width) {
                Err(e) => r == Err::<(), PciTransportError>(e) && final(self)@ == old(self)@,
                Ok(()) => r is Ok && final(self)@ == (TransportState {
                    device_config: splice(
                        old(self)@.device_config,
                        offset as int,
                        le64(value).subrange(0, width as int),
                    ),
                    ..old(self)@
                }),
            },
    {
        if !(width == 1 || width == 2 || width == 4 || width == 8) {
            return Err(PciTransportError::UnsupportedAccess);
        }
        let len = self.device_config.len() as u64;
        let end = match offset.checked_add(width as u64) {
            Some(end) => end,
            None => return Err(PciTransportError::InvalidValue),
        };
        if end > len {
            return Err(PciTransportError::InvalidValue);
        }
        let start = offset as usize;
        let mut bytes: Vec<u8> = Vec::new();
        push_u64(&mut bytes, value);
        proof {
            lemma_le_round_trip();
        }
        let part = slice_subrange(bytes.as_slice(), 0, width);
        write_at(&mut self.device_config, start, part);
        Ok(())
    }

    pub fn queue_state(&self, queue_index: u16) -> (r: Result<QueueState, PciTransportError>)
        requires
            self.wf(),
        ensures
            queue_index >= NUM_QUEUES ==> r == Err::<QueueState, PciTransportError>(
                PciTransportError::InvalidQueueIndex,
            ),
            queue_index < NUM_QUEUES ==> r == Ok::<QueueState, PciTransportError>(
                self@.queue_states[queue_index as int],
            ),
    {
        if queue_index >= NUM_QUEUES {
            return Err(PciTransportError::InvalidQueueIndex);
        }
        Ok(self.queue_states[queue_index as usize])
    }

    /// The BAR-relative notification address of a queue: the notification
    /// capability's offset plus the queue's notification offset times the
    /// multiplier.
    pub fn queue_notify_address(&self, queue_index: u16) -> (r: Result<u64, PciTransportError>)
        requires
            self.wf(),
        ensures
            match self@.spec_capability(VIRTIO_PCI_CAP_NOTIFY_CFG) {
                None => r == Err::<u64, PciTransportError>(PciTransportError::InvalidCapability),
                Some(cap) => if queue_index >= NUM_QUEUES {
                    r == Err::<u64, PciTransportError>(PciTransportError::InvalidQueueIndex)
                } else {
                    r == Ok::<u64, PciTransportError>(
                        (cap.offset + self@.queue_states[queue_index as int].notify_off
                            * self@.notify_off_multiplier) as u64,
                    )
                },
            },
    {
        let capability = match self.capability(VIRTIO_PCI_CAP_NOTIFY_CFG) {
            Some(c) => c,
            None => return Err(PciTransportError::InvalidCapability),
        };
        let queue = match self.queue_state(queue_index) {
            Ok(q) => q,
            Err(e) => return Err(e),
        };
        let a = queue.notify_off as u64;
        let b = self.notify_off_multiplier as u64;
        assert(a * b <= 0xffff * 0xffff_ffff) by (nonlinear_arith)
            requires
                a <= 0xffff,
                b <= 0xffff_ffff,
        ;
        let offset = a * b;
        Ok(capability.offset as u64 + offset)
    }
}

impl Default for VirtioPciTransport {
    fn default() -> (t: Self)
        ensures
            t@ == TransportState::spec_new(VirtioGpuDevice::spec_new()),
            t.wf(),
    {
        Self::new(VirtioGpuDevice::new())
    }
}


/// A register of the common configuration that the driver may both write and
/// read back: the feature selectors, the MSI-X vectors and the queue address,
/// size and notification-data registers.
pub open spec fn read_back_register(offset: u64, width: usize) -> bool {
    ||| offset == CommonConfig::DEVICE_FEATURE_SELECT && width == 4
    ||| offset == CommonConfig::DRIVER_FEATURE_SELECT && width == 4
    ||| offset == CommonConfig::CONFIG_MSIX_VECTOR && width == 2
    ||| offset == CommonConfig::QUEUE_SIZE && width == 2
    ||| offset == CommonConfig::QUEUE_MSIX_VECTOR && width == 2
    ||| offset == CommonConfig::QUEUE_DESC && width == 8
    ||| offset == CommonConfig::QUEUE_DRIVER && width == 8
    ||| offset == CommonConfig::QUEUE_DEVICE && width == 8
    ||| offset == CommonConfig::QUEUE_NOTIFY_DATA && width == 2
}

/// The value a register of `width` bytes holds after `value` is written to it.
pub open spec fn truncate_to_width(value: u64, width: usize) -> u64 {
    if width == 2 {
        (value as u16) as u64
    } else if width == 4 {
        (value as u32) as u64
    } else {
        value
    }
}

/// What the driver writes to a read-back register is what it reads back, and
/// a write that is refused changes nothing.
pub proof fn lemma_common_write_then_read(s: TransportState, offset: u64, width: usize, value: u64)
    requires
        s.wf(),
    ensures
        ({
            let (s1, r) = s.spec_write_common(offset, width, value);
            &&& s1.wf()
            &&& r is Err ==> s1 == s
            &&& read_back_register(offset, width) && r is Ok ==> s1.spec_read_common(offset, width)
                == Ok::<u64, PciTransportError>(truncate_to_width(value, width))
        }),
{
}

/// No write to the common configuration can make the driver's features
/// exceed what the device offers, or put an undefined bit in the status.
pub proof fn lemma_write_common_keeps_device_consistent(
    s: TransportState,
    offset: u64,
    width: usize,
    value: u64,
)
    requires
        s.device.consistent(),
    ensures
        s.spec_write_common(offset, width, value).0.device.consistent(),
        s.spec_write_common(offset, width, value).0.device.device_features
            == s.device.device_features,
{
    let features = TransportState::merged_features(
        s.device.driver_features.bits,
        s.common_config.driver_feature_select,
        value,
    );
    lemma_device_stays_consistent(s.device, features, value as u8);
}

/// The device's feature bitmap is read through `DEVICE_FEATURE` one 32-bit
/// half at a time: select 0 gives bits 0..32, select 1 bits 32..64, and any
/// other select reads 0; the same holds of `DRIVER_FEATURE` and the driver's
/// bitmap.
pub proof fn lemma_feature_words(s: TransportState)
    ensures
        ({
            let dsel = s.common_config.device_feature_select;
            let rsel = s.common_config.driver_feature_select;
            let dev = s.device.device_features.bits;
            let drv = s.device.driver_features.bits;
            &&& s.spec_read_common(CommonConfig::DEVICE_FEATURE, 4) == Ok::<u64, PciTransportError>(
                if dsel == 0 {
                    dev & 0xffff_ffffu64
                } else if dsel == 1 {
                    dev >> 32u64
                } else {
                    0u64
                },
            )
            &&& s.spec_read_common(CommonConfig::DRIVER_FEATURE, 4) == Ok::<u64, PciTransportError>(
                if rsel == 0 {
                    drv & 0xffff_ffffu64
                } else if rsel == 1 {
                    drv >> 32u64
                } else {
                    0u64
                },
            )
        }),
{
    let dev = s.device.device_features.bits;
    let drv = s.device.driver_features.bits;
    assert((dev >> 0u64) & 0xffff_ffffu64 == dev & 0xffff_ffffu64) by (bit_vector);
    assert((dev >> 32u64) & 0xffff_ffffu64 == dev >> 32u64) by (bit_vector);
    assert((drv >> 0u64) & 0xffff_ffffu64 == drv & 0xffff_ffffu64) by (bit_vector);
    assert((drv >> 32u64) & 0xffff_ffffu64 == drv >> 32u64) by (bit_vector);
    if s.common_config.device_feature_select == 0 {
        assert((s.common_config.device_feature_select * 32) as u64 == 0u64);
    } else if s.common_config.device_feature_select == 1 {
        assert((s.common_config.device_feature_select * 32) as u64 == 32u64);
    }
    if s.common_config.driver_feature_select == 0 {
        assert((s.common_config.driver_feature_select * 32) as u64 == 0u64);
    } else if s.common_config.driver_feature_select == 1 {
        assert((s.common_config.driver_feature_select * 32) as u64 == 32u64);
    }
}

/// The driver's feature bitmap is read and written through `DRIVER_FEATURE`
/// one 32-bit half at a time, the half chosen by `DRIVER_FEATURE_SELECT`
/// (0: bits 0..32, 1: bits 32..64), for a device that offers only features
/// it knows. A read gives the selected half. A write
/// is accepted exactly when feature negotiation is not yet locked and the
/// device offers every bit written into that half; it then replaces the
/// selected half, keeps the other, and reads back. A refused write changes
/// nothing.
pub proof fn lemma_driver_feature_halves(s: TransportState, value: u64)
    requires
        s.wf(),
        s.device.consistent(),
        s.device.device_features.bits & GpuFeatures::ALL == s.device.device_features.bits,
        s.common_config.driver_feature_select <= 1,
    ensures
        ({
            let sel = s.common_config.driver_feature_select;
            let bits = s.device.driver_features.bits;
            let dev = s.device.device_features.bits;
            let half = value & 0xffff_ffffu64;
            let (s1, r) = s.spec_write_common(CommonConfig::DRIVER_FEATURE, 4, value);
            let b1 = s1.device.driver_features.bits;
            &&& s.spec_read_common(CommonConfig::DRIVER_FEATURE, 4) == Ok::<u64, PciTransportError>(
                if sel == 0 {
                    bits & 0xffff_ffffu64
                } else {
                    bits >> 32u64
                },
            )
            &&& (r is Ok <==> (s.device.status.bits & DeviceStatus::FEATURES_OK
                != DeviceStatus::FEATURES_OK && if sel == 0 {
                half & dev == half
            } else {
                half & (dev >> 32u64) == half
            }))
            &&& (r is Ok && sel == 0 ==> b1 & 0xffff_ffffu64 == half && b1 >> 32u64 == bits >> 32u64)
            &&& (r is Ok && sel == 1 ==> b1 >> 32u64 == half && b1 & 0xffff_ffffu64 == bits
                & 0xffff_ffffu64)
            &&& (r is Ok ==> s1.spec_read_common(CommonConfig::DRIVER_FEATURE, 4) == Ok::<
                u64,
                PciTransportError,
            >(half))
            &&& (r is Err ==> s1 == s)
        }),
{
    let sel = s.common_config.driver_feature_select;
    let bits = s.device.driver_features.bits;
    let dev = s.device.device_features.bits;
    let all = GpuFeatures::ALL;
    let half = value & 0xffff_ffffu64;
    let m = TransportState::merged_features(bits, sel, value);
    assert(bits & dev == bits);
    assert(dev & all == dev);
    if sel == 0 {
        assert((sel * 32) as u64 == 0u64);
        assert(m == (bits & !(0xffff_ffffu64 << 0u64)) | ((value & 0xffff_ffffu64) << 0u64));
        assert(m & 0xffff_ffffu64 == half && m >> 32u64 == bits >> 32u64 && ((m & dev == m)
            <==> (half & dev == half)) && (m & dev == m ==> m & all == m)) by (bit_vector)
            requires
                m == (bits & !(0xffff_ffffu64 << 0u64)) | ((value & 0xffff_ffffu64) << 0u64),
                half == value & 0xffff_ffffu64,
                bits & dev == bits,
                dev & all == dev,
        ;
        assert((bits >> 0u64) & 0xffff_ffffu64 == bits & 0xffff_ffffu64) by (bit_vector);
        assert((m >> 0u64) & 0xffff_ffffu64 == m & 0xffff_ffffu64) by (bit_vector);
    } else {
        assert((sel * 32) as u64 == 32u64);
        assert(m == (bits & !(0xffff_ffffu64 << 32u64)) | ((value & 0xffff_ffffu64) << 32u64));
        assert(m >> 32u64 == half && m & 0xffff_ffffu64 == bits & 0xffff_ffffu64 && ((m & dev
            == m) <==> (half & (dev >> 32u64) == half)) && (m & dev == m ==> m & all == m))
            by (bit_vector)
            requires
                m == (bits & !(0xffff_ffffu64 << 32u64)) | ((value & 0xffff_ffffu64) << 32u64),
                half == value & 0xffff_ffffu64,
                bits & dev == bits,
                dev & all == dev,
        ;
        assert((bits >> 32u64) & 0xffff_ffffu64 == bits >> 32u64) by (bit_vector);
        assert((m >> 32u64) & 0xffff_ffffu64 == m >> 32u64) by (bit_vector);
    }
}

/// The registers of a queue survive selecting another queue: a value written
/// to queue `q`'s descriptor, driver, device or size register reads back after
/// selecting `p` and then `q` again.
pub proof fn lemma_queue_registers_survive_reselect(
    s: TransportState,
    offset: u64,
    width: usize,
    value: u64,
    p: u16,
)
    requires
        s.wf(),
        offset == CommonConfig::QUEUE_DESC && width == 8 || offset == CommonConfig::QUEUE_DRIVER
            && width == 8 || offset == CommonConfig::QUEUE_DEVICE && width == 8 || offset
            == CommonConfig::QUEUE_SIZE && width == 2,
        p < s.common_config.num_queues,
    ensures
        ({
            let (s1, r1) = s.spec_write_common(offset, width, value);
            let q = s.selected_queue->0;
            let s2 = s1.spec_select_queue(p).0;
            let s3 = s2.spec_select_queue(q).0;
            r1 is Ok ==> s3.spec_read_common(offset, width) == Ok::<u64, PciTransportError>(
                truncate_to_width(value, width),
            )
        }),
{
}

/// Selecting a queue shows the registers saved for it.
pub proof fn lemma_select_shows_saved_state(s: TransportState, q: u16)
    requires
        s.wf(),
        q < s.common_config.num_queues,
    ensures
        ({
            let (s1, r) = s.spec_select_queue(q);
            let st = s.queue_states[q as int];
            &&& r is Ok
            &&& s1.selected_queue == Some(q)
            &&& s1.spec_read_common(CommonConfig::QUEUE_SELECT, 2) == Ok::<u64, PciTransportError>(
                q as u64,
            )
            &&& s1.spec_read_common(CommonConfig::QUEUE_SIZE, 2) == Ok::<u64, PciTransportError>(
                st.size as u64,
            )
            &&& s1.spec_read_common(CommonConfig::QUEUE_DESC, 8) == Ok::<u64, PciTransportError>(
                st.desc_addr,
            )
            &&& s1.spec_read_common(CommonConfig::QUEUE_DRIVER, 8) == Ok::<u64, PciTransportError>(
                st.driver_addr,
            )
            &&& s1.spec_read_common(CommonConfig::QUEUE_DEVICE, 8) == Ok::<u64, PciTransportError>(
                st.device_addr,
            )
            &&& s1.spec_read_common(CommonConfig::QUEUE_ENABLE, 2) == Ok::<u64, PciTransportError>(
                if st.enabled {
                    1u64
                } else {
                    0u64
                },
            )
            &&& s1.spec_read_common(CommonConfig::QUEUE_NOTIFY_OFF, 2)
                == Ok::<u64, PciTransportError>(st.notify_off as u64)
        }),
{
}

/// An enabled queue stays enabled: after the driver enables the selected
/// queue `q`, selecting any queue `p` and then `q` again reads `QUEUE_ENABLE`
/// as 1, and the saved state of `q` is enabled.
pub proof fn lemma_enable_survives_reselect(s: TransportState, p: u16)
    requires
        s.wf(),
        p < s.common_config.num_queues,
    ensures
        ({
            let (s1, r1) = s.spec_write_common(CommonConfig::QUEUE_ENABLE, 2, 1);
            let q = s.selected_queue->0;
            let s2 = s1.spec_select_queue(p).0;
            let s3 = s2.spec_select_queue(q).0;
            r1 is Ok ==> s1.queue_states[q as int].enabled && s1.spec_read_common(
                CommonConfig::QUEUE_ENABLE,
                2,
            ) == Ok::<u64, PciTransportError>(1) && s3.spec_read_common(CommonConfig::QUEUE_ENABLE, 2)
                == Ok::<u64, PciTransportError>(1)
        }),
{
}

/// Writing 0 to the device status resets the transport: no queue is selected
/// and every queue is back in its initial state.
pub proof fn lemma_status_zero_resets(s: TransportState)
    requires
        s.wf(),
    ensures
        ({
            let (s1, r) = s.spec_write_common(CommonConfig::DEVICE_STATUS, 1, 0);
            &&& r is Ok
            &&& s1.wf()
            &&& s1.device.status.bits == 0
            &&& s1.selected_queue is None
            &&& s1.common_config == CommonConfig::spec_new(NUM_QUEUES, s.device.config_generation)
            &&& forall|i: int| 0 <= i < NUM_QUEUES ==> s1.queue_states[i] == initial_queue_state()
            &&& s1.isr_status == 0
        }),
{
}

/// The device configuration space reads back what was written: the low
/// `width` bytes of the value, which for an eight-byte access is the value
/// itself.
pub proof fn lemma_device_config_write_then_read(
    cfg: Seq<u8>,
    offset: u64,
    width: usize,
    value: u64,
)
    requires
        valid_width(width),
        offset + width <= cfg.len(),
    ensures
        ({
            let written = splice(cfg, offset as int, le64(value).subrange(0, width as int));
            &&& written.len() == cfg.len()
            &&& le_value(written.subrange(offset as int, offset + width)) == le_value(
                le64(value).subrange(0, width as int),
            )
            &&& width == 8 ==> le_value(written.subrange(offset as int, offset + width)) == value
        }),
{
    lemma_le_round_trip();
    let b = le64(value).subrange(0, width as int);
    let written = splice(cfg, offset as int, b);
    assert(written.subrange(offset as int, offset + width) =~= b);
    if width == 8 {
        assert(b =~= le64(value));
        let padded = b + Seq::new((8 - b.len()) as nat, |i: int| 0u8);
        assert(padded =~= le64(value));
        assert(padded.subrange(0, 8) =~= le64(value));
    }
}

} // verus!
