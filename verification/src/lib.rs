//! A VirtIO-GPU device model: the wire protocol, the PCI transport and the
//! split virtqueue, with their behaviour stated as Verus contracts.
pub mod virtio_gpu;
