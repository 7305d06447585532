use rust_virtio_gpu::virtio_gpu::device::{DeviceError, DeviceStatus, VirtioGpuDevice};
use rust_virtio_gpu::virtio_gpu::features::GpuFeatures;

#[test]
fn new_device_offers_every_feature() {
    let device = VirtioGpuDevice::new();
    assert_eq!(device.device_features(), GpuFeatures::all());
    assert_eq!(device.driver_features(), GpuFeatures::empty());
    assert!(device.status().is_empty());
    assert_eq!(device.config_generation(), 0);
}

#[test]
fn feature_flags_match_protocol() {
    assert_eq!(GpuFeatures::VIRGL, 1 << 0);
    assert_eq!(GpuFeatures::EDID, 1 << 1);
    assert_eq!(GpuFeatures::RESOURCE_UUID, 1 << 2);
    assert_eq!(GpuFeatures::RESOURCE_BLOB, 1 << 3);
    assert_eq!(GpuFeatures::CONTEXT_INIT, 1 << 4);
    assert_eq!(GpuFeatures::VERSION_1, 1 << 32);
    assert_eq!(GpuFeatures::from_bits_truncate(u64::MAX).bits(), GpuFeatures::ALL);
    assert!(GpuFeatures::all().contains(GpuFeatures::EDID | GpuFeatures::VERSION_1));
    assert!(!GpuFeatures::empty().contains(GpuFeatures::EDID));
}

#[test]
fn driver_features_must_be_offered() {
    let mut device = VirtioGpuDevice::new();
    assert_eq!(device.set_driver_features(1 << 40), Err(DeviceError::UnsupportedFeatures));
    assert_eq!(device.driver_features(), GpuFeatures::empty());
    device.set_driver_features(GpuFeatures::EDID | GpuFeatures::VERSION_1).unwrap();
    assert_eq!(device.driver_features().bits(), GpuFeatures::EDID | GpuFeatures::VERSION_1);
}

#[test]
fn features_are_locked_after_features_ok() {
    let mut device = VirtioGpuDevice::new();
    device
        .set_status(DeviceStatus::ACKNOWLEDGE | DeviceStatus::DRIVER | DeviceStatus::FEATURES_OK)
        .unwrap();
    assert_eq!(device.set_driver_features(GpuFeatures::EDID), Err(DeviceError::FeaturesLocked));
}

#[test]
fn status_bits_cannot_be_cleared_without_reset() {
    let mut device = VirtioGpuDevice::new();
    device.set_status(DeviceStatus::ACKNOWLEDGE | DeviceStatus::DRIVER).unwrap();
    assert_eq!(device.set_status(DeviceStatus::ACKNOWLEDGE), Err(DeviceError::InvalidStatus));
    assert_eq!(device.set_status(0x10), Err(DeviceError::InvalidStatus));
    assert!(device.status().contains(DeviceStatus::DRIVER));
    device.set_driver_features(GpuFeatures::EDID).unwrap();
    device.set_status(0).unwrap();
    assert!(device.status().is_empty());
    assert_eq!(device.driver_features(), GpuFeatures::empty());
    assert_eq!(DeviceStatus::ALL, 0xcf);
}

#[test]
fn queues_are_ready_after_features_ok() {
    let mut device = VirtioGpuDevice::new();
    assert_eq!(device.queue_ready(0), Ok(false));
    assert_eq!(device.queue_ready(2), Err(DeviceError::InvalidQueue));
    device.set_status(DeviceStatus::FEATURES_OK).unwrap();
    assert_eq!(device.queue_ready(1), Ok(true));
}
