use rust_virtio_gpu::virtio_gpu::device::DeviceStatus;
use rust_virtio_gpu::virtio_gpu::features::GpuFeatures;
use rust_virtio_gpu::virtio_gpu::transport::pci::common::CommonConfig;
use rust_virtio_gpu::virtio_gpu::transport::pci::{
    PciBar, PciTransportError, VirtioPciCapability, VirtioPciNotifyCapability,
    VirtioPciTransport, PCI_CAP_ID_VENDOR, PCI_DEVICE_ID_GPU, PCI_VENDOR_ID_VIRTIO,
    VIRTIO_PCI_CAP_COMMON_CFG, VIRTIO_PCI_CAP_DEVICE_CFG, VIRTIO_PCI_CAP_NOTIFY_CFG,
};

#[test]
fn virtio_gpu_pci_ids_are_correct() {
    assert_eq!(PCI_VENDOR_ID_VIRTIO, 0x1af4);
    assert_eq!(PCI_DEVICE_ID_GPU, 0x1050);
}

#[test]
fn capability_round_trip() {
    let capability = VirtioPciCapability::new(VIRTIO_PCI_CAP_COMMON_CFG, 0, 0x1000, 0x100);

    let encoded = capability.encode_le();
    let decoded = VirtioPciCapability::decode_le(&encoded).unwrap();

    assert_eq!(decoded, capability);
}

#[test]
fn capability_has_vendor_capability_id() {
    let capability = VirtioPciCapability::new(VIRTIO_PCI_CAP_COMMON_CFG, 0, 0x1000, 0x100);

    let encoded = capability.encode_le();

    assert_eq!(encoded[0], PCI_CAP_ID_VENDOR);
}

#[test]
fn notify_capability_round_trip() {
    let capability = VirtioPciNotifyCapability::new(0, 0x100, 0x100, 4);

    let encoded = capability.encode_le();

    let decoded = VirtioPciNotifyCapability::decode_le(&encoded).unwrap();

    assert_eq!(decoded, capability);
}

#[test]
fn bar_contains_region() {
    let bar = PciBar::new(0, 0x1000, 0x1000);

    assert!(bar.contains(0, 0x100));
    assert!(bar.contains(0xF00, 0x100));
    assert!(!bar.contains(0xF01, 0x100));
}

#[test]
fn capability_must_fit_inside_bar() {
    let mut transport = VirtioPciTransport::default();

    transport.add_bar(PciBar::new(0, 0x1000, 0x1000)).unwrap();

    let capability = VirtioPciCapability::new(VIRTIO_PCI_CAP_COMMON_CFG, 0, 0xF00, 0x100);

    transport.add_capability(capability).unwrap();
}

#[test]
fn capability_outside_bar_is_rejected() {
    let mut transport = VirtioPciTransport::default();

    transport.add_bar(PciBar::new(0, 0x1000, 0x1000)).unwrap();

    let capability = VirtioPciCapability::new(VIRTIO_PCI_CAP_COMMON_CFG, 0, 0xF01, 0x100);

    assert_eq!(
        transport.add_capability(capability),
        Err(PciTransportError::CapabilityOutOfBounds)
    );
}

#[test]
fn capabilities_can_be_found_by_type() {
    let mut transport = VirtioPciTransport::default();

    transport.add_bar(PciBar::new(0, 0x1000, 0x2000)).unwrap();

    transport
        .add_capability(VirtioPciCapability::new(
            VIRTIO_PCI_CAP_COMMON_CFG,
            0,
            0,
            0x100,
        ))
        .unwrap();

    transport
        .add_capability(VirtioPciCapability::new(
            VIRTIO_PCI_CAP_DEVICE_CFG,
            0,
            0x1000,
            0x100,
        ))
        .unwrap();

    assert!(transport.capability(VIRTIO_PCI_CAP_COMMON_CFG).is_some());

    assert!(transport.capability(VIRTIO_PCI_CAP_DEVICE_CFG).is_some());
}

#[test]
fn feature_select_reads_low_and_high_words() {
    let mut transport = VirtioPciTransport::default();

    let features = transport.device.device_features().bits();

    let low = transport
        .read_common(CommonConfig::DEVICE_FEATURE, 4)
        .unwrap();

    assert_eq!(low, features & 0xffff_ffff);

    transport
        .write_common(CommonConfig::DEVICE_FEATURE_SELECT, 4, 1)
        .unwrap();

    let high = transport
        .read_common(CommonConfig::DEVICE_FEATURE, 4)
        .unwrap();

    assert_eq!(high, features >> 32);
}

#[test]
fn driver_feature_negotiation_works() {
    let mut transport = VirtioPciTransport::default();

    transport
        .write_common(CommonConfig::DEVICE_FEATURE_SELECT, 4, 0)
        .unwrap();

    let features = transport
        .read_common(CommonConfig::DEVICE_FEATURE, 4)
        .unwrap();

    transport
        .write_common(CommonConfig::DRIVER_FEATURE_SELECT, 4, 0)
        .unwrap();

    transport
        .write_common(CommonConfig::DRIVER_FEATURE, 4, features)
        .unwrap();

    assert_eq!(
        transport.device.driver_features(),
        GpuFeatures::from_bits_truncate(features)
    );
}

#[test]
fn status_can_be_written_through_common_config() {
    let mut transport = VirtioPciTransport::default();

    transport
        .write_common(
            CommonConfig::DEVICE_STATUS,
            1,
            DeviceStatus::ACKNOWLEDGE as u64,
        )
        .unwrap();

    assert!(
        transport
            .device
            .status()
            .contains(DeviceStatus::ACKNOWLEDGE)
    );
}

#[test]
fn queue_selection_works() {
    let mut transport = VirtioPciTransport::default();

    transport.select_queue(0).unwrap();

    assert_eq!(transport.selected_queue(), Some(0));

    assert_eq!(
        transport
            .read_common(CommonConfig::QUEUE_SELECT, 2,)
            .unwrap(),
        0
    );
}

#[test]
fn invalid_queue_selection_is_rejected() {
    let mut transport = VirtioPciTransport::default();

    assert_eq!(
        transport.select_queue(2),
        Err(PciTransportError::InvalidQueueIndex)
    );
}

#[test]
fn default_capabilities_can_be_created() {
    let mut transport = VirtioPciTransport::default();

    transport.initialize_default_capabilities().unwrap();

    assert!(transport.capability(VIRTIO_PCI_CAP_COMMON_CFG).is_some());

    assert!(transport.capability(VIRTIO_PCI_CAP_DEVICE_CFG).is_some());

    assert!(transport.capability(VIRTIO_PCI_CAP_NOTIFY_CFG).is_some());
}

#[test]
fn device_config_read_write_round_trip() {
    let mut transport = VirtioPciTransport::default();

    transport.add_bar(PciBar::new(0, 0x1000, 0x1000)).unwrap();

    transport
        .add_capability(VirtioPciCapability::new(
            VIRTIO_PCI_CAP_DEVICE_CFG,
            0,
            0x100,
            16,
        ))
        .unwrap();

    transport.write_device_config(4, 4, 0xdead_beef).unwrap();

    let value = transport.read_device_config(4, 4).unwrap();

    assert_eq!(value, 0xdead_beef);
}

#[test]
fn device_config_out_of_bounds_is_rejected() {
    let mut transport = VirtioPciTransport::default();

    transport.add_bar(PciBar::new(0, 0x1000, 0x1000)).unwrap();

    transport
        .add_capability(VirtioPciCapability::new(
            VIRTIO_PCI_CAP_DEVICE_CFG,
            0,
            0x100,
            8,
        ))
        .unwrap();

    assert_eq!(
        transport.write_device_config(4, 8, 0x12345678,).err(),
        Some(PciTransportError::InvalidValue)
    );
}

#[test]
fn queue_state_is_preserved_when_selecting_queue() {
    let mut transport = VirtioPciTransport::default();

    transport.select_queue(0).unwrap();

    transport
        .write_common(CommonConfig::QUEUE_SIZE, 2, 256)
        .unwrap();

    transport
        .write_common(CommonConfig::QUEUE_DESC, 8, 0x1000)
        .unwrap();

    transport.select_queue(1).unwrap();

    transport.select_queue(0).unwrap();

    assert_eq!(
        transport.read_common(CommonConfig::QUEUE_SIZE, 2,).unwrap(),
        256
    );

    assert_eq!(
        transport.read_common(CommonConfig::QUEUE_DESC, 8,).unwrap(),
        0x1000
    );
}

#[test]
fn queue_size_must_be_power_of_two_and_selected() {
    let mut transport = VirtioPciTransport::default();

    assert_eq!(
        transport.write_common(CommonConfig::QUEUE_SIZE, 2, 256),
        Err(PciTransportError::QueueNotSelected)
    );

    transport.select_queue(1).unwrap();

    assert_eq!(
        transport.write_common(CommonConfig::QUEUE_SIZE, 2, 100),
        Err(PciTransportError::InvalidValue)
    );
    assert_eq!(
        transport.write_common(CommonConfig::QUEUE_SIZE, 2, 0),
        Err(PciTransportError::InvalidValue)
    );
    transport.write_common(CommonConfig::QUEUE_SIZE, 2, 64).unwrap();
    assert_eq!(transport.queue_state(1).unwrap().size, 64);
}

#[test]
fn read_only_registers_cannot_be_written() {
    let mut transport = VirtioPciTransport::default();
    for offset in [
        CommonConfig::DEVICE_FEATURE,
        CommonConfig::NUM_QUEUES,
        CommonConfig::CONFIG_GENERATION,
        CommonConfig::QUEUE_NOTIFY_OFF,
    ] {
        assert_eq!(
            transport.write_common(offset, 4, 1),
            Err(PciTransportError::UnsupportedAccess)
        );
    }
}

#[test]
fn wrong_width_is_unsupported() {
    let transport = VirtioPciTransport::default();
    assert_eq!(
        transport.read_common(CommonConfig::QUEUE_DESC, 4),
        Err(PciTransportError::UnsupportedAccess)
    );
    assert_eq!(
        transport.read_common(CommonConfig::NUM_QUEUES, 2),
        Ok(2)
    );
}

#[test]
fn unsupported_driver_features_are_refused() {
    let mut transport = VirtioPciTransport::default();
    assert_eq!(
        transport.write_common(CommonConfig::DRIVER_FEATURE, 4, 0x8000_0000),
        Err(PciTransportError::Device(
            rust_virtio_gpu::virtio_gpu::device::DeviceError::UnsupportedFeatures
        ))
    );
    assert_eq!(transport.device.driver_features(), GpuFeatures::empty());
}

#[test]
fn writing_zero_status_resets_queues() {
    let mut transport = VirtioPciTransport::default();
    transport.select_queue(0).unwrap();
    transport.write_common(CommonConfig::QUEUE_DESC, 8, 0x4000).unwrap();
    transport
        .write_common(CommonConfig::DEVICE_STATUS, 1, DeviceStatus::ACKNOWLEDGE as u64)
        .unwrap();
    transport.write_common(CommonConfig::DEVICE_STATUS, 1, 0).unwrap();
    assert_eq!(transport.selected_queue(), None);
    assert_eq!(transport.queue_state(0).unwrap().desc_addr, 0);
    assert!(transport.device.status().is_empty());
}

#[test]
fn queue_enable_needs_features_ok() {
    let mut transport = VirtioPciTransport::default();
    transport.select_queue(0).unwrap();
    assert_eq!(
        transport.write_common(CommonConfig::QUEUE_ENABLE, 2, 1),
        Err(PciTransportError::QueueNotSelected)
    );
    transport
        .write_common(
            CommonConfig::DEVICE_STATUS,
            1,
            (DeviceStatus::ACKNOWLEDGE | DeviceStatus::DRIVER | DeviceStatus::FEATURES_OK) as u64,
        )
        .unwrap();
    assert_eq!(
        transport.write_common(CommonConfig::QUEUE_ENABLE, 2, 0),
        Err(PciTransportError::InvalidValue)
    );
    transport.write_common(CommonConfig::QUEUE_ENABLE, 2, 1).unwrap();
    assert!(transport.queue_state(0).unwrap().enabled);
    assert_eq!(transport.read_common(CommonConfig::QUEUE_ENABLE, 2), Ok(1));
}

#[test]
fn capability_checks_report_each_error() {
    let mut transport = VirtioPciTransport::default();
    assert_eq!(
        transport.add_bar(PciBar::new(6, 0, 0x1000)),
        Err(PciTransportError::InvalidBar)
    );
    assert_eq!(
        transport.add_bar(PciBar::new(0, 0, 0)),
        Err(PciTransportError::InvalidBar)
    );
    assert_eq!(
        transport.add_capability(VirtioPciCapability::new(VIRTIO_PCI_CAP_COMMON_CFG, 1, 0, 4)),
        Err(PciTransportError::InvalidBar)
    );
    transport.add_bar(PciBar::new(1, 0x2000, 0x1000)).unwrap();
    assert_eq!(
        transport.add_capability(VirtioPciCapability::new(VIRTIO_PCI_CAP_COMMON_CFG, 1, 2, 4)),
        Err(PciTransportError::InvalidCapability)
    );
    assert_eq!(
        transport.add_capability(VirtioPciCapability::new(0, 1, 0, 4)),
        Err(PciTransportError::InvalidCapability)
    );
    assert!(transport.capabilities().is_empty());
    assert_eq!(transport.bar(1), Some(PciBar::new(1, 0x2000, 0x1000)));
    assert_eq!(transport.bar(2), None);
}

#[test]
fn notify_address_uses_the_multiplier() {
    let mut transport = VirtioPciTransport::default();
    assert_eq!(
        transport.queue_notify_address(0),
        Err(PciTransportError::InvalidCapability)
    );
    transport.initialize_default_capabilities().unwrap();
    assert_eq!(transport.notify_off_multiplier(), 4);
    assert_eq!(transport.queue_notify_address(0), Ok(0x100));
    assert_eq!(
        transport.queue_notify_address(2),
        Err(PciTransportError::InvalidQueueIndex)
    );
}

#[test]
fn isr_is_cleared_by_reading() {
    let mut transport = VirtioPciTransport::default();
    transport.set_isr_status(1);
    transport.set_isr_status(2);
    assert_eq!(transport.isr_status(), 3);
    assert_eq!(transport.read_isr(), 3);
    assert_eq!(transport.isr_status(), 0);
}

#[test]
fn device_config_reads_are_little_endian_and_width_checked() {
    let mut transport = VirtioPciTransport::default();
    transport.initialize_default_capabilities().unwrap();
    transport.write_device_config(0, 8, 0x0807_0605_0403_0201).unwrap();
    assert_eq!(transport.read_device_config(0, 1), Ok(0x01));
    assert_eq!(transport.read_device_config(2, 2), Ok(0x0403));
    assert_eq!(transport.read_device_config(4, 4), Ok(0x0807_0605));
    assert_eq!(
        transport.read_device_config(0, 3),
        Err(PciTransportError::UnsupportedAccess)
    );
    assert_eq!(
        transport.read_device_config(0xff, 2),
        Err(PciTransportError::InvalidValue)
    );
}

#[test]
fn capability_decoding_rejects_short_input() {
    assert_eq!(VirtioPciCapability::decode_le(&[0u8; 15]), None);
    assert_eq!(VirtioPciNotifyCapability::decode_le(&[0u8; 19]), None);
}
