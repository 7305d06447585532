use rust_virtio_gpu::virtio_gpu::transport::pci::common::CommonConfig;

#[test]
fn common_config_offsets_match_virtio() {
    assert_eq!(CommonConfig::DEVICE_FEATURE_SELECT, 0x00);
    assert_eq!(CommonConfig::DEVICE_FEATURE, 0x04);

    assert_eq!(CommonConfig::DRIVER_FEATURE_SELECT, 0x08);
    assert_eq!(CommonConfig::DRIVER_FEATURE, 0x0c);

    assert_eq!(CommonConfig::CONFIG_MSIX_VECTOR, 0x10);
    assert_eq!(CommonConfig::NUM_QUEUES, 0x12);

    assert_eq!(CommonConfig::DEVICE_STATUS, 0x14);
    assert_eq!(CommonConfig::CONFIG_GENERATION, 0x15);

    assert_eq!(CommonConfig::QUEUE_SELECT, 0x16);
    assert_eq!(CommonConfig::QUEUE_SIZE, 0x18);
    assert_eq!(CommonConfig::QUEUE_MSIX_VECTOR, 0x1a);
    assert_eq!(CommonConfig::QUEUE_ENABLE, 0x1c);
    assert_eq!(CommonConfig::QUEUE_NOTIFY_OFF, 0x1e);

    assert_eq!(CommonConfig::QUEUE_DESC, 0x20);
    assert_eq!(CommonConfig::QUEUE_DRIVER, 0x28);
    assert_eq!(CommonConfig::QUEUE_DEVICE, 0x30);

    assert_eq!(CommonConfig::QUEUE_NOTIFY_DATA, 0x38);
    assert_eq!(CommonConfig::QUEUE_RESET, 0x3a);

    assert_eq!(CommonConfig::SIZE, 0x3c);
}

#[test]
fn common_config_starts_in_reset_state() {
    let config = CommonConfig::new(2, 7);

    assert_eq!(config.device_feature_select, 0);
    assert_eq!(config.driver_feature_select, 0);

    assert_eq!(config.num_queues, 2);
    assert_eq!(config.config_generation, 7);

    assert_eq!(config.device_status, 0);
    assert_eq!(config.queue_select, 0);
    assert_eq!(config.queue_size, 0);
    assert_eq!(config.queue_enable, 0);
}

#[test]
fn queue_reset_clears_queue_state() {
    let mut config = CommonConfig {
        queue_size: 256,
        queue_enable: 1,
        queue_desc: 0x1000,
        queue_driver: 0x2000,
        queue_device: 0x3000,
        ..Default::default()
    };

    config.reset_queue();

    assert_eq!(config.queue_size, 0);
    assert_eq!(config.queue_enable, 0);
    assert_eq!(config.queue_desc, 0);
    assert_eq!(config.queue_driver, 0);
    assert_eq!(config.queue_device, 0);
}

#[test]
fn common_config_reads_registers() {
    let mut config = CommonConfig::new(2, 7);

    config.device_feature_select = 1;
    config.driver_feature_select = 2;

    config.queue_select = 1;
    config.queue_size = 256;

    config.queue_desc = 0x1000;
    config.queue_driver = 0x2000;
    config.queue_device = 0x3000;

    assert_eq!(
        config.read_u32(CommonConfig::DEVICE_FEATURE_SELECT),
        Some(1)
    );

    assert_eq!(
        config.read_u32(CommonConfig::DRIVER_FEATURE_SELECT),
        Some(2)
    );

    assert_eq!(config.read_u16(CommonConfig::QUEUE_SELECT), Some(1));

    assert_eq!(config.read_u16(CommonConfig::QUEUE_SIZE), Some(256));

    assert_eq!(config.read_u64(CommonConfig::QUEUE_DESC), Some(0x1000));

    assert_eq!(config.read_u64(CommonConfig::QUEUE_DRIVER), Some(0x2000));

    assert_eq!(config.read_u64(CommonConfig::QUEUE_DEVICE), Some(0x3000));
}

#[test]
fn common_config_writes_registers() {
    let mut config = CommonConfig::new(2, 7);

    assert!(config.write_u32(CommonConfig::DEVICE_FEATURE_SELECT, 1));
    assert!(config.write_u32(CommonConfig::DRIVER_FEATURE_SELECT, 1));

    assert!(config.write_u16(CommonConfig::QUEUE_SELECT, 1));
    assert!(config.write_u16(CommonConfig::QUEUE_SIZE, 256));
    assert!(config.write_u16(CommonConfig::QUEUE_ENABLE, 1));

    assert!(config.write_u64(CommonConfig::QUEUE_DESC, 0x1000));
    assert!(config.write_u64(CommonConfig::QUEUE_DRIVER, 0x2000));
    assert!(config.write_u64(CommonConfig::QUEUE_DEVICE, 0x3000));

    assert_eq!(config.queue_select, 1);
    assert_eq!(config.queue_size, 256);
    assert_eq!(config.queue_enable, 1);

    assert_eq!(config.queue_desc, 0x1000);
    assert_eq!(config.queue_driver, 0x2000);
    assert_eq!(config.queue_device, 0x3000);
}

#[test]
fn read_only_registers_reject_writes() {
    let mut config = CommonConfig::new(2, 7);

    assert!(!config.write_u16(CommonConfig::NUM_QUEUES, 99));
    assert!(!config.write_u16(CommonConfig::QUEUE_NOTIFY_OFF, 99));
    assert!(!config.write_u16(CommonConfig::QUEUE_NOTIFY_DATA, 99));

    assert!(!config.write_u8(CommonConfig::CONFIG_GENERATION, 99));

    assert_eq!(config.num_queues, 2);
    assert_eq!(config.config_generation, 7);
}

#[test]
fn queue_reset_register_resets_selected_queue() {
    let mut config = CommonConfig {
        queue_size: 256,
        queue_enable: 1,
        queue_desc: 0x1000,
        queue_driver: 0x2000,
        queue_device: 0x3000,
        ..Default::default()
    };

    assert!(config.write_u16(CommonConfig::QUEUE_RESET, 1));

    assert_eq!(config.queue_size, 0);
    assert_eq!(config.queue_enable, 0);
    assert_eq!(config.queue_desc, 0);
    assert_eq!(config.queue_driver, 0);
    assert_eq!(config.queue_device, 0);
}

#[test]
fn queue_reset_register_ignores_other_values() {
    let mut config = CommonConfig {
        queue_size: 256,
        queue_enable: 1,
        ..Default::default()
    };

    assert!(!config.write_u16(CommonConfig::QUEUE_RESET, 2));
    assert_eq!(config.queue_size, 256);
    assert_eq!(config.queue_enable, 1);
}

#[test]
fn reset_queue_keeps_device_registers() {
    let mut config = CommonConfig::new(2, 3);
    config.device_status = 0x0f;
    config.queue_select = 1;
    config.queue_msix_vector = 4;
    config.queue_notify_off = 5;
    config.reset_queue();
    assert_eq!(config.device_status, 0x0f);
    assert_eq!(config.queue_select, 1);
    assert_eq!(config.num_queues, 2);
    assert_eq!(config.queue_msix_vector, CommonConfig::MSIX_VECTOR_NONE);
    assert_eq!(config.queue_notify_off, 0);
}

#[test]
fn unknown_offsets_are_neither_read_nor_written() {
    let mut config = CommonConfig::new(2, 0);
    let before = config;
    assert_eq!(config.read_u32(CommonConfig::DEVICE_FEATURE), None);
    assert_eq!(config.read_u16(CommonConfig::QUEUE_DESC), None);
    assert_eq!(config.read_u8(CommonConfig::QUEUE_SELECT), None);
    assert_eq!(config.read_u64(CommonConfig::SIZE), None);
    assert!(!config.write_u32(CommonConfig::DEVICE_FEATURE, 1));
    assert!(!config.write_u64(0x21, 1));
    assert!(!config.write_u8(CommonConfig::QUEUE_SIZE, 1));
    assert_eq!(config, before);
}

#[test]
fn status_and_msix_registers_round_trip() {
    let mut config = CommonConfig::default();
    assert_eq!(config.num_queues, 2);
    assert_eq!(config.read_u16(CommonConfig::CONFIG_MSIX_VECTOR), Some(0xffff));
    assert!(config.write_u8(CommonConfig::DEVICE_STATUS, 0x07));
    assert_eq!(config.read_u8(CommonConfig::DEVICE_STATUS), Some(0x07));
    assert!(config.write_u16(CommonConfig::QUEUE_MSIX_VECTOR, 3));
    assert_eq!(config.read_u16(CommonConfig::QUEUE_MSIX_VECTOR), Some(3));
    assert_eq!(config.read_u8(CommonConfig::CONFIG_GENERATION), Some(0));
}
