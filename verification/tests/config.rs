use rust_virtio_gpu::virtio_gpu::protocol::config::{GpuConfig, EVENT_DISPLAY};

#[test]
fn config_decodes_base_layout() {
    let mut bytes = [0u8; 16];

    bytes[0..4].copy_from_slice(&1u32.to_le_bytes());
    bytes[4..8].copy_from_slice(&2u32.to_le_bytes());
    bytes[8..12].copy_from_slice(&1u32.to_le_bytes());
    bytes[12..16].copy_from_slice(&4u32.to_le_bytes());

    let config = GpuConfig::decode_le(&bytes).unwrap();

    assert_eq!(config.events_read, 1);
    assert_eq!(config.events_clear, 2);
    assert_eq!(config.num_scanouts, 1);
    assert_eq!(config.num_capsets, 4);
    assert_eq!(config.blob_alignment, None);
    assert!(config.display_event_pending());
}

#[test]
fn config_decodes_blob_alignment() {
    let mut bytes = [0u8; 20];

    bytes[16..20].copy_from_slice(&4096u32.to_le_bytes());

    let config = GpuConfig::decode_le(&bytes).unwrap();

    assert_eq!(config.blob_alignment, Some(4096));
}

#[test]
fn short_config_is_rejected() {
    assert_eq!(GpuConfig::decode_le(&[0u8; 15]), None);
}

#[test]
fn no_display_event_when_bit_is_clear() {
    let config = GpuConfig {
        events_read: 0,
        ..GpuConfig::default()
    };

    assert!(!config.display_event_pending());
}

#[test]
fn unrelated_event_bits_do_not_trigger_display_event() {
    let config = GpuConfig {
        events_read: 1 << 7,
        ..GpuConfig::default()
    };

    assert!(!config.display_event_pending());
}

#[test]
fn config_ignores_bytes_between_base_and_alignment_field() {
    let mut bytes = [0u8; 19];
    bytes[16] = 0xff;
    let config = GpuConfig::decode_le(&bytes).unwrap();
    assert_eq!(config.blob_alignment, None);
}

#[test]
fn config_reads_every_word_little_endian() {
    let mut bytes = [0u8; 24];
    bytes[0..4].copy_from_slice(&0x0102_0304u32.to_le_bytes());
    bytes[4..8].copy_from_slice(&0x0506_0708u32.to_le_bytes());
    bytes[8..12].copy_from_slice(&0x090a_0b0cu32.to_le_bytes());
    bytes[12..16].copy_from_slice(&0x0d0e_0f10u32.to_le_bytes());
    bytes[16..20].copy_from_slice(&0x1112_1314u32.to_le_bytes());
    let config = GpuConfig::decode_le(&bytes).unwrap();
    assert_eq!(
        config,
        GpuConfig {
            events_read: 0x0102_0304,
            events_clear: 0x0506_0708,
            num_scanouts: 0x090a_0b0c,
            num_capsets: 0x0d0e_0f10,
            blob_alignment: Some(0x1112_1314),
        }
    );
}

#[test]
fn display_event_bit_with_other_bits_is_pending() {
    let config = GpuConfig {
        events_read: EVENT_DISPLAY | (1 << 9),
        ..GpuConfig::default()
    };
    assert!(config.display_event_pending());
}
