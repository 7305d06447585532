use rust_virtio_gpu::virtio_gpu::protocol::formats::VirtioGpuFormat;

#[test]
fn format_values_match_virtio_gpu_spec() {
    assert_eq!(VirtioGpuFormat::B8G8R8A8Unorm.as_u32(), 1);
    assert_eq!(VirtioGpuFormat::B8G8R8X8Unorm.as_u32(), 2);
    assert_eq!(VirtioGpuFormat::A8R8G8B8Unorm.as_u32(), 3);
    assert_eq!(VirtioGpuFormat::X8R8G8B8Unorm.as_u32(), 4);

    assert_eq!(VirtioGpuFormat::R8G8B8A8Unorm.as_u32(), 67);
    assert_eq!(VirtioGpuFormat::X8B8G8R8Unorm.as_u32(), 68);

    assert_eq!(VirtioGpuFormat::A8B8G8R8Unorm.as_u32(), 121);
    assert_eq!(VirtioGpuFormat::R8G8B8X8Unorm.as_u32(), 134);
}

#[test]
fn format_round_trip() {
    let formats = [
        VirtioGpuFormat::B8G8R8A8Unorm,
        VirtioGpuFormat::B8G8R8X8Unorm,
        VirtioGpuFormat::A8R8G8B8Unorm,
        VirtioGpuFormat::X8R8G8B8Unorm,
        VirtioGpuFormat::R8G8B8A8Unorm,
        VirtioGpuFormat::X8B8G8R8Unorm,
        VirtioGpuFormat::A8B8G8R8Unorm,
        VirtioGpuFormat::R8G8B8X8Unorm,
    ];

    for format in formats {
        assert_eq!(VirtioGpuFormat::from_u32(format.as_u32()), Some(format));
    }
}

#[test]
fn unknown_format_is_rejected() {
    assert_eq!(VirtioGpuFormat::from_u32(0), None);
    assert_eq!(VirtioGpuFormat::from_u32(5), None);
    assert_eq!(VirtioGpuFormat::from_u32(u32::MAX), None);
}

#[test]
fn values_next_to_known_formats_are_rejected() {
    for value in [66u32, 69, 120, 122, 133, 135] {
        assert_eq!(VirtioGpuFormat::from_u32(value), None);
    }
}
