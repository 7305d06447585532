use rust_virtio_gpu::virtio_gpu::display::scanout::Scanout;
use rust_virtio_gpu::virtio_gpu::renderer::display::framebuffer_pixels;
use rust_virtio_gpu::virtio_gpu::renderer::vulkan::physical_device::{
    PhysicalDevice, PHYSICAL_DEVICE_TYPE_CPU, PHYSICAL_DEVICE_TYPE_DISCRETE_GPU,
    PHYSICAL_DEVICE_TYPE_INTEGRATED_GPU, PHYSICAL_DEVICE_TYPE_OTHER,
    PHYSICAL_DEVICE_TYPE_VIRTUAL_GPU,
};
use rust_virtio_gpu::virtio_gpu::renderer::vulkan::queue::{QueueFamily, QUEUE_GRAPHICS_BIT};
use rust_virtio_gpu::virtio_gpu::renderer::FrameBuffer;

#[test]
fn new_framebuffer_is_black_and_dirty() {
    let framebuffer = FrameBuffer::new(3, 2);
    assert_eq!(framebuffer.data.len(), 24);
    assert!(framebuffer.data.iter().all(|&b| b == 0));
    assert!(framebuffer.is_dirty());
}

#[test]
fn update_copies_what_fits() {
    let mut framebuffer = FrameBuffer::new(1, 1);
    framebuffer.clear_dirty();
    assert!(!framebuffer.is_dirty());
    framebuffer.update(&[1, 2]);
    assert_eq!(framebuffer.data, vec![1, 2, 0, 0]);
    assert!(framebuffer.is_dirty());
    framebuffer.update(&[9, 8, 7, 6, 5, 4]);
    assert_eq!(framebuffer.data, vec![9, 8, 7, 6]);
}

#[test]
fn test_pattern_follows_columns_and_rows() {
    let mut framebuffer = FrameBuffer::new(300, 2);
    framebuffer.fill_test_pattern();
    let pixel = |x: usize, y: usize| {
        let i = (y * 300 + x) * 4;
        [framebuffer.data[i], framebuffer.data[i + 1], framebuffer.data[i + 2], framebuffer.data[i + 3]]
    };
    assert_eq!(pixel(0, 0), [0, 0, 120, 255]);
    assert_eq!(pixel(5, 1), [5, 1, 120, 255]);
    assert_eq!(pixel(299, 1), [43, 1, 120, 255]);
}

#[test]
fn pixels_mut_writes_through() {
    let mut framebuffer = FrameBuffer::new(1, 1);
    framebuffer.pixels_mut()[2] = 0x55;
    assert_eq!(framebuffer.data[2], 0x55);
}

#[test]
fn framebuffer_words_are_0rgb() {
    let mut framebuffer = FrameBuffer::new(2, 1);
    framebuffer.update(&[0x11, 0x22, 0x33, 0x44, 0x01, 0x02, 0x03, 0xff]);
    assert_eq!(framebuffer_pixels(&framebuffer), vec![0x0033_2211, 0x0003_0201]);
}

#[test]
fn trailing_partial_pixel_is_ignored() {
    let framebuffer = FrameBuffer { width: 1, height: 1, data: vec![1, 2, 3, 4, 5, 6], dirty: false };
    assert_eq!(framebuffer_pixels(&framebuffer), vec![0x0003_0201]);
}

#[test]
fn device_scores_prefer_discrete_gpus() {
    assert_eq!(PhysicalDevice::score(PHYSICAL_DEVICE_TYPE_DISCRETE_GPU), 1000);
    assert_eq!(PhysicalDevice::score(PHYSICAL_DEVICE_TYPE_INTEGRATED_GPU), 500);
    assert_eq!(PhysicalDevice::score(PHYSICAL_DEVICE_TYPE_VIRTUAL_GPU), 300);
    assert_eq!(PhysicalDevice::score(PHYSICAL_DEVICE_TYPE_OTHER), 0);
    assert_eq!(PhysicalDevice::score(PHYSICAL_DEVICE_TYPE_CPU), -100000);
}

#[test]
fn pick_best_takes_the_first_highest_score() {
    let devices = [
        PhysicalDevice { physical_device: 1, device_type: PHYSICAL_DEVICE_TYPE_CPU },
        PhysicalDevice { physical_device: 2, device_type: PHYSICAL_DEVICE_TYPE_INTEGRATED_GPU },
        PhysicalDevice { physical_device: 3, device_type: PHYSICAL_DEVICE_TYPE_DISCRETE_GPU },
        PhysicalDevice { physical_device: 4, device_type: PHYSICAL_DEVICE_TYPE_DISCRETE_GPU },
    ];
    assert_eq!(PhysicalDevice::pick_best(&devices), Some(2));
    assert_eq!(PhysicalDevice::pick_best(&devices[..2]), Some(1));
    assert_eq!(PhysicalDevice::pick_best(&devices[..1]), Some(0));
    assert_eq!(PhysicalDevice::pick_best(&[]), None);
}

#[test]
fn graphics_queue_is_the_first_with_the_graphics_bit() {
    let families = [
        QueueFamily { index: 0, queue_flags: 0x4, queue_count: 1 },
        QueueFamily { index: 1, queue_flags: 0x6 | QUEUE_GRAPHICS_BIT, queue_count: 2 },
        QueueFamily { index: 2, queue_flags: QUEUE_GRAPHICS_BIT, queue_count: 1 },
    ];
    assert_eq!(QueueFamily::graphics(&families), Some(1));
    assert_eq!(QueueFamily::graphics(&families[..1]), None);
}

#[test]
fn default_scanout_is_disabled() {
    let scanout = Scanout::default();
    assert!(!scanout.enabled);
    assert_eq!(scanout.resource_id, 0);
    assert_eq!((scanout.width, scanout.height), (0, 0));
}
