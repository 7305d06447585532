use rust_virtio_gpu::virtio_gpu::transport::memory::{GuestAddress, GuestMemory};
use rust_virtio_gpu::virtio_gpu::transport::virtqueue::split::{
    Descriptor, DescriptorChain, SplitVirtQueue, SplitVirtQueueLayout, UsedElement,
    VirtQueueError, DESC_F_NEXT, DESC_F_WRITE,
};

#[test]
fn descriptor_is_16_bytes() {
    assert_eq!(Descriptor::SIZE, 16);
}

#[test]
fn descriptor_round_trip() {
    let descriptor = Descriptor {
        addr: GuestAddress(0x1234_5678),
        len: 4096,
        flags: DESC_F_NEXT | DESC_F_WRITE,
        next: 7,
    };

    let bytes = descriptor.encode_le();
    let decoded = Descriptor::decode_le(&bytes).unwrap();

    assert_eq!(decoded, descriptor);
}

#[test]
fn queue_size_must_be_power_of_two() {
    assert_eq!(
        SplitVirtQueueLayout::new(3),
        Err(VirtQueueError::InvalidQueueSize)
    );

    assert!(SplitVirtQueueLayout::new(4).is_ok());
}

#[test]
fn queue_size_32768_is_allowed() {
    assert!(SplitVirtQueueLayout::new(32768).is_ok());
}

#[test]
fn queue_size_above_maximum_is_rejected() {
    assert_eq!(
        SplitVirtQueueLayout::new(65535),
        Err(VirtQueueError::InvalidQueueSize)
    );
}

#[test]
fn layout_has_required_alignment() {
    let layout = SplitVirtQueueLayout::new(256).unwrap();

    assert_eq!(layout.descriptor_offset % 16, 0);
    assert_eq!(layout.available_offset % 2, 0);
    assert_eq!(layout.used_offset % 4, 0);
}

#[test]
fn layout_has_expected_sizes() {
    let layout = SplitVirtQueueLayout::new(8).unwrap();

    assert_eq!(layout.descriptor_offset, 0);
    assert_eq!(layout.available_offset, 128);
    assert_eq!(layout.used_offset, 152);
    assert_eq!(layout.total_size, 222);
}

#[test]
fn queue_initializes_empty() {
    let queue = SplitVirtQueue::new(
        GuestMemory::new(GuestAddress(0), 0x10000),
        GuestAddress(0x1000),
        8,
    )
    .unwrap();

    assert_eq!(queue.available_index().unwrap(), 0);
    assert_eq!(queue.used_index().unwrap(), 0);
}

#[test]
fn descriptor_can_be_written_and_read() {
    let mut queue = SplitVirtQueue::new(
        GuestMemory::new(GuestAddress(0), 0x10000),
        GuestAddress(0x1000),
        8,
    )
    .unwrap();
    let descriptor = Descriptor {
        addr: GuestAddress(0x8000),
        len: 128,
        flags: DESC_F_WRITE,
        next: 0,
    };

    queue.set_descriptor(2, descriptor).unwrap();

    assert_eq!(queue.descriptor(2).unwrap(), descriptor);
}

#[test]
fn available_buffer_is_published() {
    let mut queue = SplitVirtQueue::new(
        GuestMemory::new(GuestAddress(0), 0x10000),
        GuestAddress(0x1000),
        8,
    )
    .unwrap();
    queue
        .set_descriptor(
            0,
            Descriptor {
                addr: GuestAddress(0x2000),
                len: 64,
                flags: 0,
                next: 0,
            },
        )
        .unwrap();

    queue.add_available(0).unwrap();

    assert_eq!(queue.available_index().unwrap(), 1);
}

#[test]
fn used_buffer_can_be_consumed() {
    let mut queue = SplitVirtQueue::new(
        GuestMemory::new(GuestAddress(0), 0x10000),
        GuestAddress(0x1000),
        8,
    )
    .unwrap();
    let used_addr = queue.layout().used_address(queue.base());

    queue
        .memory_mut()
        .write_u32(used_addr.offset(4), 0)
        .unwrap();

    queue
        .memory_mut()
        .write_u32(used_addr.offset(8), 128)
        .unwrap();

    queue
        .memory_mut()
        .write_u16(used_addr.offset(2), 1)
        .unwrap();

    let used = queue.pop_used().unwrap().unwrap();

    assert_eq!(used, UsedElement { id: 0, len: 128 });
}
#[test]
fn descriptor_chain_can_be_followed() {
    let mut queue = SplitVirtQueue::new(
        GuestMemory::new(GuestAddress(0), 0x10000),
        GuestAddress(0x1000),
        8,
    )
    .unwrap();
    queue
        .set_descriptor(
            0,
            Descriptor {
                addr: GuestAddress(0x2000),
                len: 64,
                flags: DESC_F_NEXT,
                next: 3,
            },
        )
        .unwrap();

    queue
        .set_descriptor(
            3,
            Descriptor {
                addr: GuestAddress(0x3000),
                len: 128,
                flags: DESC_F_WRITE,
                next: 0,
            },
        )
        .unwrap();

    let chain = queue.descriptor_chain(0).unwrap();

    assert_eq!(chain.len(), 2);
    assert_eq!(chain[0].0, 0);
    assert_eq!(chain[1].0, 3);
}
#[test]
fn descriptor_chain_rejects_loop() {
    let mut queue = SplitVirtQueue::new(
        GuestMemory::new(GuestAddress(0), 0x10000),
        GuestAddress(0x1000),
        8,
    )
    .unwrap();
    queue
        .set_descriptor(
            0,
            Descriptor {
                addr: GuestAddress(0x2000),
                len: 64,
                flags: DESC_F_NEXT,
                next: 1,
            },
        )
        .unwrap();

    queue
        .set_descriptor(
            1,
            Descriptor {
                addr: GuestAddress(0x3000),
                len: 64,
                flags: DESC_F_NEXT,
                next: 0,
            },
        )
        .unwrap();

    assert_eq!(
        queue.descriptor_chain(0),
        Err(VirtQueueError::InvalidDescriptor)
    );
}

#[test]
fn used_chain_releases_all_descriptors() {
    let mut queue = SplitVirtQueue::new(
        GuestMemory::new(GuestAddress(0), 0x10000),
        GuestAddress(0x1000),
        8,
    )
    .unwrap();
    queue
        .set_descriptor(
            0,
            Descriptor {
                addr: GuestAddress(0x2000),
                len: 64,
                flags: DESC_F_NEXT,
                next: 3,
            },
        )
        .unwrap();

    queue
        .set_descriptor(
            3,
            Descriptor {
                addr: GuestAddress(0x3000),
                len: 128,
                flags: 0,
                next: 0,
            },
        )
        .unwrap();

    queue.add_available(0).unwrap();

    let used_addr = queue.layout().used_address(queue.base());

    queue
        .memory_mut()
        .write_u32(used_addr.offset(4), 0)
        .unwrap();

    queue
        .memory_mut()
        .write_u32(used_addr.offset(8), 192)
        .unwrap();

    queue
        .memory_mut()
        .write_u16(used_addr.offset(2), 1)
        .unwrap();

    queue.pop_used().unwrap().unwrap();

    // Both descriptors should now be available again.
    assert!(queue.is_free(0));
    assert!(queue.is_free(3));
}

#[test]
fn add_chain_allocates_single_descriptor() {
    let mut queue = SplitVirtQueue::new(
        GuestMemory::new(GuestAddress(0), 0x10000),
        GuestAddress(0x1000),
        8,
    )
    .unwrap();
    let head = queue
        .add_chain(&[Descriptor {
            addr: GuestAddress(0x2000),
            len: 64,
            flags: 0,
            next: 0,
        }])
        .unwrap();

    assert_eq!(head, 0);

    let descriptor = queue.descriptor(head).unwrap();

    assert_eq!(descriptor.addr, GuestAddress(0x2000));
    assert_eq!(descriptor.len, 64);
    assert_eq!(descriptor.flags & DESC_F_NEXT, 0);
}
#[test]
fn add_chain_links_descriptors() {
    let mut queue = SplitVirtQueue::new(
        GuestMemory::new(GuestAddress(0), 0x10000),
        GuestAddress(0x1000),
        8,
    )
    .unwrap();
    let head = queue
        .add_chain(&[
            Descriptor {
                addr: GuestAddress(0x2000),
                len: 64,
                flags: 0,
                next: 0,
            },
            Descriptor {
                addr: GuestAddress(0x3000),
                len: 128,
                flags: DESC_F_WRITE,
                next: 0,
            },
        ])
        .unwrap();

    let chain = queue.descriptor_chain(head).unwrap();

    assert_eq!(chain.len(), 2);
    assert_eq!(chain[0].1.addr, GuestAddress(0x2000));
    assert_eq!(chain[1].1.addr, GuestAddress(0x3000));

    assert_ne!(chain[0].1.flags & DESC_F_NEXT, 0);
    assert_eq!(chain[0].1.next, chain[1].0);

    assert_eq!(chain[1].1.flags & DESC_F_NEXT, 0);
}
#[test]
fn add_chain_rejects_when_descriptors_are_exhausted() {
    let mut queue = SplitVirtQueue::new(
        GuestMemory::new(GuestAddress(0), 0x10000),
        GuestAddress(0x1000),
        8,
    )
    .unwrap();
    let descriptors = [
        Descriptor::default(),
        Descriptor::default(),
        Descriptor::default(),
        Descriptor::default(),
        Descriptor::default(),
        Descriptor::default(),
        Descriptor::default(),
        Descriptor::default(),
    ];

    queue.add_chain(&descriptors).unwrap();

    assert_eq!(
        queue.add_chain(&[Descriptor::default()]),
        Err(VirtQueueError::QueueFull)
    );
}
#[test]
fn available_buffer_can_be_popped() {
    let mut queue = SplitVirtQueue::new(
        GuestMemory::new(GuestAddress(0), 0x10000),
        GuestAddress(0x1000),
        8,
    )
    .unwrap();
    queue
        .set_descriptor(
            3,
            Descriptor {
                addr: GuestAddress(0x2000),
                len: 64,
                flags: 0,
                next: 0,
            },
        )
        .unwrap();

    queue.add_available(3).unwrap();

    assert_eq!(queue.pop_available().unwrap(), Some(3));
    assert_eq!(queue.pop_available().unwrap(), None);
}

#[test]
fn used_buffer_can_be_published() {
    let mut queue = SplitVirtQueue::new(
        GuestMemory::new(GuestAddress(0), 0x10000),
        GuestAddress(0x1000),
        8,
    )
    .unwrap();
    queue.push_used(3, 128).unwrap();
    assert_eq!(queue.used_index().unwrap(), 1);
    let used = queue.pop_used().unwrap().unwrap();
    assert_eq!(used, UsedElement { id: 3, len: 128 });
}

fn new_queue() -> SplitVirtQueue {
    SplitVirtQueue::new(
        GuestMemory::new(GuestAddress(0), 0x10000),
        GuestAddress(0x1000),
        8,
    )
    .unwrap()
}

#[test]
fn queue_outside_memory_is_rejected() {
    let result = SplitVirtQueue::new(
        GuestMemory::new(GuestAddress(0), 0x100),
        GuestAddress(0x80),
        8,
    );
    assert!(matches!(
        result,
        Err(VirtQueueError::GuestMemory(_))
    ));
    let result = SplitVirtQueue::new(
        GuestMemory::new(GuestAddress(0), 0x10000),
        GuestAddress(0x1000),
        6,
    );
    assert!(matches!(result, Err(VirtQueueError::InvalidQueueSize)));
}

#[test]
fn descriptor_index_outside_table_is_rejected() {
    let mut queue = new_queue();
    assert_eq!(queue.descriptor(8), Err(VirtQueueError::InvalidDescriptor));
    assert_eq!(
        queue.set_descriptor(8, Descriptor::default()),
        Err(VirtQueueError::InvalidDescriptor)
    );
    assert_eq!(queue.add_available(8), Err(VirtQueueError::InvalidDescriptor));
    assert_eq!(queue.push_used(8, 0), Err(VirtQueueError::InvalidDescriptor));
    assert_eq!(queue.descriptor_chain(8), Err(VirtQueueError::InvalidDescriptor));
    assert!(!queue.is_free(8));
}

#[test]
fn available_ring_is_first_in_first_out() {
    let mut queue = new_queue();
    for head in [5u16, 2, 7] {
        queue.add_available(head).unwrap();
    }
    assert_eq!(queue.available_index().unwrap(), 3);
    assert_eq!(queue.pop_available().unwrap(), Some(5));
    assert_eq!(queue.pop_available().unwrap(), Some(2));
    assert_eq!(queue.pop_available().unwrap(), Some(7));
    assert_eq!(queue.pop_available().unwrap(), None);
}

#[test]
fn available_ring_wraps_around() {
    let mut queue = new_queue();
    for round in 0..20u16 {
        let head = round % 8;
        queue.add_available(head).unwrap();
        assert_eq!(queue.pop_available().unwrap(), Some(head));
    }
    assert_eq!(queue.available_index().unwrap(), 20);
}

#[test]
fn used_ring_is_first_in_first_out() {
    let mut queue = new_queue();
    queue.push_used(1, 10).unwrap();
    queue.add_used(100, 20).unwrap();
    assert_eq!(queue.used_index().unwrap(), 2);
    assert_eq!(queue.pop_used().unwrap(), Some(UsedElement { id: 1, len: 10 }));
    assert_eq!(queue.pop_used().unwrap(), Some(UsedElement { id: 100, len: 20 }));
    assert_eq!(queue.pop_used().unwrap(), None);
}

#[test]
fn pop_chain_returns_the_head() {
    let mut queue = new_queue();
    queue.add_available(4).unwrap();
    let chain = queue.pop_chain().unwrap().unwrap();
    assert_eq!(chain.head, 4);
    assert!(queue.pop_chain().unwrap().is_none());
    assert_eq!(DescriptorChain::new(6).head, 6);
}

#[test]
fn add_chain_rejects_empty_input() {
    let mut queue = new_queue();
    assert_eq!(queue.add_chain(&[]), Err(VirtQueueError::InvalidDescriptor));
    assert_eq!(queue.available_index().unwrap(), 0);
}

#[test]
fn add_chain_marks_descriptors_in_use_and_publishes_head() {
    let mut queue = new_queue();
    let first = queue.add_chain(&[Descriptor::default(), Descriptor::default()]).unwrap();
    assert_eq!(first, 0);
    assert!(!queue.is_free(0));
    assert!(!queue.is_free(1));
    assert!(queue.is_free(2));
    let second = queue.add_chain(&[Descriptor::default()]).unwrap();
    assert_eq!(second, 2);
    assert_eq!(queue.pop_available().unwrap(), Some(0));
    assert_eq!(queue.pop_available().unwrap(), Some(2));
}

#[test]
fn add_chain_clears_a_stray_next_flag_on_the_last_descriptor() {
    let mut queue = new_queue();
    let head = queue
        .add_chain(&[Descriptor {
            addr: GuestAddress(0x2000),
            len: 8,
            flags: DESC_F_NEXT | DESC_F_WRITE,
            next: 5,
        }])
        .unwrap();
    let descriptor = queue.descriptor(head).unwrap();
    assert_eq!(descriptor.flags, DESC_F_WRITE);
    assert_eq!(descriptor.next, 0);
}

#[test]
fn read_chain_gathers_the_bytes_of_every_descriptor() {
    let mut queue = new_queue();
    queue.memory_mut().write(GuestAddress(0x2000), &[1, 2, 3]).unwrap();
    queue.memory_mut().write(GuestAddress(0x3000), &[4, 5]).unwrap();
    let head = queue
        .add_chain(&[
            Descriptor { addr: GuestAddress(0x2000), len: 3, flags: 0, next: 0 },
            Descriptor { addr: GuestAddress(0x4000), len: 0, flags: 0, next: 0 },
            Descriptor { addr: GuestAddress(0x3000), len: 2, flags: 0, next: 0 },
        ])
        .unwrap();
    let chain = queue.pop_chain().unwrap().unwrap();
    assert_eq!(chain.head, head);
    assert_eq!(queue.read_chain(&chain).unwrap(), vec![1, 2, 3, 4, 5]);
}

#[test]
fn read_chain_rejects_memory_outside_guest() {
    let mut queue = new_queue();
    queue
        .set_descriptor(0, Descriptor { addr: GuestAddress(0xfff0), len: 0x20, flags: 0, next: 0 })
        .unwrap();
    assert!(matches!(
        queue.read_chain(&DescriptorChain::new(0)),
        Err(VirtQueueError::GuestMemory(_))
    ));
}

#[test]
fn descriptor_chain_rejects_next_outside_table() {
    let mut queue = new_queue();
    queue
        .set_descriptor(0, Descriptor { addr: GuestAddress(0), len: 0, flags: DESC_F_NEXT, next: 9 })
        .unwrap();
    assert_eq!(queue.descriptor_chain(0), Err(VirtQueueError::InvalidDescriptor));
}

#[test]
fn descriptor_encodes_little_endian() {
    let descriptor = Descriptor {
        addr: GuestAddress(0x0102_0304_0506_0708),
        len: 0x0a0b_0c0d,
        flags: 0x0e0f,
        next: 0x1011,
    };
    assert_eq!(
        descriptor.encode_le(),
        [8, 7, 6, 5, 4, 3, 2, 1, 0x0d, 0x0c, 0x0b, 0x0a, 0x0f, 0x0e, 0x11, 0x10]
    );
    assert_eq!(Descriptor::decode_le(&[0u8; 15]), None);
}

#[test]
fn layout_addresses_follow_the_base() {
    let layout = SplitVirtQueueLayout::new(8).unwrap();
    assert_eq!(layout.descriptor_address(GuestAddress(0x1000), 3), Ok(GuestAddress(0x1030)));
    assert_eq!(
        layout.descriptor_address(GuestAddress(0x1000), 8),
        Err(VirtQueueError::InvalidDescriptor)
    );
    assert_eq!(layout.available_address(GuestAddress(0x1000)), GuestAddress(0x1080));
    assert_eq!(layout.used_address(GuestAddress(0x1000)), GuestAddress(0x1098));
}

#[test]
fn queue_of_one_entry_has_minimal_layout() {
    let layout = SplitVirtQueueLayout::new(1).unwrap();
    assert_eq!(layout.available_offset, 16);
    assert_eq!(layout.used_offset, 24);
    assert_eq!(layout.total_size, 38);
    assert_eq!(SplitVirtQueueLayout::new(0), Err(VirtQueueError::InvalidQueueSize));
}
