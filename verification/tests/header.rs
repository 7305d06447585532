use rust_virtio_gpu::virtio_gpu::protocol::CtrlHeader;

#[test]
fn header_round_trip() {
    let header = CtrlHeader {
        typ: 0x0100,
        flags: 0x1234,
        fence_id: 123,
        ctx_id: 42,
        ring_idx: 7,
        padding: [0; 3],
    };

    let bytes = header.encode_le();
    let decoded = CtrlHeader::decode_le(&bytes).unwrap();

    assert_eq!(header, decoded);
}

#[test]
fn header_is_24_bytes() {
    assert_eq!(CtrlHeader::SIZE, 24);
    assert_eq!(std::mem::size_of::<CtrlHeader>(), 24);
}

#[test]
fn header_encodes_little_endian() {
    let header = CtrlHeader {
        typ: 0x1122_3344,
        flags: 0x5566_7788,
        fence_id: 0x1122_3344_5566_7788,
        ctx_id: 0xAABB_CCDD,
        ring_idx: 0xEE,
        padding: [0xFF, 0x00, 0x11],
    };

    let bytes = header.encode_le();

    assert_eq!(&bytes[0..4], &0x1122_3344u32.to_le_bytes());
    assert_eq!(&bytes[4..8], &0x5566_7788u32.to_le_bytes());
    assert_eq!(&bytes[8..16], &0x1122_3344_5566_7788u64.to_le_bytes());
    assert_eq!(&bytes[16..20], &0xAABB_CCDDu32.to_le_bytes());
    assert_eq!(bytes[20], 0xEE);
    assert_eq!(&bytes[21..24], &[0xFF, 0x00, 0x11]);
}

#[test]
fn header_decode_rejects_short_input() {
    let bytes = [0u8; CtrlHeader::SIZE - 1];

    assert_eq!(CtrlHeader::decode_le(&bytes), None);
}

#[test]
fn header_decode_accepts_exact_size() {
    let header = CtrlHeader::new(0x0100)
        .with_context(42)
        .with_fence(0x1122_3344_5566_7788)
        .with_ring(3);

    let bytes = header.encode_le();

    assert_eq!(bytes.len(), CtrlHeader::SIZE);
    assert_eq!(CtrlHeader::decode_le(&bytes), Some(header));
}

#[test]
fn header_decode_accepts_larger_input() {
    let header = CtrlHeader::new(0x0100)
        .with_context(42)
        .with_fence(0x1122_3344_5566_7788)
        .with_ring(3);

    let mut bytes = vec![0u8; CtrlHeader::SIZE + 16];

    bytes[..CtrlHeader::SIZE].copy_from_slice(&header.encode_le());

    assert_eq!(CtrlHeader::decode_le(&bytes), Some(header));
}

#[test]
fn header_builder_helpers_work() {
    let header = CtrlHeader::new(0x1234)
        .with_context(99)
        .with_fence(123456)
        .with_ring(5);

    assert_eq!(header.typ, 0x1234);
    assert_eq!(header.ctx_id, 99);
    assert_eq!(header.fence_id, 123456);
    assert_eq!(header.ring_idx, 5);
}

#[test]
fn header_fence_and_ring_flags_are_set() {
    let header = CtrlHeader::new(0x1234).with_fence(123).with_ring(5);

    assert_ne!(header.flags & 1, 0);
    assert_ne!(header.flags & 2, 0);
    assert_eq!(header.fence_id, 123);
    assert_eq!(header.ring_idx, 5);
}

#[test]
fn new_header_has_only_its_type_set() {
    let header = CtrlHeader::new(0x0207);
    assert_eq!(
        header,
        CtrlHeader {
            typ: 0x0207,
            flags: 0,
            fence_id: 0,
            ctx_id: 0,
            ring_idx: 0,
            padding: [0; 3],
        }
    );
}

#[test]
fn builders_keep_existing_flags() {
    let header = CtrlHeader {
        flags: 0x10,
        ..CtrlHeader::new(1)
    };
    assert_eq!(header.with_fence(7).flags, 0x11);
    assert_eq!(header.with_ring(63).flags, 0x12);
    assert_eq!(header.with_context(5).flags, 0x10);
}

#[test]
fn decode_reads_the_prefix_of_longer_input() {
    let mut bytes = vec![0xAAu8; 30];
    bytes[..24].copy_from_slice(&CtrlHeader::new(9).with_context(3).encode_le());
    let decoded = CtrlHeader::decode_le(&bytes).unwrap();
    assert_eq!(decoded.typ, 9);
    assert_eq!(decoded.ctx_id, 3);
    assert_eq!(decoded.padding, [0; 3]);
}
