use rust_virtio_gpu::virtio_gpu::protocol::commands::{
    BLOB_FLAG_USE_MAPPABLE, BLOB_MEM_HOST3D, CMD_RESOURCE_CREATE_BLOB, CMD_RESOURCE_MAP_BLOB,
    CMD_RESOURCE_UNMAP_BLOB,
};
use rust_virtio_gpu::virtio_gpu::protocol::requests::blob::{
    MemEntry, ResourceCreateBlob, ResourceMapBlob, ResourceUnmapBlob,
};

#[test]
fn mem_entry_round_trip() {
    let entry = MemEntry {
        addr: 0x1122_3344_5566_7788,
        length: 0xAABB_CCDD,
        padding: 0,
    };

    let bytes = entry.encode_le();

    assert_eq!(bytes.len(), MemEntry::SIZE);
    assert_eq!(MemEntry::decode_le(&bytes), Some(entry));
}

#[test]
fn mem_entry_rejects_short_input() {
    assert_eq!(MemEntry::decode_le(&[0u8; 15]), None);
}

#[test]
fn create_blob_round_trip() {
    let request = ResourceCreateBlob::new(
        7,
        BLOB_MEM_HOST3D,
        BLOB_FLAG_USE_MAPPABLE,
        0x1122_3344_5566_7788,
        0x1000,
        2,
    );

    let bytes = request.encode_le();

    assert_eq!(bytes.len(), ResourceCreateBlob::SIZE);

    let decoded = ResourceCreateBlob::decode_le(&bytes).unwrap();

    assert_eq!(decoded, request);
    assert_eq!(decoded.header.typ, CMD_RESOURCE_CREATE_BLOB);
}

#[test]
fn create_blob_with_entries_has_expected_size() {
    let request =
        ResourceCreateBlob::new(7, BLOB_MEM_HOST3D, BLOB_FLAG_USE_MAPPABLE, 42, 8192, 2);

    let entries = [
        MemEntry {
            addr: 0x1000,
            length: 4096,
            padding: 0,
        },
        MemEntry {
            addr: 0x2000,
            length: 4096,
            padding: 0,
        },
    ];

    let bytes = request.encode_with_entries(&entries);

    assert_eq!(bytes.len(), ResourceCreateBlob::SIZE + 2 * MemEntry::SIZE);

    assert_eq!(
        MemEntry::decode_le(
            &bytes[ResourceCreateBlob::SIZE..ResourceCreateBlob::SIZE + MemEntry::SIZE]
        ),
        Some(entries[0])
    );
}

#[test]
fn map_blob_round_trip() {
    let request = ResourceMapBlob::new(42, 0x1234_5678_9ABC_DEF0);

    let bytes = request.encode_le();

    assert_eq!(bytes.len(), ResourceMapBlob::SIZE);
    assert_eq!(ResourceMapBlob::decode_le(&bytes), Some(request));
    assert_eq!(request.header.typ, CMD_RESOURCE_MAP_BLOB);
}

#[test]
fn unmap_blob_round_trip() {
    let request = ResourceUnmapBlob::new(42);

    let bytes = request.encode_le();

    assert_eq!(bytes.len(), ResourceUnmapBlob::SIZE);
    assert_eq!(ResourceUnmapBlob::decode_le(&bytes), Some(request));
    assert_eq!(request.header.typ, CMD_RESOURCE_UNMAP_BLOB);
}

#[test]
fn create_blob_header_is_correct() {
    let request = ResourceCreateBlob::new(1, 2, 3, 4, 5, 0);

    assert_eq!(request.header.typ, CMD_RESOURCE_CREATE_BLOB);
    assert_eq!(request.header.flags, 0);
    assert_eq!(request.header.ctx_id, 0);
    assert_eq!(request.header.fence_id, 0);
}

#[test]
fn create_blob_fixed_size_matches_protocol() {
    assert_eq!(ResourceCreateBlob::SIZE, 56);
}

#[test]
fn create_blob_with_entries_places_every_entry_after_the_fixed_part() {
    let request = ResourceCreateBlob::new(3, BLOB_MEM_HOST3D, 0, 1, 2, 2);
    let entries = [
        MemEntry { addr: 0xAAAA, length: 1, padding: 0 },
        MemEntry { addr: 0xBBBB, length: 2, padding: 9 },
    ];
    let bytes = request.encode_with_entries(&entries);
    assert_eq!(&bytes[..56], &request.encode_le()[..]);
    assert_eq!(&bytes[56..72], &entries[0].encode_le()[..]);
    assert_eq!(&bytes[72..88], &entries[1].encode_le()[..]);
}

#[test]
fn mem_entry_encodes_little_endian() {
    let entry = MemEntry { addr: 0x0102_0304_0506_0708, length: 0x1122_3344, padding: 0x5566_7788 };
    let bytes = entry.encode_le();
    assert_eq!(
        bytes,
        [0x08, 0x07, 0x06, 0x05, 0x04, 0x03, 0x02, 0x01, 0x44, 0x33, 0x22, 0x11, 0x88, 0x77, 0x66, 0x55]
    );
}

#[test]
fn map_and_unmap_blob_reject_short_input() {
    assert_eq!(ResourceMapBlob::decode_le(&[0u8; 39]), None);
    assert_eq!(ResourceUnmapBlob::decode_le(&[0u8; 31]), None);
    assert_eq!(ResourceCreateBlob::decode_le(&[0u8; 55]), None);
}
