use rust_virtio_gpu::virtio_gpu::protocol::commands::CMD_SUBMIT_3D;
use rust_virtio_gpu::virtio_gpu::protocol::requests::flush::ResourceFlush;
use rust_virtio_gpu::virtio_gpu::protocol::requests::submit::{Submit3D, Submit3DCommand};

#[test]
fn decode_resource_flush() {
    let mut data = [0u8; ResourceFlush::SIZE];

    data[24..28].copy_from_slice(&7u32.to_le_bytes());
    data[28..32].copy_from_slice(&10u32.to_le_bytes());
    data[32..36].copy_from_slice(&20u32.to_le_bytes());
    data[36..40].copy_from_slice(&1920u32.to_le_bytes());
    data[40..44].copy_from_slice(&1080u32.to_le_bytes());

    let request = ResourceFlush::decode(&data).unwrap();

    assert_eq!(request.resource_id, 7);
    assert_eq!(request.rect, [10, 20, 1920, 1080]);
}

#[test]
fn decode_rejects_short_input() {
    let data = [0u8; ResourceFlush::SIZE - 1];

    assert_eq!(ResourceFlush::decode(&data), None);
}

#[test]
fn flush_ignores_the_header_bytes() {
    let mut data = [0xFFu8; ResourceFlush::SIZE + 4];
    data[24..44].copy_from_slice(&[0u8; 20]);
    let request = ResourceFlush::decode(&data).unwrap();
    assert_eq!(request, ResourceFlush { resource_id: 0, rect: [0, 0, 0, 0] });
}

#[test]
fn submit_size_matches_protocol() {
    assert_eq!(Submit3D::SIZE, 32);
}

#[test]
fn submit_round_trip() {
    let request = Submit3D::new(42, 128);

    let bytes = request.encode_le();
    let decoded = Submit3D::decode_le(&bytes).unwrap();

    assert_eq!(decoded, request);
    assert_eq!(decoded.header.typ, CMD_SUBMIT_3D);
    assert_eq!(decoded.header.ctx_id, 42);
    assert_eq!(decoded.size, 128);
}

#[test]
fn submit_rejects_short_input() {
    assert_eq!(Submit3D::decode_le(&[0u8; 31]), None);
}

#[test]
fn submit_command_stream_size_is_recorded() {
    let stream = vec![0x11, 0x22, 0x33, 0x44];

    let request = Submit3DCommand::new(7, stream.clone());

    assert_eq!(request.request.header.ctx_id, 7);
    assert_eq!(request.request.header.typ, CMD_SUBMIT_3D);
    assert_eq!(request.request.size, 4);
    assert_eq!(request.command_stream_size(), 4);
    assert_eq!(&request.encode()[32..], &stream);
}

#[test]
fn empty_command_stream_is_supported() {
    let request = Submit3DCommand::new(1, Vec::new());

    assert_eq!(request.request.size, 0);
    assert!(request.command_stream.is_empty());
    assert_eq!(request.encode().len(), Submit3D::SIZE);
}

#[test]
fn submit_command_encoding_starts_with_the_request() {
    let request = Submit3DCommand::new(5, vec![9, 8, 7]);
    let bytes = request.encode();
    assert_eq!(bytes.len(), 35);
    assert_eq!(&bytes[..32], &Submit3D::new(5, 3).encode_le()[..]);
}
