use rust_virtio_gpu::virtio_gpu::protocol::commands::{
    CAPSET_VENUS, CAPSET_VIRGL, CMD_CTX_ATTACH_RESOURCE, CMD_CTX_CREATE, CMD_CTX_DESTROY,
    CMD_CTX_DETACH_RESOURCE,
};
use rust_virtio_gpu::virtio_gpu::protocol::requests::context::{
    ContextAttachResource, ContextCreate, ContextDestroy, ContextDetachResource,
};

#[test]
fn context_create_size_matches_protocol() {
    assert_eq!(ContextCreate::SIZE, 96);
}

#[test]
fn venus_context_create_round_trip() {
    let request = ContextCreate::venus(42, b"venus");

    let bytes = request.encode_le();
    let decoded = ContextCreate::decode_le(&bytes).unwrap();

    assert_eq!(decoded, request);
    assert_eq!(decoded.header.typ, CMD_CTX_CREATE);
    assert_eq!(decoded.header.ctx_id, 42);
    assert_eq!(decoded.context_init, CAPSET_VENUS);
    assert_eq!(decoded.capset_id(), CAPSET_VENUS);
    assert!(decoded.is_venus());
    assert_eq!(decoded.nlen, 5);
}

#[test]
fn context_create_truncates_long_name() {
    let name = [b'A'; 100];

    let request = ContextCreate::new(1, CAPSET_VENUS, &name);

    assert_eq!(request.nlen, 64);
    assert!(request.debug_name.iter().all(|&byte| byte == b'A'));
}

#[test]
fn context_create_rejects_short_input() {
    assert_eq!(ContextCreate::decode_le(&[0u8; 95]), None);
}

#[test]
fn context_destroy_round_trip() {
    let request = ContextDestroy::new(42);

    let bytes = request.encode_le();
    let decoded = ContextDestroy::decode_le(&bytes).unwrap();

    assert_eq!(decoded, request);
    assert_eq!(decoded.header.typ, CMD_CTX_DESTROY);
    assert_eq!(decoded.header.ctx_id, 42);
}

#[test]
fn context_attach_resource_round_trip() {
    let request = ContextAttachResource::new(42, 100);

    let bytes = request.encode_le();
    let decoded = ContextAttachResource::decode_le(&bytes).unwrap();

    assert_eq!(decoded, request);
    assert_eq!(decoded.header.typ, CMD_CTX_ATTACH_RESOURCE);
    assert_eq!(decoded.header.ctx_id, 42);
    assert_eq!(decoded.resource_id, 100);
}

#[test]
fn context_detach_resource_round_trip() {
    let request = ContextDetachResource::new(42, 100);

    let bytes = request.encode_le();
    let decoded = ContextDetachResource::decode_le(&bytes).unwrap();

    assert_eq!(decoded, request);
    assert_eq!(decoded.header.typ, CMD_CTX_DETACH_RESOURCE);
    assert_eq!(decoded.header.ctx_id, 42);
    assert_eq!(decoded.resource_id, 100);
}

#[test]
fn context_headers_use_correct_command_ids() {
    assert_eq!(ContextDestroy::new(1).header.typ, CMD_CTX_DESTROY);
    assert_eq!(
        ContextAttachResource::new(1, 2).header.typ,
        CMD_CTX_ATTACH_RESOURCE
    );
    assert_eq!(
        ContextDetachResource::new(1, 2).header.typ,
        CMD_CTX_DETACH_RESOURCE
    );
}

#[test]
fn short_name_is_zero_padded() {
    let request = ContextCreate::new(3, CAPSET_VIRGL, b"ab");
    assert_eq!(request.nlen, 2);
    assert_eq!(request.debug_name[0], b'a');
    assert_eq!(request.debug_name[1], b'b');
    assert!(request.debug_name[2..].iter().all(|&byte| byte == 0));
    assert_eq!(request.capset_id(), CAPSET_VIRGL);
    assert!(!request.is_venus());
}

#[test]
fn capset_id_takes_the_low_byte_of_context_init() {
    let request = ContextCreate::new(3, 0x1234_0104, b"");
    assert_eq!(request.capset_id(), 4);
    assert!(request.is_venus());
    assert_eq!(request.nlen, 0);
}

#[test]
fn context_requests_reject_short_input() {
    assert_eq!(ContextDestroy::decode_le(&[0u8; 23]), None);
    assert_eq!(ContextAttachResource::decode_le(&[0u8; 31]), None);
    assert_eq!(ContextDetachResource::decode_le(&[0u8; 31]), None);
}
