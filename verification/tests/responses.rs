use rust_virtio_gpu::virtio_gpu::protocol::commands::{
    RESP_OK_CAPSET, RESP_OK_CAPSET_INFO, RESP_OK_DISPLAY_INFO, RESP_OK_EDID, RESP_OK_MAP_INFO,
    RESP_OK_NODATA, RESP_OK_RESOURCE_UUID,
};
use rust_virtio_gpu::virtio_gpu::protocol::responses::{
    DisplayOne, Rect, RespCapset, RespCapsetInfo, RespDisplayInfo, RespEdid, RespMapInfo,
    RespOkNoData, RespResourceUuid, MAX_SCANOUTS,
};
use rust_virtio_gpu::virtio_gpu::protocol::CtrlHeader;

#[test]
fn rect_round_trip() {
    let rect = Rect {
        x: 10,
        y: 20,
        width: 1920,
        height: 1080,
    };

    let bytes = rect.encode_le();
    let decoded = Rect::decode_le(&bytes).unwrap();

    assert_eq!(rect, decoded);
}

#[test]
fn display_one_round_trip() {
    let display = DisplayOne {
        rect: Rect {
            x: 10,
            y: 20,
            width: 1920,
            height: 1080,
        },
        enabled: 1,
        flags: 0x1234,
    };

    let bytes = display.encode_le();
    let decoded = DisplayOne::decode_le(&bytes).unwrap();

    assert_eq!(display, decoded);
}

#[test]
fn response_sizes_match_protocol() {
    assert_eq!(Rect::SIZE, 16);
    assert_eq!(DisplayOne::SIZE, 24);
    assert_eq!(RespDisplayInfo::SIZE, 408);
    assert_eq!(RespCapsetInfo::SIZE, 40);
    assert_eq!(RespEdid::SIZE, 1056);
    assert_eq!(RespResourceUuid::SIZE, 40);
    assert_eq!(RespMapInfo::SIZE, 32);
}

#[test]
fn display_info_rejects_wrong_response_type() {
    let mut bytes = vec![0u8; RespDisplayInfo::SIZE];

    let header = CtrlHeader::new(RESP_OK_CAPSET_INFO);
    bytes[..CtrlHeader::SIZE].copy_from_slice(&header.encode_le());

    assert_eq!(RespDisplayInfo::decode_le(&bytes), None);
}

#[test]
fn capset_preserves_variable_length_payload() {
    let header = CtrlHeader::new(RESP_OK_CAPSET);

    let payload = [1u8, 2, 3, 4, 5];

    let mut bytes = Vec::new();
    bytes.extend_from_slice(&header.encode_le());
    bytes.extend_from_slice(&payload);

    let response = RespCapset::decode_le(&bytes).unwrap();

    assert_eq!(response.header, header);
    assert_eq!(response.data, &payload);
}

#[test]
fn display_info_round_trip() {
    let response = RespDisplayInfo {
        header: CtrlHeader::new(RESP_OK_DISPLAY_INFO),
        pmodes: [DisplayOne {
            rect: Rect {
                x: 0,
                y: 0,
                width: 1920,
                height: 1080,
            },
            enabled: 1,
            flags: 0,
        }; MAX_SCANOUTS],
    };

    let bytes = response.encode_le();
    let decoded = RespDisplayInfo::decode_le(&bytes).unwrap();

    assert_eq!(decoded, response);
}

#[test]
fn display_info_places_each_scanout_at_its_offset() {
    let mut pmodes = [DisplayOne::default(); MAX_SCANOUTS];
    for (i, mode) in pmodes.iter_mut().enumerate() {
        mode.rect.width = i as u32 + 1;
        mode.enabled = (i % 2) as u32;
    }
    let response = RespDisplayInfo { header: CtrlHeader::new(RESP_OK_DISPLAY_INFO), pmodes };
    let bytes = response.encode_le();
    for i in 0..MAX_SCANOUTS {
        let start = 24 + 24 * i;
        assert_eq!(&bytes[start..start + 24], &pmodes[i].encode_le()[..]);
    }
    assert_eq!(RespDisplayInfo::decode_le(&bytes), Some(response));
}

#[test]
fn display_info_rejects_short_input() {
    let response = RespDisplayInfo {
        header: CtrlHeader::new(RESP_OK_DISPLAY_INFO),
        pmodes: [DisplayOne::default(); MAX_SCANOUTS],
    };
    let bytes = response.encode_le();
    assert_eq!(RespDisplayInfo::decode_le(&bytes[..407]), None);
}

#[test]
fn rect_and_display_one_reject_short_input() {
    assert_eq!(Rect::decode_le(&[0u8; 15]), None);
    assert_eq!(DisplayOne::decode_le(&[0u8; 23]), None);
}

#[test]
fn capset_info_response_decodes_fields() {
    let mut bytes = [0u8; 40];
    bytes[..24].copy_from_slice(&CtrlHeader::new(RESP_OK_CAPSET_INFO).encode_le());
    bytes[24..28].copy_from_slice(&4u32.to_le_bytes());
    bytes[28..32].copy_from_slice(&2u32.to_le_bytes());
    bytes[32..36].copy_from_slice(&512u32.to_le_bytes());
    let response = RespCapsetInfo::decode_le(&bytes).unwrap();
    assert_eq!(response.capset_id, 4);
    assert_eq!(response.capset_max_version, 2);
    assert_eq!(response.capset_max_size, 512);
    bytes[..24].copy_from_slice(&CtrlHeader::new(RESP_OK_NODATA).encode_le());
    assert_eq!(RespCapsetInfo::decode_le(&bytes), None);
}

#[test]
fn capset_response_rejects_other_types() {
    let bytes = CtrlHeader::new(RESP_OK_NODATA).encode_le();
    assert_eq!(RespCapset::decode_le(&bytes), None);
    assert_eq!(RespCapset::decode_le(&bytes[..23]), None);
}

#[test]
fn edid_response_decodes_payload() {
    let mut bytes = vec![0u8; 1056];
    bytes[..24].copy_from_slice(&CtrlHeader::new(RESP_OK_EDID).encode_le());
    bytes[24..28].copy_from_slice(&128u32.to_le_bytes());
    bytes[32] = 0x00;
    bytes[33] = 0xFF;
    bytes[1055] = 0x7E;
    let response = RespEdid::decode_le(&bytes).unwrap();
    assert_eq!(response.size, 128);
    assert_eq!(response.edid[1], 0xFF);
    assert_eq!(response.edid[1023], 0x7E);
    assert_eq!(RespEdid::decode_le(&bytes[..1055]), None);
}

#[test]
fn uuid_response_decodes_payload() {
    let mut bytes = [0u8; 40];
    bytes[..24].copy_from_slice(&CtrlHeader::new(RESP_OK_RESOURCE_UUID).encode_le());
    for i in 0..16 {
        bytes[24 + i] = i as u8;
    }
    let response = RespResourceUuid::decode_le(&bytes).unwrap();
    assert_eq!(response.uuid, [0, 1, 2, 3, 4, 5, 6, 7, 8, 9, 10, 11, 12, 13, 14, 15]);
    bytes[0] = 0;
    assert_eq!(RespResourceUuid::decode_le(&bytes), None);
}

#[test]
fn map_info_response_decodes_cache_mode() {
    let mut bytes = [0u8; 32];
    bytes[..24].copy_from_slice(&CtrlHeader::new(RESP_OK_MAP_INFO).encode_le());
    bytes[24..28].copy_from_slice(&3u32.to_le_bytes());
    let response = RespMapInfo::decode_le(&bytes).unwrap();
    assert_eq!(response.map_info, 3);
    assert_eq!(RespMapInfo::decode_le(&bytes[..31]), None);
}

#[test]
fn ok_nodata_encodes_its_header() {
    let response = RespOkNoData::new();
    assert_eq!(response.header.typ, RESP_OK_NODATA);
    let bytes = response.encode_le();
    assert_eq!(bytes.len(), RespOkNoData::SIZE);
    assert_eq!(&bytes[..], &CtrlHeader::new(RESP_OK_NODATA).encode_le()[..]);
}
