use rpi_messages::consts::{IMAGE_BUFFER_SIZE, TEXT_BUFFER_SIZE};
use rpi_messages::protocol::{
    ClientCommand, Error, RequestUpdateResult, Update, UpdateKind, CLIENT_COMMAND_BUFFER_SIZE,
    CLIENT_COMMAND_MAX_PAYLOAD, REQUEST_UPDATE_RESULT_BUFFER_SIZE,
    REQUEST_UPDATE_RESULT_MAX_PAYLOAD,
};
use rpi_messages::types::{DeviceID, MessageID};

#[test]
fn round_trip_client_command_without_cursor() {
    let cmd = ClientCommand::RequestUpdate(DeviceID(0xcafebabe), None);
    let bytes = cmd.encode();
    assert_eq!(bytes.len(), 8);
    assert_eq!(ClientCommand::decode(&bytes), Ok(cmd));
}

#[test]
fn round_trip_client_command_with_cursor() {
    let cmd = ClientCommand::RequestUpdate(DeviceID(7), Some(MessageID(u32::MAX)));
    let bytes = cmd.encode();
    assert_eq!(bytes.len(), CLIENT_COMMAND_BUFFER_SIZE);
    assert_eq!(ClientCommand::decode(&bytes), Ok(cmd));
}

#[test]
fn round_trip_no_update() {
    let value = RequestUpdateResult::NoUpdate;
    let bytes = value.encode();
    assert_eq!(bytes, vec![0, 1, 0]);
    assert_eq!(RequestUpdateResult::decode(&bytes), Ok(value));
}

#[test]
fn round_trip_text_update() {
    let value = RequestUpdateResult::Update(Update {
        lifetime_sec: 3600,
        id: MessageID(42),
        kind: UpdateKind::Text(17),
    });
    let bytes = value.encode();
    assert_eq!(bytes.len(), REQUEST_UPDATE_RESULT_BUFFER_SIZE);
    assert_eq!(RequestUpdateResult::decode(&bytes), Ok(value));
}

#[test]
fn round_trip_image_update() {
    let value = RequestUpdateResult::Update(Update {
        lifetime_sec: u32::MAX,
        id: MessageID(0),
        kind: UpdateKind::Image,
    });
    let bytes = value.encode();
    assert_eq!(bytes.len(), 12);
    assert_eq!(RequestUpdateResult::decode(&bytes), Ok(value));
}

#[test]
fn wire_bytes_are_big_endian_with_length_prefix() {
    let value = RequestUpdateResult::Update(Update {
        lifetime_sec: 0x01020304,
        id: MessageID(0x0a0b0c0d),
        kind: UpdateKind::Text(9),
    });
    let bytes = value.encode();
    assert_eq!(
        bytes,
        vec![0, 11, 1, 0x01, 0x02, 0x03, 0x04, 0x0a, 0x0b, 0x0c, 0x0d, 1, 9]
    );
}

#[test]
fn declared_length_over_maximum_is_rejected() {
    // A reply frame declaring 12 payload bytes: one above the maximum.
    let mut buf = vec![0u8, 12];
    buf.extend(std::iter::repeat(0u8).take(12));
    assert_eq!(
        RequestUpdateResult::decode(&buf),
        Err(Error::Length { val: 12, max: REQUEST_UPDATE_RESULT_MAX_PAYLOAD })
    );
    // Even a huge declared length is rejected before any read.
    let buf = vec![0xffu8, 0xff];
    assert_eq!(
        RequestUpdateResult::decode(&buf),
        Err(Error::Length { val: 0xffff, max: REQUEST_UPDATE_RESULT_MAX_PAYLOAD })
    );
    let buf = vec![0xffu8, 0xff];
    assert_eq!(
        ClientCommand::decode(&buf),
        Err(Error::Length { val: 0xffff, max: CLIENT_COMMAND_MAX_PAYLOAD })
    );
}

#[test]
fn truncated_or_malformed_frames_fail_to_decode() {
    assert_eq!(RequestUpdateResult::decode(&[]), Err(Error::DecodeFailure));
    assert_eq!(RequestUpdateResult::decode(&[0]), Err(Error::DecodeFailure));
    // Declared length larger than what the buffer holds.
    assert_eq!(RequestUpdateResult::decode(&[0, 3, 1, 2]), Err(Error::DecodeFailure));
    // Unknown tag.
    assert_eq!(RequestUpdateResult::decode(&[0, 1, 9]), Err(Error::DecodeFailure));
    // Correct tag, wrong payload length.
    assert_eq!(RequestUpdateResult::decode(&[0, 2, 0, 0]), Err(Error::DecodeFailure));
}

#[test]
fn decode_ignores_bytes_past_the_declared_length() {
    let value = RequestUpdateResult::NoUpdate;
    let mut bytes = value.encode();
    bytes.extend(vec![0xde, 0xad, 0xbe, 0xef]);
    assert_eq!(RequestUpdateResult::decode(&bytes), Ok(value));
}

#[test]
fn to_bytes_refuses_small_buffers_only() {
    let cmd = ClientCommand::RequestUpdate(DeviceID(1), Some(MessageID(2)));
    let mut small = vec![0u8; CLIENT_COMMAND_BUFFER_SIZE - 1];
    assert_eq!(cmd.to_bytes(&mut small), Err(Error::EncodeOverflow));
    assert_eq!(small, vec![0u8; CLIENT_COMMAND_BUFFER_SIZE - 1]);

    let mut exact = vec![0xaau8; CLIENT_COMMAND_BUFFER_SIZE];
    let n = cmd.to_bytes(&mut exact).unwrap();
    assert_eq!(n, CLIENT_COMMAND_BUFFER_SIZE);
    assert_eq!(&exact[..n], cmd.encode().as_slice());
}

#[test]
fn frame_length_is_checked_before_the_payload_is_read() {
    assert_eq!(RequestUpdateResult::check_frame_length(0, 11), Ok(11));
    assert_eq!(
        RequestUpdateResult::check_frame_length(0, 12),
        Err(Error::Length { val: 12, max: REQUEST_UPDATE_RESULT_MAX_PAYLOAD })
    );
    assert_eq!(ClientCommand::check_frame_length(0, 10), Ok(10));
    assert_eq!(
        ClientCommand::check_frame_length(0x10, 0),
        Err(Error::Length { val: 0x1000, max: CLIENT_COMMAND_MAX_PAYLOAD })
    );
}

#[test]
fn update_kind_size_and_validity() {
    assert_eq!(UpdateKind::Image.size(), IMAGE_BUFFER_SIZE);
    assert_eq!(UpdateKind::Text(17).size(), 17);
    assert!(UpdateKind::Image.is_valid());
    assert!(UpdateKind::Text(TEXT_BUFFER_SIZE as u8).is_valid());
    assert!(!UpdateKind::Text(TEXT_BUFFER_SIZE as u8 + 1).is_valid());
}

#[test]
fn check_valid_rejects_oversized_text_lengths() {
    let ok = RequestUpdateResult::Update(Update {
        lifetime_sec: 1,
        id: MessageID(1),
        kind: UpdateKind::Text(136),
    });
    assert_eq!(ok.check_valid(), Ok(()));
    assert_eq!(RequestUpdateResult::NoUpdate.check_valid(), Ok(()));

    let bad = RequestUpdateResult::Update(Update {
        lifetime_sec: 1,
        id: MessageID(1),
        kind: UpdateKind::Text(200),
    });
    assert_eq!(bad.check_valid(), Err(Error::Length { val: 200, max: TEXT_BUFFER_SIZE }));
}
