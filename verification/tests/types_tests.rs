use rpi_messages::static_data::parse_config_str;
use rpi_messages::types::{DeviceID, MessageID};

#[test]
fn ids_render_as_eight_hex_digits() {
    assert_eq!(DeviceID(0xcafebabe).hex_string(), "0xcafebabe");
    assert_eq!(DeviceID(0).hex_string(), "0x00000000");
    assert_eq!(DeviceID(0x1a2b).hex_string(), "0x00001a2b");
    assert_eq!(MessageID(u32::MAX).hex_string(), "0xffffffff");
}

#[test]
fn hex_parsing_round_trips_the_rendering() {
    for raw in [0u32, 1, 0x1a2b, 0xcafebabe, u32::MAX] {
        let id = DeviceID(raw);
        assert_eq!(DeviceID::from_hex_str(&id.hex_string()), Some(id));
    }
}

#[test]
fn hex_parsing_accepts_both_cases_and_bare_digits() {
    assert_eq!(DeviceID::from_hex_str("0xCAFEBABE"), Some(DeviceID(0xcafebabe)));
    assert_eq!(DeviceID::from_hex_str("cafebabe"), Some(DeviceID(0xcafebabe)));
    assert_eq!(DeviceID::from_hex_str("1A2b"), Some(DeviceID(0x1a2b)));
}

#[test]
fn hex_parsing_rejects_junk() {
    assert_eq!(DeviceID::from_hex_str(""), None);
    assert_eq!(DeviceID::from_hex_str("0x"), None);
    assert_eq!(DeviceID::from_hex_str("0xzz"), None);
    assert_eq!(DeviceID::from_hex_str("12 34"), None);
    // Nine digits overflow 32 bits.
    assert_eq!(DeviceID::from_hex_str("0x100000000"), None);
    // Eight still fit.
    assert_eq!(DeviceID::from_hex_str("0xffffffff"), Some(DeviceID(u32::MAX)));
}

#[test]
fn config_fields_read_up_to_the_null_terminator() {
    let mut field = [0u8; 64];
    field[..7].copy_from_slice(b"homenet");
    assert_eq!(parse_config_str(&field), Some("homenet".to_string()));
    // An empty field is an empty string, not an error.
    assert_eq!(parse_config_str(&[0u8; 64]), Some(String::new()));
    // No terminator: unreadable.
    assert_eq!(parse_config_str(b"full-field-no-null"), None);
    // Bytes before the terminator that are not UTF-8: unreadable.
    let mut bad = [0u8; 8];
    bad[0] = 0xff;
    assert_eq!(parse_config_str(&bad), None);
}
