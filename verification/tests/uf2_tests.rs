use rpi_messages::uf2::{
    gen_block, wifi_config_uf2, Uf2Error, WifiData, UF2_BLOCK_COUNT, UF2_BLOCK_SIZE,
    UF2_DATA_SIZE,
};

#[test]
fn gen_block_lays_out_the_container() {
    let data = vec![0xabu8; UF2_DATA_SIZE];
    let block = gen_block(0x10ff_f000, 3, &data);
    assert_eq!(block.len(), UF2_BLOCK_SIZE);
    // Opening magic numbers.
    assert_eq!(&block[..8], &[0x55, 0x46, 0x32, 0x0a, 0x57, 0x51, 0x5d, 0x9e]);
    // Flags: family id present.
    assert_eq!(&block[8..12], &[0x00, 0x20, 0x00, 0x00]);
    // Target address, little endian.
    assert_eq!(&block[12..16], &[0x00, 0xf0, 0xff, 0x10]);
    // Payload size: 256.
    assert_eq!(&block[16..20], &[0x00, 0x01, 0x00, 0x00]);
    // Block number and block count.
    assert_eq!(&block[20..24], &[3, 0, 0, 0]);
    assert_eq!(&block[24..28], &[16, 0, 0, 0]);
    // Family id.
    assert_eq!(&block[28..32], &[0x56, 0xff, 0x8b, 0xe4]);
    // The data, then zero padding, then the closing magic number.
    assert_eq!(&block[32..288], data.as_slice());
    assert!(block[288..508].iter().all(|&b| b == 0));
    assert_eq!(&block[508..], &[0x30, 0x6f, 0xb1, 0x0a]);
}

#[test]
fn wifi_config_builds_a_whole_sector() {
    let data = WifiData {
        wifissid: "homenet".to_string(),
        wifipw: "SECRET-REDACTED".to_string(),
    };
    let file = wifi_config_uf2(&data).unwrap();
    assert_eq!(file.len(), UF2_BLOCK_COUNT * UF2_BLOCK_SIZE);
    // Block 0 carries the SSID at the start of its data...
    assert_eq!(&file[32..39], b"homenet");
    assert_eq!(file[39], 0);
    // ...and the password in its own 64-byte field.
    assert_eq!(&file[32 + 64..32 + 64 + 15], b"SECRET-REDACTED");
    assert_eq!(file[32 + 64 + 15], 0);
    // The remaining blocks carry zero data, each at its own address.
    let second = &file[UF2_BLOCK_SIZE..2 * UF2_BLOCK_SIZE];
    assert_eq!(&second[12..16], &[0x00, 0xf1, 0xff, 0x10]);
    assert_eq!(&second[20..24], &[1, 0, 0, 0]);
    assert!(second[32..288].iter().all(|&b| b == 0));
}

#[test]
fn oversized_credentials_are_refused() {
    let data = WifiData { wifissid: "x".repeat(64), wifipw: "ok".to_string() };
    assert_eq!(wifi_config_uf2(&data).unwrap_err(), Uf2Error::CredentialsTooLong);
    let data = WifiData { wifissid: "ok".to_string(), wifipw: "y".repeat(64) };
    assert_eq!(wifi_config_uf2(&data).unwrap_err(), Uf2Error::CredentialsTooLong);
    // One byte under the field size leaves room for the terminator.
    let data = WifiData { wifissid: "x".repeat(63), wifipw: "y".repeat(63) };
    assert!(wifi_config_uf2(&data).is_ok());
}
