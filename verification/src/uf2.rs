//! Building the UF2 file that flashes a new WIFI configuration onto the
//! device.
//!
//! The device's flash sector is 4 KiB, so the file holds 16 blocks of
//! 256 data bytes each; only the first block carries the configuration
//! (SSID and password, each null-terminated in a fixed-size field), the
//! rest pad the sector with zeroes. Each block is wrapped in the 512-byte
//! UF2 container: magic numbers, flags, target address, payload size,
//! block sequence number, block count, family id, payload, padding and
//! the closing magic number.
use vstd::prelude::*;
use vstd::string::StringSliceAdditionalSpecFns;

use crate::consts::{WIFI_PW_LEN, WIFI_SSID_LEN};

verus! {

/// Flash address the configuration sector starts at.
pub const WIFI_BASE_ADDRESS: u32 = 0x10ff_f000;

/// Data bytes carried by one UF2 block.
pub const UF2_DATA_SIZE: usize = 256;

/// Total size of one UF2 block on disk.
pub const UF2_BLOCK_SIZE: usize = 512;

/// Blocks in the configuration file: one flash sector's worth.
pub const UF2_BLOCK_COUNT: usize = 16;

/// Why a configuration was refused.
#[derive(Debug, Clone, Copy, PartialEq, Eq, Structural)]
pub enum Uf2Error {
    /// SSID or password does not leave room for its null terminator.
    CredentialsTooLong,
}

/// The WIFI configuration as submitted.
#[derive(Debug)]
pub struct WifiData {
    pub wifissid: String,
    pub wifipw: String,
}

/// The four little-endian bytes of a 32-bit integer.
pub open spec fn spec_le32(x: u32) -> Seq<u8> {
    seq![
        (x % 0x100) as u8,
        ((x % 0x10000) / 0x100) as u8,
        ((x % 0x1000000) / 0x10000) as u8,
        (x / 0x1000000) as u8,
    ]
}

/// A sequence of `n` zero bytes.
pub open spec fn spec_zeroes(n: int) -> Seq<u8> {
    Seq::new(n as nat, |i: int| 0u8)
}

/// The 512-byte UF2 container around 256 data bytes destined for
/// `address`, as block number `block_id` of a 16-block file.
pub open spec fn spec_uf2_block(address: u32, block_id: u32, data: Seq<u8>) -> Seq<u8> {
    seq![0x55u8, 0x46u8, 0x32u8, 0x0au8, 0x57u8, 0x51u8, 0x5du8, 0x9eu8] + seq![
        0x00u8,
        0x20u8,
        0x00u8,
        0x00u8,
    ] + spec_le32(address) + seq![0x00u8, 0x01u8, 0x00u8, 0x00u8] + spec_le32(block_id) + spec_le32(
        16,
    ) + seq![0x56u8, 0xffu8, 0x8bu8, 0xe4u8] + data + spec_zeroes(220) + seq![
        0x30u8,
        0x6fu8,
        0xb1u8,
        0x0au8,
    ]
}

/// Writes the four little-endian bytes of `x` onto the end of `out`.
fn push_le32(out: &mut Vec<u8>, x: u32)
    ensures
        final(out)@ == old(out)@ + spec_le32(x),
{
    out.push((x % 0x100) as u8);
    out.push((x % 0x10000 / 0x100) as u8);
    out.push((x % 0x1000000 / 0x10000) as u8);
    out.push((x / 0x1000000) as u8);
    assert(out@ =~= old(out)@ + spec_le32(x));
}

/// Wraps 256 data bytes in their 512-byte UF2 container.
pub fn gen_block(address: u32, block_id: u32, data: &[u8]) -> (r: Vec<u8>)
    requires
        data@.len() == UF2_DATA_SIZE,
    ensures
        r@ == spec_uf2_block(address, block_id, data@),
        r@.len() == UF2_BLOCK_SIZE,
{
    let mut result: Vec<u8> = Vec::new();
    // Magic numbers
    result.push(0x55u8);
    result.push(0x46u8);
    result.push(0x32u8);
    result.push(0x0au8);
    result.push(0x57u8);
    result.push(0x51u8);
    result.push(0x5du8);
    result.push(0x9eu8);
    // Flags: family id present
    result.push(0x00u8);
    result.push(0x20u8);
    result.push(0x00u8);
    result.push(0x00u8);
    // Address the data is written to
    push_le32(&mut result, address);
    // Size of the data
    result.push(0x00u8);
    result.push(0x01u8);
    result.push(0x00u8);
    result.push(0x00u8);
    // Sequential block number and total number of blocks
    push_le32(&mut result, block_id);
    push_le32(&mut result, 16);
    // Family id
    result.push(0x56u8);
    result.push(0xffu8);
    result.push(0x8bu8);
    result.push(0xe4u8);
    result.extend_from_slice(data);
    // Padding that brings the block to 512 bytes
    let mut k: usize = 0;
    let ghost before_pad = result@;
    while k < 220
        invariant
            k <= 220,
            result@ == before_pad + spec_zeroes(k as int),
        decreases 220 - k,
    {
        result.push(0u8);
        proof {
            assert(result@ =~= before_pad + spec_zeroes(k + 1));
        }
        k += 1;
    }
    // Closing magic number
    result.push(0x30u8);
    result.push(0x6fu8);
    result.push(0xb1u8);
    result.push(0x0au8);
    proof {
        assert(result@ =~= spec_uf2_block(address, block_id, data@));
    }
    result
}

/// The first block's 256 data bytes: the SSID and the password, each
/// zero-padded to its fixed field, then zeroes.
pub open spec fn spec_wifi_payload(ssid: Seq<u8>, pw: Seq<u8>) -> Seq<u8> {
    ssid + spec_zeroes(WIFI_SSID_LEN - ssid.len()) + pw + spec_zeroes(WIFI_PW_LEN - pw.len())
        + spec_zeroes(UF2_DATA_SIZE - WIFI_SSID_LEN - WIFI_PW_LEN)
}

/// Blocks `from` (inclusive) to `to` (exclusive) of the padding tail:
/// each wraps 256 zero bytes for its slice of the sector.
pub open spec fn spec_pad_blocks(from: int, to: int) -> Seq<u8>
    decreases to - from,
{
    if from >= to {
        Seq::empty()
    } else {
        spec_uf2_block(
            (WIFI_BASE_ADDRESS + 256 * from) as u32,
            from as u32,
            spec_zeroes(UF2_DATA_SIZE as int),
        ) + spec_pad_blocks(from + 1, to)
    }
}

/// The whole configuration file: the configuration block followed by 15
/// padding blocks.
pub open spec fn spec_wifi_uf2(ssid: Seq<u8>, pw: Seq<u8>) -> Seq<u8> {
    spec_uf2_block(WIFI_BASE_ADDRESS, 0, spec_wifi_payload(ssid, pw)) + spec_pad_blocks(
        1,
        UF2_BLOCK_COUNT as int,
    )
}

/// Builds the UF2 file that flashes this WIFI configuration, refusing —
/// exactly — an SSID or password that would not leave room for its null
/// terminator in its fixed flash field.
pub fn wifi_config_uf2(data: &WifiData) -> (r: Result<Vec<u8>, Uf2Error>)
    ensures
        match r {
            Ok(f) => {
                &&& vstd::utf8::encode_utf8(data.wifissid@).len() < WIFI_SSID_LEN
                &&& vstd::utf8::encode_utf8(data.wifipw@).len() < WIFI_PW_LEN
                &&& f@ == spec_wifi_uf2(
                    vstd::utf8::encode_utf8(data.wifissid@),
                    vstd::utf8::encode_utf8(data.wifipw@),
                )
                &&& f@.len() == UF2_BLOCK_COUNT * UF2_BLOCK_SIZE
            },
            Err(e) => {
                &&& e == Uf2Error::CredentialsTooLong
                &&& vstd::utf8::encode_utf8(data.wifissid@).len() >= WIFI_SSID_LEN
                    || vstd::utf8::encode_utf8(data.wifipw@).len() >= WIFI_PW_LEN
            },
        },
{
    let ssid = data.wifissid.as_str().as_bytes();
    let pw = data.wifipw.as_str().as_bytes();
    // The fields hold null-terminated strings, so the data must be
    // strictly smaller than the field.
    if ssid.len() >= WIFI_SSID_LEN || pw.len() >= WIFI_PW_LEN {
        return Err(Uf2Error::CredentialsTooLong);
    }
    let mut wifi_data: Vec<u8> = Vec::new();
    wifi_data.extend_from_slice(ssid);
    push_zeroes(&mut wifi_data, WIFI_SSID_LEN - ssid.len());
    wifi_data.extend_from_slice(pw);
    push_zeroes(&mut wifi_data, WIFI_PW_LEN - pw.len());
    push_zeroes(&mut wifi_data, UF2_DATA_SIZE - WIFI_SSID_LEN - WIFI_PW_LEN);
    assert(wifi_data@ =~= spec_wifi_payload(ssid@, pw@));
    assert(wifi_data@.len() == UF2_DATA_SIZE);

    let mut file: Vec<u8> = Vec::new();
    let mut block0 = gen_block(WIFI_BASE_ADDRESS, 0, wifi_data.as_slice());
    let ghost block0_spec = block0@;
    file.append(&mut block0);
    proof {
        assert(file@ =~= block0_spec);
    }

    let zero_data: Vec<u8> = vec![0u8; UF2_DATA_SIZE];
    assert(zero_data@ =~= spec_zeroes(UF2_DATA_SIZE as int));
    let mut i: usize = 1;
    while i < UF2_BLOCK_COUNT
        invariant
            1 <= i <= UF2_BLOCK_COUNT,
            zero_data@ == spec_zeroes(UF2_DATA_SIZE as int),
            file@ + spec_pad_blocks(i as int, UF2_BLOCK_COUNT as int) == spec_wifi_uf2(
                ssid@,
                pw@,
            ),
            file@.len() == i * UF2_BLOCK_SIZE,
        decreases UF2_BLOCK_COUNT - i,
    {
        let ghost file_pre = file@;
        let address = WIFI_BASE_ADDRESS + 256 * (i as u32);
        let mut block = gen_block(address, i as u32, zero_data.as_slice());
        let ghost block_spec = block@;
        file.append(&mut block);
        proof {
            assert(spec_pad_blocks(i as int, UF2_BLOCK_COUNT as int) == block_spec
                + spec_pad_blocks(i + 1, UF2_BLOCK_COUNT as int));
            assert((file_pre + block_spec) + spec_pad_blocks(i + 1, UF2_BLOCK_COUNT as int)
                =~= file_pre + (block_spec + spec_pad_blocks(i + 1, UF2_BLOCK_COUNT as int)));
        }
        i += 1;
    }
    proof {
        assert(spec_pad_blocks(UF2_BLOCK_COUNT as int, UF2_BLOCK_COUNT as int)
            == Seq::<u8>::empty());
        assert(file@ + Seq::<u8>::empty() =~= file@);
    }
    Ok(file)
}

/// Appends `n` zero bytes.
fn push_zeroes(out: &mut Vec<u8>, n: usize)
    ensures
        final(out)@ == old(out)@ + spec_zeroes(n as int),
{
    let mut k: usize = 0;
    while k < n
        invariant
            k <= n,
            out@ == old(out)@ + spec_zeroes(k as int),
        decreases n - k,
    {
        out.push(0u8);
        proof {
            assert(out@ =~= old(out)@ + spec_zeroes(k + 1));
        }
        k += 1;
    }
}

} // verus!
