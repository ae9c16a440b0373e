//! Screen geometry and buffer-size constants shared by the wire protocol,
//! the message cache and the backend content model.
use vstd::prelude::*;

verus! {

/// Number of text lines that fit on the display.
pub const TEXT_LINES: usize = 8;
/// Number of text columns that fit on the display.
pub const TEXT_COLUMNS: usize = 17;
/// Maximum byte length of one text message; fits in a `u8` length field.
pub const TEXT_BUFFER_SIZE: usize = TEXT_COLUMNS * TEXT_LINES;

/// Display width in pixels.
pub const IMAGE_WIDTH: usize = 160;
/// Display height in pixels.
pub const IMAGE_HEIGHT: usize = 128;
/// Bytes per pixel in the RGB565 format the display uses.
pub const IMAGE_BYTES_PER_PIXEL: usize = 2;
/// Exact byte length of one raw image: every image buffer is fully populated.
pub const IMAGE_BUFFER_SIZE: usize = IMAGE_HEIGHT * IMAGE_WIDTH * IMAGE_BYTES_PER_PIXEL;

/// Size of the flash field that holds the WIFI SSID (null-terminated).
pub const WIFI_SSID_LEN: usize = 64;
/// Size of the flash field that holds the WIFI password (null-terminated).
pub const WIFI_PW_LEN: usize = 64;

} // verus!
