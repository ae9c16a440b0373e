//! Opaque 32-bit identifiers for devices and messages.
use vstd::prelude::*;
use vstd::string::StringSliceAdditionalSpecFns;

verus! {

/// The lower-case hex digit for a value below sixteen.
pub open spec fn spec_hex_char(d: u32) -> char
    recommends
        d < 16,
{
    if d < 10 {
        ((0x30 + d) as u8) as char
    } else {
        ((0x57 + d) as u8) as char
    }
}

/// The eight lower-case hex digits of a 32-bit value, highest first,
/// behind a `0x` prefix.
pub open spec fn spec_hex32(x: u32) -> Seq<char> {
    seq![
        '0',
        'x',
        spec_hex_char(x / 0x10000000),
        spec_hex_char(x / 0x1000000 % 16),
        spec_hex_char(x / 0x100000 % 16),
        spec_hex_char(x / 0x10000 % 16),
        spec_hex_char(x / 0x1000 % 16),
        spec_hex_char(x / 0x100 % 16),
        spec_hex_char(x / 0x10 % 16),
        spec_hex_char(x % 16),
    ]
}

/// The ASCII byte of the lower-case hex digit for a value below sixteen.
fn hex_digit(d: u32) -> (r: u8)
    requires
        d < 16,
    ensures
        r as char == spec_hex_char(d),
        r < 0x80,
{
    if d < 10 {
        (0x30 + d) as u8
    } else {
        (0x57 + d) as u8
    }
}

/// Renders a 32-bit identifier as `0x` and eight lower-case hex digits.
fn hex32_string(x: u32) -> (r: String)
    ensures
        r@ == spec_hex32(x),
{
    let mut bytes: Vec<u8> = Vec::new();
    bytes.push(0x30);
    bytes.push(0x78);
    bytes.push(hex_digit(x / 0x10000000));
    bytes.push(hex_digit(x / 0x1000000 % 16));
    bytes.push(hex_digit(x / 0x100000 % 16));
    bytes.push(hex_digit(x / 0x10000 % 16));
    bytes.push(hex_digit(x / 0x1000 % 16));
    bytes.push(hex_digit(x / 0x100 % 16));
    bytes.push(hex_digit(x / 0x10 % 16));
    bytes.push(hex_digit(x % 16));
    proof {
        broadcast use vstd::utf8::is_ascii_chars_encode_utf8;
        broadcast use vstd::utf8::encode_utf8_valid_utf8;
        broadcast use vstd::utf8::encode_utf8_decode_utf8;

        assert(vstd::utf8::is_ascii_chars(spec_hex32(x)));
        assert(bytes@ =~= vstd::utf8::encode_utf8(spec_hex32(x)));
    }
    match crate::fetch::utf8_from_bytes(bytes.as_slice()) {
        Some(s) => {
            proof {
                broadcast use vstd::utf8::encode_utf8_decode_utf8;

                assert(vstd::utf8::decode_utf8(vstd::utf8::encode_utf8(s@)) == s@);
                assert(vstd::utf8::decode_utf8(vstd::utf8::encode_utf8(spec_hex32(x)))
                    == spec_hex32(x));
            }
            s.to_owned()
        },
        None => vstd::pervasive::unreached(),
    }
}

/// Identifies one display device. Backend and device agree on this value
/// out of band; on the wire it travels as a 32-bit integer.
#[derive(Debug, Clone, Copy, PartialEq, Eq, Hash, Structural)]
pub struct DeviceID(pub u32);

/// Identifies one message in the backend repository. The backend assigns
/// ids as its insertion sequence number, so ids are monotonically
/// non-decreasing in delivery order.
#[derive(Debug, Clone, Copy, PartialEq, Eq, Hash, Structural)]
pub struct MessageID(pub u32);

/// The value of one ASCII hex digit, upper or lower case.
pub open spec fn spec_hex_digit_val(b: u8) -> Option<u32> {
    if 0x30 <= b <= 0x39 {
        Some((b - 0x30) as u32)
    } else if 0x61 <= b <= 0x66 {
        Some((b - 0x57) as u32)
    } else if 0x41 <= b <= 0x46 {
        Some((b - 0x37) as u32)
    } else {
        None
    }
}

/// Every byte is an ASCII hex digit.
pub open spec fn spec_all_hex_digits(b: Seq<u8>) -> bool {
    forall|i: int| 0 <= i < b.len() ==> (#[trigger] spec_hex_digit_val(b[i])) matches Some(_)
}

/// The number the hex digits denote, most significant first.
pub open spec fn spec_hex_value(b: Seq<u8>) -> int
    decreases b.len(),
{
    if b.len() == 0 {
        0
    } else {
        spec_hex_value(b.drop_last()) * 16 + (match spec_hex_digit_val(b.last()) {
            Some(d) => d as int,
            None => 0,
        })
    }
}

/// The digit part of a hex identifier string: what follows the optional
/// `0x` prefix.
pub open spec fn spec_hex_digits_of(raw: Seq<u8>) -> Seq<u8> {
    if raw.len() >= 2 && raw[0] == 0x30 && raw[1] == 0x78 {
        raw.skip(2)
    } else {
        raw
    }
}

/// The denoted number only grows as digits are appended.
proof fn lemma_hex_value_extends(b: Seq<u8>, k: int)
    requires
        0 <= k <= b.len(),
    ensures
        spec_hex_value(b) >= spec_hex_value(b.take(k)),
        spec_hex_value(b) >= 0,
    decreases b.len() - k,
{
    if k == b.len() {
        assert(b.take(k) =~= b);
        lemma_hex_value_nonneg(b);
    } else {
        lemma_hex_value_extends(b, k + 1);
        assert(b.take(k + 1).drop_last() =~= b.take(k));
        lemma_hex_value_nonneg(b.take(k));
    }
}

/// A denoted number is never negative.
proof fn lemma_hex_value_nonneg(b: Seq<u8>)
    ensures
        spec_hex_value(b) >= 0,
    decreases b.len(),
{
    if b.len() > 0 {
        lemma_hex_value_nonneg(b.drop_last());
    }
}

/// Parses `0x` and hex digits — or bare hex digits — into a 32-bit
/// value. Refused — exactly — when no digit follows the prefix, a
/// non-digit appears, or the number overflows 32 bits.
fn parse_hex32(s: &str) -> (r: Option<u32>)
    ensures
        match r {
            Some(x) => {
                &&& spec_hex_digits_of(s.spec_bytes()).len() > 0
                &&& spec_all_hex_digits(spec_hex_digits_of(s.spec_bytes()))
                &&& x == spec_hex_value(spec_hex_digits_of(s.spec_bytes()))
            },
            None => {
                ||| spec_hex_digits_of(s.spec_bytes()).len() == 0
                ||| !spec_all_hex_digits(spec_hex_digits_of(s.spec_bytes()))
                ||| spec_hex_value(spec_hex_digits_of(s.spec_bytes())) > u32::MAX
            },
        },
{
    let raw = s.as_bytes();
    let start: usize = if raw.len() >= 2 && raw[0] == 0x30 && raw[1] == 0x78 {
        2
    } else {
        0
    };
    let ghost digits = spec_hex_digits_of(s.spec_bytes());
    proof {
        assert(digits =~= raw@.skip(start as int));
    }
    let n = raw.len();
    if start == n {
        return None;
    }
    let mut acc: u32 = 0;
    let mut k: usize = start;
    while k < n
        invariant
            start <= k <= n,
            n == raw@.len(),
            raw@ == s.spec_bytes(),
            digits == spec_hex_digits_of(s.spec_bytes()),
            digits == raw@.skip(start as int),
            acc == spec_hex_value(digits.take(k - start)),
            spec_all_hex_digits(digits.take(k - start)),
        decreases n - k,
    {
        let b = raw[k];
        let d: u32 = if 0x30 <= b && b <= 0x39 {
            (b - 0x30) as u32
        } else if 0x61 <= b && b <= 0x66 {
            (b - 0x57) as u32
        } else if 0x41 <= b && b <= 0x46 {
            (b - 0x37) as u32
        } else {
            proof {
                assert(digits[k - start] == b);
                assert(spec_hex_digit_val(digits[k - start]) matches None);
                assert(!spec_all_hex_digits(digits));
            }
            return None;
        };
        if acc > (u32::MAX - d) / 16 {
            // The digits seen so far already overflow once extended.
            proof {
                assert(digits[k - start] == b);
                assert(digits.take(k - start + 1).drop_last() =~= digits.take(k - start));
                assert(digits.take(k - start + 1).last() == b);
                vstd::arithmetic::div_mod::lemma_fundamental_div_mod((u32::MAX - d) as int, 16);
                assert(spec_hex_value(digits.take(k - start + 1)) > u32::MAX);
                lemma_hex_value_extends(digits, k - start + 1);
            }
            return None;
        }
        acc = acc * 16 + d;
        proof {
            assert(digits.take(k - start + 1).drop_last() =~= digits.take(k - start));
        }
        k += 1;
    }
    proof {
        assert(digits.take(n - start) =~= digits);
    }
    Some(acc)
}

/// Reading the rendered digits back gives the value: for each nibble the
/// rendered digit denotes exactly that nibble.
proof fn lemma_hex_digit_round_trip(d: u32)
    requires
        d < 16,
    ensures
        spec_hex_digit_val(spec_hex_char(d) as u8) == Some(d),
{
}

/// Round trip: parsing a rendered identifier gives the identifier back.
#[verifier::rlimit(80)]
pub proof fn lemma_hex_round_trip(x: u32)
    ensures
        spec_hex_digits_of(vstd::utf8::encode_utf8(spec_hex32(x))).len() > 0,
        spec_all_hex_digits(spec_hex_digits_of(vstd::utf8::encode_utf8(spec_hex32(x)))),
        spec_hex_value(spec_hex_digits_of(vstd::utf8::encode_utf8(spec_hex32(x)))) == x,
{
    broadcast use vstd::utf8::is_ascii_chars_encode_utf8;

    let chars = spec_hex32(x);
    assert(vstd::utf8::is_ascii_chars(chars));
    let bytes = vstd::utf8::encode_utf8(chars);
    let digits = spec_hex_digits_of(bytes);
    assert(digits =~= bytes.skip(2));
    assert(digits.len() == 8);
    assert(x / 0x10000000 < 16);
    lemma_hex_digit_round_trip(x / 0x10000000);
    lemma_hex_digit_round_trip(x / 0x1000000 % 16);
    lemma_hex_digit_round_trip(x / 0x100000 % 16);
    lemma_hex_digit_round_trip(x / 0x10000 % 16);
    lemma_hex_digit_round_trip(x / 0x1000 % 16);
    lemma_hex_digit_round_trip(x / 0x100 % 16);
    lemma_hex_digit_round_trip(x / 0x10 % 16);
    lemma_hex_digit_round_trip(x % 16);
    // Walk the digit sequence front to back: after k digits the value
    // read so far is x shifted down by the remaining nibbles.
    assert(digits.take(1).drop_last() =~= digits.take(0));
    assert(digits.take(2).drop_last() =~= digits.take(1));
    assert(digits.take(3).drop_last() =~= digits.take(2));
    assert(digits.take(4).drop_last() =~= digits.take(3));
    assert(digits.take(5).drop_last() =~= digits.take(4));
    assert(digits.take(6).drop_last() =~= digits.take(5));
    assert(digits.take(7).drop_last() =~= digits.take(6));
    assert(digits.take(8).drop_last() =~= digits.take(7));
    assert(digits.take(8) =~= digits);
    assert(chars[2] == spec_hex_char(x / 0x10000000));
    assert(chars[3] == spec_hex_char(x / 0x1000000 % 16));
    assert(chars[4] == spec_hex_char(x / 0x100000 % 16));
    assert(chars[5] == spec_hex_char(x / 0x10000 % 16));
    assert(chars[6] == spec_hex_char(x / 0x1000 % 16));
    assert(chars[7] == spec_hex_char(x / 0x100 % 16));
    assert(chars[8] == spec_hex_char(x / 0x10 % 16));
    assert(chars[9] == spec_hex_char(x % 16));
    assert(digits.take(1).last() == digits[0]);
    assert(digits.take(2).last() == digits[1]);
    assert(digits.take(3).last() == digits[2]);
    assert(digits.take(4).last() == digits[3]);
    assert(digits.take(5).last() == digits[4]);
    assert(digits.take(6).last() == digits[5]);
    assert(digits.take(7).last() == digits[6]);
    assert(digits.take(8).last() == digits[7]);
    assert(bytes[2] == chars[2] as u8 && digits[0] == bytes[2]);
    assert(bytes[3] == chars[3] as u8 && digits[1] == bytes[3]);
    assert(bytes[4] == chars[4] as u8 && digits[2] == bytes[4]);
    assert(bytes[5] == chars[5] as u8 && digits[3] == bytes[5]);
    assert(bytes[6] == chars[6] as u8 && digits[4] == bytes[6]);
    assert(bytes[7] == chars[7] as u8 && digits[5] == bytes[7]);
    assert(bytes[8] == chars[8] as u8 && digits[6] == bytes[8]);
    assert(bytes[9] == chars[9] as u8 && digits[7] == bytes[9]);
    assert(digits.take(0).len() == 0);
    assert(spec_hex_value(digits.take(0)) == 0);
    assert(spec_hex_value(digits.take(1)) == x / 0x10000000);
    assert(x / 0x10000000 * 16 + x / 0x1000000 % 16 == x / 0x1000000) by (bit_vector);
    assert(spec_hex_value(digits.take(2)) == x / 0x1000000);
    assert(x / 0x1000000 * 16 + x / 0x100000 % 16 == x / 0x100000) by (bit_vector);
    assert(spec_hex_value(digits.take(3)) == x / 0x100000);
    assert(x / 0x100000 * 16 + x / 0x10000 % 16 == x / 0x10000) by (bit_vector);
    assert(spec_hex_value(digits.take(4)) == x / 0x10000);
    assert(x / 0x10000 * 16 + x / 0x1000 % 16 == x / 0x1000) by (bit_vector);
    assert(spec_hex_value(digits.take(5)) == x / 0x1000);
    assert(x / 0x1000 * 16 + x / 0x100 % 16 == x / 0x100) by (bit_vector);
    assert(spec_hex_value(digits.take(6)) == x / 0x100);
    assert(x / 0x100 * 16 + x / 0x10 % 16 == x / 0x10) by (bit_vector);
    assert(spec_hex_value(digits.take(7)) == x / 0x10);
    assert(x / 0x10 * 16 + x % 16 == x) by (bit_vector);
    assert(spec_hex_value(digits.take(8)) == x);
}

impl DeviceID {
    /// Parses the displayed form back: `0x` and hex digits, or bare hex
    /// digits, upper or lower case.
    pub fn from_hex_str(s: &str) -> (r: Option<DeviceID>)
        ensures
            match r {
                Some(id) => {
                    &&& spec_hex_digits_of(s.spec_bytes()).len() > 0
                    &&& spec_all_hex_digits(spec_hex_digits_of(s.spec_bytes()))
                    &&& id.0 == spec_hex_value(spec_hex_digits_of(s.spec_bytes()))
                },
                None => {
                    ||| spec_hex_digits_of(s.spec_bytes()).len() == 0
                    ||| !spec_all_hex_digits(spec_hex_digits_of(s.spec_bytes()))
                    ||| spec_hex_value(spec_hex_digits_of(s.spec_bytes())) > u32::MAX
                },
            },
    {
        match parse_hex32(s) {
            Some(x) => Some(DeviceID(x)),
            None => None,
        }
    }
}

impl DeviceID {
    /// The id as `0x` and eight lower-case hex digits, the form it is
    /// displayed and configured in.
    pub fn hex_string(&self) -> (r: String)
        ensures
            r@ == spec_hex32(self.0),
    {
        hex32_string(self.0)
    }
}

impl MessageID {
    /// The id as `0x` and eight lower-case hex digits.
    pub fn hex_string(&self) -> (r: String)
        ensures
            r@ == spec_hex32(self.0),
    {
        hex32_string(self.0)
    }
}

/// Byte length of a text payload as carried on the wire; the text buffer
/// capacity fits in this type.
pub type TextLength = u8;

} // verus!
