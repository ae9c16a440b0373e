//! Reading configuration values out of the device's flash fields.
//!
//! Each field is a fixed-size byte array holding a null-terminated
//! string; a field with no null terminator or with bytes that are not
//! valid UTF-8 before it is unreadable. Where the bytes live (the flash
//! sections and their addresses) is the runtime's business; this module
//! only gives the bytes their meaning.
use vstd::prelude::*;
use vstd::string::StringSliceAdditionalSpecFns;

use crate::fetch::utf8_from_bytes;

verus! {

/// Position `k` holds the field's null terminator: the first zero byte.
pub open spec fn is_first_null(b: Seq<u8>, k: int) -> bool {
    &&& 0 <= k < b.len()
    &&& b[k] == 0
    &&& forall|j: int| 0 <= j < k ==> b[j] != 0
}

/// Reads a null-terminated UTF-8 string out of a flash field: the bytes
/// strictly before the first zero byte, decoded. Unreadable — exactly —
/// when no byte is zero, or the prefix is not valid UTF-8.
pub fn parse_config_str(bytes: &[u8]) -> (r: Option<String>)
    ensures
        match r {
            Some(s) => exists|k: int| {
                &&& #[trigger] is_first_null(bytes@, k)
                &&& vstd::utf8::valid_utf8(bytes@.subrange(0, k))
                &&& vstd::utf8::encode_utf8(s@) == bytes@.subrange(0, k)
            },
            None => {
                ||| forall|j: int| 0 <= j < bytes@.len() ==> bytes@[j] != 0
                ||| exists|k: int| #[trigger] is_first_null(bytes@, k)
                    && !vstd::utf8::valid_utf8(bytes@.subrange(0, k))
            },
        },
{
    let n = bytes.len();
    let mut k: usize = 0;
    while k < n
        invariant
            k <= n,
            n == bytes@.len(),
            forall|j: int| 0 <= j < k ==> bytes@[j] != 0,
        decreases n - k,
    {
        if bytes[k] == 0 {
            assert(is_first_null(bytes@, k as int));
            let prefix = &bytes[0..k];
            assert(prefix@ =~= bytes@.subrange(0, k as int));
            return match utf8_from_bytes(prefix) {
                Some(s) => Some(s.to_owned()),
                None => None,
            };
        }
        k += 1;
    }
    None
}

} // verus!
