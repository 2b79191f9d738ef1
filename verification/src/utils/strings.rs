use crate::utils::encoding::{base64_encode_standard, base64_of, dec_of, u64_to_decimal};
use vstd::prelude::*;
use vstd::string::StringExecFns;
use vstd::utf8::{decode_utf8, valid_utf8};

verus! {

/// The bytes of `b` with every trailing zero byte removed.
pub open spec fn trim_trailing_nul(b: Seq<u8>) -> Seq<u8>
    decreases b.len(),
{
    if b.len() == 0 {
        b
    } else if b.last() == 0 {
        trim_trailing_nul(b.drop_last())
    } else {
        b
    }
}

/// The string that `extract_utf8_string` yields: the UTF-8 decoding of the
/// bytes with their trailing NUL padding removed, or, when they are not
/// valid UTF-8, a failure message carrying the standard base64 encoding of
/// the full data (or only its size, when the data exceeds the 2-MiB cap on
/// encoding).
pub open spec fn extracted_string(b: Seq<u8>) -> Seq<char> {
    if valid_utf8(trim_trailing_nul(b)) {
        decode_utf8(trim_trailing_nul(b))
    } else if b.len() < 2097152 {
        "[strings] Failed to get UTF8 string: "@ + base64_of(b)
    } else {
        "[strings] Failed to get UTF8 string: "@
            + "[strings] Binary data size larger than 2MB, size: "@ + dec_of(b.len() as int)
    }
}

/// Relies on String::from_utf8: succeeds exactly on valid UTF-8 input and
/// returns the string of those bytes, whose characters are their UTF-8
/// decoding.
#[verifier::external_body]
fn string_from_utf8(bytes: Vec<u8>) -> (r: Option<String>)
    ensures
        r is Some <==> valid_utf8(bytes@),
        r matches Some(s) ==> s@ == decode_utf8(bytes@),
{
    match String::from_utf8(bytes) {
        Ok(s) => Some(s),
        Err(_) => None,
    }
}

/// Decode bytes as a UTF-8 string, dropping trailing NUL padding first.
/// `None` exactly when the remaining bytes are not valid UTF-8.
pub fn bytes_to_utf8_string(data: &[u8]) -> (r: Option<String>)
    ensures
        r is Some <==> valid_utf8(trim_trailing_nul(data@)),
        r matches Some(s) ==> s@ == decode_utf8(trim_trailing_nul(data@)),
{
    let mut bytes = vstd::slice::slice_to_vec(data);
    while bytes.len() > 0 && bytes[bytes.len() - 1] == 0
        invariant
            trim_trailing_nul(bytes@) == trim_trailing_nul(data@),
        decreases bytes@.len(),
    {
        proof {
            assert(bytes@.last() == 0);
        }
        bytes.pop();
    }
    proof {
        assert(trim_trailing_nul(bytes@) == bytes@);
    }
    string_from_utf8(bytes)
}

/// Get a UTF-8 string from the given bytes, with trailing NUL padding
/// removed. Invalid UTF-8 yields a failure message holding the base64
/// encoding of the data, or only its size when the data is larger than
/// 2 MiB.
pub fn extract_utf8_string(data: &[u8]) -> (r: String)
    ensures
        r@ == extracted_string(data@),
{
    match bytes_to_utf8_string(data) {
        Some(s) => s,
        None => {
            let mut out = String::new();
            out.append("[strings] Failed to get UTF8 string: ");
            if data.len() < 2097152 {
                let encoded = base64_encode_standard(data);
                out.append(encoded.as_str());
            } else {
                out.append("[strings] Binary data size larger than 2MB, size: ");
                let size = u64_to_decimal(data.len() as u64);
                out.append(size.as_str());
            }
            out
        },
    }
}

} // verus!
