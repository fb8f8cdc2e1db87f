//! Length-prefixed UTF-8 strings, the building block of the wire messages.
use vstd::prelude::*;
use vstd::utf8::{decode_utf8, valid_utf8};
use crate::encoding;

pub use crate::base_types::Serializable;
pub use crate::errors::FromBytesError;

verus! {

/// `string_to_bytes` runs to completion on `s`: the truncated length of its
/// UTF-8 bytes is not `u16::MAX`.
pub open spec fn str_encoding_ok(s: Seq<char>) -> bool {
    (encoding::utf8(s).len() % 65536) != 65535
}

/// The length prefix (UTF-8 byte count, truncated to 16 bits, little endian)
/// followed by the UTF-8 bytes of `s`.
pub open spec fn spec_string_to_bytes(s: Seq<char>) -> Seq<u8> {
    encoding::le_u16((encoding::utf8(s).len() % 65536) as u16) + encoding::utf8(s)
}

/// The length that the prefix at `start` announces.
pub open spec fn string_len_at(b: Seq<u8>, start: int) -> int {
    encoding::u16_at(b, start) as int
}

/// `string_from_bytes(b, start)` runs to completion: the prefix and the
/// announced bytes are inside `b` and those bytes are valid UTF-8.
pub open spec fn string_at_ok(b: Seq<u8>, start: int) -> bool {
    &&& 0 <= start
    &&& start + 2 <= b.len()
    &&& start + 2 + string_len_at(b, start) <= b.len()
    &&& valid_utf8(b.subrange(start + 2, start + 2 + string_len_at(b, start)))
}

/// The string encoded at `start`.
pub open spec fn string_at(b: Seq<u8>, start: int) -> Seq<char> {
    decode_utf8(b.subrange(start + 2, start + 2 + string_len_at(b, start)))
}

/// The position just after the string encoded at `start`.
pub open spec fn string_end(b: Seq<u8>, start: int) -> int {
    start + 2 + string_len_at(b, start)
}

/// Whether a length-prefixed UTF-8 string can be read at `start`.
pub fn string_fits_at(bytes: &[u8], start: usize) -> (r: bool)
    ensures
        r == string_at_ok(bytes@, start as int),
{
    if start > bytes.len() || bytes.len() - start < 2 {
        return false;
    }
    let n = encoding::read_u16_le(bytes, start) as usize;
    if bytes.len() - start - 2 < n {
        return false;
    }
    encoding::utf8_ok_range(bytes, start + 2, start + 2 + n)
}

/// Reads the length-prefixed string at `start`; returns it with the position
/// just after it.
pub fn string_from_bytes(bytes: &[u8], start: usize) -> (r: (String, usize))
    requires
        string_at_ok(bytes@, start as int),
    ensures
        r.0@ == string_at(bytes@, start as int),
        r.1 == string_end(bytes@, start as int),
{
    let _total = bytes.len();
    let s_len = encoding::read_u16_le(bytes, start) as usize;
    let len = start + 2;
    let raw = encoding::copy_range(bytes, len, len + s_len);
    let s = match encoding::string_from_utf8(raw) {
        Some(s) => s,
        None => {
            proof {
                assert(false);
            }
            String::new()
        },
    };
    proof {
        vstd::utf8::decode_utf8_encode_utf8(bytes@.subrange(len as int, len + s_len));
    }
    let n = s.as_str().len();
    (s, len + n)
}

/// The length prefix followed by the UTF-8 bytes of `s`.
pub fn string_to_bytes(s: &str) -> (r: Vec<u8>)
    requires
        str_encoding_ok(s@),
    ensures
        r@ == spec_string_to_bytes(s@),
{
    let bytes = encoding::str_bytes(s);
    let n = bytes.len();
    let mut ret: Vec<u8> = Vec::new();
    encoding::push_u16_le(&mut ret, (n % 65536) as u16);
    encoding::append_bytes(&mut ret, bytes.as_slice());
    ret
}

/// A string written by `string_to_bytes`, with anything before and after it,
/// reads back as itself and ends right after its bytes.
pub proof fn lemma_string_roundtrip(pre: Seq<u8>, s: Seq<char>, post: Seq<u8>)
    requires
        encoding::utf8(s).len() < 65535,
    ensures
        string_at_ok(pre + spec_string_to_bytes(s) + post, pre.len() as int),
        string_at(pre + spec_string_to_bytes(s) + post, pre.len() as int) == s,
        string_end(pre + spec_string_to_bytes(s) + post, pre.len() as int) == pre.len() + 2
            + encoding::utf8(s).len(),
{
    let n = encoding::utf8(s).len();
    let e = spec_string_to_bytes(s);
    let b = pre + e + post;
    let p = pre.len() as int;
    encoding::lemma_u16_roundtrip((n % 65536) as u16);
    assert(n % 65536 == n);
    assert(b[p] == e[0]);
    assert(b[p + 1] == e[1]);
    assert(string_len_at(b, p) == n);
    assert(b.subrange(p + 2, p + 2 + n) == encoding::utf8(s));
    encoding::lemma_utf8_roundtrip(s);
}

} // verus!
