//! Conversions between byte buffers and text.
//!
//! All payloads cross the boundary as structure-free byte buffers; the typed
//! capability clients layer UTF-8 text on top. Decoding is the one place the
//! library leans on the standard library's UTF-8 machinery, behind a single
//! trusted wrapper specified with vstd's UTF-8 model.

use vstd::prelude::*;
use vstd::string::StrSliceExecFns;
use vstd::utf8::{decode_utf8, encode_utf8, valid_utf8};

verus! {

/// Relies on core::str::from_utf8 (with str::to_owned): it returns Ok exactly
/// when the bytes are valid UTF-8, and the resulting string's characters are
/// their decoding.
#[verifier::external_body]
pub(crate) fn utf8_to_string(input: &Vec<u8>) -> (r: Option<String>)
    ensures
        r matches Some(s) ==> valid_utf8(input@) && s@ == decode_utf8(input@),
        r is None <==> !valid_utf8(input@),
{
    core::str::from_utf8(input.as_slice()).ok().map(|s| s.to_owned())
}

/// The text carried by a byte buffer. A buffer that is not UTF-8 has no text
/// reading, and the capability clients treat meeting one as unrecoverable, so
/// such input is excluded here rather than answered with a panic.
pub fn to_string(input: Vec<u8>) -> (r: String)
    requires
        valid_utf8(input@),
    ensures
        r@ == decode_utf8(input@),
{
    match utf8_to_string(&input) {
        Some(s) => s,
        None => {
            proof {
                assert(false);
            }
            String::new()
        },
    }
}

/// The bytes of a string, by UTF-8 encoding.
pub fn to_vec(input: String) -> (r: Vec<u8>)
    ensures
        r@ == encode_utf8(input@),
{
    input.as_str().as_bytes_vec()
}

/// The bytes of a string slice, by UTF-8 encoding.
pub fn str_to_vec(input: &str) -> (r: Vec<u8>)
    ensures
        r@ == encode_utf8(input@),
{
    input.as_bytes_vec()
}

/// Append a copy of `src` to `out`.
pub fn push_bytes(out: &mut Vec<u8>, src: &Vec<u8>)
    ensures
        final(out)@ == old(out)@ + src@,
{
    let mut i: usize = 0;
    while i < src.len()
        invariant
            i <= src@.len(),
            out@ == old(out)@ + src@.subrange(0, i as int),
        decreases src@.len() - i,
    {
        out.push(src[i]);
        proof {
            assert(out@ =~= old(out)@ + src@.subrange(0, i + 1 as int));
        }
        i = i + 1;
    }
    proof {
        assert(out@ =~= old(out)@ + src@);
    }
}

} // verus!
