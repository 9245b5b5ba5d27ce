//! Local files: naming of cache payload files.

use vstd::prelude::*;
use vstd::string::StringSliceAdditionalSpecFns;

use crate::text::hex_pair;

verus! {

/// The bytes `bs` as lowercase hexadecimal, two digits per byte.
pub open spec fn hex_string(bs: Seq<u8>) -> Seq<char>
    decreases bs.len(),
{
    if bs.len() == 0 {
        Seq::empty()
    } else {
        hex_string(bs.drop_last()) + hex_pair(bs.last())
    }
}

/// Encodes bytes as lowercase hexadecimal (`hex::encode`).
///
/// Trusted: the result is two lowercase hexadecimal digits per input byte,
/// in order, as the crate documents.
#[verifier::external_body]
fn hex_encode(bytes: &[u8]) -> (s: String)
    ensures
        s@ == hex_string(bytes@),
{
    hex::encode(bytes)
}

/// The file name under which the payload for cache `key` is stored: the
/// lowercase hexadecimal encoding of the key's UTF-8 bytes, so that any key
/// is a valid, collision-free file name.
pub fn cache_file_name(key: &str) -> (name: String)
    ensures
        name@ == hex_string(key.spec_bytes()),
{
    hex_encode(key.as_bytes())
}

} // verus!
