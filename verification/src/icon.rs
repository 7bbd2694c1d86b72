//! The text form of the window icon.
//!
//! The icon is kept as base64 text. Decoding it is the work of the `base64`
//! crate; this module names what comes out.

use base64::Engine;
use vstd::prelude::*;

verus! {

/// The bytes that a base64 text stands for, in the standard alphabet with
/// padding, where the text is base64.
pub uninterp spec fn base64_decoding(input: Seq<char>) -> Option<Seq<u8>>;

/// `Engine::decode` of the engine `STANDARD`: the bytes that `input` stands
/// for, or `None` where `input` is not base64.
#[verifier::external_body]
fn decode_standard(input: &str) -> (r: Option<Vec<u8>>)
    ensures
        r is Some <==> base64_decoding(input@) is Some,
        r matches Some(bytes) ==> base64_decoding(input@) == Some(bytes@),
{
    base64::engine::general_purpose::STANDARD.decode(input).ok()
}

/// The bytes that a base64 text stands for, where it is base64.
pub fn base64_decode(input: &str) -> (r: Option<Vec<u8>>)
    ensures
        r is Some <==> base64_decoding(input@) is Some,
        r matches Some(bytes) ==> base64_decoding(input@) == Some(bytes@),
{
    decode_standard(input)
}

} // verus!
