//! Turning cached bytes into text.

use vstd::prelude::*;
use vstd::utf8::{decode_utf8, valid_utf8};

verus! {

/// The text that lossy UTF-8 decoding makes of `bytes`: the decoded
/// characters, with U+FFFD in place of each ill-formed part.
pub uninterp spec fn utf8_lossy(bytes: Seq<u8>) -> Seq<char>;

/// Decodes bytes as UTF-8, replacing what is ill-formed.
///
/// Calls `String::from_utf8_lossy`. Believed of it: the result depends on
/// the bytes alone, and well-formed UTF-8 decodes to exactly the characters
/// that it encodes.
#[verifier::external_body]
pub(crate) fn from_utf8_lossy(bytes: &Vec<u8>) -> (s: String)
    ensures
        s@ == utf8_lossy(bytes@),
        valid_utf8(bytes@) ==> s@ == decode_utf8(bytes@),
{
    String::from_utf8_lossy(bytes).into_owned()
}

/// The text of a piece of content, with its version.
pub fn versioned_text(version: u32, data: &Vec<u8>) -> (r: (u32, String))
    ensures
        r.0 == version,
        r.1@ == utf8_lossy(data@),
        valid_utf8(data@) ==> r.1@ == decode_utf8(data@),
        data@.len() == 0 ==> r.1@.len() == 0,
{
    let text = from_utf8_lossy(data);
    proof {
        if data@.len() == 0 {
            assert(valid_utf8(data@));
            assert(decode_utf8(data@) =~= Seq::<char>::empty());
        }
    }
    (version, text)
}

} // verus!
