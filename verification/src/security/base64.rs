//! Base64 text of token identifiers.
use vstd::prelude::*;
use crate::ipc::base64::b64_encode;

verus! {

/// The text of a 32-byte token identifier, in the same base64 form that
/// signatures are written in.
pub fn encode(bytes: [u8; 32]) -> (r: String)
    ensures
        r@ == b64_encode(bytes@),
{
    crate::ipc::base64::encode(bytes.as_slice())
}

} // verus!
