use vstd::prelude::*;
use vstd::utf8::valid_utf8;

verus! {

/// Relies on std::str::from_utf8: `Ok` exactly when the bytes are valid
/// UTF-8.
#[verifier::external_body]
pub(crate) fn is_utf8(b: &[u8]) -> (r: bool)
    ensures
        r == valid_utf8(b@),
{
    std::str::from_utf8(b).is_ok()
}

} // verus!
