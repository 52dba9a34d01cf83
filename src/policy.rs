use vstd::prelude::*;
use crate::json::{lookup, Json};

verus! {

/// The header policy: `_nonce` and `_timestamp` are present with any value,
/// and `_signature_alg` is the string `hmac-sha256`. It is applied to
/// headers that are an object; a value of another kind holds no key.
pub open spec fn headers_accepted(h: Json) -> bool {
    &&& lookup(h, "_nonce"@) is Some
    &&& lookup(h, "_timestamp"@) is Some
    &&& lookup(h, "_signature_alg"@) matches Some(Json::Text(a)) && a@ == "hmac-sha256"@
}

/// Whether the headers of a message meet the header policy.
pub fn check_headers(h: &Json) -> (r: bool)
    ensures
        r == headers_accepted(*h),
{
    let nonce = h.get("_nonce");
    let timestamp = h.get("_timestamp");
    let alg = h.get("_signature_alg");
    let alg_ok = match alg {
        Some(a) => a.is_text("hmac-sha256"),
        None => false,
    };
    nonce.is_some() && timestamp.is_some() && alg_ok
}

} // verus!
