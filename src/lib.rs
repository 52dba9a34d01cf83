//! Admission check for untrusted messages: a byte buffer that should hold a
//! UTF-8 JSON document with `headers` and `payload` is accepted only when its
//! headers declare a nonce, a timestamp and the `hmac-sha256` signature
//! algorithm.

mod frame;
mod json;
mod policy;
mod text;
mod validator;

pub use frame::{
    frame_object, member_at, members_from, members_view, object_members, scanned_len, skip_ws,
    string_token, is_ws, Member,
};
pub use json::{entry_from, find_entry, json_parse, lookup, Json};
pub use policy::{check_headers, headers_accepted};

pub use validator::{
    bytes_decision, count_from, decide_headers, headers_decision, lemma_bad_json_rejected,
    lemma_bad_utf8_rejected, lemma_complete_headers_accepted, lemma_missing_headers_rejected,
    lemma_same_bytes_same_decision, reason_code, span_from, validate, Decision, Reason,
};
