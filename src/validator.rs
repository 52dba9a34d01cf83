use vstd::prelude::*;
use vstd::utf8::valid_utf8;
use crate::frame::{frame_object, members_view, object_members, Member};
use crate::json::{json_parse, lookup, parse_json, Json};
use crate::policy::{check_headers, headers_accepted};
use crate::text::is_utf8;

verus! {

/// Why a message was turned away, one reason per stage of the check.
#[derive(Debug, Clone, Copy, PartialEq, Eq, Structural)]
pub enum Reason {
    /// The bytes are not valid UTF-8.
    BadUtf8,
    /// The text is not well-formed JSON, or lacks `headers` or `payload`.
    BadJson,
    /// The headers do not meet the header policy.
    MissingHeaders,
}

/// The outcome of the admission check.
#[derive(Debug, Clone, Copy, PartialEq, Eq, Structural)]
pub enum Decision {
    Accepted,
    Rejected(Reason),
}

/// The short code of a reason, as reported to callers.
pub open spec fn reason_code(r: Reason) -> Seq<char> {
    match r {
        Reason::BadUtf8 => "bad-utf8"@,
        Reason::BadJson => "bad-json"@,
        Reason::MissingHeaders => "missing-headers"@,
    }
}

impl Reason {
    /// The short code of this reason.
    pub fn code(&self) -> (r: &'static str)
        ensures
            r@ == reason_code(*self),
    {
        match self {
            Reason::BadUtf8 => "bad-utf8",
            Reason::BadJson => "bad-json",
            Reason::MissingHeaders => "missing-headers",
        }
    }
}

impl Decision {
    /// The numeric status of the decision: 0 to accept, 1 to reject.
    pub fn status(&self) -> (r: i32)
        ensures
            r == (if *self is Accepted { 0i32 } else { 1i32 }),
    {
        match self {
            Decision::Accepted => 0,
            Decision::Rejected(_) => 1,
        }
    }
}

/// How many members from index `i` on have the key `k`.
pub open spec fn count_from(ms: Seq<(Seq<char>, int, int)>, k: Seq<char>, i: int) -> nat
    decreases ms.len() - i,
{
    if i < 0 || i >= ms.len() {
        0
    } else {
        (if ms[i].0 == k { 1nat } else { 0nat }) + count_from(ms, k, i + 1)
    }
}

/// Where the value of the first member from index `i` on with key `k`
/// stands.
pub open spec fn span_from(ms: Seq<(Seq<char>, int, int)>, k: Seq<char>, i: int) -> Option<(int, int)>
    decreases ms.len() - i,
{
    if i < 0 || i >= ms.len() {
        None
    } else if ms[i].0 == k {
        Some((ms[i].1, ms[i].2))
    } else {
        span_from(ms, k, i + 1)
    }
}

/// The decision on the headers value as parsed (`None`: the parser refused
/// it). Headers must be an object.
pub open spec fn headers_decision(h: Option<Json>) -> Decision {
    match h {
        Some(h) => if !(h is Object) {
            Decision::Rejected(Reason::BadJson)
        } else if headers_accepted(h) {
            Decision::Accepted
        } else {
            Decision::Rejected(Reason::MissingHeaders)
        },
        None => Decision::Rejected(Reason::BadJson),
    }
}

/// The decision on a byte buffer. It must be UTF-8 and hold one JSON object
/// with exactly one `headers` and one `payload` member; other members are
/// tolerated. Only the headers value is parsed; the payload and the other
/// members are only scanned.
pub open spec fn bytes_decision(b: Seq<u8>) -> Decision {
    if !valid_utf8(b) {
        Decision::Rejected(Reason::BadUtf8)
    } else {
        match object_members(b) {
            None => Decision::Rejected(Reason::BadJson),
            Some(ms) => if count_from(ms, "headers"@, 0) != 1 || count_from(ms, "payload"@, 0) != 1 {
                Decision::Rejected(Reason::BadJson)
            } else {
                let (s, e) = span_from(ms, "headers"@, 0)->Some_0;
                headers_decision(json_parse(b.subrange(s, e)))
            },
        }
    }
}

/// Counts the members with key `key`, and gives the index of the first.
fn locate(ms: &Vec<Member>, key: &str) -> (r: (usize, Option<usize>))
    ensures
        r.0 == count_from(members_view(ms@), key@, 0),
        r.0 > 0 ==> r.1 is Some,
        match r.1 {
            Some(i) => i < ms@.len() && span_from(members_view(ms@), key@, 0) == Some(
                (ms@[i as int].start as int, ms@[i as int].end as int),
            ),
            None => span_from(members_view(ms@), key@, 0) is None,
        },
{
    broadcast use vstd::string::to_string_from_display_ensures_for_str;
    let ghost v = members_view(ms@);
    let k = key.to_string();
    let mut count: usize = 0;
    let mut first: Option<usize> = None;
    let mut i: usize = 0;
    while i < ms.len()
        invariant
            i <= ms@.len(),
            k@ == key@,
            v == members_view(ms@),
            count <= i,
            first is None ==> count == 0,
            count + count_from(v, key@, i as int) == count_from(v, key@, 0),
            match first {
                Some(j) => j < i && span_from(v, key@, 0) == Some(
                    (ms@[j as int].start as int, ms@[j as int].end as int),
                ),
                None => span_from(v, key@, 0) == span_from(v, key@, i as int),
            },
        decreases ms@.len() - i,
    {
        if ms[i].key == k {
            count = count + 1;
            if first.is_none() {
                first = Some(i);
            }
        }
        i = i + 1;
    }
    (count, first)
}

/// Decides on the headers value as parsed: `None` where the parser refused
/// it.
pub fn decide_headers(h: &Option<Json>) -> (r: Decision)
    ensures
        r == headers_decision(*h),
{
    match h {
        Some(h) => if !h.is_object() {
            Decision::Rejected(Reason::BadJson)
        } else if check_headers(h) {
            Decision::Accepted
        } else {
            Decision::Rejected(Reason::MissingHeaders)
        },
        None => Decision::Rejected(Reason::BadJson),
    }
}

/// Checks a message given as raw bytes. The buffer is only read, and only
/// for the duration of the call.
pub fn validate(input: &[u8]) -> (r: Decision)
    ensures
        r == bytes_decision(input@),
{
    if !is_utf8(input) {
        return Decision::Rejected(Reason::BadUtf8);
    }
    let ms = match frame_object(input) {
        Some(ms) => ms,
        None => return Decision::Rejected(Reason::BadJson),
    };
    let (headers, first) = locate(&ms, "headers");
    let (payloads, _) = locate(&ms, "payload");
    if headers != 1 || payloads != 1 {
        return Decision::Rejected(Reason::BadJson);
    }
    let i = first.unwrap();
    let s = ms[i].start;
    let e = ms[i].end;
    let h = parse_json(input, s, e);
    decide_headers(&h)
}

/// Bytes that are not valid UTF-8 are rejected as `bad-utf8`.
pub proof fn lemma_bad_utf8_rejected(b: Seq<u8>)
    requires
        !valid_utf8(b),
    ensures
        bytes_decision(b) == Decision::Rejected(Reason::BadUtf8),
{
}

/// Valid UTF-8 that is no JSON object, or whose object lacks `headers` or
/// `payload`, is rejected as `bad-json`.
pub proof fn lemma_bad_json_rejected(b: Seq<u8>)
    requires
        valid_utf8(b),
        match object_members(b) {
            None => true,
            Some(ms) => count_from(ms, "headers"@, 0) == 0 || count_from(ms, "payload"@, 0) == 0,
        },
    ensures
        bytes_decision(b) == Decision::Rejected(Reason::BadJson),
{
}

/// A message with one `headers` and one `payload`, whose headers parse as
/// an object that lacks `_nonce`, lacks `_timestamp`, or lacks
/// `_signature_alg` equal to the string `hmac-sha256`, is rejected as
/// `missing-headers`.
pub proof fn lemma_missing_headers_rejected(b: Seq<u8>, ms: Seq<(Seq<char>, int, int)>, h: Json)
    requires
        valid_utf8(b),
        object_members(b) == Some(ms),
        count_from(ms, "headers"@, 0) == 1,
        count_from(ms, "payload"@, 0) == 1,
        json_parse(
            b.subrange(span_from(ms, "headers"@, 0)->Some_0.0, span_from(ms, "headers"@, 0)->Some_0.1),
        ) == Some(h),
        h is Object,
        lookup(h, "_nonce"@) is None
            || lookup(h, "_timestamp"@) is None
            || !(lookup(h, "_signature_alg"@) matches Some(Json::Text(a)) && a@ == "hmac-sha256"@),
    ensures
        bytes_decision(b) == Decision::Rejected(Reason::MissingHeaders),
{
}

/// A message with one `headers` and one `payload`, whose headers parse as
/// an object with `_nonce` and `_timestamp` of any values and
/// `_signature_alg` equal to the string `hmac-sha256`, is accepted, whatever
/// its payload and its other members.
pub proof fn lemma_complete_headers_accepted(b: Seq<u8>, ms: Seq<(Seq<char>, int, int)>, h: Json, a: String)
    requires
        valid_utf8(b),
        object_members(b) == Some(ms),
        count_from(ms, "headers"@, 0) == 1,
        count_from(ms, "payload"@, 0) == 1,
        json_parse(
            b.subrange(span_from(ms, "headers"@, 0)->Some_0.0, span_from(ms, "headers"@, 0)->Some_0.1),
        ) == Some(h),
        lookup(h, "_nonce"@) is Some,
        lookup(h, "_timestamp"@) is Some,
        lookup(h, "_signature_alg"@) == Some(Json::Text(a)),
        a@ == "hmac-sha256"@,
    ensures
        bytes_decision(b) == Decision::Accepted,
{
}

/// The decision depends on the bytes alone: two checks of the same bytes
/// decide alike.
pub proof fn lemma_same_bytes_same_decision(b1: Seq<u8>, b2: Seq<u8>)
    requires
        b1 == b2,
    ensures
        bytes_decision(b1) == bytes_decision(b2),
{
}

} // verus!
