use vstd::prelude::*;

verus! {

/// How many bytes at the start of `b` the JSON scanner takes for one value,
/// or `None` where it finds no value there. The scan checks the syntax only:
/// it does not convert numbers or escapes and sets no limit on nesting.
pub uninterp spec fn scanned_len(b: Seq<u8>) -> Option<usize>;

/// The text of the JSON string at the start of `b`, escapes resolved, and
/// how many bytes it takes, or `None` where no string stands there.
pub uninterp spec fn string_token(b: Seq<u8>) -> Option<(Seq<char>, usize)>;

/// Relies on serde_json::StreamDeserializer over serde::de::IgnoredAny, on
/// the bytes from `start` on: the first value is skipped without being
/// converted, and `byte_offset` tells where it ends.
#[verifier::external_body]
fn scan_value(b: &[u8], start: usize) -> (r: Option<usize>)
    requires
        start <= b@.len(),
    ensures
        r == scanned_len(b@.subrange(start as int, b@.len() as int)),
{
    let mut values = serde_json::Deserializer::from_slice(&b[start..])
        .into_iter::<serde::de::IgnoredAny>();
    match values.next() {
        Some(Ok(_)) => Some(values.byte_offset()),
        _ => None,
    }
}

/// Relies on serde_json::StreamDeserializer over String, on the bytes from
/// `start` on: the first value is read as a string, and `byte_offset` tells
/// where it ends.
#[verifier::external_body]
fn read_string(b: &[u8], start: usize) -> (r: Option<(String, usize)>)
    requires
        start <= b@.len(),
    ensures
        match r {
            Some((s, n)) => string_token(b@.subrange(start as int, b@.len() as int)) == Some(
                (s@, n),
            ),
            None => string_token(b@.subrange(start as int, b@.len() as int)) is None,
        },
{
    let mut values = serde_json::Deserializer::from_slice(&b[start..]).into_iter::<String>();
    match values.next() {
        Some(Ok(s)) => Some((s, values.byte_offset())),
        _ => None,
    }
}

/// One member of the top-level object: its key, and where its value starts
/// and ends in the input.
pub struct Member {
    pub key: String,
    pub start: usize,
    pub end: usize,
}

impl View for Member {
    type V = (Seq<char>, int, int);

    open spec fn view(&self) -> (Seq<char>, int, int) {
        (self.key@, self.start as int, self.end as int)
    }
}

/// The members as key, start and end of each value.
pub open spec fn members_view(ms: Seq<Member>) -> Seq<(Seq<char>, int, int)> {
    ms.map_values(|m: Member| m@)
}

/// JSON whitespace: space, tab, line feed, carriage return.
pub open spec fn is_ws(c: u8) -> bool {
    c == 0x20 || c == 0x09 || c == 0x0a || c == 0x0d
}

/// The first position from `i` on that holds no whitespace.
pub open spec fn skip_ws(b: Seq<u8>, i: int) -> int
    decreases b.len() - i,
{
    if 0 <= i < b.len() && is_ws(b[i]) {
        skip_ws(b, i + 1)
    } else {
        i
    }
}

/// The member that starts at `i`: key, start and end of its value, and the
/// position of the first byte after it that is no whitespace.
pub open spec fn member_at(b: Seq<u8>, i: int) -> Option<(Seq<char>, int, int, int)> {
    let k = skip_ws(b, i);
    match string_token(b.subrange(k, b.len() as int)) {
        None => None,
        Some((key, n)) => {
            let c = skip_ws(b, k + n);
            if n == 0 || k + n > b.len() || c >= b.len() || b[c] != 0x3a {
                None
            } else {
                let v = skip_ws(b, c + 1);
                match scanned_len(b.subrange(v, b.len() as int)) {
                    None => None,
                    Some(m) => if v + m > b.len() {
                        None
                    } else {
                        Some((key, v, v + m, skip_ws(b, v + m)))
                    },
                }
            }
        },
    }
}

/// The members from `i` on, each followed by `,` or by the closing `}` and
/// nothing but whitespace to the end.
pub open spec fn members_from(b: Seq<u8>, i: int) -> Option<Seq<(Seq<char>, int, int)>>
    decreases b.len() - i,
{
    if i < 0 || i > b.len() {
        None
    } else {
        match member_at(b, i) {
            None => None,
            Some((key, s, e, p)) => if p <= i || p >= b.len() {
                None
            } else if b[p] == 0x2c {
                match members_from(b, p + 1) {
                    None => None,
                    Some(rest) => Some(seq![(key, s, e)] + rest),
                }
            } else if b[p] == 0x7d && skip_ws(b, p + 1) == b.len() {
                Some(seq![(key, s, e)])
            } else {
                None
            },
        }
    }
}

/// The members of the one JSON object that `b` holds, in the order of the
/// text, or `None` where `b` is no such object.
pub open spec fn object_members(b: Seq<u8>) -> Option<Seq<(Seq<char>, int, int)>> {
    let o = skip_ws(b, 0);
    if o >= b.len() || b[o] != 0x7b {
        None
    } else {
        let q = skip_ws(b, o + 1);
        if q < b.len() && b[q] == 0x7d {
            if skip_ws(b, q + 1) == b.len() {
                Some(seq![])
            } else {
                None
            }
        } else {
            members_from(b, o + 1)
        }
    }
}

fn skip_whitespace(b: &[u8], i: usize) -> (r: usize)
    requires
        i <= b@.len(),
    ensures
        r == skip_ws(b@, i as int),
        i <= r <= b@.len(),
{
    let mut j = i;
    while j < b.len() && (b[j] == 0x20 || b[j] == 0x09 || b[j] == 0x0a || b[j] == 0x0d)
        invariant
            i <= j <= b@.len(),
            skip_ws(b@, i as int) == skip_ws(b@, j as int),
        decreases b@.len() - j,
    {
        j = j + 1;
    }
    j
}

fn read_member(b: &[u8], i: usize) -> (r: Option<(Member, usize)>)
    requires
        i <= b@.len(),
    ensures
        match r {
            Some((m, p)) => member_at(b@, i as int) == Some((m.key@, m.start as int, m.end as int, p as int))
                && i <= m.start <= m.end <= p <= b@.len(),
            None => member_at(b@, i as int) is None,
        },
{
    let k = skip_whitespace(b, i);
    let (key, n) = match read_string(b, k) {
        Some(t) => t,
        None => return None,
    };
    if n == 0 || n > b.len() - k {
        return None;
    }
    let c = skip_whitespace(b, k + n);
    if c >= b.len() || b[c] != 0x3a {
        return None;
    }
    let v = skip_whitespace(b, c + 1);
    let m = match scan_value(b, v) {
        Some(m) => m,
        None => return None,
    };
    if m > b.len() - v {
        return None;
    }
    let p = skip_whitespace(b, v + m);
    Some((Member { key, start: v, end: v + m }, p))
}

/// Splits the one JSON object that `b` holds into its members, in the order
/// of the text. Keys are read in full; values are only scanned.
pub fn frame_object(b: &[u8]) -> (r: Option<Vec<Member>>)
    ensures
        match r {
            Some(ms) => object_members(b@) == Some(members_view(ms@)),
            None => object_members(b@) is None,
        },
        r matches Some(ms) ==> forall|j: int|
            0 <= j < ms@.len() ==> ms@[j].start <= #[trigger] ms@[j].end <= b@.len(),
{
    let o = skip_whitespace(b, 0);
    if o >= b.len() || b[o] != 0x7b {
        return None;
    }
    let q = skip_whitespace(b, o + 1);
    if q < b.len() && b[q] == 0x7d {
        if skip_whitespace(b, q + 1) == b.len() {
            return Some(Vec::new());
        } else {
            return None;
        }
    }
    let mut ms: Vec<Member> = Vec::new();
    let mut i = o + 1;
    loop
        invariant
            o + 1 <= i <= b@.len(),
            forall|j: int| 0 <= j < ms@.len() ==> ms@[j].start <= #[trigger] ms@[j].end <= b@.len(),
            object_members(b@) == members_from(b@, (o + 1) as int),
            members_from(b@, (o + 1) as int) == match members_from(b@, i as int) {
                None => None,
                Some(rest) => Some(members_view(ms@) + rest),
            },
        decreases b@.len() - i,
    {
        let (m, p) = match read_member(b, i) {
            Some(t) => t,
            None => return None,
        };
        if p <= i || p >= b.len() {
            return None;
        }
        let ghost prev = members_view(ms@);
        let ghost item = m@;
        if b[p] == 0x2c {
            ms.push(m);
            proof {
                assert(members_view(ms@) =~= prev + seq![item]);
                match members_from(b@, p + 1) {
                    None => {},
                    Some(rest) => {
                        assert(prev + (seq![item] + rest) =~= (prev + seq![item]) + rest);
                    },
                }
            }
            i = p + 1;
        } else if b[p] == 0x7d && skip_whitespace(b, p + 1) == b.len() {
            ms.push(m);
            proof {
                assert(members_view(ms@) =~= prev + seq![item]);
            }
            return Some(ms);
        } else {
            return None;
        }
    }
}

} // verus!
