//! Request identifiers: taken from the request when it carries one, made up
//! otherwise.
use crate::clock::now_micros;
use crate::text::{chars_of, eq_ignore_case, seq_eq_ignore_case, string_of};
use vstd::prelude::*;

verus! {

/// A lower-case hexadecimal digit character.
pub open spec fn is_lower_hex(c: char) -> bool {
    ('0' <= c && c <= '9') || ('a' <= c && c <= 'f')
}

/// The hyphenated text form of a UUID: 36 characters, `-` at positions 8,
/// 13, 18 and 23, lower-case hexadecimal digits elsewhere.
pub open spec fn is_hyphenated_uuid(s: Seq<char>) -> bool {
    &&& s.len() == 36
    &&& forall|i: int| 0 <= i < 36 ==> if i == 8 || i == 13 || i == 18 || i == 23 {
        s[i] == '-'
    } else {
        is_lower_hex(#[trigger] s[i])
    }
}

/// `uuid::Uuid::new_v4()` as text (`Uuid::to_string`, which writes the
/// lower-case hyphenated form, as `format_hyphenated` in the crate's source
/// lays it out). The value is random: only its shape is promised.
#[verifier::external_body]
fn random_uuid_text() -> (r: String)
    ensures
        is_hyphenated_uuid(r@),
{
    uuid::Uuid::new_v4().to_string()
}

/// The 16 bytes of `uuid::Uuid::new_v4()`. Random: nothing is promised of
/// the value.
#[verifier::external_body]
fn random_uuid_bytes() -> [u8; 16] {
    *uuid::Uuid::new_v4().as_bytes()
}

/// A lower-case hexadecimal digit.
pub open spec fn hex_digit(d: nat) -> char {
    if d < 10 {
        ((d + 48) as u32) as char
    } else {
        ((d + 87) as u32) as char
    }
}

/// `n` in lower-case hexadecimal, zero-padded to `width` digits (the low
/// `width` digits).
pub open spec fn hex_padded(n: nat, width: nat) -> Seq<char>
    decreases width,
{
    if width == 0 {
        Seq::<char>::empty()
    } else {
        hex_padded(n / 16, (width - 1) as nat).push(hex_digit(n % 16))
    }
}

/// Each byte as two lower-case hex digits.
pub open spec fn hex_of_bytes(b: Seq<u8>) -> Seq<char>
    decreases b.len(),
{
    if b.len() == 0 {
        Seq::<char>::empty()
    } else {
        hex_of_bytes(b.drop_last()) + hex_padded(b.last() as nat, 2)
    }
}

fn hex_char(d: u64) -> (c: char)
    requires
        d < 16,
    ensures
        c == hex_digit(d as nat),
{
    if d < 10 {
        ((d as u8) + 48) as char
    } else {
        ((d as u8) + 87) as char
    }
}

fn push_hex(out: &mut Vec<char>, n: u64, width: u64)
    requires
        width <= 16,
    ensures
        final(out)@ == old(out)@ + hex_padded(n as nat, width as nat),
    decreases width,
{
    if width > 0 {
        push_hex(out, n / 16, width - 1);
        out.push(hex_char(n % 16));
        assert(final(out)@ =~= old(out)@ + hex_padded(n as nat, width as nat));
    } else {
        assert(final(out)@ =~= old(out)@ + hex_padded(n as nat, width as nat));
    }
}

/// The first value, among `names` tried in order, of a header present under
/// that name (names compared without ASCII case) with readable text.
pub open spec fn first_readable(headers: Seq<(String, Option<String>)>, names: Seq<Seq<char>>) -> Option<
    Seq<char>,
>
    decreases names.len(),
{
    if names.len() == 0 {
        None
    } else {
        match header_value(headers, names[0]) {
            Some(Some(v)) => Some(v@),
            _ => first_readable(headers, names.drop_first()),
        }
    }
}

/// The first header under a name: `Some(None)` when its value is not
/// readable text.
pub open spec fn header_value(headers: Seq<(String, Option<String>)>, name: Seq<char>) -> Option<
    Option<String>,
>
    decreases headers.len(),
{
    if headers.len() == 0 {
        None
    } else if eq_ignore_case(headers[0].0@, name) {
        Some(headers[0].1)
    } else {
        header_value(headers.drop_first(), name)
    }
}

/// The header names a request id is looked for under, in order.
pub open spec fn request_id_headers() -> Seq<Seq<char>> {
    seq!["X-Request-ID"@, "X-Request-Id"@, "x-request-id"@, "X-Correlation-ID"@]
}

/// The first header under `name` (names compared without ASCII case):
/// `Some(None)` when its value is not readable text.
pub fn find_header(headers: &Vec<(String, Option<String>)>, name: &str) -> (r: Option<Option<String>>)
    ensures
        r == header_value(headers@, name@),
{
    let n = chars_of(name);
    let mut i: usize = 0;
    assert(headers@.skip(0) =~= headers@);
    while i < headers.len()
        invariant
            i <= headers.len(),
            n@ == name@,
            header_value(headers@, name@) == header_value(headers@.skip(i as int), name@),
        decreases headers.len() - i,
    {
        assert(headers@.skip(i as int)[0] == headers@[i as int]);
        assert(headers@.skip(i as int).drop_first() =~= headers@.skip(i + 1));
        let h = chars_of(headers[i].0.as_str());
        if seq_eq_ignore_case(&h, &n) {
            let v = match &headers[i].1 {
                Some(s) => Some(s.clone()),
                None => None,
            };
            return Some(v);
        }
        i = i + 1;
    }
    None
}

pub struct RequestId;

/// The counter that sequential request ids carry: one per process in the
/// program, advanced by one for each id.
pub struct SequentialIds {
    counter: u64,
}

impl SequentialIds {
    /// How many ids have been handed out (wrapping around at the maximum).
    pub closed spec fn count(&self) -> u64 {
        self.counter
    }

    pub fn new() -> (g: Self)
        ensures
            g.count() == 0,
    {
        SequentialIds { counter: 0 }
    }
}

impl RequestId {
    /// A random UUID in its hyphenated text form.
    pub fn generate() -> (s: String)
        ensures
            is_hyphenated_uuid(s@),
    {
        random_uuid_text()
    }

    /// The first 8 bytes of the given UUID bytes as 16 lower-case hex digits.
    pub fn short_from_bytes(bytes: &[u8; 16]) -> (s: String)
        ensures
            s@ == hex_of_bytes(bytes@.take(8)),
    {
        let mut out: Vec<char> = Vec::new();
        let mut i: usize = 0;
        while i < 8
            invariant
                i <= 8,
                bytes@.len() == 16,
                out@ == hex_of_bytes(bytes@.take(i as int)),
            decreases 8 - i,
        {
            push_hex(&mut out, bytes[i] as u64, 2);
            assert(bytes@.take(i + 1).drop_last() =~= bytes@.take(i as int));
            i = i + 1;
        }
        string_of(&out)
    }

    /// A short random id: 16 hex digits from the first 8 bytes of a random
    /// UUID.
    pub fn generate_short() -> (s: String)
        ensures
            s@.len() == 16,
    {
        let bytes = random_uuid_bytes();
        let s = Self::short_from_bytes(&bytes);
        proof {
            lemma_hex_len(bytes@.take(8));
        }
        s
    }

    /// `{timestamp:016x}-{count as u32:08x}`.
    pub fn sequential(timestamp_micros: u64, count: u64) -> (s: String)
        ensures
            s@ == hex_padded(timestamp_micros as nat, 16) + seq!['-'] + hex_padded(
                (count as u32) as nat,
                8,
            ),
    {
        let mut out: Vec<char> = Vec::new();
        push_hex(&mut out, timestamp_micros, 16);
        out.push('-');
        push_hex(&mut out, (count as u32) as u64, 8);
        assert(out@ =~= hex_padded(timestamp_micros as nat, 16) + seq!['-'] + hex_padded(
            (count as u32) as nat,
            8,
        ));
        string_of(&out)
    }

    /// An id from the current time in microseconds and the counter, which
    /// then moves on by one: consecutive ids carry consecutive counts.
    pub fn generate_sequential(ids: &mut SequentialIds) -> (s: String)
        ensures
            exists|t: u64| s@ == hex_padded(t as nat, 16) + seq!['-'] + hex_padded((old(ids).count() as u32) as nat, 8),
            final(ids).count() == old(ids).count().wrapping_add(1),
    {
        let t = now_micros();
        let count = ids.counter;
        ids.counter = count.wrapping_add(1);
        Self::sequential(t, count)
    }

    /// The request id the client sent: the first readable value among the
    /// `X-Request-ID` and `X-Correlation-ID` headers, looked up in that order.
    /// Headers come as (name, value) pairs, the value `None` when it is not
    /// readable text.
    pub fn extract_from_headers(headers: &Vec<(String, Option<String>)>) -> (r: Option<String>)
        ensures
            match r {
                Some(v) => first_readable(headers@, request_id_headers()) == Some(v@),
                None => first_readable(headers@, request_id_headers()) is None,
            },
    {
        let ghost names = request_id_headers();
        assert(names.drop_first() =~= seq!["X-Request-Id"@, "x-request-id"@, "X-Correlation-ID"@]);
        assert(names.drop_first().drop_first() =~= seq!["x-request-id"@, "X-Correlation-ID"@]);
        assert(names.drop_first().drop_first().drop_first() =~= seq!["X-Correlation-ID"@]);
        assert(names.drop_first().drop_first().drop_first().drop_first() =~= Seq::<Seq<char>>::empty());
        proof {
            reveal_with_fuel(first_readable, 5);
        }
        if let Some(Some(v)) = find_header(headers, "X-Request-ID") {
            return Some(v);
        }
        if let Some(Some(v)) = find_header(headers, "X-Request-Id") {
            return Some(v);
        }
        if let Some(Some(v)) = find_header(headers, "x-request-id") {
            return Some(v);
        }
        if let Some(Some(v)) = find_header(headers, "X-Correlation-ID") {
            return Some(v);
        }
        None
    }
}

proof fn lemma_hex_padded_len(n: nat, w: nat)
    ensures
        hex_padded(n, w).len() == w,
    decreases w,
{
    if w > 0 {
        lemma_hex_padded_len(n / 16, (w - 1) as nat);
    }
}

proof fn lemma_hex_len(b: Seq<u8>)
    ensures
        hex_of_bytes(b).len() == 2 * b.len(),
    decreases b.len(),
{
    if b.len() > 0 {
        lemma_hex_len(b.drop_last());
        lemma_hex_padded_len(b.last() as nat, 2);
    }
}

/// Consecutive sequential ids differ: they are 25 characters long (16 hex
/// digits, `-`, 8 hex digits), the second carries the first's count plus one
/// (wrapping at 32 bits), and so even their last digits differ.
pub proof fn lemma_consecutive_ids_differ(t1: u64, t2: u64, c: u64)
    ensures
        ({
            let a = hex_padded(t1 as nat, 16) + seq!['-'] + hex_padded((c as u32) as nat, 8);
            let b = hex_padded(t2 as nat, 16) + seq!['-'] + hex_padded((c.wrapping_add(1) as u32) as nat, 8);
            &&& a.len() == 25
            &&& b.len() == 25
            &&& a[16] == '-'
            &&& b[16] == '-'
            &&& (c.wrapping_add(1) as u32) == (c as u32).wrapping_add(1)
            &&& a != b
        }),
{
    let x = (c as u32) as nat;
    let y = (c.wrapping_add(1) as u32) as nat;
    lemma_hex_padded_len(t1 as nat, 16);
    lemma_hex_padded_len(t2 as nat, 16);
    lemma_hex_padded_len(x, 8);
    lemma_hex_padded_len(y, 8);
    let a = hex_padded(t1 as nat, 16) + seq!['-'] + hex_padded(x, 8);
    let b = hex_padded(t2 as nat, 16) + seq!['-'] + hex_padded(y, 8);
    assert(a[16] == '-');
    assert(b[16] == '-');
    if c == 0xffff_ffff_ffff_ffff {
        assert(c.wrapping_add(1) == 0);
        assert((c as u32) == 0xffff_ffffu32) by (bit_vector)
            requires
                c == 0xffff_ffff_ffff_ffffu64,
        ;
    } else {
        assert(c.wrapping_add(1) == c + 1);
        assert(((c + 1) as u64) as u32 == (c as u32).wrapping_add(1)) by (bit_vector)
            requires
                c < 0xffff_ffff_ffff_ffffu64,
        ;
        assert((((c + 1) as u64) as u32) % 16 != (c as u32) % 16) by (bit_vector)
            requires
                c < 0xffff_ffff_ffff_ffffu64,
        ;
    }
    assert(x % 16 != y % 16);
    assert(a[24] == hex_digit(x % 16));
    assert(b[24] == hex_digit(y % 16));
    assert(hex_digit(x % 16) != hex_digit(y % 16));
}

} // verus!
