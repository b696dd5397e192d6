//! The address of the host that a proxying server connects to.
use vstd::prelude::*;
use vstd::utf8::*;

use crate::protocol::wire::sub_bytes;

verus! {

/// The port taken where a target address names none, or none that reads.
pub const DEFAULT_TARGET_PORT: u16 = 38392;

/// Address of the target server.
#[derive(Debug, Clone, PartialEq, Eq)]
pub struct TargetAddr {
    pub host: String,
    pub port: u16,
}

/// A target address with its host taken as text.
pub struct TargetAddrView {
    pub host: Seq<char>,
    pub port: u16,
}

impl View for TargetAddr {
    type V = TargetAddrView;

    open spec fn view(&self) -> TargetAddrView {
        TargetAddrView { host: self.host@, port: self.port }
    }
}

/// The byte `:`.
pub open spec fn colon() -> u8 {
    0x3a
}

/// How many bytes open `b` before its first `:` (all of them where there is none).
pub open spec fn colon_free_len(b: Seq<u8>) -> nat
    decreases b.len(),
{
    if b.len() == 0 {
        0
    } else if b[0] == colon() {
        0
    } else {
        1 + colon_free_len(b.drop_first())
    }
}

/// Whether a byte is an ASCII decimal digit.
pub open spec fn is_digit(c: u8) -> bool {
    0x30 <= c <= 0x39
}

/// The number that a string of decimal digits stands for.
pub open spec fn digits_value(s: Seq<u8>) -> nat
    decreases s.len(),
{
    if s.len() == 0 {
        0
    } else {
        digits_value(s.drop_last()) * 10 + (s.last() - 0x30) as nat
    }
}

/// The text after an optional leading `+`.
pub open spec fn without_plus(s: Seq<u8>) -> Seq<u8> {
    if s.len() > 0 && s[0] == 0x2b {
        s.drop_first()
    } else {
        s
    }
}

/// Whether every byte of `s` is a decimal digit.
pub open spec fn all_digits(s: Seq<u8>) -> bool {
    forall|i: int| 0 <= i < s.len() ==> is_digit(#[trigger] s[i])
}

/// What `str::parse::<u16>` makes of some text: an optional `+`, then one or
/// more decimal digits whose value fits in 16 bits; anything else fails.
pub open spec fn spec_parse_u16(s: Seq<u8>) -> Option<u16> {
    if without_plus(s).len() > 0 && all_digits(without_plus(s)) && digits_value(without_plus(s)) <= u16::MAX {
        Some(digits_value(without_plus(s)) as u16)
    } else {
        None
    }
}

/// The host part of an address: the bytes before the first `:`.
pub open spec fn spec_host_bytes(b: Seq<u8>) -> Seq<u8> {
    b.subrange(0, colon_free_len(b) as int)
}

/// The port of an address: the bytes between the first and the second `:`
/// read as a number; the default port where there is no `:` or those bytes
/// do not read.
pub open spec fn spec_port(b: Seq<u8>) -> u16 {
    let i = colon_free_len(b) as int;
    if i == b.len() {
        DEFAULT_TARGET_PORT
    } else {
        let rest = b.subrange(i + 1, b.len() as int);
        match spec_parse_u16(rest.subrange(0, colon_free_len(rest) as int)) {
            Some(p) => p,
            None => DEFAULT_TARGET_PORT,
        }
    }
}

/// Exactly the first `i` bytes of `b` are free of `:`, and `i` is the end
/// of `b` or the place of a `:`.
proof fn lemma_colon_free_len(b: Seq<u8>, i: int)
    requires
        0 <= i <= b.len(),
        forall|j: int| 0 <= j < i ==> b[j] != colon(),
        i == b.len() || b[i] == colon(),
    ensures
        colon_free_len(b) == i,
    decreases b.len(),
{
    if b.len() > 0 && i > 0 {
        let t = b.drop_first();
        assert forall|j: int| 0 <= j < i - 1 implies t[j] != colon() by {
            assert(t[j] == b[j + 1]);
        }
        lemma_colon_free_len(t, i - 1);
    }
}

/// A string of digits is worth at least as much as any of its prefixes.
proof fn lemma_digits_value_prefix(s: Seq<u8>, i: int)
    requires
        0 <= i <= s.len(),
        forall|j: int| 0 <= j < s.len() ==> is_digit(#[trigger] s[j]),
    ensures
        digits_value(s.subrange(0, i)) <= digits_value(s),
    decreases s.len(),
{
    if i < s.len() {
        let d = s.drop_last();
        assert(d.subrange(0, i) == s.subrange(0, i));
        assert forall|j: int| 0 <= j < d.len() implies is_digit(#[trigger] d[j]) by {
            assert(d[j] == s[j]);
        }
        lemma_digits_value_prefix(d, i);
    } else {
        assert(s.subrange(0, i) == s);
    }
}

/// The encoding of joined texts is the joined encodings.
pub proof fn lemma_encode_utf8_concat(a: Seq<char>, b: Seq<char>)
    ensures
        encode_utf8(a + b) == encode_utf8(a) + encode_utf8(b),
    decreases a.len(),
{
    if a.len() == 0 {
        assert(a + b == b);
    } else {
        assert((a + b).drop_first() == a.drop_first() + b);
        assert((a + b)[0] == a[0]);
        lemma_encode_utf8_concat(a.drop_first(), b);
        assert(encode_utf8(a + b) == encode_scalar(a[0] as u32) + (encode_utf8(a.drop_first()) + encode_utf8(b)));
    }
}

/// A character other than `:` encodes to bytes none of which is `:`.
proof fn lemma_scalar_without_colon(c: char)
    requires
        c != ':',
    ensures
        forall|j: int| 0 <= j < encode_scalar(c as u32).len() ==> #[trigger] encode_scalar(c as u32)[j] != colon(),
{
    let v = c as u32;
    if has_width_1_encoding(v) {
        if v == 0x3a {
            char_u32_cast(c, v);
            assert(c == (0x3a as char));
        }
        assert((v & 0x7F) as u8 == v) by (bit_vector)
            requires
                v <= 0x7F,
        ;
    } else {
        assert(forall|x: u8| #![trigger (0xC0u8 | x)] (0xC0u8 | x) != 0x3a) by (bit_vector);
        assert(forall|x: u8| #![trigger (0xE0u8 | x)] (0xE0u8 | x) != 0x3a) by (bit_vector);
        assert(forall|x: u8| #![trigger (0xF0u8 | x)] (0xF0u8 | x) != 0x3a) by (bit_vector);
        assert(forall|x: u8| #![trigger (0x80u8 | x)] (0x80u8 | x) != 0x3a) by (bit_vector);
    }
}

/// Text without `:` encodes to bytes without `:`.
pub proof fn lemma_encode_without_colon(chars: Seq<char>)
    requires
        forall|i: int| 0 <= i < chars.len() ==> chars[i] != ':',
    ensures
        forall|j: int| 0 <= j < encode_utf8(chars).len() ==> encode_utf8(chars)[j] != colon(),
    decreases chars.len(),
{
    if chars.len() > 0 {
        lemma_scalar_without_colon(chars[0]);
        let rest = chars.drop_first();
        assert forall|i: int| 0 <= i < rest.len() implies rest[i] != ':' by {
            assert(rest[i] == chars[i + 1]);
        }
        lemma_encode_without_colon(rest);
        let e = encode_utf8(chars);
        let head = encode_scalar(chars[0] as u32);
        assert forall|j: int| 0 <= j < e.len() implies e[j] != colon() by {
            if j < head.len() {
                assert(e[j] == head[j]);
            } else {
                assert(e[j] == encode_utf8(rest)[j - head.len()]);
            }
        }
    }
}

/// The decimal digit bytes of a number, without leading zeros.
pub open spec fn decimal_bytes(n: nat) -> Seq<u8>
    decreases n,
{
    if n < 10 {
        seq![(0x30 + n) as u8]
    } else {
        decimal_bytes(n / 10) + seq![(0x30 + n % 10) as u8]
    }
}

/// The decimal digits of a number read back as the number.
proof fn lemma_decimal_bytes(n: nat)
    ensures
        decimal_bytes(n).len() > 0,
        all_digits(decimal_bytes(n)),
        digits_value(decimal_bytes(n)) == n,
        forall|j: int| 0 <= j < decimal_bytes(n).len() ==> decimal_bytes(n)[j] != colon(),
    decreases n,
{
    let d = decimal_bytes(n);
    if n < 10 {
        assert(d.drop_last().len() == 0);
        assert(digits_value(d.drop_last()) == 0);
    } else {
        lemma_decimal_bytes(n / 10);
        assert(d.drop_last() == decimal_bytes(n / 10));
        assert forall|i: int| 0 <= i < d.len() implies is_digit(#[trigger] d[i]) by {
            if i < d.len() - 1 {
                assert(d[i] == decimal_bytes(n / 10)[i]);
            }
        }
        assert forall|j: int| 0 <= j < d.len() implies d[j] != colon() by {
            if j < d.len() - 1 {
                assert(d[j] == decimal_bytes(n / 10)[j]);
            }
        }
    }
}

/// Reading a `host:port` whose host holds no `:` gives back the host's
/// bytes and the port.
pub proof fn lemma_read_host_port(host: Seq<u8>, port: u16)
    requires
        forall|j: int| 0 <= j < host.len() ==> host[j] != colon(),
    ensures
        spec_host_bytes(host + seq![colon()] + decimal_bytes(port as nat)) == host,
        spec_port(host + seq![colon()] + decimal_bytes(port as nat)) == port,
{
    let digits = decimal_bytes(port as nat);
    let b = host + seq![colon()] + digits;
    lemma_colon_free_len(b, host.len() as int);
    assert(b.subrange(0, host.len() as int) == host);
    let rest = b.subrange(host.len() as int + 1, b.len() as int);
    assert(rest == digits);
    lemma_decimal_bytes(port as nat);
    lemma_colon_free_len(rest, rest.len() as int);
    assert(rest.subrange(0, rest.len() as int) == rest);
    assert(without_plus(digits) == digits);
}

/// Where the first `:` of `b` stands (its length where there is none).
fn colon_index(b: &[u8]) -> (r: usize)
    ensures
        r == colon_free_len(b@),
        r <= b@.len(),
        r < b@.len() ==> b@[r as int] == colon(),
{
    let mut i: usize = 0;
    while i < b.len() && b[i] != 0x3a
        invariant
            i <= b@.len(),
            forall|j: int| 0 <= j < i ==> b@[j] != colon(),
        decreases b@.len() - i,
    {
        i = i + 1;
    }
    proof {
        lemma_colon_free_len(b@, i as int);
    }
    i
}

/// Reads a port number as `str::parse::<u16>` does.
pub fn parse_u16(s: &[u8]) -> (r: Option<u16>)
    ensures
        r == spec_parse_u16(s@),
{
    let start: usize = if s.len() > 0 && s[0] == 0x2b { 1 } else { 0 };
    let ghost digits = without_plus(s@);
    assert(digits == s@.subrange(start as int, s@.len() as int));
    if start == s.len() {
        return None;
    }
    let mut value: u32 = 0;
    let mut i: usize = start;
    while i < s.len()
        invariant
            start <= i <= s@.len(),
            digits == s@.subrange(start as int, s@.len() as int),
            digits == without_plus(s@),
            forall|j: int| 0 <= j < i - start ==> is_digit(#[trigger] digits[j]),
            value == digits_value(digits.subrange(0, i - start)),
            value <= u16::MAX,
        decreases s@.len() - i,
    {
        let c = s[i];
        assert(c == digits[i - start]);
        if c < 0x30 || c > 0x39 {
            assert(!is_digit(digits[i - start]));
            return None;
        }
        let ghost prev = digits.subrange(0, i - start);
        let ghost next = digits.subrange(0, i - start + 1);
        assert(next.drop_last() == prev);
        value = value * 10 + (c - 0x30) as u32;
        i = i + 1;
        assert(value == digits_value(next));
        if value > 65535 {
            proof {
                if all_digits(digits) {
                    lemma_digits_value_prefix(digits, i - start);
                }
            }
            return None;
        }
    }
    assert(digits.subrange(0, i - start) == digits);
    Some(value as u16)
}

impl TargetAddr {
    /// Reads an address of the form `host:port`: the host is the text before
    /// the first `:`, the port the text between the first and a second `:`;
    /// a missing or unreadable port gives the default port.
    pub fn parse(value: &str) -> (r: TargetAddr)
        ensures
            encode_utf8(r@.host) == spec_host_bytes(encode_utf8(value@)),
            r@.port == spec_port(encode_utf8(value@)),
    {
        let bytes = value.as_bytes();
        let i = colon_index(bytes);
        proof {
            encode_utf8_valid_utf8(value@);
            is_char_boundary_start_end_of_seq(bytes@);
            if i < bytes@.len() {
                is_char_boundary_iff_not_is_continuation_byte(bytes@, i as int);
            }
        }
        let (left, _right) = value.split_at(i);
        let host = left.to_owned();
        let port = if i == bytes.len() {
            DEFAULT_TARGET_PORT
        } else {
            let rest = sub_bytes(bytes, i + 1, bytes.len());
            let j = colon_index(rest);
            match parse_u16(sub_bytes(rest, 0, j)) {
                Some(p) => p,
                None => DEFAULT_TARGET_PORT,
            }
        };
        TargetAddr { host, port }
    }
}

impl<'a> From<&'a str> for TargetAddr {
    fn from(value: &'a str) -> (r: TargetAddr)
        ensures
            encode_utf8(r@.host) == spec_host_bytes(encode_utf8(value@)),
            r@.port == spec_port(encode_utf8(value@)),
    {
        TargetAddr::parse(value)
    }
}

/// The conversion's result is stated by `from`'s own contract over the
/// view of the host; no single value is promised as `from_spec`.
impl<'a> vstd::std_specs::convert::FromSpecImpl<&'a str> for TargetAddr {
    open spec fn obeys_from_spec() -> bool {
        false
    }

    open spec fn from_spec(v: &'a str) -> TargetAddr {
        vstd::pervasive::arbitrary()
    }
}

/// The conversion's result is stated by `from`'s own contract over the
/// view of the host; no single value is promised as `from_spec`.
impl vstd::std_specs::convert::FromSpecImpl<String> for TargetAddr {
    open spec fn obeys_from_spec() -> bool {
        false
    }

    open spec fn from_spec(v: String) -> TargetAddr {
        vstd::pervasive::arbitrary()
    }
}

impl From<String> for TargetAddr {
    fn from(value: String) -> (r: TargetAddr)
        ensures
            encode_utf8(r@.host) == spec_host_bytes(encode_utf8(value@)),
            r@.port == spec_port(encode_utf8(value@)),
    {
        TargetAddr::parse(value.as_str())
    }
}

} // verus!
