//! Byte-level building blocks shared by the packet formats.
use vstd::prelude::*;
use vstd::utf8::*;

verus! {

/// The number that two bytes stand for, most significant first.
pub open spec fn be_u16(hi: u8, lo: u8) -> u16 {
    (hi as int * 256 + lo as int) as u16
}

/// The two bytes of a number, most significant first.
pub open spec fn u16_be_bytes(v: u16) -> Seq<u8> {
    seq![(v / 256) as u8, (v % 256) as u8]
}

/// The number that four bytes stand for, most significant first.
pub open spec fn be_u32(b: Seq<u8>) -> u32 {
    (((b[0] as int * 256 + b[1] as int) * 256 + b[2] as int) * 256 + b[3] as int) as u32
}

/// The four bytes of a number, most significant first.
pub open spec fn u32_be_bytes(v: u32) -> Seq<u8> {
    seq![
        (v / 0x100_0000) as u8,
        ((v / 0x1_0000) % 256) as u8,
        ((v / 256) % 256) as u8,
        (v % 256) as u8,
    ]
}

/// The eight bytes of a number, most significant first.
pub open spec fn u64_be_bytes(v: u64) -> Seq<u8> {
    u32_be_bytes((v / 0x1_0000_0000) as u32) + u32_be_bytes((v % 0x1_0000_0000) as u32)
}

/// Different numbers have different four-byte encodings.
pub proof fn lemma_u32_be_bytes_injective(a: u32, b: u32)
    ensures
        u32_be_bytes(a) == u32_be_bytes(b) ==> a == b,
{
    lemma_u32_be_roundtrip(a);
    lemma_u32_be_roundtrip(b);
}

/// Reading the four bytes of a number gives the number back.
pub proof fn lemma_u32_be_roundtrip(v: u32)
    ensures
        be_u32(u32_be_bytes(v)) == v,
{
    let b = u32_be_bytes(v);
    assert(b[0] == v / 0x100_0000);
    assert(b[1] == (v / 0x1_0000) % 256);
    assert(b[2] == (v / 256) % 256);
    assert(b[3] == v % 256);
    assert((((v / 0x100_0000) * 256 + (v / 0x1_0000) % 256) * 256 + (v / 256) % 256) * 256 + v % 256 == v)
        by (nonlinear_arith);
}

/// Different numbers have different eight-byte encodings.
pub proof fn lemma_u64_be_bytes_injective(a: u64, b: u64)
    ensures
        u64_be_bytes(a) == u64_be_bytes(b) ==> a == b,
{
    if u64_be_bytes(a) == u64_be_bytes(b) {
        let ha = (a / 0x1_0000_0000) as u32;
        let la = (a % 0x1_0000_0000) as u32;
        let hb = (b / 0x1_0000_0000) as u32;
        let lb = (b % 0x1_0000_0000) as u32;
        assert(u64_be_bytes(a).subrange(0, 4) == u32_be_bytes(ha));
        assert(u64_be_bytes(b).subrange(0, 4) == u32_be_bytes(hb));
        assert(u64_be_bytes(a).subrange(4, 8) == u32_be_bytes(la));
        assert(u64_be_bytes(b).subrange(4, 8) == u32_be_bytes(lb));
        lemma_u32_be_bytes_injective(ha, hb);
        lemma_u32_be_bytes_injective(la, lb);
        assert(a == (a / 0x1_0000_0000) * 0x1_0000_0000 + a % 0x1_0000_0000) by (nonlinear_arith);
        assert(b == (b / 0x1_0000_0000) * 0x1_0000_0000 + b % 0x1_0000_0000) by (nonlinear_arith);
    }
}

pub fn u16_to_be_bytes(v: u16) -> (r: [u8; 2])
    ensures
        r@ == u16_be_bytes(v),
{
    [(v / 256) as u8, (v % 256) as u8]
}

pub fn u32_to_be_bytes(v: u32) -> (r: [u8; 4])
    ensures
        r@ == u32_be_bytes(v),
{
    [(v / 0x100_0000) as u8, ((v / 0x1_0000) % 256) as u8, ((v / 256) % 256) as u8, (v % 256) as u8]
}

pub fn u64_to_be_bytes(v: u64) -> (r: Vec<u8>)
    ensures
        r@ == u64_be_bytes(v),
{
    let hi = u32_to_be_bytes((v / 0x1_0000_0000) as u32);
    let lo = u32_to_be_bytes((v % 0x1_0000_0000) as u32);
    let mut r: Vec<u8> = Vec::new();
    append_bytes(&mut r, &hi);
    append_bytes(&mut r, &lo);
    r
}

/// Appends every byte of `s` to `v`, in order.
pub fn append_bytes(v: &mut Vec<u8>, s: &[u8])
    ensures
        final(v)@ == old(v)@ + s@,
{
    let ghost start = v@;
    let mut i: usize = 0;
    while i < s.len()
        invariant
            i <= s@.len(),
            v@ == start + s@.subrange(0, i as int),
        decreases s@.len() - i,
    {
        v.push(s[i]);
        i = i + 1;
        assert(s@.subrange(0, i as int) == s@.subrange(0, i - 1) + seq![s@[i - 1]]);
    }
    assert(s@.subrange(0, s@.len() as int) == s@);
}

/// The bytes `s[start..end]`.
pub fn sub_bytes(s: &[u8], start: usize, end: usize) -> (r: &[u8])
    requires
        start <= end <= s@.len(),
    ensures
        r@ == s@.subrange(start as int, end as int),
{
    &s[start..end]
}

/// What std's lossy UTF-8 decoding makes of bytes that are not valid UTF-8.
pub uninterp spec fn utf8_lossy(bytes: Seq<u8>) -> Seq<char>;

/// The characters that lossy UTF-8 decoding makes of `bytes`: the decoded text
/// where the bytes are valid UTF-8.
pub open spec fn lossy_chars(bytes: Seq<u8>) -> Seq<char> {
    if valid_utf8(bytes) {
        decode_utf8(bytes)
    } else {
        utf8_lossy(bytes)
    }
}

/// Calls `String::from_utf8_lossy`. Its documentation promises that valid
/// UTF-8 is decoded as it stands; what it makes of other bytes (replacement
/// characters) goes by the name `utf8_lossy`.
#[verifier::external_body]
pub(crate) fn string_from_utf8_lossy(bytes: &[u8]) -> (s: String)
    ensures
        valid_utf8(bytes@) ==> s@ == decode_utf8(bytes@),
        !valid_utf8(bytes@) ==> s@ == utf8_lossy(bytes@),
{
    String::from_utf8_lossy(bytes).into_owned()
}

/// The bytes of a string as lossy decoding reads them back: the same text.
pub proof fn lemma_lossy_chars_of_encoding(chars: Seq<char>)
    ensures
        lossy_chars(encode_utf8(chars)) == chars,
{
    encode_utf8_valid_utf8(chars);
    encode_utf8_decode_utf8(chars);
}

} // verus!
