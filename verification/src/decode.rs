//! Turning the bytes that a Windows command prints into text.
use vstd::prelude::*;
use vstd::utf8::{valid_utf8, decode_utf8, encode_utf8, encode_utf8_valid_utf8, encode_utf8_decode_utf8, valid_first_scalar, char_u32_cast};

verus! {

/// A leading (high) surrogate.
pub open spec fn is_high_surrogate(u: u16) -> bool {
    0xD800 <= u && u <= 0xDBFF
}

/// A trailing (low) surrogate.
pub open spec fn is_low_surrogate(u: u16) -> bool {
    0xDC00 <= u && u <= 0xDFFF
}

/// The UTF-16 decoding of `units`: a leading surrogate followed by a trailing
/// one gives the character they encode together, any other surrogate gives
/// U+FFFD, and every other unit is the character of that code.
pub open spec fn utf16_lossy(units: Seq<u16>) -> Seq<char>
    decreases units.len(),
{
    if units.len() == 0 {
        Seq::empty()
    } else if units.len() >= 2 && is_high_surrogate(units[0]) && is_low_surrogate(units[1]) {
        seq![
            ((0x10000 + (units[0] - 0xD800) * 0x400 + (units[1] - 0xDC00)) as u32) as char,
        ] + utf16_lossy(units.skip(2))
    } else if is_high_surrogate(units[0]) || is_low_surrogate(units[0]) {
        seq!['\u{FFFD}'] + utf16_lossy(units.skip(1))
    } else {
        seq![(units[0] as u32) as char] + utf16_lossy(units.skip(1))
    }
}

/// What `encoding_rs::GB18030.decode(bytes)` gives as text: the WHATWG
/// "decode" of `bytes` as GB18030, with BOM sniffing and U+FFFD in place of
/// malformed sequences.
pub uninterp spec fn gb18030_decoded(bytes: Seq<u8>) -> Seq<char>;

/// Calls `String::from_utf16_lossy`, which decodes UTF-16 and puts U+FFFD in
/// place of each unpaired surrogate.
#[verifier::external_body]
fn from_utf16_lossy(units: &[u16]) -> (s: String)
    ensures
        s@ == utf16_lossy(units@),
{
    String::from_utf16_lossy(units)
}

/// Calls `std::str::from_utf8`: it succeeds exactly on valid UTF-8, and the
/// text is what the bytes encode.
#[verifier::external_body]
fn from_utf8(bytes: &[u8]) -> (s: Option<String>)
    ensures
        s is Some <==> valid_utf8(bytes@),
        s matches Some(t) ==> t@ == decode_utf8(bytes@),
{
    match std::str::from_utf8(bytes) {
        Ok(t) => Some(t.to_string()),
        Err(_) => None,
    }
}

/// Calls `encoding_rs::GB18030.decode` and keeps the text. The size
/// computation inside it overflows (and panics) only on inputs far larger
/// than the bound required here.
#[verifier::external_body]
fn gb18030_decode(bytes: &[u8]) -> (s: String)
    requires
        bytes@.len() <= usize::MAX / 8,
    ensures
        s@ == gb18030_decoded(bytes@),
{
    let (text, _, _) = encoding_rs::GB18030.decode(bytes);
    text.to_string()
}

/// The little-endian 16-bit units of `b`, a trailing odd byte left out.
pub open spec fn le_units(b: Seq<u8>) -> Seq<u16> {
    Seq::new(b.len() / 2, |k: int| (b[2 * k] as int + 256 * b[2 * k + 1] as int) as u16)
}

/// How many of the first `n` two-byte chunks of `b` have a zero second byte.
pub open spec fn zero_high_bytes(b: Seq<u8>, n: int) -> int
    decreases n,
{
    if n <= 0 {
        0
    } else {
        zero_high_bytes(b, n - 1) + if b[2 * (n - 1) + 1] == 0 {
            1int
        } else {
            0
        }
    }
}

/// How many two-byte chunks the UTF-16 guess looks at: at most 2000.
pub open spec fn sampled_chunks(b: Seq<u8>) -> int {
    if b.len() / 2 < 2000 {
        (b.len() / 2) as int
    } else {
        2000
    }
}

/// The text of a command's output `b`: UTF-16LE after a `FF FE` mark (when
/// at least 4 bytes long), UTF-16LE when more than 50 of the first 2000
/// two-byte chunks end in a zero byte, UTF-8 when valid, and GB18030
/// otherwise.
pub open spec fn decoded_output(b: Seq<u8>) -> Seq<char> {
    if b.len() >= 4 && b[0] == 0xFF && b[1] == 0xFE {
        utf16_lossy(le_units(b.skip(2)))
    } else if zero_high_bytes(b, sampled_chunks(b)) > 50 {
        utf16_lossy(le_units(b))
    } else if valid_utf8(b) {
        decode_utf8(b)
    } else {
        gb18030_decoded(b)
    }
}

fn units_from(bytes: &[u8], start: usize) -> (units: Vec<u16>)
    requires
        start <= bytes@.len(),
    ensures
        units@ == le_units(bytes@.skip(start as int)),
{
    let mut units: Vec<u16> = Vec::new();
    let mut i = start;
    let ghost b = bytes@.skip(start as int);
    while i < bytes.len() && bytes.len() - i >= 2
        invariant
            start <= i <= bytes@.len(),
            bytes@.len() == bytes.len(),
            (i - start) % 2 == 0,
            b == bytes@.skip(start as int),
            units@.len() == (i - start) / 2,
            forall|k: int| 0 <= k < units@.len() ==> #[trigger] units@[k] == (b[2 * k] as int + 256
                * b[2 * k + 1] as int) as u16,
        decreases bytes@.len() - i,
    {
        let lo = bytes[i] as u16;
        let hi = bytes[i + 1] as u16;
        let ghost k = units@.len() as int;
        assert(b[2 * k] == bytes@[i as int]);
        assert(b[2 * k + 1] == bytes@[i + 1]);
        units.push(lo + hi * 256);
        i = i + 2;
    }
    assert(units@ =~= le_units(b));
    units
}

/// Whether `decoded_output` reads `b` as GB18030: it has no UTF-16 mark,
/// does not look like UTF-16, and is not valid UTF-8.
pub open spec fn decodes_as_gb18030(b: Seq<u8>) -> bool {
    &&& !(b.len() >= 4 && b[0] == 0xFF && b[1] == 0xFE)
    &&& zero_high_bytes(b, sampled_chunks(b)) <= 50
    &&& !valid_utf8(b)
}

/// The text of the bytes that a command printed, decoded as
/// `decoded_output` says. Only GB18030 decoding needs the length bound.
pub fn decode_output(bytes: &[u8]) -> (text: String)
    requires
        decodes_as_gb18030(bytes@) ==> bytes@.len() <= usize::MAX / 8,
    ensures
        text@ == decoded_output(bytes@),
{
    if bytes.len() >= 4 && bytes[0] == 0xFF && bytes[1] == 0xFE {
        let units = units_from(bytes, 2);
        return from_utf16_lossy(units.as_slice());
    }
    let chunks: usize = if bytes.len() / 2 < 2000 {
        bytes.len() / 2
    } else {
        2000
    };
    let mut likely_utf16le: usize = 0;
    let mut k: usize = 0;
    while k < chunks
        invariant
            k <= chunks,
            chunks == sampled_chunks(bytes@),
            chunks * 2 <= bytes@.len(),
            likely_utf16le == zero_high_bytes(bytes@, k as int),
            likely_utf16le <= k,
        decreases chunks - k,
    {
        if bytes[2 * k + 1] == 0 {
            likely_utf16le = likely_utf16le + 1;
        }
        k = k + 1;
    }
    if likely_utf16le > 50 {
        let units = units_from(bytes, 0);
        assert(bytes@.skip(0) == bytes@);
        return from_utf16_lossy(units.as_slice());
    }
    match from_utf8(bytes) {
        Some(s) => s,
        None => gb18030_decode(bytes),
    }
}

/// A text written as UTF-8 reads back as itself, unless more than 50 of its
/// first 2000 byte pairs end in a zero byte (it then reads as UTF-16).
pub proof fn law_utf8_text_roundtrip(text: Seq<char>)
    requires
        zero_high_bytes(encode_utf8(text), sampled_chunks(encode_utf8(text))) <= 50,
    ensures
        decoded_output(encode_utf8(text)) == text,
{
    let b = encode_utf8(text);
    encode_utf8_valid_utf8(text);
    encode_utf8_decode_utf8(text);
    if b.len() > 0 {
        assert(valid_first_scalar(b));
        assert(b[0] != 0xFF);
    }
}

/// The bytes of an ASCII text written as UTF-16LE without a byte-order mark:
/// each character's code, then a zero byte.
pub open spec fn ascii_utf16le(text: Seq<char>) -> Seq<u8> {
    Seq::new(2 * text.len(), |i: int| if i % 2 == 0 { (text[i / 2] as u32) as u8 } else { 0u8 })
}

/// The second byte of the `k`-th two-byte chunk of `b`.
spec fn high_byte(b: Seq<u8>, k: int) -> u8 {
    b[2 * k + 1]
}

proof fn lemma_all_high_bytes_zero(b: Seq<u8>, n: int)
    requires
        0 <= n,
        2 * n <= b.len(),
        forall|k: int| 0 <= k < n ==> #[trigger] high_byte(b, k) == 0,
    ensures
        zero_high_bytes(b, n) == n,
    decreases n,
{
    if n > 0 {
        lemma_all_high_bytes_zero(b, n - 1);
        assert(high_byte(b, n - 1) == 0);
    }
}

proof fn lemma_ascii_units(text: Seq<char>, units: Seq<u16>)
    requires
        units.len() == text.len(),
        forall|k: int| 0 <= k < text.len() ==> (#[trigger] text[k] as u32) < 128,
        forall|k: int| 0 <= k < text.len() ==> (#[trigger] units[k]) as u32 == text[k] as u32,
    ensures
        utf16_lossy(units) == text,
    decreases text.len(),
{
    if text.len() > 0 {
        lemma_ascii_units(text.skip(1), units.skip(1));
        assert(units[0] as u32 == text[0] as u32);
        char_u32_cast(text[0], units[0] as u32);
        assert(seq![text[0]] + text.skip(1) == text);
    }
}

/// More than 50 ASCII characters written as UTF-16LE without a byte-order
/// mark read back as themselves.
pub proof fn law_utf16_ascii_roundtrip(text: Seq<char>)
    requires
        text.len() > 50,
        forall|k: int| 0 <= k < text.len() ==> (#[trigger] text[k] as u32) < 128,
    ensures
        decoded_output(ascii_utf16le(text)) == text,
{
    let b = ascii_utf16le(text);
    let x0 = text[0] as u32;
    assert(b[0] == x0 as u8);
    assert(x0 < 128 ==> (x0 as u8) < 128) by (bit_vector);
    let n = sampled_chunks(b);
    assert forall|k: int| 0 <= k < n implies #[trigger] high_byte(b, k) == 0 by {
        assert((2 * k + 1) % 2 == 1);
    }
    lemma_all_high_bytes_zero(b, n);
    let units = le_units(b);
    assert forall|k: int| 0 <= k < text.len() implies (#[trigger] units[k]) as u32 == text[k] as u32 by {
        assert((2 * k) % 2 == 0);
        assert((2 * k) / 2 == k);
        assert((2 * k + 1) % 2 == 1);
        let x = text[k] as u32;
        assert(b[2 * k] == x as u8);
        assert(b[2 * k + 1] == 0);
        assert(x < 128 ==> (x as u8) as u32 == x) by (bit_vector);
    }
    lemma_ascii_units(text, units);
}

} // verus!
