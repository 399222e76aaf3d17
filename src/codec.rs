use vstd::prelude::*;
use vstd::utf8::valid_utf8;

verus! {

/// The byte `%`, which opens an escape.
pub const PERCENT: u8 = 37;

/// Why a raw path segment could not be decoded into a key.
#[derive(Debug, Clone, Copy, PartialEq, Eq, Structural)]
pub enum DecodeError {
    /// A `%` that is not followed by two hexadecimal digits.
    InvalidEncoding,
    /// The segment decodes to the empty string.
    Empty,
}

pub open spec fn is_hex_digit(b: u8) -> bool {
    (48u8 <= b && b <= 57u8) || (97u8 <= b && b <= 102u8) || (65u8 <= b && b <= 70u8)
}

pub open spec fn hex_value(b: u8) -> int {
    if 48u8 <= b && b <= 57u8 {
        b - 48u8
    } else if 97u8 <= b && b <= 102u8 {
        b - 97u8 + 10
    } else {
        b - 65u8 + 10
    }
}

/// The upper-case hexadecimal digit for a value below 16.
pub open spec fn hex_digit(d: int) -> u8 {
    if d < 10 {
        (d + 48u8) as u8
    } else {
        (d - 10 + 65u8) as u8
    }
}

/// Every `%` in `s` starts an escape of two hexadecimal digits.
pub open spec fn escapes_ok(s: Seq<u8>) -> bool
    decreases s.len(),
{
    if s.len() == 0 {
        true
    } else if s[0] == PERCENT {
        s.len() >= 3 && is_hex_digit(s[1]) && is_hex_digit(s[2]) && escapes_ok(s.skip(3))
    } else {
        escapes_ok(s.skip(1))
    }
}

/// The bytes that `s` stands for, each escape `%XY` read as the byte 0xXY.
pub open spec fn decoded(s: Seq<u8>) -> Seq<u8>
    decreases s.len(),
{
    if s.len() == 0 {
        Seq::empty()
    } else if s[0] == PERCENT && s.len() >= 3 {
        seq![(hex_value(s[1]) * 16 + hex_value(s[2])) as u8] + decoded(s.skip(3))
    } else {
        seq![s[0]] + decoded(s.skip(1))
    }
}

/// Bytes that stand for themselves in a path segment: letters, digits and `-._~`.
pub open spec fn is_unreserved(b: u8) -> bool {
    (48u8 <= b && b <= 57u8) || (97u8 <= b && b <= 122u8) || (65u8 <= b && b <= 90u8) || b
        == 45u8 || b == 46u8 || b == 95u8 || b == 126u8
}

pub open spec fn encoded_byte(b: u8) -> Seq<u8> {
    if is_unreserved(b) {
        seq![b]
    } else {
        seq![PERCENT, hex_digit(b as int / 16), hex_digit(b as int % 16)]
    }
}

/// `k` as a path segment: unreserved bytes as they are, every other byte escaped.
pub open spec fn encoded(k: Seq<u8>) -> Seq<u8>
    decreases k.len(),
{
    if k.len() == 0 {
        Seq::empty()
    } else {
        encoded_byte(k[0]) + encoded(k.skip(1))
    }
}

/// What decoding a segment yields: the key, or the first reason it is refused.
pub open spec fn decode_result(s: Seq<u8>) -> Result<Seq<u8>, DecodeError> {
    if !escapes_ok(s) {
        Err(DecodeError::InvalidEncoding)
    } else if decoded(s).len() == 0 {
        Err(DecodeError::Empty)
    } else {
        Ok(decoded(s))
    }
}

fn hex_value_exec(b: u8) -> (r: u8)
    requires
        is_hex_digit(b),
    ensures
        r as int == hex_value(b),
        r < 16,
{
    if 48u8 <= b && b <= 57u8 {
        b - 48u8
    } else if 97u8 <= b && b <= 102u8 {
        b - 97u8 + 10
    } else {
        b - 65u8 + 10
    }
}

fn is_hex_digit_exec(b: u8) -> (r: bool)
    ensures
        r == is_hex_digit(b),
{
    (48u8 <= b && b <= 57u8) || (97u8 <= b && b <= 102u8) || (65u8 <= b && b <= 70u8)
}

/// Percent-decodes one raw path segment into a key.
pub fn decode(seg: &[u8]) -> (r: Result<Vec<u8>, DecodeError>)
    ensures
        match r {
            Ok(k) => decode_result(seg@) == Ok::<Seq<u8>, DecodeError>(k@),
            Err(e) => decode_result(seg@) == Err::<Seq<u8>, DecodeError>(e),
        },
{
    let mut out: Vec<u8> = Vec::new();
    let mut i: usize = 0;
    assert(seg@.skip(0) =~= seg@);
    while i < seg.len()
        invariant
            i <= seg@.len(),
            out@ + decoded(seg@.skip(i as int)) == decoded(seg@),
            escapes_ok(seg@.skip(i as int)) == escapes_ok(seg@),
        decreases seg@.len() - i,
    {
        let ghost rest = seg@.skip(i as int);
        if seg[i] == PERCENT {
            if seg.len() - i < 3 || !is_hex_digit_exec(seg[i + 1]) || !is_hex_digit_exec(
                seg[i + 2],
            ) {
                return Err(DecodeError::InvalidEncoding);
            }
            let v = hex_value_exec(seg[i + 1]) * 16 + hex_value_exec(seg[i + 2]);
            assert(rest.skip(3) =~= seg@.skip(i + 3));
            out.push(v);
            i = i + 3;
            assert(out@ + decoded(seg@.skip(i as int)) =~= decoded(seg@));
        } else {
            assert(rest.skip(1) =~= seg@.skip(i + 1));
            out.push(seg[i]);
            i = i + 1;
            assert(out@ + decoded(seg@.skip(i as int)) =~= decoded(seg@));
        }
    }
    assert(seg@.skip(i as int) =~= Seq::<u8>::empty());
    assert(out@ =~= decoded(seg@));
    if out.len() == 0 {
        return Err(DecodeError::Empty);
    }
    Ok(out)
}

fn hex_digit_exec(d: u8) -> (r: u8)
    requires
        d < 16,
    ensures
        r == hex_digit(d as int),
{
    if d < 10 {
        d + 48
    } else {
        d - 10 + 65
    }
}

fn is_unreserved_exec(b: u8) -> (r: bool)
    ensures
        r == is_unreserved(b),
{
    (48u8 <= b && b <= 57u8) || (97u8 <= b && b <= 122u8) || (65u8 <= b && b <= 90u8) || b == 45u8
        || b == 46u8 || b == 95u8 || b == 126u8
}

/// Percent-encodes a key as one path segment.
pub fn encode(key: &[u8]) -> (r: Vec<u8>)
    ensures
        r@ == encoded(key@),
{
    let mut out: Vec<u8> = Vec::new();
    let mut i: usize = 0;
    assert(key@.skip(0) =~= key@);
    while i < key.len()
        invariant
            i <= key@.len(),
            out@ + encoded(key@.skip(i as int)) == encoded(key@),
        decreases key@.len() - i,
    {
        let ghost rest = key@.skip(i as int);
        assert(rest.skip(1) =~= key@.skip(i + 1));
        let b = key[i];
        if is_unreserved_exec(b) {
            out.push(b);
        } else {
            out.push(PERCENT);
            out.push(hex_digit_exec(b / 16));
            out.push(hex_digit_exec(b % 16));
        }
        i = i + 1;
        assert(out@ + encoded(key@.skip(i as int)) =~= encoded(key@));
    }
    assert(key@.skip(i as int) =~= Seq::<u8>::empty());
    assert(out@ =~= encoded(key@));
    out
}

proof fn lemma_hex_round_trip(b: u8)
    ensures
        is_hex_digit(hex_digit(b as int / 16)),
        is_hex_digit(hex_digit(b as int % 16)),
        hex_value(hex_digit(b as int / 16)) * 16 + hex_value(hex_digit(b as int % 16)) == b,
{
}

proof fn lemma_decoded_encoded(k: Seq<u8>)
    ensures
        escapes_ok(encoded(k)),
        decoded(encoded(k)) == k,
    decreases k.len(),
{
    if k.len() > 0 {
        let rest = encoded(k.skip(1));
        lemma_decoded_encoded(k.skip(1));
        let e = encoded(k);
        assert(e == encoded_byte(k[0]) + rest);
        if is_unreserved(k[0]) {
            assert(e.skip(1) =~= rest);
        } else {
            lemma_hex_round_trip(k[0]);
            assert(e.skip(3) =~= rest);
        }
        assert(decoded(e) =~= k);
    }
}

/// Decoding undoes encoding: every non-empty key, once encoded, decodes back to itself.
pub proof fn law_decode_encode(k: Seq<u8>)
    requires
        k.len() > 0,
    ensures
        decode_result(encoded(k)) == Ok::<Seq<u8>, DecodeError>(k),
{
    lemma_decoded_encoded(k);
}

/// Relies on std::str::from_utf8: it succeeds exactly when the bytes are valid UTF-8.
#[verifier::external_body]
pub(crate) fn utf8_valid(b: &[u8]) -> (r: bool)
    ensures
        r == valid_utf8(b@),
{
    std::str::from_utf8(b).is_ok()
}

} // verus!
