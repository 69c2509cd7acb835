//! Bytes on the wire: UTF-8 scalars and decimal numbers.

use vstd::prelude::*;
use vstd::utf8::{
    decode_first_scalar, encode_scalar, is_scalar, length_of_first_scalar, valid_first_scalar,
};

verus! {

/// `char::from_u32` of std: the scalar value with that number, or `None` where
/// the number is a surrogate or lies above U+10FFFF.
pub assume_specification[ char::from_u32 ](i: u32) -> (r: Option<char>)
    ensures
        r == if is_scalar(i) {
            Some(i as char)
        } else {
            None::<char>
        },
;

/// Appends `bytes` to `out`.
pub fn push_bytes(out: &mut Vec<u8>, bytes: &[u8])
    ensures
        final(out)@ == old(out)@ + bytes@,
{
    let n = bytes.len();
    let mut i: usize = 0;
    while i < n
        invariant
            i <= n,
            n == bytes@.len(),
            out@ == old(out)@ + bytes@.take(i as int),
        decreases n - i,
    {
        out.push(bytes[i]);
        i = i + 1;
        assert(out@ =~= old(out)@ + bytes@.take(i as int));
    }
    assert(bytes@.take(n as int) =~= bytes@);
}

/// The characters of a string, in order.
pub fn chars_of(s: &str) -> (v: Vec<char>)
    ensures
        v@ == s@,
{
    let mut v: Vec<char> = Vec::new();
    for c in it: s.chars()
        invariant
            v@ == it.seq().take(it.index()),
            it.seq() == s@,
    {
        v.push(c);
    }
    v
}

/// The UTF-8 bytes of one character.
pub open spec fn utf8_of(c: char) -> Seq<u8> {
    encode_scalar(c as u32)
}

/// Appends the UTF-8 bytes of `c` to `out`.
pub fn push_utf8(out: &mut Vec<u8>, c: char)
    ensures
        final(out)@ == old(out)@ + utf8_of(c),
{
    let v: u32 = c as u32;
    if v <= 0x7F {
        let b0: u8 = (v & 0x7F) as u8;
        out.push(b0);
    } else if v <= 0x7FF {
        let b0: u8 = 0xC0 | ((v >> 6) & 0x1F) as u8;
        let b1: u8 = 0x80 | (v & 0x3F) as u8;
        out.push(b0);
        out.push(b1);
    } else if v <= 0xFFFF {
        let b0: u8 = 0xE0 | ((v >> 12) & 0x0F) as u8;
        let b1: u8 = 0x80 | ((v >> 6) & 0x3F) as u8;
        let b2: u8 = 0x80 | (v & 0x3F) as u8;
        out.push(b0);
        out.push(b1);
        out.push(b2);
    } else {
        let b0: u8 = 0xF0 | ((v >> 18) & 0x7) as u8;
        let b1: u8 = 0x80 | ((v >> 12) & 0x3F) as u8;
        let b2: u8 = 0x80 | ((v >> 6) & 0x3F) as u8;
        let b3: u8 = 0x80 | (v & 0x3F) as u8;
        out.push(b0);
        out.push(b1);
        out.push(b2);
        out.push(b3);
    }
}

/// The bytes of `bytes` from index `at` on.
pub open spec fn tail_of(bytes: Seq<u8>, at: int) -> Seq<u8> {
    bytes.subrange(at, bytes.len() as int)
}

/// Decodes the UTF-8 scalar that starts at index `at`, with its length in
/// bytes. `None` where no well-formed scalar starts there.
pub fn decode_scalar(bytes: &[u8], at: usize) -> (r: Option<(char, usize)>)
    requires
        at < bytes@.len(),
    ensures
        r is Some <==> valid_first_scalar(tail_of(bytes@, at as int)),
        r matches Some((c, n)) ==> c as u32 == decode_first_scalar(tail_of(bytes@, at as int))
            && n == length_of_first_scalar(tail_of(bytes@, at as int)) && 1 <= n <= 4 && at + n
            <= bytes@.len(),
{
    let len = bytes.len();
    let b0: u8 = bytes[at];
    if b0 <= 0x7f {
        let v: u32 = (b0 & 0x7F) as u32;
        assert(v <= 0x7f) by (bit_vector)
            requires
                v == (b0 & 0x7F) as u32,
        ;
        match char::from_u32(v) {
            Some(c) => Some((c, 1)),
            None => None,
        }
    } else if 0xc0 <= b0 && b0 <= 0xdf {
        if len - at < 2 {
            return None;
        }
        let b1: u8 = bytes[at + 1];
        if !(0x80 <= b1 && b1 <= 0xbf) {
            return None;
        }
        let v: u32 = (((b0 & 0x1F) as u32) << 6) | ((b1 & 0x3f) as u32);
        assert(v <= 0x7ff) by (bit_vector)
            requires
                v == (((b0 & 0x1F) as u32) << 6) | ((b1 & 0x3f) as u32),
        ;
        if v < 0x80 {
            return None;
        }
        match char::from_u32(v) {
            Some(c) => Some((c, 2)),
            None => None,
        }
    } else if 0xe0 <= b0 && b0 <= 0xef {
        if len - at < 3 {
            return None;
        }
        let b1: u8 = bytes[at + 1];
        let b2: u8 = bytes[at + 2];
        if !(0x80 <= b1 && b1 <= 0xbf) || !(0x80 <= b2 && b2 <= 0xbf) {
            return None;
        }
        let v: u32 = (((b0 & 0x0F) as u32) << 12) | (((b1 & 0x3f) as u32) << 6) | ((b2
            & 0x3f) as u32);
        assert(v <= 0xffff) by (bit_vector)
            requires
                v == (((b0 & 0x0F) as u32) << 12) | (((b1 & 0x3f) as u32) << 6) | ((b2
                    & 0x3f) as u32),
        ;
        if v < 0x800 || (0xD800 <= v && v <= 0xDFFF) {
            return None;
        }
        match char::from_u32(v) {
            Some(c) => Some((c, 3)),
            None => None,
        }
    } else if 0xf0 <= b0 && b0 <= 0xf7 {
        if len - at < 4 {
            return None;
        }
        let b1: u8 = bytes[at + 1];
        let b2: u8 = bytes[at + 2];
        let b3: u8 = bytes[at + 3];
        if !(0x80 <= b1 && b1 <= 0xbf) || !(0x80 <= b2 && b2 <= 0xbf) || !(0x80 <= b3 && b3
            <= 0xbf) {
            return None;
        }
        let v: u32 = (((b0 & 0x07) as u32) << 18) | (((b1 & 0x3f) as u32) << 12) | (((b2
            & 0x3f) as u32) << 6) | ((b3 & 0x3f) as u32);
        if v < 0x10000 || v > 0x10ffff {
            return None;
        }
        match char::from_u32(v) {
            Some(c) => Some((c, 4)),
            None => None,
        }
    } else {
        None
    }
}

/// The decimal digits of `n`, most significant first.
pub open spec fn decimal_of(n: nat) -> Seq<u8>
    decreases n,
{
    if n < 10 {
        seq![(48 + n) as u8]
    } else {
        decimal_of(n / 10).push((48 + n % 10) as u8)
    }
}

/// Appends the decimal digits of `n` to `out`.
pub fn push_decimal(out: &mut Vec<u8>, n: u64)
    ensures
        final(out)@ == old(out)@ + decimal_of(n as nat),
    decreases n,
{
    if n >= 10 {
        push_decimal(out, n / 10);
    }
    let d: u8 = (n % 10) as u8;
    out.push(48 + d);
}

} // verus!
