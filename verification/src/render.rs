//! Writing text into a buffer of bytes: strings, numbers, repetition and hexadecimal.

use vstd::prelude::*;
use vstd::string::StringSliceAdditionalSpecFns;
use vstd::utf8::{encode_utf8, encode_utf8_decode_utf8};
use crate::text::bytes_eq;

verus! {

/// The bytes of a string.
pub open spec fn bytes_of(s: String) -> Seq<u8> {
    encode_utf8(s@)
}

/// Whether two strings hold the same characters.
pub fn str_eq(a: &str, b: &str) -> (r: bool)
    ensures
        r == (a@ == b@),
{
    proof {
        encode_utf8_decode_utf8(a@);
        encode_utf8_decode_utf8(b@);
    }
    bytes_eq(a.as_bytes(), b.as_bytes())
}

/// Writes `bytes` at the end of `out`.
pub fn append(out: &mut Vec<u8>, bytes: &[u8])
    ensures
        final(out)@ == old(out)@ + bytes@,
{
    let mut i: usize = 0;
    while i < bytes.len()
        invariant
            i <= bytes@.len(),
            out@ == old(out)@ + bytes@.take(i as int),
        decreases bytes@.len() - i,
    {
        out.push(bytes[i]);
        assert(bytes@.take(i + 1) == bytes@.take(i as int).push(bytes@[i as int]));
        i = i + 1;
    }
    assert(bytes@.take(i as int) == bytes@);
}

/// Writes the bytes of `s` at the end of `out`.
pub fn append_str(out: &mut Vec<u8>, s: &str)
    ensures
        final(out)@ == old(out)@ + s.spec_bytes(),
{
    append(out, s.as_bytes());
}

/// `n` times the byte `b`.
pub open spec fn repeated(b: u8, n: nat) -> Seq<u8> {
    Seq::new(n, |i: int| b)
}

/// Writes `n` times the byte `b` at the end of `out`.
pub fn append_repeated(out: &mut Vec<u8>, b: u8, n: usize)
    ensures
        final(out)@ == old(out)@ + repeated(b, n as nat),
{
    let mut i: usize = 0;
    while i < n
        invariant
            i <= n,
            out@ == old(out)@ + repeated(b, i as nat),
        decreases n - i,
    {
        out.push(b);
        assert(repeated(b, (i + 1) as nat) == repeated(b, i as nat).push(b));
        i = i + 1;
    }
}

/// The decimal digits of a number, without leading zeros.
pub open spec fn decimal(n: nat) -> Seq<u8>
    decreases n,
{
    if n < 10 {
        seq![(48 + n) as u8]
    } else {
        decimal(n / 10).push((48 + n % 10) as u8)
    }
}

/// Writes the decimal digits of `n` at the end of `out`.
pub fn append_decimal(out: &mut Vec<u8>, n: u64)
    ensures
        final(out)@ == old(out)@ + decimal(n as nat),
    decreases n,
{
    if n >= 10 {
        append_decimal(out, n / 10);
    }
    out.push(48 + (n % 10) as u8);
    assert(old(out)@ + decimal(n as nat) == if n < 10 {
        old(out)@.push((48 + n) as u8)
    } else {
        (old(out)@ + decimal((n / 10) as nat)).push((48 + n % 10) as u8)
    });
}

/// The decimal digits of a number, with zeros in front of them up to `width` digits.
pub open spec fn padded(n: nat, width: nat) -> Seq<u8> {
    if decimal(n).len() < width {
        repeated(48, (width - decimal(n).len()) as nat) + decimal(n)
    } else {
        decimal(n)
    }
}

/// Writes the decimal digits of `n` at the end of `out`, with zeros in front of them up
/// to `width` digits.
pub fn append_padded(out: &mut Vec<u8>, n: u64, width: usize)
    ensures
        final(out)@ == old(out)@ + padded(n as nat, width as nat),
{
    let mut digits: Vec<u8> = Vec::new();
    append_decimal(&mut digits, n);
    assert(digits@ == decimal(n as nat));
    if digits.len() < width {
        append_repeated(out, 48, width - digits.len());
    }
    append(out, digits.as_slice());
    assert(old(out)@ + padded(n as nat, width as nat) == if digits@.len() < width {
        old(out)@ + repeated(48, (width - digits@.len()) as nat) + digits@
    } else {
        old(out)@ + digits@
    });
}

/// A number that may be negative, as it is written in a field of `width` characters
/// filled up with zeros: the sign, if there is one, counts as one of the characters.
pub open spec fn signed_padded(n: int, width: nat) -> Seq<u8> {
    if n < 0 {
        seq![45u8] + padded((-n) as nat, if width > 0 {
            (width - 1) as nat
        } else {
            0
        })
    } else {
        padded(n as nat, width)
    }
}

/// Writes a number that may be negative at the end of `out`, in a field of `width`
/// characters filled up with zeros.
pub fn append_signed_padded(out: &mut Vec<u8>, n: i32, width: usize)
    ensures
        final(out)@ == old(out)@ + signed_padded(n as int, width as nat),
{
    if n < 0 {
        out.push(45);
        let magnitude: u64 = (-(n as i64)) as u64;
        let rest: usize = if width > 0 {
            width - 1
        } else {
            0
        };
        append_padded(out, magnitude, rest);
        assert(old(out)@.push(45u8) + padded(magnitude as nat, rest as nat) == old(out)@ + (seq![
            45u8,
        ] + padded(magnitude as nat, rest as nat)));
    } else {
        append_padded(out, n as u64, width);
    }
}

/// The hexadecimal digit of a value below sixteen, in lower case.
pub open spec fn hex_digit(v: u8) -> u8 {
    if v < 10 {
        (48 + v) as u8
    } else {
        (87 + v) as u8
    }
}

/// The first `len` hexadecimal digits of the bytes, two digits to a byte.
pub open spec fn hex_of(bytes: Seq<u8>, len: nat) -> Seq<u8> {
    Seq::new(
        if len < 2 * bytes.len() {
            len
        } else {
            2 * bytes.len()
        },
        |i: int|
            hex_digit(
                if i % 2 == 0 {
                    bytes[i / 2] / 16
                } else {
                    bytes[i / 2] % 16
                },
            ),
    )
}

/// The hexadecimal digit of a value below sixteen, in lower case.
fn to_hex_digit(v: u8) -> (r: u8)
    requires
        v < 16,
    ensures
        r == hex_digit(v),
{
    if v < 10 {
        48 + v
    } else {
        87 + v
    }
}

/// Writes the first `len` hexadecimal digits of the bytes at the end of `out`.
pub fn append_hex(out: &mut Vec<u8>, bytes: &[u8], len: usize)
    ensures
        final(out)@ == old(out)@ + hex_of(bytes@, len as nat),
{
    let mut i: usize = 0;
    while i < len && i / 2 < bytes.len()
        invariant
            i <= len,
            i <= 2 * bytes@.len(),
            out@ == old(out)@ + hex_of(bytes@, i as nat),
        decreases len - i,
    {
        let b = bytes[i / 2];
        let v: u8 = if i % 2 == 0 {
            b / 16
        } else {
            b % 16
        };
        out.push(to_hex_digit(v));
        assert(hex_of(bytes@, (i + 1) as nat) == hex_of(bytes@, i as nat).push(hex_digit(v)));
        i = i + 1;
    }
    assert(hex_of(bytes@, i as nat) == hex_of(bytes@, len as nat));
}

} // verus!
