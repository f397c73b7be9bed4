//! Turning the raw bytes of a configuration value into a typed value.

use vstd::prelude::*;
use vstd::utf8::{decode_utf8, encode_utf8, encode_utf8_decode_utf8, valid_utf8};
use crate::text::{bytes_eq, digits_value, is_digit, lemma_digits_value_monotone, to_vec};

verus! {

/// The types that a value can be asked as.
#[derive(Clone, Copy, Debug, PartialEq, Eq, Hash, Structural)]
pub enum ValueKind {
    /// The bytes as they are.
    Bytes,
    /// A truth value.
    Boolean,
    /// A whole number, possibly with a unit.
    Integer,
    /// Text in UTF-8.
    Text,
}

/// A value is present but is no value of the requested type.
#[derive(Clone, Debug, PartialEq, Eq, Hash)]
pub struct DecodeError {
    /// The bytes of the value.
    pub raw: Vec<u8>,
    /// The type that was asked for.
    pub target: ValueKind,
}

/// A decode error as a mathematical value.
#[verifier::ext_equal]
pub struct DecodeErrorView {
    pub raw: Seq<u8>,
    pub target: ValueKind,
}

impl View for DecodeError {
    type V = DecodeErrorView;

    open spec fn view(&self) -> DecodeErrorView {
        DecodeErrorView { raw: self.raw@, target: self.target }
    }
}

/// A type that configuration values can be read as.
pub trait Decode: Sized + View {
    /// The name of the type in errors.
    spec fn kind() -> ValueKind;

    /// The value that the bytes stand for, if they stand for one.
    spec fn decoded(raw: Seq<u8>) -> Option<Self::V>;

    /// Reads the bytes as a value of this type. On failure the error holds the bytes and
    /// names the type.
    fn decode(raw: &[u8]) -> (r: Result<Self, DecodeError>)
        ensures
            match r {
                Ok(v) => Self::decoded(raw@) == Some(v@),
                Err(e) => Self::decoded(raw@) is None && e@ == (DecodeErrorView {
                    raw: raw@,
                    target: Self::kind(),
                }),
            },
    ;
}

impl Decode for Vec<u8> {
    open spec fn kind() -> ValueKind {
        ValueKind::Bytes
    }

    open spec fn decoded(raw: Seq<u8>) -> Option<Seq<u8>> {
        Some(raw)
    }

    fn decode(raw: &[u8]) -> (r: Result<Vec<u8>, DecodeError>) {
        Ok(to_vec(raw))
    }
}

/// An ASCII letter in lower case; any other byte as it is.
pub open spec fn lower(b: u8) -> u8 {
    if 65 <= b <= 90 {
        (b + 32) as u8
    } else {
        b
    }
}

/// The bytes with their ASCII letters in lower case.
pub open spec fn folded(raw: Seq<u8>) -> Seq<u8> {
    raw.map_values(|b: u8| lower(b))
}

/// The truth value that the bytes stand for: `true`, `yes`, `on` and `1` are true;
/// `false`, `no`, `off`, `0` and the empty value are false; letters in either case.
pub open spec fn boolean_of(raw: Seq<u8>) -> Option<bool> {
    let word = folded(raw);
    if word == seq![116u8, 114, 117, 101] || word == seq![121u8, 101, 115] || word == seq![
        111u8,
        110,
    ] || word == seq![49u8] {
        Some(true)
    } else if word == seq![102u8, 97, 108, 115, 101] || word == seq![110u8, 111] || word == seq![
        111u8,
        102,
        102,
    ] || word == seq![48u8] || word == Seq::<u8>::empty() {
        Some(false)
    } else {
        None
    }
}

/// The bytes with their ASCII letters in lower case.
fn fold(raw: &[u8]) -> (r: Vec<u8>)
    ensures
        r@ == folded(raw@),
{
    let mut out: Vec<u8> = Vec::new();
    let mut i: usize = 0;
    while i < raw.len()
        invariant
            i <= raw@.len(),
            out@ == folded(raw@.take(i as int)),
        decreases raw@.len() - i,
    {
        let b = raw[i];
        let l: u8 = if 65 <= b && b <= 90 {
            b + 32
        } else {
            b
        };
        out.push(l);
        assert(raw@.take(i + 1) == raw@.take(i as int).push(b));
        assert(folded(raw@.take(i + 1)) == folded(raw@.take(i as int)).push(lower(b)));
        i = i + 1;
    }
    assert(raw@.take(i as int) == raw@);
    out
}

impl Decode for bool {
    open spec fn kind() -> ValueKind {
        ValueKind::Boolean
    }

    open spec fn decoded(raw: Seq<u8>) -> Option<bool> {
        boolean_of(raw)
    }

    fn decode(raw: &[u8]) -> (r: Result<bool, DecodeError>) {
        let word = fold(raw);
        let w = word.as_slice();
        let (w_true, w_yes, w_on, w_one) = (
            vec![116u8, 114, 117, 101],
            vec![121u8, 101, 115],
            vec![111u8, 110],
            vec![49u8],
        );
        let (w_false, w_no, w_off, w_zero) = (
            vec![102u8, 97, 108, 115, 101],
            vec![110u8, 111],
            vec![111u8, 102, 102],
            vec![48u8],
        );
        proof {
            assert(w_true@ =~= seq![116u8, 114, 117, 101]);
            assert(w_yes@ =~= seq![121u8, 101, 115]);
            assert(w_on@ =~= seq![111u8, 110]);
            assert(w_one@ =~= seq![49u8]);
            assert(w_false@ =~= seq![102u8, 97, 108, 115, 101]);
            assert(w_no@ =~= seq![110u8, 111]);
            assert(w_off@ =~= seq![111u8, 102, 102]);
            assert(w_zero@ =~= seq![48u8]);
            assert(w@.len() == 0 ==> w@ =~= Seq::<u8>::empty());
        }
        if bytes_eq(w, w_true.as_slice()) || bytes_eq(w, w_yes.as_slice()) || bytes_eq(
            w,
            w_on.as_slice(),
        ) || bytes_eq(w, w_one.as_slice()) {
            Ok(true)
        } else if bytes_eq(w, w_false.as_slice()) || bytes_eq(w, w_no.as_slice()) || bytes_eq(
            w,
            w_off.as_slice(),
        ) || bytes_eq(w, w_zero.as_slice()) || w.len() == 0 {
            Ok(false)
        } else {
            Err(DecodeError { raw: to_vec(raw), target: ValueKind::Boolean })
        }
    }
}

/// The factor that a unit stands for: `k` for 1024, `m` for 1024 times that, `g` for 1024
/// times that again, in either case.
pub open spec fn unit_of(b: u8) -> Option<int> {
    if b == 107 || b == 75 {
        Some(1024)
    } else if b == 109 || b == 77 {
        Some(1048576)
    } else if b == 103 || b == 71 {
        Some(1073741824)
    } else {
        None
    }
}

/// The bytes without a sign in front of them.
pub open spec fn unsigned_part(raw: Seq<u8>) -> Seq<u8> {
    if raw.len() > 0 && (raw[0] == 45 || raw[0] == 43) {
        raw.skip(1)
    } else {
        raw
    }
}

/// The digits of a number: the unsigned part without a unit at its end.
pub open spec fn digits_part(raw: Seq<u8>) -> Seq<u8> {
    let unsigned = unsigned_part(raw);
    if unsigned.len() > 0 && unit_of(unsigned.last()) is Some {
        unsigned.drop_last()
    } else {
        unsigned
    }
}

/// The factor of a number: that of the unit at its end, or one.
pub open spec fn factor_part(raw: Seq<u8>) -> int {
    let unsigned = unsigned_part(raw);
    if unsigned.len() > 0 && unit_of(unsigned.last()) is Some {
        unit_of(unsigned.last()).unwrap()
    } else {
        1
    }
}

/// The number that the bytes write, whatever its size: the digits times the factor, with
/// the sign.
pub open spec fn integer_value(raw: Seq<u8>) -> int {
    let magnitude = digits_value(digits_part(raw)) * factor_part(raw);
    if raw.len() > 0 && raw[0] == 45 {
        -magnitude
    } else {
        magnitude
    }
}

/// The whole number that the bytes stand for: an optional sign, decimal digits, at least
/// one, and an optional unit; the number must be one that 64 bits hold.
pub open spec fn integer_of(raw: Seq<u8>) -> Option<i64> {
    let digits = digits_part(raw);
    if digits.len() > 0 && (forall|i: int| 0 <= i < digits.len() ==> is_digit(#[trigger] digits[i]))
        && i64::MIN <= integer_value(raw) <= i64::MAX {
        Some(integer_value(raw) as i64)
    } else {
        None
    }
}

impl Decode for i64 {
    open spec fn kind() -> ValueKind {
        ValueKind::Integer
    }

    open spec fn decoded(raw: Seq<u8>) -> Option<i64> {
        integer_of(raw)
    }

    fn decode(raw: &[u8]) -> (r: Result<i64, DecodeError>) {
        let negative = raw.len() > 0 && raw[0] == 45;
        let start: usize = if raw.len() > 0 && (raw[0] == 45 || raw[0] == 43) {
            1
        } else {
            0
        };
        let mut end: usize = raw.len();
        let mut factor: u64 = 1;
        if end > start {
            let last = raw[end - 1];
            if last == 107 || last == 75 {
                factor = 1024;
                end = end - 1;
            } else if last == 109 || last == 77 {
                factor = 1024 * 1024;
                end = end - 1;
            } else if last == 103 || last == 71 {
                factor = 1024 * 1024 * 1024;
                end = end - 1;
            }
        }
        let ghost digits = digits_part(raw@);
        proof {
            let unsigned = unsigned_part(raw@);
            assert(unsigned == raw@.subrange(start as int, raw@.len() as int));
            assert(unsigned.len() > 0 ==> unsigned.last() == raw@[raw@.len() - 1]);
            assert(digits == raw@.subrange(start as int, end as int));
            assert(factor == factor_part(raw@));
        }
        if end == start {
            return Err(DecodeError { raw: to_vec(raw), target: ValueKind::Integer });
        }
        let mut acc: u64 = 0;
        let mut i: usize = start;
        assert(digits.take(0) == Seq::<u8>::empty());
        while i < end
            invariant
                start <= i <= end <= raw@.len(),
                digits == raw@.subrange(start as int, end as int),
                digits == digits_part(raw@),
                factor_part(raw@) >= 1,
                forall|k: int| 0 <= k < i - start ==> is_digit(#[trigger] digits[k]),
                acc == digits_value(digits.take(i - start)),
                acc <= 0x8000_0000_0000_0000,
            decreases end - i,
        {
            let b = raw[i];
            assert(digits[i - start] == b);
            if b < 48 || b > 57 {
                return Err(DecodeError { raw: to_vec(raw), target: ValueKind::Integer });
            }
            let d: u64 = (b - 48) as u64;
            proof {
                assert(digits.take(i - start + 1).drop_last() == digits.take(i - start));
                assert(digits.take(i - start + 1).last() == b);
            }
            if acc > (0x8000_0000_0000_0000 - d) / 10 {
                proof {
                    if forall|k: int| 0 <= k < digits.len() ==> is_digit(#[trigger] digits[k]) {
                        lemma_digits_value_monotone(digits, i - start + 1);
                        assert(digits_value(digits) > 0x8000_0000_0000_0000);
                        assert(digits_value(digits) * factor_part(raw@) > 0x8000_0000_0000_0000)
                            by (nonlinear_arith)
                            requires
                                digits_value(digits) > 0x8000_0000_0000_0000,
                                factor_part(raw@) >= 1,
                        ;
                    }
                }
                return Err(DecodeError { raw: to_vec(raw), target: ValueKind::Integer });
            }
            acc = acc * 10 + d;
            i = i + 1;
        }
        assert(digits.take(end - start) == digits);
        assert((acc as u128) * (factor as u128) <= 0x8000_0000_0000_0000 * 0x4000_0000)
            by (nonlinear_arith)
            requires
                acc <= 0x8000_0000_0000_0000,
                factor <= 0x4000_0000,
        ;
        let magnitude: u128 = (acc as u128) * (factor as u128);
        assert(magnitude == digits_value(digits) * factor_part(raw@)) by (nonlinear_arith)
            requires
                magnitude == (acc as u128) * (factor as u128),
                acc == digits_value(digits),
                factor == factor_part(raw@),
                acc <= 0x8000_0000_0000_0000,
                factor <= 1024 * 1024 * 1024,
        ;
        if negative {
            if magnitude > 0x8000_0000_0000_0000 {
                return Err(DecodeError { raw: to_vec(raw), target: ValueKind::Integer });
            }
            let value: i128 = -(magnitude as i128);
            Ok(value as i64)
        } else {
            if magnitude > 0x7fff_ffff_ffff_ffff {
                return Err(DecodeError { raw: to_vec(raw), target: ValueKind::Integer });
            }
            Ok(magnitude as i64)
        }
    }
}

/// Calls `String::from_utf8` of std and drops its error.
///
/// Believed, not proved: there is a string exactly if the bytes are valid UTF-8, and the
/// string is made of these bytes.
#[verifier::external_body]
fn string_from_utf8(bytes: Vec<u8>) -> (r: Option<String>)
    ensures
        r is Some == valid_utf8(bytes@),
        r matches Some(s) ==> encode_utf8(s@) == bytes@,
{
    String::from_utf8(bytes).ok()
}

impl Decode for String {
    open spec fn kind() -> ValueKind {
        ValueKind::Text
    }

    open spec fn decoded(raw: Seq<u8>) -> Option<Seq<char>> {
        if valid_utf8(raw) {
            Some(decode_utf8(raw))
        } else {
            None
        }
    }

    fn decode(raw: &[u8]) -> (r: Result<String, DecodeError>) {
        match string_from_utf8(to_vec(raw)) {
            Some(s) => {
                proof {
                    encode_utf8_decode_utf8(s@);
                }
                Ok(s)
            },
            None => Err(DecodeError { raw: to_vec(raw), target: ValueKind::Text }),
        }
    }
}

} // verus!
