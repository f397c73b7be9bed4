//! Byte strings: equality, prefixes, searching, the lexicographic order, and decimal
//! digits.

use vstd::prelude::*;
use vstd::slice::slice_to_vec;
use vstd::string::StringSliceAdditionalSpecFns;

verus! {

/// The strict lexicographic order on byte strings: a proper prefix comes first, otherwise
/// the first differing byte decides.
pub open spec fn bytes_lt(a: Seq<u8>, b: Seq<u8>) -> bool
    decreases a.len(),
{
    if b.len() == 0 {
        false
    } else if a.len() == 0 {
        true
    } else if a[0] != b[0] {
        a[0] < b[0]
    } else {
        bytes_lt(a.skip(1), b.skip(1))
    }
}

/// `bytes_lt` in terms of the first position at which the two strings differ: they agree
/// on `k` bytes, and then either `a` ends while `b` goes on, or `a` has the smaller byte.
pub open spec fn differ_at(a: Seq<u8>, b: Seq<u8>, k: int) -> bool {
    &&& 0 <= k <= a.len()
    &&& k <= b.len()
    &&& a.take(k) == b.take(k)
    &&& k < b.len()
    &&& k < a.len() ==> a[k] < b[k]
}

/// A witness position makes `a` smaller than `b`.
pub proof fn lemma_differ_at_implies_lt(a: Seq<u8>, b: Seq<u8>, k: int)
    requires
        differ_at(a, b, k),
    ensures
        bytes_lt(a, b),
    decreases a.len(),
{
    if k == 0 || a.len() == 0 {
    } else {
        assert(a[0] == a.take(k)[0]);
        assert(b[0] == b.take(k)[0]);
        assert(a.skip(1).take(k - 1) == a.take(k).skip(1));
        assert(b.skip(1).take(k - 1) == b.take(k).skip(1));
        lemma_differ_at_implies_lt(a.skip(1), b.skip(1), k - 1);
    }
}

/// Whenever `a` is smaller than `b` there is a witness position.
pub proof fn lemma_lt_implies_differ_at(a: Seq<u8>, b: Seq<u8>) -> (k: int)
    requires
        bytes_lt(a, b),
    ensures
        differ_at(a, b, k),
    decreases a.len(),
{
    if a.len() == 0 || a[0] != b[0] {
        assert(a.take(0) == b.take(0));
        0
    } else {
        let k = lemma_lt_implies_differ_at(a.skip(1), b.skip(1));
        assert(a.take(k + 1) == seq![a[0]] + a.skip(1).take(k));
        assert(b.take(k + 1) == seq![b[0]] + b.skip(1).take(k));
        k + 1
    }
}

/// No byte string is smaller than itself.
pub proof fn lemma_bytes_lt_irreflexive(a: Seq<u8>)
    ensures
        !bytes_lt(a, a),
    decreases a.len(),
{
    if a.len() > 0 {
        lemma_bytes_lt_irreflexive(a.skip(1));
    }
}

/// Two byte strings cannot each be smaller than the other.
pub proof fn lemma_bytes_lt_asymmetric(a: Seq<u8>, b: Seq<u8>)
    requires
        bytes_lt(a, b),
    ensures
        !bytes_lt(b, a),
    decreases a.len(),
{
    if a.len() > 0 && b.len() > 0 && a[0] == b[0] {
        lemma_bytes_lt_asymmetric(a.skip(1), b.skip(1));
    }
}

/// The order is transitive.
pub proof fn lemma_bytes_lt_transitive(a: Seq<u8>, b: Seq<u8>, c: Seq<u8>)
    requires
        bytes_lt(a, b),
        bytes_lt(b, c),
    ensures
        bytes_lt(a, c),
    decreases a.len(),
{
    if a.len() > 0 && a[0] == b[0] && b[0] == c[0] {
        lemma_bytes_lt_transitive(a.skip(1), b.skip(1), c.skip(1));
    }
}

/// The order is total: of two different byte strings one is smaller.
pub proof fn lemma_bytes_lt_total(a: Seq<u8>, b: Seq<u8>)
    ensures
        bytes_lt(a, b) || bytes_lt(b, a) || a == b,
    decreases a.len(),
{
    if a.len() == 0 || b.len() == 0 {
        if a.len() == 0 && b.len() == 0 {
            assert(a =~= b);
        }
    } else if a[0] == b[0] {
        lemma_bytes_lt_total(a.skip(1), b.skip(1));
        if a.skip(1) == b.skip(1) {
            assert(a =~= seq![a[0]] + a.skip(1));
            assert(b =~= seq![b[0]] + b.skip(1));
        }
    }
}

/// Whether two byte strings hold the same bytes.
pub fn bytes_eq(a: &[u8], b: &[u8]) -> (r: bool)
    ensures
        r == (a@ == b@),
{
    if a.len() != b.len() {
        return false;
    }
    let mut i: usize = 0;
    while i < a.len()
        invariant
            a@.len() == b@.len(),
            i <= a@.len(),
            a@.take(i as int) == b@.take(i as int),
        decreases a@.len() - i,
    {
        if a[i] != b[i] {
            return false;
        }
        assert(a@.take(i + 1) == a@.take(i as int).push(a@[i as int]));
        assert(b@.take(i + 1) == b@.take(i as int).push(b@[i as int]));
        i = i + 1;
    }
    assert(a@ == a@.take(a@.len() as int));
    assert(b@ == b@.take(b@.len() as int));
    true
}

/// Whether `a` comes strictly before `b` in the lexicographic order.
pub fn bytes_less(a: &[u8], b: &[u8]) -> (r: bool)
    ensures
        r == bytes_lt(a@, b@),
{
    let mut i: usize = 0;
    while i < a.len() && i < b.len()
        invariant
            i <= a@.len(),
            i <= b@.len(),
            a@.take(i as int) == b@.take(i as int),
        decreases a@.len() - i,
    {
        if a[i] != b[i] {
            proof {
                if a@[i as int] < b@[i as int] {
                    lemma_differ_at_implies_lt(a@, b@, i as int);
                } else {
                    lemma_differ_at_implies_lt(b@, a@, i as int);
                    lemma_bytes_lt_asymmetric(b@, a@);
                }
            }
            return a[i] < b[i];
        }
        assert(a@.take(i + 1) == a@.take(i as int).push(a@[i as int]));
        assert(b@.take(i + 1) == b@.take(i as int).push(b@[i as int]));
        i = i + 1;
    }
    proof {
        if i < b@.len() {
            lemma_differ_at_implies_lt(a@, b@, i as int);
        } else {
            assert(b@ == b@.take(i as int));
            if i < a@.len() {
                lemma_differ_at_implies_lt(b@, a@, i as int);
                lemma_bytes_lt_asymmetric(b@, a@);
            } else {
                assert(a@ == a@.take(i as int));
                lemma_bytes_lt_irreflexive(a@);
            }
        }
    }
    i < b.len()
}

/// Whether `text` begins with `prefix`.
pub fn starts_with(text: &[u8], prefix: &[u8]) -> (r: bool)
    ensures
        r == prefix@.is_prefix_of(text@),
{
    if prefix.len() > text.len() {
        return false;
    }
    let mut i: usize = 0;
    while i < prefix.len()
        invariant
            prefix@.len() <= text@.len(),
            i <= prefix@.len(),
            prefix@.take(i as int) == text@.take(i as int),
        decreases prefix@.len() - i,
    {
        if prefix[i] != text[i] {
            assert(text@.subrange(0, prefix@.len() as int)[i as int] == text@[i as int]);
            return false;
        }
        assert(prefix@.take(i + 1) == prefix@.take(i as int).push(prefix@[i as int]));
        assert(text@.take(i + 1) == text@.take(i as int).push(text@[i as int]));
        i = i + 1;
    }
    assert(prefix@ == prefix@.take(prefix@.len() as int));
    true
}

/// An owned copy of a byte string.
pub fn to_vec(bytes: &[u8]) -> (r: Vec<u8>)
    ensures
        r@ == bytes@,
{
    slice_to_vec(bytes)
}

/// The bytes of an optional name, or nothing.
pub open spec fn opt_bytes(name: Option<&str>) -> Option<Seq<u8>> {
    match name {
        Some(n) => Some(n.spec_bytes()),
        None => None,
    }
}

/// The view of optional bytes.
pub open spec fn opt_seq(bytes: Option<&[u8]>) -> Option<Seq<u8>> {
    match bytes {
        Some(b) => Some(b@),
        None => None,
    }
}

/// The bytes of an optional name.
pub fn opt_as_bytes<'a>(name: Option<&'a str>) -> (r: Option<&'a [u8]>)
    ensures
        opt_seq(r) == opt_bytes(name),
{
    match name {
        Some(n) => Some(n.as_bytes()),
        None => None,
    }
}

/// Whether an optional stored name and an optional requested name are both absent or
/// both present with the same bytes.
pub fn opt_bytes_eq(stored: &Option<Vec<u8>>, wanted: Option<&[u8]>) -> (r: bool)
    ensures
        r == match (stored, opt_seq(wanted)) {
            (Some(s), Some(w)) => s@ == w,
            (None, None) => true,
            _ => false,
        },
{
    match (stored, wanted) {
        (Some(s), Some(w)) => bytes_eq(s.as_slice(), w),
        (None, None) => true,
        _ => false,
    }
}

/// The view of optional bytes.
pub open spec fn opt_view(bytes: Option<Vec<u8>>) -> Option<Seq<u8>> {
    match bytes {
        Some(b) => Some(b@),
        None => None,
    }
}

/// The views of a list of byte strings, in the same order.
pub open spec fn byte_views(list: Seq<Vec<u8>>) -> Seq<Seq<u8>> {
    list.map_values(|b: Vec<u8>| b@)
}

/// The view of an optional list of byte strings.
pub open spec fn opt_byte_views(list: Option<Vec<Vec<u8>>>) -> Option<Seq<Seq<u8>>> {
    match list {
        Some(l) => Some(byte_views(l@)),
        None => None,
    }
}

/// Whether the byte is a decimal digit.
pub open spec fn is_digit(b: u8) -> bool {
    48 <= b <= 57
}

/// The number that a string of decimal digits writes.
pub open spec fn digits_value(s: Seq<u8>) -> nat
    decreases s.len(),
{
    if s.len() == 0 {
        0
    } else {
        digits_value(s.drop_last()) * 10 + (s.last() - 48) as nat
    }
}

/// The number that a string of digits writes is at least what any beginning of it writes.
pub proof fn lemma_digits_value_monotone(s: Seq<u8>, i: int)
    requires
        0 <= i <= s.len(),
        forall|k: int| 0 <= k < s.len() ==> is_digit(#[trigger] s[k]),
    ensures
        digits_value(s.take(i)) <= digits_value(s),
    decreases s.len(),
{
    if i == s.len() {
        assert(s.take(i) == s);
    } else {
        assert(s.drop_last().take(i) == s.take(i));
        lemma_digits_value_monotone(s.drop_last(), i);
    }
}

/// The first place from `from` on where `s` holds the byte `b`; the length of `s` if
/// there is none.
pub open spec fn position(s: Seq<u8>, b: u8, from: int) -> int
    decreases s.len() - from,
{
    if from < 0 || from >= s.len() || s[from] == b {
        from
    } else {
        position(s, b, from + 1)
    }
}

/// `position` lies between `from` and the length, names a place that holds the byte
/// unless it is the length, and no place before it from `from` on holds the byte.
pub proof fn lemma_position(s: Seq<u8>, b: u8, from: int)
    requires
        0 <= from <= s.len(),
    ensures
        from <= position(s, b, from) <= s.len(),
        position(s, b, from) < s.len() ==> s[position(s, b, from)] == b,
        forall|k: int| from <= k < position(s, b, from) ==> s[k] != b,
    decreases s.len() - from,
{
    if from < s.len() && s[from] != b {
        lemma_position(s, b, from + 1);
    }
}

/// The first place from `from` on where `s` holds the byte `b`, or the length of `s`.
pub fn find(s: &[u8], b: u8, from: usize) -> (r: usize)
    requires
        from <= s@.len(),
    ensures
        r == position(s@, b, from as int),
        from <= r <= s@.len(),
{
    let mut i: usize = from;
    while i < s.len() && s[i] != b
        invariant
            from <= i <= s@.len(),
            position(s@, b, from as int) == position(s@, b, i as int),
        decreases s@.len() - i,
    {
        i = i + 1;
    }
    i
}

} // verus!
