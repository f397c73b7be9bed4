//! Ref-specs: their order, and lists of them without repetition.

use vstd::prelude::*;
use vstd::slice::slice_subrange;
use crate::text::{bytes_eq, bytes_less, bytes_lt, digits_value, find, is_digit, position};
use crate::text::to_vec;
use crate::text::{lemma_bytes_lt_asymmetric, lemma_bytes_lt_irreflexive};
use crate::text::{lemma_bytes_lt_total, lemma_bytes_lt_transitive};

verus! {

/// What a ref-spec is used for.
#[derive(Clone, Copy, Debug, PartialEq, Eq, Hash, Structural)]
pub enum Operation {
    /// The source side is local and the destination side is remote.
    Push,
    /// The source side is remote and the destination side is local.
    Fetch,
}

/// A rule that maps references of a remote to local ones or the other way round: what it
/// is used for, and its pattern as text.
#[derive(Clone, Debug, PartialEq, Eq, Hash)]
pub struct RefSpec {
    pub op: Operation,
    pub pattern: Vec<u8>,
}

/// A ref-spec as a mathematical value.
#[verifier::ext_equal]
pub struct RefSpecView {
    pub op: Operation,
    pub pattern: Seq<u8>,
}

impl View for RefSpec {
    type V = RefSpecView;

    open spec fn view(&self) -> RefSpecView {
        RefSpecView { op: self.op, pattern: self.pattern@ }
    }
}

/// The views of a list of ref-specs, in the same order.
pub open spec fn views(specs: Seq<RefSpec>) -> Seq<RefSpecView> {
    specs.map_values(|s: RefSpec| s@)
}

/// The place of an operation in the order: pushes come before fetches.
pub open spec fn op_rank(op: Operation) -> int {
    match op {
        Operation::Push => 0,
        Operation::Fetch => 1,
    }
}

/// The strict total order on ref-specs: by operation first, then by pattern in the
/// lexicographic order of its bytes.
pub open spec fn spec_lt(a: RefSpecView, b: RefSpecView) -> bool {
    op_rank(a.op) < op_rank(b.op) || (a.op == b.op && bytes_lt(a.pattern, b.pattern))
}

/// Each entry is strictly smaller than every later one; such a list holds nothing twice.
pub open spec fn strictly_sorted(s: Seq<RefSpecView>) -> bool {
    forall|i: int, j: int| 0 <= i < j < s.len() ==> spec_lt(#[trigger] s[i], #[trigger] s[j])
}

/// Both lists hold the same ref-specs, however often and in whatever order.
pub open spec fn same_elements(a: Seq<RefSpecView>, b: Seq<RefSpecView>) -> bool {
    forall|x: RefSpecView| a.contains(x) <==> b.contains(x)
}

/// A strictly sorted list with `x` put in its place, or unchanged if it holds `x` already.
pub open spec fn insert_sorted(s: Seq<RefSpecView>, x: RefSpecView) -> Seq<RefSpecView>
    decreases s.len(),
{
    if s.len() == 0 {
        seq![x]
    } else if s.last() == x {
        s
    } else if spec_lt(s.last(), x) {
        s.push(x)
    } else {
        insert_sorted(s.drop_last(), x).push(s.last())
    }
}

/// The list in normal form: strictly sorted, holding each ref-spec of `s` once.
pub open spec fn normalized(s: Seq<RefSpecView>) -> Seq<RefSpecView>
    decreases s.len(),
{
    if s.len() == 0 {
        Seq::empty()
    } else {
        insert_sorted(normalized(s.drop_last()), s.last())
    }
}

/// What `git_refspec::parse` makes of `text` read for `op`: the parsed ref-spec written
/// back in its parseable form, or the parser's message.
pub uninterp spec fn refspec_parse_result(text: Seq<u8>, op: Operation) -> Result<
    Seq<u8>,
    Seq<char>,
>;

/// The at sign; followed by an opening brace it begins a reflog expression.
pub const AT: u8 = 0x40;

/// The opening brace.
pub const BRACE: u8 = 0x7b;

/// The closing brace.
pub const CLOSE: u8 = 0x7d;

/// The minus sign.
pub const MINUS: u8 = 0x2d;

/// The colon, which parts the source of a ref-spec from its destination.
pub const COLON: u8 = 0x3a;

/// The caret, which begins a negative ref-spec.
pub const CARET: u8 = 0x5e;

/// Whether a reflog expression begins at place `i` of `s`: an at sign and an opening brace.
pub open spec fn reflog_at(s: Seq<u8>, i: int) -> bool {
    0 <= i && i + 1 < s.len() && s[i] == AT && s[i + 1] == BRACE
}

/// Whether `s` holds a reflog expression. No reference name does.
pub open spec fn holds_reflog(s: Seq<u8>) -> bool {
    exists|i: int| reflog_at(s, i)
}

/// The first place from `from` on where `s` holds no decimal digit; the length of `s` if
/// only digits follow.
pub open spec fn digits_end(s: Seq<u8>, from: int) -> int
    decreases s.len() - from,
{
    if from < 0 || from >= s.len() || !is_digit(s[from]) {
        from
    } else {
        digits_end(s, from + 1)
    }
}

/// The magnitude of the least number that a machine word holds as a signed number: the
/// one signed number whose negation no machine word holds.
pub open spec fn least_magnitude() -> int {
    usize::MAX / 2 + 1
}

/// Whether the reflog expression at place `i` of `s` is the least signed number of a
/// machine word in braces: a minus sign and the decimal digits of its magnitude.
pub open spec fn negates_least_at(s: Seq<u8>, i: int) -> bool {
    let end = digits_end(s, i + 3);
    reflog_at(s, i) && i + 2 < s.len() && s[i + 2] == MINUS && i + 3 < end < s.len() && s[end]
        == CLOSE && digits_value(s.subrange(i + 3, end)) == least_magnitude()
}

/// Whether `s` holds a reflog expression that is the least signed number of a machine
/// word. The parser negates the number of such an expression, and fails on this one.
pub open spec fn negates_least(s: Seq<u8>) -> bool {
    exists|i: int| negates_least_at(s, i)
}

/// The source of a ref-spec: what stands before its first colon.
pub open spec fn source_of(text: Seq<u8>) -> Seq<u8> {
    text.take(position(text, COLON, 0))
}

/// Whether `text`, read for `op`, is a push ref-spec with a destination whose source
/// holds a reflog expression. Such a source is no reference name, and the parser may
/// read it as a revision expression; of a negative ref-spec, of a fetch ref-spec and of
/// a ref-spec without destination it reads no part that way.
pub open spec fn has_reflog_source(text: Seq<u8>, op: Operation) -> bool {
    op == Operation::Push && text.len() > 0 && text[0] != CARET && position(text, COLON, 0) + 1
        < text.len() && holds_reflog(source_of(text))
}

/// Whether the parser is asked about a text on which it may read the clock: the source
/// holds a reflog expression, which may name a date, and the parser reads dates against
/// the clock. The one reflog expression on which the parser fails is left out.
pub open spec fn may_read_clock(text: Seq<u8>, op: Operation) -> bool {
    has_reflog_source(text, op) && !negates_least(source_of(text))
}

/// Why a push ref-spec is turned down whose source holds the least signed number as a
/// reflog expression.
pub open spec fn least_message() -> Seq<char> {
    "the number of the reflog entry cannot be negated"@
}

/// What parsing `text` for `op` is expected to yield: the ref-spec with the pattern in
/// the parser's parseable form, or the reason why there is none.
///
/// Where `may_read_clock` does not hold, this is what parsing yields. Where it holds,
/// the parser is expected to accept the text, and this is what parsing yields if it
/// does: the parseable form of such a ref-spec is the text.
pub open spec fn parse_expected(text: Seq<u8>, op: Operation) -> Result<RefSpecView, Seq<char>> {
    if has_reflog_source(text, op) {
        if negates_least(source_of(text)) {
            Err(least_message())
        } else {
            Ok(RefSpecView { op, pattern: text })
        }
    } else {
        match refspec_parse_result(text, op) {
            Ok(pattern) => Ok(RefSpecView { op, pattern }),
            Err(message) => Err(message),
        }
    }
}

/// The view of what `RefSpec::parse` returns.
pub open spec fn parse_view(r: Result<RefSpec, String>) -> Result<RefSpecView, Seq<char>> {
    match r {
        Ok(spec) => Ok(spec@),
        Err(message) => Err(message@),
    }
}

/// Calls `git_refspec::parse` and, on success, `RefSpecRef::to_bstring` on what it
/// returned; on failure the error is turned into its message.
///
/// Believed, not proved: the outcome depends on `text` and `op` alone. `requires` leaves
/// out the push ref-specs whose source the parser reads as a reflog expression: there it
/// may read the clock.
#[verifier::external_body]
fn parse_pattern(text: &[u8], op: Operation) -> (r: Result<Vec<u8>, String>)
    requires
        !has_reflog_source(text@, op),
    ensures
        match r {
            Ok(pattern) => refspec_parse_result(text@, op) == Ok::<Seq<u8>, Seq<char>>(pattern@),
            Err(message) => refspec_parse_result(text@, op) == Err::<Seq<u8>, Seq<char>>(message@),
        },
{
    let operation = match op {
        Operation::Push => git_refspec::parse::Operation::Push,
        Operation::Fetch => git_refspec::parse::Operation::Fetch,
    };
    match git_refspec::parse(text.into(), operation) {
        Ok(spec) => Ok(spec.to_bstring().into()),
        Err(err) => Err(err.to_string()),
    }
}

/// Calls `git_refspec::parse` for a push ref-spec whose source holds a reflog
/// expression and, on success, `RefSpecRef::to_bstring` on what it returned; on failure
/// the error is turned into its message.
///
/// Believed, not proved: if the parser accepts the text, what it writes back is the
/// text: an optional plus sign, the source, a colon and the destination. Whether it
/// accepts is not said, since a date in the expression is read against the clock.
/// `requires` leaves out the one expression on which the parser fails, the least signed
/// number, which it cannot negate.
#[verifier::external_body]
fn parse_reflog_push(text: &[u8]) -> (r: Result<Vec<u8>, String>)
    requires
        may_read_clock(text@, Operation::Push),
    ensures
        r matches Ok(pattern) ==> pattern@ == text@,
{
    match git_refspec::parse(text.into(), git_refspec::parse::Operation::Push) {
        Ok(spec) => Ok(spec.to_bstring().into()),
        Err(err) => Err(err.to_string()),
    }
}

/// Whether `s` holds a reflog expression.
fn holds_reflog_bytes(s: &[u8]) -> (r: bool)
    ensures
        r == holds_reflog(s@),
{
    let mut i: usize = 0;
    while i < s.len()
        invariant
            i <= s@.len(),
            forall|k: int| 0 <= k < i ==> !reflog_at(s@, k),
        decreases s@.len() - i,
    {
        if i + 1 < s.len() && s[i] == AT && s[i + 1] == BRACE {
            assert(reflog_at(s@, i as int));
            return true;
        }
        i = i + 1;
    }
    false
}

/// Whether the reflog expression at place `i` of `s` is the least signed number of a
/// machine word in braces.
fn negates_least_here(s: &[u8], i: usize) -> (r: bool)
    requires
        i < s@.len(),
    ensures
        r == negates_least_at(s@, i as int),
{
    if s.len() - i < 5 || s[i] != AT || s[i + 1] != BRACE || s[i + 2] != MINUS {
        proof {
            if s@.len() - i < 5 && reflog_at(s@, i as int) && i + 2 < s@.len() {
                // Too short to hold a digit and the closing brace.
                let end = digits_end(s@, i + 3);
                if i + 3 < s@.len() {
                    assert(end <= i + 4) by {
                        if is_digit(s@[i + 3]) {
                            assert(digits_end(s@, i + 4) == i + 4);
                        }
                    }
                }
            }
        }
        return false;
    }
    let start: usize = i + 3;
    let mut j: usize = start;
    let mut value: usize = 0;
    let mut beyond = false;
    assert(s@.subrange(start as int, start as int) == Seq::<u8>::empty());
    while j < s.len() && 48 <= s[j] && s[j] <= 57
        invariant
            start <= j <= s@.len(),
            digits_end(s@, start as int) == digits_end(s@, j as int),
            !beyond ==> value == digits_value(s@.subrange(start as int, j as int)),
            beyond ==> digits_value(s@.subrange(start as int, j as int)) > usize::MAX,
        decreases s@.len() - j,
    {
        let d: usize = (s[j] - 48) as usize;
        proof {
            let now = s@.subrange(start as int, j + 1);
            assert(now.drop_last() == s@.subrange(start as int, j as int));
            assert(now.last() == s@[j as int]);
        }
        if !beyond {
            if value > (usize::MAX - d) / 10 {
                beyond = true;
            } else {
                value = value * 10 + d;
            }
        }
        j = j + 1;
    }
    j > start && j < s.len() && s[j] == CLOSE && !beyond && value == usize::MAX / 2 + 1
}

/// Whether `s` holds a reflog expression that is the least signed number of a machine
/// word.
fn negates_least_bytes(s: &[u8]) -> (r: bool)
    ensures
        r == negates_least(s@),
{
    let mut i: usize = 0;
    while i < s.len()
        invariant
            i <= s@.len(),
            forall|k: int| 0 <= k < i ==> !negates_least_at(s@, k),
        decreases s@.len() - i,
    {
        if negates_least_here(s, i) {
            return true;
        }
        i = i + 1;
    }
    false
}

/// Whether `text` is a push ref-spec with a destination whose source holds a reflog
/// expression.
fn has_reflog_source_bytes(text: &[u8], op: Operation) -> (r: bool)
    ensures
        r == has_reflog_source(text@, op),
{
    if op == Operation::Push && text.len() > 0 && text[0] != CARET {
        let colon = find(text, COLON, 0);
        colon < text.len() - 1 && holds_reflog_bytes(slice_subrange(text, 0, colon))
    } else {
        false
    }
}

impl RefSpec {
    /// Parses `text` as a ref-spec for `op`.
    ///
    /// The pattern of the result is the parser's parseable form of what it read, so that
    /// two spellings of one instruction give equal ref-specs.
    ///
    /// A push ref-spec whose source holds a reflog expression, `@{..}`, is read against
    /// the clock where the expression names a date. For such a text the result is the
    /// ref-spec with the text as its pattern if the parser accepts it, and the parser's
    /// message if it does not; which of the two is not decided by the text. The one such
    /// expression on which the parser fails, the least signed number, is turned down
    /// without asking the parser.
    pub fn parse(text: &[u8], op: Operation) -> (r: Result<RefSpec, String>)
        ensures
            !may_read_clock(text@, op) ==> parse_view(r) == parse_expected(text@, op),
            may_read_clock(text@, op) && r is Ok ==> parse_view(r) == parse_expected(text@, op),
    {
        if has_reflog_source_bytes(text, op) {
            let colon = find(text, COLON, 0);
            if negates_least_bytes(slice_subrange(text, 0, colon)) {
                return Err("the number of the reflog entry cannot be negated".to_owned());
            }
            return match parse_reflog_push(text) {
                Ok(pattern) => Ok(RefSpec { op, pattern }),
                Err(message) => Err(message),
            };
        }
        match parse_pattern(text, op) {
            Ok(pattern) => Ok(RefSpec { op, pattern }),
            Err(message) => Err(message),
        }
    }

    /// A copy of this ref-spec.
    pub fn duplicate(&self) -> (r: RefSpec)
        ensures
            r@ == self@,
    {
        RefSpec { op: self.op, pattern: to_vec(self.pattern.as_slice()) }
    }

    /// Whether both ref-specs have the same operation and the same pattern.
    pub fn same_as(&self, other: &RefSpec) -> (r: bool)
        ensures
            r == (self@ == other@),
    {
        let r = self.op == other.op && bytes_eq(self.pattern.as_slice(), other.pattern.as_slice());
        proof {
            if r {
                assert(self@ =~= other@);
            }
        }
        r
    }

    /// Whether this ref-spec comes strictly before `other` in the order of ref-specs.
    pub fn less_than(&self, other: &RefSpec) -> (r: bool)
        ensures
            r == spec_lt(self@, other@),
    {
        match (self.op, other.op) {
            (Operation::Push, Operation::Fetch) => true,
            (Operation::Fetch, Operation::Push) => false,
            _ => bytes_less(self.pattern.as_slice(), other.pattern.as_slice()),
        }
    }
}

/// Puts `x` into the strictly sorted list, unless the list holds it already.
fn insert(out: &mut Vec<RefSpec>, x: RefSpec)
    requires
        strictly_sorted(views(old(out)@)),
    ensures
        views(final(out)@) == insert_sorted(views(old(out)@), x@),
{
    let ghost all = views(out@);
    let mut p: usize = out.len();
    assert(all.take(p as int) == all);
    assert(insert_sorted(all, x@) + all.skip(p as int) == insert_sorted(all, x@));
    while p > 0
        invariant
            p <= out@.len(),
            out@ == old(out)@,
            all == views(out@),
            insert_sorted(all, x@) == insert_sorted(all.take(p as int), x@) + all.skip(p as int),
        ensures
            p > 0 ==> spec_lt(all[p - 1], x@),
        decreases p,
    {
        let ghost head = all.take(p as int);
        assert(head.last() == out@[p - 1]@);
        assert(head.drop_last() == all.take(p - 1));
        assert(all.skip(p - 1) == seq![all[p - 1]] + all.skip(p as int));
        if out[p - 1].same_as(&x) {
            assert(head + all.skip(p as int) == all);
            return ;
        }
        if out[p - 1].less_than(&x) {
            break ;
        }
        proof {
            assert(insert_sorted(head, x@) == insert_sorted(all.take(p - 1), x@).push(all[p - 1]));
            assert(insert_sorted(all.take(p - 1), x@).push(all[p - 1]) + all.skip(p as int)
                == insert_sorted(all.take(p - 1), x@) + all.skip(p - 1));
        }
        p = p - 1;
    }
    proof {
        let head = all.take(p as int);
        if p > 0 {
            assert(head.last() == all[p - 1]);
            lemma_spec_lt_is_strict_total_order(x@, x@, x@);
        }
        assert(insert_sorted(head, x@) =~= head.push(x@));
        assert(head.push(x@) + all.skip(p as int) == all.insert(p as int, x@));
        assert(views(out@.insert(p as int, x)) == all.insert(p as int, x@));
    }
    out.insert(p, x);
}

/// Brings a list of ref-specs into normal form: sorted by operation and pattern, with
/// each ref-spec held once. Two entries are the same if operation and pattern are equal.
pub fn normalize(specs: Vec<RefSpec>) -> (r: Vec<RefSpec>)
    ensures
        views(r@) == normalized(views(specs@)),
        strictly_sorted(views(r@)),
        same_elements(views(r@), views(specs@)),
        r@.len() <= specs@.len(),
{
    let mut out: Vec<RefSpec> = Vec::new();
    let mut i: usize = 0;
    assert(views(specs@).take(0) == Seq::<RefSpecView>::empty());
    while i < specs.len()
        invariant
            i <= specs@.len(),
            views(out@) == normalized(views(specs@).take(i as int)),
        decreases specs@.len() - i,
    {
        proof {
            let before = views(specs@).take(i as int);
            let now = views(specs@).take(i + 1);
            lemma_normalized(before);
            assert(now.drop_last() == before);
            assert(now.last() == specs@[i as int]@);
        }
        insert(&mut out, specs[i].duplicate());
        i = i + 1;
    }
    proof {
        assert(views(specs@).take(i as int) == views(specs@));
        lemma_normalized(views(specs@));
    }
    out
}

/// The order is irreflexive, asymmetric, transitive and total.
pub proof fn lemma_spec_lt_is_strict_total_order(a: RefSpecView, b: RefSpecView, c: RefSpecView)
    ensures
        !spec_lt(a, a),
        spec_lt(a, b) ==> !spec_lt(b, a),
        spec_lt(a, b) && spec_lt(b, c) ==> spec_lt(a, c),
        spec_lt(a, b) || spec_lt(b, a) || a == b,
{
    lemma_bytes_lt_irreflexive(a.pattern);
    if bytes_lt(a.pattern, b.pattern) {
        lemma_bytes_lt_asymmetric(a.pattern, b.pattern);
        if bytes_lt(b.pattern, c.pattern) {
            lemma_bytes_lt_transitive(a.pattern, b.pattern, c.pattern);
        }
    }
    lemma_bytes_lt_total(a.pattern, b.pattern);
    if a.op == b.op && a.pattern == b.pattern {
        assert(a =~= b);
    }
}

/// Putting `x` into a strictly sorted list keeps it strictly sorted, and the result holds
/// `x` and what the list held, nothing else.
pub proof fn lemma_insert_sorted(s: Seq<RefSpecView>, x: RefSpecView)
    requires
        strictly_sorted(s),
    ensures
        strictly_sorted(insert_sorted(s, x)),
        forall|y: RefSpecView|
            #![trigger insert_sorted(s, x).contains(y)]
            #![trigger s.contains(y)]
            insert_sorted(s, x).contains(y) <==> (y == x || s.contains(y)),
        insert_sorted(s, x).len() <= s.len() + 1,
    decreases s.len(),
{
    let r = insert_sorted(s, x);
    if s.len() == 0 {
        assert(r[0] == x);
        assert forall|y: RefSpecView| r.contains(y) <==> (y == x || s.contains(y)) by {
            if r.contains(y) {
                let i = choose|i: int| 0 <= i < r.len() && r[i] == y;
            }
        }
    } else if s.last() == x {
        assert(s[s.len() - 1] == x);
    } else if spec_lt(s.last(), x) {
        assert forall|i: int, j: int| 0 <= i < j < r.len() implies spec_lt(
            #[trigger] r[i],
            #[trigger] r[j],
        ) by {
            if j == s.len() && i < s.len() - 1 {
                assert(spec_lt(s[i], s[s.len() - 1]));
                lemma_spec_lt_is_strict_total_order(s[i], s.last(), x);
            }
        }
        assert forall|y: RefSpecView| r.contains(y) <==> (y == x || s.contains(y)) by {
            if r.contains(y) {
                let i = choose|i: int| 0 <= i < r.len() && r[i] == y;
                if i < s.len() {
                    assert(s[i] == y);
                }
            }
            if s.contains(y) {
                let i = choose|i: int| 0 <= i < s.len() && s[i] == y;
                assert(r[i] == y);
            }
            if y == x {
                assert(r[s.len() as int] == x);
            }
        }
    } else {
        let t = s.drop_last();
        let u = insert_sorted(t, x);
        assert forall|i: int, j: int| 0 <= i < j < t.len() implies spec_lt(
            #[trigger] t[i],
            #[trigger] t[j],
        ) by {
            assert(spec_lt(s[i], s[j]));
        }
        lemma_insert_sorted(t, x);
        lemma_spec_lt_is_strict_total_order(s.last(), x, x);
        assert(spec_lt(x, s.last()));
        assert forall|i: int, j: int| 0 <= i < j < r.len() implies spec_lt(
            #[trigger] r[i],
            #[trigger] r[j],
        ) by {
            if j == u.len() {
                assert(u.contains(u[i]));
                if u[i] != x {
                    let k = choose|k: int| 0 <= k < t.len() && t[k] == u[i];
                    assert(spec_lt(s[k], s[s.len() - 1]));
                }
            } else {
                assert(spec_lt(u[i], u[j]));
            }
        }
        assert forall|y: RefSpecView| r.contains(y) <==> (y == x || s.contains(y)) by {
            if r.contains(y) {
                let i = choose|i: int| 0 <= i < r.len() && r[i] == y;
                if i < u.len() {
                    assert(u.contains(y));
                    if y != x {
                        let k = choose|k: int| 0 <= k < t.len() && t[k] == y;
                        assert(s[k] == y);
                    }
                } else {
                    assert(s[s.len() - 1] == y);
                }
            }
            if s.contains(y) {
                let k = choose|k: int| 0 <= k < s.len() && s[k] == y;
                if k < t.len() {
                    assert(t[k] == y);
                    assert(u.contains(y));
                    let i = choose|i: int| 0 <= i < u.len() && u[i] == y;
                    assert(r[i] == y);
                } else {
                    assert(r[u.len() as int] == y);
                }
            }
            if y == x {
                assert(u.contains(x));
                let i = choose|i: int| 0 <= i < u.len() && u[i] == x;
                assert(r[i] == x);
            }
        }
    }
}

/// The normal form of a list is strictly sorted, so it holds nothing twice, and it holds
/// exactly the ref-specs of the list.
pub proof fn lemma_normalized(s: Seq<RefSpecView>)
    ensures
        strictly_sorted(normalized(s)),
        same_elements(normalized(s), s),
        normalized(s).len() <= s.len(),
    decreases s.len(),
{
    if s.len() > 0 {
        let t = s.drop_last();
        lemma_normalized(t);
        lemma_insert_sorted(normalized(t), s.last());
        let r = normalized(s);
        assert forall|x: RefSpecView| r.contains(x) <==> s.contains(x) by {
            if s.contains(x) {
                let k = choose|k: int| 0 <= k < s.len() && s[k] == x;
                if k < t.len() {
                    assert(t[k] == x);
                }
            }
            if normalized(t).contains(x) {
                let k = choose|k: int| 0 <= k < t.len() && t[k] == x;
                assert(s[k] == x);
            }
            assert(s[s.len() - 1] == s.last());
        }
    }
}

/// The normal form of a list is empty exactly if the list is.
pub proof fn lemma_normalized_is_empty(s: Seq<RefSpecView>)
    ensures
        normalized(s).len() == 0 <==> s.len() == 0,
        strictly_sorted(normalized(s)),
{
    lemma_normalized(s);
    if s.len() > 0 {
        assert(s.contains(s[0]));
        assert(normalized(s).contains(s[0]));
    }
}

/// Two strictly sorted lists that hold the same ref-specs are the same list.
pub proof fn lemma_strictly_sorted_unique(a: Seq<RefSpecView>, b: Seq<RefSpecView>)
    requires
        strictly_sorted(a),
        strictly_sorted(b),
        same_elements(a, b),
    ensures
        a == b,
    decreases a.len(),
{
    if a.len() == 0 {
        if b.len() > 0 {
            assert(b.contains(b[0]));
            assert(a.contains(b[0]));
        }
        assert(a =~= b);
    } else if b.len() == 0 {
        assert(a.contains(a[0]));
        assert(b.contains(a[0]));
    } else {
        // The greatest entries agree: each occurs in the other list, where nothing is greater
        // than the last entry.
        let x = a.last();
        let y = b.last();
        assert(a.contains(x)) by {
            assert(a[a.len() - 1] == x);
        }
        assert(b.contains(y)) by {
            assert(b[b.len() - 1] == y);
        }
        let i = choose|i: int| 0 <= i < b.len() && b[i] == x;
        let j = choose|j: int| 0 <= j < a.len() && a[j] == y;
        lemma_spec_lt_is_strict_total_order(x, y, x);
        if i < b.len() - 1 {
            assert(spec_lt(b[i], b[b.len() - 1]));
        }
        if j < a.len() - 1 {
            assert(spec_lt(a[j], a[a.len() - 1]));
        }
        assert(x == y);
        let a1 = a.drop_last();
        let b1 = b.drop_last();
        assert forall|p: int, q: int| 0 <= p < q < a1.len() implies spec_lt(
            #[trigger] a1[p],
            #[trigger] a1[q],
        ) by {
            assert(spec_lt(a[p], a[q]));
        }
        assert forall|p: int, q: int| 0 <= p < q < b1.len() implies spec_lt(
            #[trigger] b1[p],
            #[trigger] b1[q],
        ) by {
            assert(spec_lt(b[p], b[q]));
        }
        assert forall|z: RefSpecView| a1.contains(z) <==> b1.contains(z) by {
            lemma_spec_lt_is_strict_total_order(z, x, z);
            if a1.contains(z) {
                let p = choose|p: int| 0 <= p < a1.len() && a1[p] == z;
                assert(a[p] == z);
                assert(spec_lt(a[p], a[a.len() - 1]));
                assert(a.contains(z));
                let q = choose|q: int| 0 <= q < b.len() && b[q] == z;
                assert(b1[q] == z);
            }
            if b1.contains(z) {
                let p = choose|p: int| 0 <= p < b1.len() && b1[p] == z;
                assert(b[p] == z);
                assert(spec_lt(b[p], b[b.len() - 1]));
                assert(b.contains(z));
                let q = choose|q: int| 0 <= q < a.len() && a[q] == z;
                assert(a1[q] == z);
            }
        }
        lemma_strictly_sorted_unique(a1, b1);
        assert(a =~= a1.push(x));
        assert(b =~= b1.push(y));
    }
}

/// Lists that hold the same ref-specs have the same normal form: neither the order of the
/// entries nor how often one is repeated matters.
pub proof fn lemma_normalized_depends_on_elements_only(a: Seq<RefSpecView>, b: Seq<RefSpecView>)
    requires
        same_elements(a, b),
    ensures
        normalized(a) == normalized(b),
{
    lemma_normalized(a);
    lemma_normalized(b);
    lemma_strictly_sorted_unique(normalized(a), normalized(b));
}

/// Permutation invariance: two lists with the same entries, each as often in one as in the
/// other, have the same normal form.
pub proof fn lemma_normalized_permutation_invariant(a: Seq<RefSpecView>, b: Seq<RefSpecView>)
    requires
        a.to_multiset() == b.to_multiset(),
    ensures
        normalized(a) == normalized(b),
{
    assert forall|x: RefSpecView| a.contains(x) <==> b.contains(x) by {
        vstd::seq_lib::to_multiset_contains(a, x);
        vstd::seq_lib::to_multiset_contains(b, x);
    }
    lemma_normalized_depends_on_elements_only(a, b);
}

/// A list in normal form is its own normal form.
pub proof fn lemma_normalized_idempotent(s: Seq<RefSpecView>)
    ensures
        normalized(normalized(s)) == normalized(s),
{
    lemma_normalized(s);
    lemma_normalized(normalized(s));
    lemma_strictly_sorted_unique(normalized(normalized(s)), normalized(s));
}

} // verus!
