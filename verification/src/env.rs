//! Configuration given through the environment: a count, and that many pairs of a key
//! and a value.

use vstd::prelude::*;
use crate::document::{Document, Entry, EntryView};
use crate::text::{digits_value, is_digit, lemma_digits_value_monotone, opt_view, to_vec};

verus! {

/// The pair of variables with one index: the key, written `section.key` or
/// `section.subsection.key`, and the value. A variable that is not set is absent.
#[derive(Clone, Debug, PartialEq, Eq, Hash)]
pub struct EnvEntry {
    pub key: Option<Vec<u8>>,
    pub value: Option<Vec<u8>>,
}

/// What the environment holds of configuration: the count as it is written, if the
/// variable is set, and the pairs by their index.
#[derive(Clone, Debug, PartialEq, Eq, Hash)]
pub struct EnvOverrides {
    pub count: Option<Vec<u8>>,
    pub entries: Vec<EnvEntry>,
}

/// The byte that separates the parts of a key.
pub const DOT: u8 = 0x2e;

/// The count that the bytes write: decimal digits, at least one, that give a number
/// within the range of `usize`.
pub open spec fn count_of(raw: Seq<u8>) -> Option<nat> {
    if raw.len() > 0 && (forall|i: int| 0 <= i < raw.len() ==> is_digit(#[trigger] raw[i]))
        && digits_value(raw) <= usize::MAX {
        Some(digits_value(raw))
    } else {
        None
    }
}

/// Reads a count: decimal digits only, and no more than `usize` holds.
pub fn parse_count(raw: &[u8]) -> (r: Option<usize>)
    ensures
        match r {
            Some(n) => count_of(raw@) == Some(n as nat),
            None => count_of(raw@) is None,
        },
{
    if raw.len() == 0 {
        return None;
    }
    let mut acc: usize = 0;
    let mut i: usize = 0;
    assert(raw@.take(0) == Seq::<u8>::empty());
    while i < raw.len()
        invariant
            i <= raw@.len(),
            forall|k: int| 0 <= k < i ==> is_digit(#[trigger] raw@[k]),
            acc == digits_value(raw@.take(i as int)),
        decreases raw@.len() - i,
    {
        let b = raw[i];
        if b < 48 || b > 57 {
            return None;
        }
        let d: usize = (b - 48) as usize;
        proof {
            assert(raw@.take(i + 1).drop_last() == raw@.take(i as int));
            assert(raw@.take(i + 1).last() == b);
            assert(digits_value(raw@.take(i + 1)) == acc * 10 + d);
        }
        if acc > (usize::MAX - d) / 10 {
            proof {
                if forall|k: int| 0 <= k < raw@.len() ==> is_digit(#[trigger] raw@[k]) {
                    lemma_digits_value_monotone(raw@, i + 1);
                }
            }
            return None;
        }
        acc = acc * 10 + d;
        i = i + 1;
    }
    assert(raw@.take(i as int) == raw@);
    Some(acc)
}

/// The parts of a key: the section, the subsection if there is one, and the name.
pub struct KeyParts {
    pub section: Seq<u8>,
    pub subsection: Option<Seq<u8>>,
    pub name: Seq<u8>,
}

/// Whether `i` is the place of the first dot in `key`.
pub open spec fn is_first_dot(key: Seq<u8>, i: int) -> bool {
    0 <= i < key.len() && key[i] == DOT && forall|k: int| 0 <= k < i ==> key[k] != DOT
}

/// Whether `j` is the place of the last dot in `key`.
pub open spec fn is_last_dot(key: Seq<u8>, j: int) -> bool {
    0 <= j < key.len() && key[j] == DOT && forall|k: int| j < k < key.len() ==> key[k] != DOT
}

/// Whether the key splits at its first dot `i` and its last dot `j` into a section before
/// the first and a name after the last, neither of them empty.
pub open spec fn splits_at(key: Seq<u8>, i: int, j: int) -> bool {
    is_first_dot(key, i) && is_last_dot(key, j) && 0 < i && j < key.len() - 1
}

/// The parts of a key that splits at `i` and `j`: what lies between two different dots
/// is the subsection.
pub open spec fn parts_at(key: Seq<u8>, i: int, j: int) -> KeyParts {
    KeyParts {
        section: key.take(i),
        subsection: if i == j {
            None
        } else {
            Some(key.subrange(i + 1, j))
        },
        name: key.skip(j + 1),
    }
}

/// The parts of a key, if it has a section and a name.
pub open spec fn split_key(key: Seq<u8>) -> Option<KeyParts> {
    if exists|i: int, j: int| splits_at(key, i, j) {
        let (i, j) = choose|i: int, j: int| splits_at(key, i, j);
        Some(parts_at(key, i, j))
    } else {
        None
    }
}

/// A key splits in one way at most.
pub proof fn lemma_split_unique(key: Seq<u8>, i: int, j: int)
    requires
        splits_at(key, i, j),
    ensures
        split_key(key) == Some(parts_at(key, i, j)),
{
    let (a, b) = choose|a: int, b: int| splits_at(key, a, b);
    assert(a == i) by {
        if a < i {
            assert(key[a] == DOT);
        } else if i < a {
            assert(key[i] == DOT);
        }
    }
    assert(b == j) by {
        if b < j {
            assert(key[j] == DOT);
        } else if j < b {
            assert(key[b] == DOT);
        }
    }
}

/// An environment pair as a mathematical value.
#[verifier::ext_equal]
pub struct EnvEntryView {
    pub key: Option<Seq<u8>>,
    pub value: Option<Seq<u8>>,
}

impl View for EnvEntry {
    type V = EnvEntryView;

    open spec fn view(&self) -> EnvEntryView {
        EnvEntryView { key: opt_view(self.key), value: opt_view(self.value) }
    }
}

/// What the environment holds, as a mathematical value.
#[verifier::ext_equal]
pub struct EnvOverridesView {
    pub count: Option<Seq<u8>>,
    pub entries: Seq<EnvEntryView>,
}

impl View for EnvOverrides {
    type V = EnvOverridesView;

    open spec fn view(&self) -> EnvOverridesView {
        EnvOverridesView {
            count: opt_view(self.count),
            entries: self.entries@.map_values(|e: EnvEntry| e@),
        }
    }
}

/// The entry that a pair declares, if key and value are set and the key has its parts.
pub open spec fn entry_of(e: EnvEntryView) -> Option<EntryView> {
    match (e.key, e.value) {
        (Some(key), Some(value)) => match split_key(key) {
            Some(parts) => Some(
                EntryView {
                    section: parts.section,
                    subsection: parts.subsection,
                    key: parts.name,
                    value,
                },
            ),
            None => None,
        },
        _ => None,
    }
}

/// The document that the environment declares: none if the count is not set, is no
/// number or is zero, or if one of the pairs that it announces is missing or malformed;
/// else one entry for each pair, in the order of their indices.
pub open spec fn env_document(env: EnvOverridesView) -> Option<Seq<EntryView>> {
    match env.count {
        Some(raw) => match count_of(raw) {
            Some(n) => if n > 0 && n <= env.entries.len() && (forall|i: int|
                0 <= i < n ==> entry_of(#[trigger] env.entries[i]) is Some) {
                Some(Seq::new(n, |i: int| entry_of(env.entries[i]).unwrap()))
            } else {
                None
            },
            None => None,
        },
        None => None,
    }
}

/// Splits a key into section, subsection and name, and makes an entry of them and the value.
fn make_entry(key: &[u8], value: &[u8]) -> (r: Option<Entry>)
    ensures
        match r {
            Some(e) => entry_of(EnvEntryView { key: Some(key@), value: Some(value@) }) == Some(e@),
            None => entry_of(EnvEntryView { key: Some(key@), value: Some(value@) }) is None,
        },
{
    let mut i: usize = 0;
    while i < key.len() && key[i] != DOT
        invariant
            i <= key@.len(),
            forall|k: int| 0 <= k < i ==> key@[k] != DOT,
        decreases key@.len() - i,
    {
        i = i + 1;
    }
    if i == 0 || i >= key.len() {
        assert forall|a: int, b: int| !splits_at(key@, a, b) by {
            if splits_at(key@, a, b) {
                if i == 0 && key@.len() > 0 {
                    assert(key@[0] == DOT);
                }
            }
        }
        return None;
    }
    let mut j: usize = key.len() - 1;
    while key[j] != DOT
        invariant
            i <= j < key@.len(),
            key@[i as int] == DOT,
            forall|k: int| j < k < key@.len() ==> key@[k] != DOT,
        decreases j,
    {
        j = j - 1;
    }
    if j == key.len() - 1 {
        assert forall|a: int, b: int| !splits_at(key@, a, b) by {
            if splits_at(key@, a, b) {
                assert(key@[b] == DOT);
            }
        }
        return None;
    }
    proof {
        assert(splits_at(key@, i as int, j as int));
        lemma_split_unique(key@, i as int, j as int);
    }
    let section = to_vec(vstd::slice::slice_subrange(key, 0, i));
    let subsection = if i == j {
        None
    } else {
        Some(to_vec(vstd::slice::slice_subrange(key, i + 1, j)))
    };
    let name = to_vec(vstd::slice::slice_subrange(key, j + 1, key.len()));
    Some(Entry { section, subsection, key: name, value: to_vec(value) })
}

impl Document {
    /// The document that the environment declares, or nothing where it declares none.
    pub fn from_env(env: &EnvOverrides) -> (r: Option<Document>)
        ensures
            match r {
                Some(doc) => env_document(env@) == Some(doc@),
                None => env_document(env@) is None,
            },
    {
        let n = match &env.count {
            Some(raw) => match parse_count(raw.as_slice()) {
                Some(n) => n,
                None => {
                    return None;
                },
            },
            None => {
                return None;
            },
        };
        if n == 0 || n > env.entries.len() {
            return None;
        }
        let mut doc = Document::new();
        let mut i: usize = 0;
        while i < n
            invariant
                0 < n,
                i <= n <= env.entries@.len(),
                env@.count is Some,
                count_of(env@.count.unwrap()) == Some(n as nat),
                doc@.len() == i,
                forall|k: int| 0 <= k < i ==> entry_of(#[trigger] env@.entries[k]) == Some(doc@[k]),
            decreases n - i,
        {
            let pair = &env.entries[i];
            assert(env@.entries[i as int] == pair@);
            let entry = match (&pair.key, &pair.value) {
                (Some(key), Some(value)) => match make_entry(key.as_slice(), value.as_slice()) {
                    Some(entry) => entry,
                    None => {
                        assert(entry_of(env@.entries[i as int]) is None);
                        return None;
                    },
                },
                _ => {
                    assert(entry_of(env@.entries[i as int]) is None);
                    return None;
                },
            };
            let ghost before = doc@;
            doc.entries.push(entry);
            assert(doc@ == before.push(entry@));
            i = i + 1;
        }
        assert(doc@ =~= Seq::new(n as nat, |i: int| entry_of(env@.entries[i]).unwrap()));
        Some(doc)
    }
}

} // verus!
