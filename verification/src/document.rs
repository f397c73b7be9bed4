//! One configuration document: the entries of a single source, in declared order.

use vstd::prelude::*;
use vstd::string::StringSliceAdditionalSpecFns;
use crate::text::{byte_views, bytes_eq, opt_as_bytes, opt_bytes, opt_bytes_eq, opt_seq};
use crate::text::{opt_view, to_vec};

verus! {

/// One `key = value` line of a document, with the section it stands in.
#[derive(Clone, Debug, PartialEq, Eq, Hash)]
pub struct Entry {
    pub section: Vec<u8>,
    pub subsection: Option<Vec<u8>>,
    pub key: Vec<u8>,
    pub value: Vec<u8>,
}

/// An entry as a mathematical value.
#[verifier::ext_equal]
pub struct EntryView {
    pub section: Seq<u8>,
    pub subsection: Option<Seq<u8>>,
    pub key: Seq<u8>,
    pub value: Seq<u8>,
}

impl View for Entry {
    type V = EntryView;

    open spec fn view(&self) -> EntryView {
        EntryView {
            section: self.section@,
            subsection: opt_view(self.subsection),
            key: self.key@,
            value: self.value@,
        }
    }
}

/// The entries of one configuration source, in the order in which they were declared.
#[derive(Clone, Debug, PartialEq, Eq, Hash)]
pub struct Document {
    pub entries: Vec<Entry>,
}

impl View for Document {
    type V = Seq<EntryView>;

    open spec fn view(&self) -> Seq<EntryView> {
        self.entries@.map_values(|e: Entry| e@)
    }
}

/// Whether an entry stands under the given section and subsection and has the given key.
pub open spec fn entry_matches(
    e: EntryView,
    section: Seq<u8>,
    subsection: Option<Seq<u8>>,
    key: Seq<u8>,
) -> bool {
    e.section == section && e.subsection == subsection && e.key == key
}

/// All values that a document declares for a key, in declared order.
pub open spec fn values_of(
    doc: Seq<EntryView>,
    section: Seq<u8>,
    subsection: Option<Seq<u8>>,
    key: Seq<u8>,
) -> Seq<Seq<u8>> {
    doc.filter(|e: EntryView| entry_matches(e, section, subsection, key)).map_values(
        |e: EntryView| e.value,
    )
}

/// The value that a document gives a key: the one declared last, if any is.
pub open spec fn value_of(
    doc: Seq<EntryView>,
    section: Seq<u8>,
    subsection: Option<Seq<u8>>,
    key: Seq<u8>,
) -> Option<Seq<u8>> {
    let all = values_of(doc, section, subsection, key);
    if all.len() == 0 {
        None
    } else {
        Some(all.last())
    }
}

/// The values of a document with one more entry at its end.
pub proof fn lemma_values_of_push(
    doc: Seq<EntryView>,
    e: EntryView,
    section: Seq<u8>,
    subsection: Option<Seq<u8>>,
    key: Seq<u8>,
)
    ensures
        values_of(doc.push(e), section, subsection, key) == if entry_matches(
            e,
            section,
            subsection,
            key,
        ) {
            values_of(doc, section, subsection, key).push(e.value)
        } else {
            values_of(doc, section, subsection, key)
        },
{
    reveal(Seq::filter);
    assert(doc.push(e).drop_last() == doc);
}

/// A document without entries declares no value.
pub proof fn lemma_values_of_empty(section: Seq<u8>, subsection: Option<Seq<u8>>, key: Seq<u8>)
    ensures
        values_of(Seq::empty(), section, subsection, key) == Seq::<Seq<u8>>::empty(),
{
    reveal(Seq::filter);
}

/// A key has a value exactly if some entry of the document matches it.
pub proof fn lemma_value_of_is_some(
    doc: Seq<EntryView>,
    section: Seq<u8>,
    subsection: Option<Seq<u8>>,
    key: Seq<u8>,
)
    ensures
        value_of(doc, section, subsection, key) is Some <==> exists|i: int|
            0 <= i < doc.len() && entry_matches(#[trigger] doc[i], section, subsection, key),
    decreases doc.len(),
{
    if doc.len() == 0 {
        lemma_values_of_empty(section, subsection, key);
        assert(doc == Seq::<EntryView>::empty());
    } else {
        let rest = doc.drop_last();
        lemma_value_of_is_some(rest, section, subsection, key);
        lemma_values_of_push(rest, doc.last(), section, subsection, key);
        assert(doc == rest.push(doc.last()));
        if value_of(doc, section, subsection, key) is Some {
            if entry_matches(doc.last(), section, subsection, key) {
                assert(entry_matches(doc[doc.len() - 1], section, subsection, key));
            } else {
                let i = choose|i: int|
                    0 <= i < rest.len() && entry_matches(
                        #[trigger] rest[i],
                        section,
                        subsection,
                        key,
                    );
                assert(entry_matches(doc[i], section, subsection, key));
            }
        }
        if exists|i: int|
            0 <= i < doc.len() && entry_matches(#[trigger] doc[i], section, subsection, key) {
            let i = choose|i: int|
                0 <= i < doc.len() && entry_matches(#[trigger] doc[i], section, subsection, key);
            if i < rest.len() {
                assert(entry_matches(rest[i], section, subsection, key));
            }
        }
    }
}

/// An owned copy of optional bytes.
fn opt_to_vec(bytes: Option<&[u8]>) -> (r: Option<Vec<u8>>)
    ensures
        match (r, bytes) {
            (Some(v), Some(b)) => v@ == b@,
            (None, None) => true,
            _ => false,
        },
{
    match bytes {
        Some(b) => Some(to_vec(b)),
        None => None,
    }
}

impl Entry {
    /// Whether this entry stands under `section` and `subsection` and has the key `key`.
    pub fn matches(&self, section: &[u8], subsection: Option<&[u8]>, key: &[u8]) -> (r: bool)
        ensures
            r == entry_matches(
                self@,
                section@,
                opt_seq(subsection),
                key@,
            ),
    {
        bytes_eq(self.section.as_slice(), section) && opt_bytes_eq(&self.subsection, subsection)
            && bytes_eq(self.key.as_slice(), key)
    }
}

impl Document {
    /// A document without entries.
    pub fn new() -> (r: Document)
        ensures
            r@ == Seq::<EntryView>::empty(),
    {
        Document { entries: Vec::new() }
    }

    /// Declares one more entry, after all that the document holds.
    pub fn push(&mut self, section: &str, subsection: Option<&str>, key: &str, value: &[u8])
        ensures
            final(self)@ == old(self)@.push(
                EntryView {
                    section: section.spec_bytes(),
                    subsection: opt_bytes(subsection),
                    key: key.spec_bytes(),
                    value: value@,
                },
            ),
    {
        let entry = Entry {
            section: to_vec(section.as_bytes()),
            subsection: opt_to_vec(opt_as_bytes(subsection)),
            key: to_vec(key.as_bytes()),
            value: to_vec(value),
        };
        self.entries.push(entry);
    }

    /// All values declared for the key, in declared order.
    pub fn values_bytes(&self, section: &[u8], subsection: Option<&[u8]>, key: &[u8]) -> (r: Vec<
        Vec<u8>,
    >)
        ensures
            byte_views(r@) == values_of(
                self@,
                section@,
                opt_seq(subsection),
                key@,
            ),
    {
        let ghost sub = opt_seq(subsection);
        let mut out: Vec<Vec<u8>> = Vec::new();
        let mut i: usize = 0;
        proof {
            assert(self@.take(0) == Seq::<EntryView>::empty());
            lemma_values_of_empty(section@, sub, key@);
        }
        while i < self.entries.len()
            invariant
                i <= self.entries@.len(),
                sub == opt_seq(subsection),
                byte_views(out@) == values_of(self@.take(i as int), section@, sub, key@),
            decreases self.entries@.len() - i,
        {
            proof {
                assert(self@.take(i + 1) == self@.take(i as int).push(self.entries@[i as int]@));
                lemma_values_of_push(
                    self@.take(i as int),
                    self.entries@[i as int]@,
                    section@,
                    sub,
                    key@,
                );
            }
            if self.entries[i].matches(section, subsection, key) {
                let ghost before = byte_views(out@);
                out.push(to_vec(self.entries[i].value.as_slice()));
                assert(byte_views(out@) == before.push(self.entries@[i as int]@.value));
            }
            i = i + 1;
        }
        assert(self@.take(i as int) == self@);
        out
    }

    /// The value of the key, which is the one declared last, or nothing if none is declared.
    pub fn value_bytes(&self, section: &[u8], subsection: Option<&[u8]>, key: &[u8]) -> (r: Option<
        Vec<u8>,
    >)
        ensures
            opt_view(r) == value_of(
                self@,
                section@,
                opt_seq(subsection),
                key@,
            ),
    {
        let mut all = self.values_bytes(section, subsection, key);
        let ghost before = byte_views(all@);
        match all.pop() {
            Some(last) => {
                assert(last@ == before.last());
                Some(last)
            },
            None => None,
        }
    }

    /// All values declared for the key, in declared order.
    pub fn values(&self, section: &str, subsection: Option<&str>, key: &str) -> (r: Vec<Vec<u8>>)
        ensures
            byte_views(r@) == values_of(
                self@,
                section.spec_bytes(),
                opt_bytes(subsection),
                key.spec_bytes(),
            ),
    {
        self.values_bytes(section.as_bytes(), opt_as_bytes(subsection), key.as_bytes())
    }

    /// The value of the key, which is the one declared last, or nothing if none is declared.
    pub fn value(&self, section: &str, subsection: Option<&str>, key: &str) -> (r: Option<Vec<u8>>)
        ensures
            opt_view(r) == value_of(
                self@,
                section.spec_bytes(),
                opt_bytes(subsection),
                key.spec_bytes(),
            ),
    {
        self.value_bytes(section.as_bytes(), opt_as_bytes(subsection), key.as_bytes())
    }
}

} // verus!
