//! Which configuration sections may be consulted.

use vstd::prelude::*;
use crate::text::{bytes_eq, opt_bytes_eq, opt_seq};

verus! {

/// A policy that decides whether the values of a configuration section may be used.
///
/// An implementation may keep state, for instance to remember what it found out about a
/// section, but asking must not change any answer.
pub trait TrustFilter {
    /// The policy's answer for a section, given by the bytes of its names.
    spec fn trusts(&self, section: Seq<u8>, subsection: Option<Seq<u8>>) -> bool;

    /// Whether the values of the section may be used.
    fn is_trusted(&mut self, section: &[u8], subsection: Option<&[u8]>) -> (r: bool)
        ensures
            r == old(self).trusts(section@, opt_seq(subsection)),
            forall|s: Seq<u8>, t: Option<Seq<u8>>| #[trigger]
                final(self).trusts(s, t) == old(self).trusts(s, t),
    ;
}

/// The policy that trusts every section.
#[derive(Clone, Copy, Debug, PartialEq, Eq, Hash)]
pub struct TrustAll;

impl TrustFilter for TrustAll {
    open spec fn trusts(&self, section: Seq<u8>, subsection: Option<Seq<u8>>) -> bool {
        true
    }

    fn is_trusted(&mut self, section: &[u8], subsection: Option<&[u8]>) -> (r: bool) {
        true
    }
}

/// The name of a section: its own name and, if it has one, that of its subsection.
#[derive(Clone, Debug, PartialEq, Eq, Hash)]
pub struct SectionName {
    pub section: Vec<u8>,
    pub subsection: Option<Vec<u8>>,
}

/// Whether a section name is the given pair of names.
pub open spec fn names(n: SectionName, section: Seq<u8>, subsection: Option<Seq<u8>>) -> bool {
    n.section@ == section && match (n.subsection, subsection) {
        (Some(a), Some(b)) => a@ == b,
        (None, None) => true,
        _ => false,
    }
}

/// A policy given as a list of exceptions: the listed sections get the opposite of the
/// answer that all others get.
#[derive(Clone, Debug, PartialEq, Eq, Hash)]
pub struct SectionTrust {
    pub trusted_by_default: bool,
    pub exceptions: Vec<SectionName>,
}

impl SectionTrust {
    /// Whether the section is one of the exceptions.
    pub open spec fn is_exception(&self, section: Seq<u8>, subsection: Option<Seq<u8>>) -> bool {
        exists|i: int|
            0 <= i < self.exceptions@.len() && names(
                #[trigger] self.exceptions@[i],
                section,
                subsection,
            )
    }

    /// The policy that trusts every section but the listed ones.
    pub fn all_but(untrusted: Vec<SectionName>) -> (r: SectionTrust)
        ensures
            r.trusted_by_default,
            r.exceptions@ == untrusted@,
    {
        SectionTrust { trusted_by_default: true, exceptions: untrusted }
    }

    /// The policy that trusts the listed sections and no others.
    pub fn only(trusted: Vec<SectionName>) -> (r: SectionTrust)
        ensures
            !r.trusted_by_default,
            r.exceptions@ == trusted@,
    {
        SectionTrust { trusted_by_default: false, exceptions: trusted }
    }
}

impl TrustFilter for SectionTrust {
    open spec fn trusts(&self, section: Seq<u8>, subsection: Option<Seq<u8>>) -> bool {
        self.trusted_by_default != self.is_exception(section, subsection)
    }

    fn is_trusted(&mut self, section: &[u8], subsection: Option<&[u8]>) -> (r: bool) {
        let mut i: usize = 0;
        while i < self.exceptions.len()
            invariant
                *self == *old(self),
                i <= self.exceptions@.len(),
                forall|k: int|
                    0 <= k < i ==> !names(
                        #[trigger] self.exceptions@[k],
                        section@,
                        opt_seq(subsection),
                    ),
            decreases self.exceptions@.len() - i,
        {
            let name = &self.exceptions[i];
            if bytes_eq(name.section.as_slice(), section) && opt_bytes_eq(
                &name.subsection,
                subsection,
            ) {
                assert(names(self.exceptions@[i as int], section@, opt_seq(subsection)));
                return !self.trusted_by_default;
            }
            i = i + 1;
        }
        self.trusted_by_default
    }
}

} // verus!
