//! Deleting a reference.

use vstd::prelude::*;
use crate::reference::{Change, ChangeView, EditError, Fail, PreviousValue};
use crate::reference::{RefEdit, RefEditView, RefLog, Reference};
use crate::text::to_vec;

verus! {

/// Why a reference could not be deleted.
#[derive(Clone, Debug, PartialEq, Eq, Hash)]
pub enum Error {
    /// The store could not perform the edit.
    ReferenceEdit(EditError),
}

impl Reference {
    /// The edit that deletes this reference together with its log, and what the store is
    /// to do if the reference is locked: give up at once.
    ///
    /// The edit goes ahead only if the store still finds the reference pointing to what
    /// it points to here.
    pub fn delete(&self) -> (r: (RefEdit, Fail))
        ensures
            r.0@ == (RefEditView {
                change: ChangeView::Delete { must_match: self.target@, log: RefLog::AndReference },
                name: self.name@,
                deref: false,
            }),
            r.1 == Fail::Immediately,
    {
        (
            RefEdit {
                change: Change::Delete {
                    expected: PreviousValue::MustExistAndMatch(self.target.duplicate()),
                    log: RefLog::AndReference,
                },
                name: to_vec(self.name.as_slice()),
                deref: false,
            },
            Fail::Immediately,
        )
    }

    /// Takes in what the store made of deleting this reference.
    pub fn was_deleted(&self, outcome: Result<(), EditError>) -> (r: Result<(), Error>)
        ensures
            r == match outcome {
                Ok(()) => Ok::<(), Error>(()),
                Err(e) => Err::<(), Error>(Error::ReferenceEdit(e)),
            },
    {
        match outcome {
            Ok(()) => Ok(()),
            Err(e) => Err(Error::ReferenceEdit(e)),
        }
    }
}

} // verus!
