//! Setting a direct reference to another object.

use vstd::prelude::*;
use crate::reference::{Change, ChangeView, EditError, LogChange, ObjectId, PreviousValue};
use crate::reference::{RefEdit, RefEditView, RefLog, Reference, Target, TargetView};
use crate::text::to_vec;

verus! {

/// Why a reference could not be set to an id.
#[derive(Clone, Debug, PartialEq, Eq, Hash)]
pub enum Error {
    /// The reference is symbolic: setting it to an id would turn it into a direct one.
    SymbolicReference { name: Vec<u8> },
    /// The store could not perform the edit.
    ReferenceEdit(EditError),
}

/// The edit that sets the reference to `id`, or the name it points to if it is symbolic.
pub open spec fn planned(reference: Reference, id: ObjectId, message: Seq<u8>) -> Result<
    RefEditView,
    Seq<u8>,
> {
    match reference.target {
        Target::Symbolic(name) => Err(name@),
        Target::Peeled(current) => Ok(
            RefEditView {
                change: ChangeView::Update {
                    mode: RefLog::AndReference,
                    force_create_reflog: false,
                    message,
                    must_match: TargetView::Peeled(current),
                    new: TargetView::Peeled(id),
                },
                name: reference.name@,
                deref: false,
            },
        ),
    }
}

impl Reference {
    /// The edit that sets this direct reference to `id`, with `reflog_message` for its log.
    ///
    /// The edit goes ahead only if the store still finds the reference pointing to the id
    /// that it has here. A symbolic reference is turned down: the error names what it
    /// points to.
    pub fn set_target_id(&self, id: ObjectId, reflog_message: Vec<u8>) -> (r: Result<
        RefEdit,
        Error,
    >)
        ensures
            match r {
                Ok(edit) => planned(*self, id, reflog_message@) == Ok::<RefEditView, Seq<u8>>(
                    edit@,
                ),
                Err(Error::SymbolicReference { name }) => planned(*self, id, reflog_message@)
                    == Err::<RefEditView, Seq<u8>>(name@),
                Err(Error::ReferenceEdit(_)) => false,
            },
    {
        match &self.target {
            Target::Symbolic(name) => Err(
                Error::SymbolicReference { name: to_vec(name.as_slice()) },
            ),
            Target::Peeled(current_id) => Ok(
                RefEdit {
                    change: Change::Update {
                        log: LogChange {
                            mode: RefLog::AndReference,
                            force_create_reflog: false,
                            message: reflog_message,
                        },
                        expected: PreviousValue::MustExistAndMatch(Target::Peeled(*current_id)),
                        new: Target::Peeled(id),
                    },
                    name: to_vec(self.name.as_slice()),
                    deref: false,
                },
            ),
        }
    }

    /// Takes in what the store made of an edit of this reference: on success the
    /// reference becomes the one that the store returned, on failure it stays as it is and
    /// the failure comes back.
    pub fn target_was_set(&mut self, outcome: Result<Reference, EditError>) -> (r: Result<
        (),
        Error,
    >)
        ensures
            match outcome {
                Ok(changed) => r is Ok && *final(self) == changed,
                Err(e) => r == Err::<(), Error>(Error::ReferenceEdit(e)) && *final(self) == *old(
                    self,
                ),
            },
    {
        match outcome {
            Ok(changed) => {
                *self = changed;
                Ok(())
            },
            Err(e) => Err(Error::ReferenceEdit(e)),
        }
    }
}

} // verus!
