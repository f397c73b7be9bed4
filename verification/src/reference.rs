//! References and the edits that change them.
//!
//! The reference store itself is not part of this library. A method here decides what
//! edit is asked of the store; the caller has the store perform it and hands back how
//! that went.

use vstd::prelude::*;
use crate::text::to_vec;

pub mod delete;
pub mod set_target_id;

verus! {

/// The id of an object: the twenty bytes of its SHA-1 hash.
#[derive(Clone, Copy, Debug, PartialEq, Eq, Hash)]
pub struct ObjectId {
    pub bytes: [u8; 20],
}

/// What a reference points to.
#[derive(Clone, Debug, PartialEq, Eq, Hash)]
pub enum Target {
    /// An object, given by its id.
    Peeled(ObjectId),
    /// Another reference, given by its full name.
    Symbolic(Vec<u8>),
}

/// A target as a mathematical value.
#[verifier::ext_equal]
pub enum TargetView {
    Peeled(ObjectId),
    Symbolic(Seq<u8>),
}

impl View for Target {
    type V = TargetView;

    open spec fn view(&self) -> TargetView {
        match self {
            Target::Peeled(id) => TargetView::Peeled(*id),
            Target::Symbolic(name) => TargetView::Symbolic(name@),
        }
    }
}

impl Target {
    /// A copy of this target.
    pub fn duplicate(&self) -> (r: Target)
        ensures
            r@ == self@,
    {
        match self {
            Target::Peeled(id) => Target::Peeled(*id),
            Target::Symbolic(name) => Target::Symbolic(to_vec(name.as_slice())),
        }
    }
}

/// A reference as it was last seen in the store: its full name and what it points to.
#[derive(Clone, Debug, PartialEq, Eq, Hash)]
pub struct Reference {
    pub name: Vec<u8>,
    pub target: Target,
}

/// A reference as a mathematical value.
#[verifier::ext_equal]
pub struct ReferenceView {
    pub name: Seq<u8>,
    pub target: TargetView,
}

impl View for Reference {
    type V = ReferenceView;

    open spec fn view(&self) -> ReferenceView {
        ReferenceView { name: self.name@, target: self.target@ }
    }
}

/// What the store must find in place of a reference for an edit to go ahead.
#[derive(Clone, Debug, PartialEq, Eq, Hash)]
pub enum PreviousValue {
    /// The reference must exist and point to the given target.
    MustExistAndMatch(Target),
}

/// How an edit treats the reference's log.
#[derive(Clone, Copy, Debug, PartialEq, Eq, Hash, Structural)]
pub enum RefLog {
    /// The reference and its log are changed.
    AndReference,
    /// Only the log is changed.
    Only,
}

/// What an update writes to the reference's log.
#[derive(Clone, Debug, PartialEq, Eq, Hash)]
pub struct LogChange {
    pub mode: RefLog,
    pub force_create_reflog: bool,
    pub message: Vec<u8>,
}

/// The change that an edit makes.
#[derive(Clone, Debug, PartialEq, Eq, Hash)]
pub enum Change {
    /// The reference is set to `new`.
    Update { log: LogChange, expected: PreviousValue, new: Target },
    /// The reference is deleted.
    Delete { expected: PreviousValue, log: RefLog },
}

/// A change as a mathematical value.
#[verifier::ext_equal]
pub enum ChangeView {
    Update {
        mode: RefLog,
        force_create_reflog: bool,
        message: Seq<u8>,
        must_match: TargetView,
        new: TargetView,
    },
    Delete { must_match: TargetView, log: RefLog },
}

impl View for Change {
    type V = ChangeView;

    open spec fn view(&self) -> ChangeView {
        match self {
            Change::Update { log, expected: PreviousValue::MustExistAndMatch(target), new } => {
                ChangeView::Update {
                    mode: log.mode,
                    force_create_reflog: log.force_create_reflog,
                    message: log.message@,
                    must_match: target@,
                    new: new@,
                }
            },
            Change::Delete { expected: PreviousValue::MustExistAndMatch(target), log } => {
                ChangeView::Delete { must_match: target@, log: *log }
            },
        }
    }
}

/// An edit of one reference, to be performed by the store.
#[derive(Clone, Debug, PartialEq, Eq, Hash)]
pub struct RefEdit {
    pub change: Change,
    /// The full name of the reference.
    pub name: Vec<u8>,
    /// Whether the change is applied to what a symbolic reference points to.
    pub deref: bool,
}

/// An edit as a mathematical value.
#[verifier::ext_equal]
pub struct RefEditView {
    pub change: ChangeView,
    pub name: Seq<u8>,
    pub deref: bool,
}

impl View for RefEdit {
    type V = RefEditView;

    open spec fn view(&self) -> RefEditView {
        RefEditView { change: self.change@, name: self.name@, deref: self.deref }
    }
}

/// What the store does when the reference is locked by someone else.
#[derive(Clone, Copy, Debug, PartialEq, Eq, Hash, Structural)]
pub enum Fail {
    /// It gives up at once.
    Immediately,
}

/// The store could not perform an edit; the message says why.
#[derive(Clone, Debug, PartialEq, Eq, Hash)]
pub struct EditError {
    pub message: String,
}

} // verus!
