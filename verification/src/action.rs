//! What an operation asks of its caller, and what the caller answers.

use crate::page::PageOp;
use vstd::prelude::*;

verus! {

/// Why a write-back or a reclaim stopped.
#[derive(Debug, Clone, Copy, PartialEq, Eq, Structural)]
pub enum IoFailure {
    /// The operating system reported this error number.
    Os(i32),
    /// A write to the file accepted no byte.
    WriteZero,
}

/// The next thing that an operation needs done.
#[derive(Debug, Clone, Copy, PartialEq, Eq, Structural)]
pub enum Action {
    /// Perform `op` on the state of page `page`, indivisibly.
    Page { page: usize, op: PageOp },
    /// Let the caller change the mapped bytes `offset..offset + len`.
    Mutate { offset: usize, len: usize },
    /// Write the mapped bytes `offset..offset + len` to the same place in the file.
    WriteFile { offset: usize, len: usize },
    /// Return the mapped bytes `offset..offset + len` to the kernel.
    Discard { offset: usize, len: usize },
    /// Nothing more: the operation has ended.
    Finish,
}

/// What came of an action.
#[derive(Debug, Clone, Copy, PartialEq, Eq, Structural)]
pub enum Reply {
    /// The answer of an operation on a page state.
    Flag(bool),
    /// The action was carried out.
    Done,
    /// This many bytes were written to the file.
    Wrote(usize),
    /// The call was interrupted before it wrote anything.
    Interrupted,
    /// The call failed with this error number.
    Failed(i32),
}

impl Reply {
    /// Whether this is a reply of the kind that `action` calls for.
    pub open spec fn answers(self, action: Action) -> bool {
        match action {
            Action::Page { .. } => self is Flag,
            Action::Mutate { .. } => self is Done,
            Action::WriteFile { .. } => self is Wrote || self is Interrupted || self is Failed,
            Action::Discard { .. } => self is Done || self is Failed,
            Action::Finish => false,
        }
    }
}

} // verus!
