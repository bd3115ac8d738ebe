//! Why a stake or a completion was turned down.

use vstd::prelude::*;

verus! {

/// The reasons for which an operation on an escrow fails. Every one of them
/// is final for the operation that met it: nothing has changed when one is
/// returned.
#[derive(Clone, Copy, Debug, PartialEq, Eq, Structural)]
pub enum CustomError {
    /// The completion came after the deadline of the escrow.
    DeadlinePassed,
    /// The party that asked for the completion is not the owner of the escrow.
    NotOwner,
    /// No escrow is held for the owner and task named.
    NotFound,
    /// An escrow is already held for the owner and task named.
    DuplicateEscrow,
    /// The owner cannot pay for the storage of the escrow and the stake.
    InsufficientFunds,
}

impl CustomError {
    /// The text of the message that goes with each error.
    pub open spec fn message_text(self) -> Seq<char> {
        match self {
            CustomError::DeadlinePassed => "Task deadline has passed"@,
            CustomError::NotOwner => "Caller does not own the task"@,
            CustomError::NotFound => "Task not found"@,
            CustomError::DuplicateEscrow => "Task already staked"@,
            CustomError::InsufficientFunds => "Insufficient funds for the stake"@,
        }
    }

    /// A message for the user.
    pub fn message(&self) -> (msg: &'static str)
        ensures
            msg@ == self.message_text(),
    {
        match self {
            CustomError::DeadlinePassed => "Task deadline has passed",
            CustomError::NotOwner => "Caller does not own the task",
            CustomError::NotFound => "Task not found",
            CustomError::DuplicateEscrow => "Task already staked",
            CustomError::InsufficientFunds => "Insufficient funds for the stake",
        }
    }
}

} // verus!
