//! The accounts that each instruction names.

use vstd::prelude::*;
use crate::pubkey::Pubkey;

verus! {

/// The accounts of a stake. The escrow that it opens stands under the
/// signer and the number of the task.
#[derive(Clone, Copy, Debug, PartialEq, Eq)]
pub struct StakeTask {
    /// The signer, who pays for the escrow and becomes its owner.
    pub user: Pubkey,
}

/// The accounts of a completion: the escrow to release, named by its
/// owner and the number of its task, and the party that signed for the
/// release.
#[derive(Clone, Copy, Debug, PartialEq, Eq)]
pub struct CompleteTask {
    /// The owner of the escrow to release.
    pub owner: Pubkey,
    /// The number of the task of the escrow to release.
    pub task_id: u64,
    /// The signer, who has to be the owner of the escrow.
    pub user: Pubkey,
}

} // verus!
