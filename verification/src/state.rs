//! The ledger as a mathematical object: who holds how much, which escrows
//! are active, and what a stake and a completion do to both.

use vstd::prelude::*;
use crate::error::CustomError;
use crate::pubkey::Pubkey;
use crate::task::Task;

verus! {

/// An active escrow as the ledger holds it: the record, and the value in
/// its custody.
#[derive(Clone, Copy, Debug, PartialEq, Eq)]
pub struct EscrowAccount {
    /// The record of the escrow.
    pub task: Task,
    /// The value that the escrow holds for its owner.
    pub balance: u64,
}

/// The state of a ledger.
#[verifier::ext_equal]
pub struct LedgerState {
    /// What the storage of one escrow record costs.
    pub rent: nat,
    /// All the value that the ledger holds, free or in custody.
    pub supply: nat,
    /// The free balance of every party; zero for a party that holds nothing.
    pub balances: Map<Pubkey, nat>,
    /// The active escrows, each under its owner and the number of its task.
    /// A task that was never staked and one whose escrow was closed are not
    /// told apart: neither has an escrow.
    pub escrows: Map<(Pubkey, u64), EscrowAccount>,
}

impl LedgerState {
    /// A ledger that holds nothing.
    pub open spec fn empty(rent: u64) -> LedgerState {
        LedgerState {
            rent: rent as nat,
            supply: 0,
            balances: Map::total(|who: Pubkey| 0nat),
            escrows: Map::empty(),
        }
    }

    /// What holds of every state that a ledger can reach: all value fits
    /// the machine's 64 bits, every party has a balance, and every
    /// active escrow stands under its own owner and task, is not completed,
    /// and holds the rent of its record and the amount staked.
    pub open spec fn valid(self) -> bool {
        &&& self.rent <= u64::MAX
        &&& self.supply <= u64::MAX
        &&& forall|who: Pubkey| #[trigger]
            self.balances.contains_key(who) && self.balances[who] <= self.supply
        &&& forall|key: (Pubkey, u64)| #[trigger]
            self.escrows.contains_key(key) ==> {
                let escrow = self.escrows[key];
                &&& escrow.task.user == key.0
                &&& escrow.task.task_id == key.1
                &&& !escrow.task.completed
                &&& escrow.balance == self.rent + escrow.task.staked_amount
                &&& escrow.balance <= self.supply
            }
    }

    /// Whether an escrow is active for `owner` and `task_id`.
    pub open spec fn is_active(self, owner: Pubkey, task_id: u64) -> bool {
        self.escrows.contains_key((owner, task_id))
    }

    /// What a stake of `stake_amount` takes from its owner: the rent of the
    /// record and the amount itself.
    pub open spec fn cost(self, stake_amount: u64) -> nat {
        self.rent + stake_amount as nat
    }

    /// The state after `amount` was added to the free balance of `who`.
    pub open spec fn deposit(self, who: Pubkey, amount: u64) -> LedgerState {
        LedgerState {
            supply: self.supply + amount as nat,
            balances: self.balances.insert(who, self.balances[who] + amount as nat),
            ..self
        }
    }

    /// A stake by `owner`. It is refused when the owner has an active
    /// escrow for the task already, and otherwise when the owner's free
    /// balance is under the cost. When it is accepted the cost moves from
    /// the owner's free balance into the custody of the new escrow.
    pub open spec fn stake(
        self,
        owner: Pubkey,
        task_id: u64,
        deadline: i64,
        stake_amount: u64,
    ) -> Result<LedgerState, CustomError> {
        if self.is_active(owner, task_id) {
            Err(CustomError::DuplicateEscrow)
        } else if self.balances[owner] < self.cost(stake_amount) {
            Err(CustomError::InsufficientFunds)
        } else {
            Ok(
                LedgerState {
                    balances: self.balances.insert(
                        owner,
                        (self.balances[owner] - self.cost(stake_amount)) as nat,
                    ),
                    escrows: self.escrows.insert(
                        (owner, task_id),
                        EscrowAccount {
                            task: Task::staked(owner, task_id, deadline, stake_amount),
                            balance: self.cost(stake_amount) as u64,
                        },
                    ),
                    ..self
                },
            )
        }
    }

    /// A completion, asked by `caller` at time `now`, of the escrow of
    /// `owner` for `task_id`. It is refused when there is no such escrow,
    /// otherwise when the caller is not its owner, otherwise when `now` is
    /// after the deadline. When it is accepted the escrow is no more, and
    /// all that it held is back in the owner's free balance.
    pub open spec fn complete(self, caller: Pubkey, owner: Pubkey, task_id: u64, now: i64) -> Result<
        LedgerState,
        CustomError,
    > {
        if !self.is_active(owner, task_id) {
            Err(CustomError::NotFound)
        } else {
            let escrow = self.escrows[(owner, task_id)];
            match escrow.task.completion(caller, now) {
                Err(e) => Err(e),
                Ok(_) => Ok(
                    LedgerState {
                        balances: self.balances.insert(
                            escrow.task.user,
                            self.balances[escrow.task.user] + escrow.balance as nat,
                        ),
                        escrows: self.escrows.remove((owner, task_id)),
                        ..self
                    },
                ),
            }
        }
    }
}

} // verus!
