//! The two instructions: staking on a task, and completing it in time.

use vstd::prelude::*;
use crate::context::{CompleteTask, StakeTask};
use crate::error::CustomError;
use crate::ledger::Ledger;
use crate::task::Task;

verus! {

/// Stakes `stake_amount` of the signer on the task `task_id`, to be
/// completed no later than `deadline`: opens an escrow under the signer and
/// the task, with the five fields as given and not completed. The rent of
/// the record and the amount leave the signer's free balance for the
/// custody of the escrow. The deadline is not held against the clock: one
/// in the past makes an escrow that can never be completed.
///
/// Fails with `DuplicateEscrow` when the signer has an active escrow for
/// `task_id`, else with `InsufficientFunds` when the signer holds less than
/// the rent and the amount together. Nothing changes then.
pub fn stake_task(
    ledger: &mut Ledger,
    ctx: &StakeTask,
    task_id: u64,
    deadline: i64,
    stake_amount: u64,
) -> (r: Result<(), CustomError>)
    requires
        old(ledger).wf(),
    ensures
        final(ledger).wf(),
        match old(ledger)@.stake(ctx.user, task_id, deadline, stake_amount) {
            Ok(state) => r is Ok && final(ledger)@ == state,
            Err(e) => r == Err::<(), CustomError>(e) && final(ledger)@ == old(ledger)@,
        },
{
    if ledger.escrow(&ctx.user, task_id).is_some() {
        return Err(CustomError::DuplicateEscrow);
    }
    let cost = match ledger.rent().checked_add(stake_amount) {
        Some(cost) => cost,
        None => {
            proof {
                ledger.lemma_wf_valid();
                assert(ledger@.balances.contains_key(ctx.user));
            }
            return Err(CustomError::InsufficientFunds);
        },
    };
    if ledger.balance(&ctx.user) < cost {
        return Err(CustomError::InsufficientFunds);
    }
    let task = Task::new(ctx.user, task_id, deadline, stake_amount);
    ledger.open(task);
    Ok(())
}

/// Completes the task that `ctx` names, at time `now`: the escrow is marked
/// as completed and closed, and all that it held goes back to the free
/// balance of its owner. `now` is the reading of the ledger's own clock,
/// never a time that the signer names. A completion at the deadline itself
/// is in time.
///
/// Fails with `NotFound` when there is no active escrow under the owner and
/// the task named, else with `NotOwner` when the signer is not its owner,
/// else with `DeadlinePassed` when `now` is after the deadline. Nothing
/// changes then: the escrow stays active as it was, and no later time
/// brings it back.
pub fn complete_task(ledger: &mut Ledger, ctx: &CompleteTask, now: i64) -> (r: Result<
    (),
    CustomError,
>)
    requires
        old(ledger).wf(),
    ensures
        final(ledger).wf(),
        match old(ledger)@.complete(ctx.user, ctx.owner, ctx.task_id, now) {
            Ok(state) => r is Ok && final(ledger)@ == state,
            Err(e) => r == Err::<(), CustomError>(e) && final(ledger)@ == old(ledger)@,
        },
{
    let mut task = match ledger.escrow(&ctx.owner, ctx.task_id) {
        Some(escrow) => escrow.task,
        None => {
            return Err(CustomError::NotFound);
        },
    };
    match task.complete(&ctx.user, now) {
        Err(e) => {
            return Err(e);
        },
        Ok(_) => {},
    }
    proof {
        ledger.lemma_wf_valid();
        assert(ledger@.escrows.contains_key((ctx.owner, ctx.task_id)));
    }
    ledger.close(&ctx.owner, ctx.task_id);
    Ok(())
}

} // verus!
