//! What follows from the rules of the ledger for every state, every party
//! and every task.

use vstd::prelude::*;
use crate::error::CustomError;
use crate::pubkey::Pubkey;
use crate::state::LedgerState;

verus! {

/// A stake by a party that has no active escrow for the task and holds the
/// rent and the amount is accepted, and a completion by that party that
/// follows it at once, at any time up to the deadline, succeeds: no escrow
/// is left for the task, the owner has the rent and the amount staked
/// back, and the ledger is as it was before the stake.
pub proof fn lemma_stake_then_complete(
    s: LedgerState,
    owner: Pubkey,
    task_id: u64,
    deadline: i64,
    stake_amount: u64,
    now: i64,
)
    requires
        s.valid(),
        !s.is_active(owner, task_id),
        s.cost(stake_amount) <= s.balances[owner],
        now <= deadline,
    ensures
        ({
            let staked = s.stake(owner, task_id, deadline, stake_amount)->Ok_0;
            let done = staked.complete(owner, owner, task_id, now);
            &&& s.stake(owner, task_id, deadline, stake_amount) is Ok
            &&& staked.is_active(owner, task_id)
            &&& staked.balances[owner] + s.rent + stake_amount == s.balances[owner]
            &&& done is Ok
            &&& !done->Ok_0.is_active(owner, task_id)
            &&& done->Ok_0.balances[owner] == staked.balances[owner] + s.rent + stake_amount
            &&& done->Ok_0 == s
        }),
{
    let staked = s.stake(owner, task_id, deadline, stake_amount)->Ok_0;
    let done = staked.complete(owner, owner, task_id, now)->Ok_0;
    assert(s.balances.contains_key(owner));
    assert(done.balances =~= s.balances);
    assert(done.escrows =~= s.escrows);
}

/// A completion after the deadline, asked by the owner, fails with
/// `DeadlinePassed`, and so does every later one: time does not bring an
/// escrow back.
pub proof fn lemma_late_completion_fails(
    s: LedgerState,
    owner: Pubkey,
    task_id: u64,
    now: i64,
    later: i64,
)
    requires
        s.valid(),
        s.is_active(owner, task_id),
        now > s.escrows[(owner, task_id)].task.deadline,
        later >= now,
    ensures
        s.complete(owner, owner, task_id, now) == Err::<LedgerState, CustomError>(
            CustomError::DeadlinePassed,
        ),
        s.complete(owner, owner, task_id, later) == Err::<LedgerState, CustomError>(
            CustomError::DeadlinePassed,
        ),
{
}

/// A completion asked by the owner at any time up to the deadline
/// succeeds, and so at the deadline itself.
pub proof fn lemma_completion_in_time(s: LedgerState, owner: Pubkey, task_id: u64, now: i64)
    requires
        s.valid(),
        s.is_active(owner, task_id),
        now <= s.escrows[(owner, task_id)].task.deadline,
    ensures
        s.complete(owner, owner, task_id, now) is Ok,
        s.complete(owner, owner, task_id, s.escrows[(owner, task_id)].task.deadline) is Ok,
        !s.complete(owner, owner, task_id, now)->Ok_0.is_active(owner, task_id),
{
}

/// After a stake that was accepted, a second stake of the same owner on
/// the same task fails with `DuplicateEscrow`, whatever its deadline and
/// amount, and whatever the owner then holds.
pub proof fn lemma_second_stake_refused(
    s: LedgerState,
    owner: Pubkey,
    task_id: u64,
    deadline: i64,
    stake_amount: u64,
    other_deadline: i64,
    other_amount: u64,
)
    requires
        s.stake(owner, task_id, deadline, stake_amount) is Ok,
    ensures
        s.stake(owner, task_id, deadline, stake_amount)->Ok_0.stake(
            owner,
            task_id,
            other_deadline,
            other_amount,
        ) == Err::<LedgerState, CustomError>(CustomError::DuplicateEscrow),
{
}

/// A completion asked by anyone but the owner fails with `NotOwner`, be it
/// before the deadline or after it.
pub proof fn lemma_stranger_refused(
    s: LedgerState,
    caller: Pubkey,
    owner: Pubkey,
    task_id: u64,
    now: i64,
)
    requires
        s.valid(),
        s.is_active(owner, task_id),
        caller != owner,
    ensures
        s.complete(caller, owner, task_id, now) == Err::<LedgerState, CustomError>(
            CustomError::NotOwner,
        ),
{
}

/// A stake and a completion touch no escrow but the one they name: every
/// other escrow is active after them exactly if it was before, with the
/// same record and the same value in custody.
pub proof fn lemma_other_escrows_untouched(
    s: LedgerState,
    caller: Pubkey,
    owner: Pubkey,
    task_id: u64,
    deadline: i64,
    stake_amount: u64,
    now: i64,
    other: (Pubkey, u64),
)
    requires
        other != (owner, task_id),
    ensures
        s.stake(owner, task_id, deadline, stake_amount) matches Ok(after) ==> {
            &&& after.is_active(other.0, other.1) == s.is_active(other.0, other.1)
            &&& after.is_active(other.0, other.1) ==> after.escrows[other] == s.escrows[other]
        },
        s.complete(caller, owner, task_id, now) matches Ok(after) ==> {
            &&& after.is_active(other.0, other.1) == s.is_active(other.0, other.1)
            &&& after.is_active(other.0, other.1) ==> after.escrows[other] == s.escrows[other]
        },
{
}

} // verus!
