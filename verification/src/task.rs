//! The escrow record, and the bytes under which it is stored.

use vstd::prelude::*;
use vstd::bytes::{
    lemma_auto_spec_u64_to_from_le_bytes,
    spec_u64_from_le_bytes,
    spec_u64_to_le_bytes,
    u64_from_le_bytes,
    u64_to_le_bytes,
};
use vstd::slice::slice_subrange;
use crate::error::CustomError;
use crate::pubkey::Pubkey;

verus! {

/// An escrow: value staked by `user` against the task `task_id`, which
/// returns to `user` when the task is completed no later than `deadline`.
#[derive(Clone, Copy, Debug, PartialEq, Eq)]
pub struct Task {
    /// The party that staked.
    pub user: Pubkey,
    /// The owner's own number for the task. An owner holds at most one
    /// escrow for each.
    pub task_id: u64,
    /// Unix time, in seconds, of the last moment at which the task can be
    /// completed.
    pub deadline: i64,
    /// Whether the task was completed in time.
    pub completed: bool,
    /// The amount that the owner declared when staking.
    pub staked_amount: u64,
}

/// The byte that stands for a flag.
pub open spec fn flag_byte(flag: bool) -> u8 {
    if flag {
        1
    } else {
        0
    }
}

impl Task {
    /// Bytes of storage that one record takes: an 8-byte tag that marks the
    /// kind of record, then the five fields in the order of their
    /// declaration.
    pub const LEN: usize = 8 + 32 + 8 + 8 + 1 + 8;

    /// Bytes that the five fields take.
    pub const PAYLOAD_LEN: usize = 32 + 8 + 8 + 1 + 8;

    /// The record of a new escrow: owned by `user`, not completed, and with
    /// the three values as they were given.
    pub open spec fn staked(user: Pubkey, task_id: u64, deadline: i64, stake_amount: u64) -> Task {
        Task { user, task_id, deadline, completed: false, staked_amount: stake_amount }
    }

    /// The record of a new escrow of `user`. The deadline is taken as it
    /// comes, be it in the past.
    pub fn new(user: Pubkey, task_id: u64, deadline: i64, stake_amount: u64) -> (task: Task)
        ensures
            task == Task::staked(user, task_id, deadline, stake_amount),
    {
        Task { user, task_id, deadline, completed: false, staked_amount: stake_amount }
    }

    /// Whether a completion asked by `caller` at time `now` releases the
    /// escrow, and if not, why: the caller has to be the owner, and `now`
    /// must not be after the deadline.
    pub open spec fn completion(self, caller: Pubkey, now: i64) -> Result<(), CustomError> {
        if self.user != caller {
            Err(CustomError::NotOwner)
        } else if now > self.deadline {
            Err(CustomError::DeadlinePassed)
        } else {
            Ok(())
        }
    }

    /// Marks the escrow as completed if `caller` owns it and `now` is not
    /// after the deadline; the deadline itself is still in time. On an
    /// error the record stays as it was.
    pub fn complete(&mut self, caller: &Pubkey, now: i64) -> (r: Result<(), CustomError>)
        ensures
            r == old(self).completion(*caller, now),
            r is Ok ==> *final(self) == (Task { completed: true, ..*old(self) }),
            r is Err ==> *final(self) == *old(self),
    {
        if self.user != *caller {
            return Err(CustomError::NotOwner);
        }
        if now > self.deadline {
            return Err(CustomError::DeadlinePassed);
        }
        self.completed = true;
        Ok(())
    }

    /// The bytes of the five fields, in the order of their declaration:
    /// the owner's 32 bytes, the task number in 8 bytes, the deadline in
    /// 8 bytes as a two's complement, one byte for the flag, the amount in
    /// 8 bytes; every number with its low byte first.
    pub open spec fn payload(self) -> Seq<u8> {
        self.user.bytes@ + spec_u64_to_le_bytes(self.task_id) + spec_u64_to_le_bytes(
            self.deadline as u64,
        ) + seq![flag_byte(self.completed)] + spec_u64_to_le_bytes(self.staked_amount)
    }

    /// The record as bytes, without the tag.
    pub fn to_bytes(&self) -> (bytes: Vec<u8>)
        ensures
            bytes@ == self.payload(),
            bytes@.len() == Task::PAYLOAD_LEN,
    {
        let mut bytes: Vec<u8> = Vec::new();
        let mut i: usize = 0;
        while i < 32
            invariant
                i <= 32,
                bytes@ == self.user.bytes@.subrange(0, i as int),
            decreases 32 - i,
        {
            bytes.push(self.user.bytes[i]);
            i += 1;
        }
        assert(bytes@ == self.user.bytes@);
        let mut task_id = u64_to_le_bytes(self.task_id);
        bytes.append(&mut task_id);
        let mut deadline = u64_to_le_bytes(self.deadline as u64);
        bytes.append(&mut deadline);
        bytes.push(if self.completed { 1 } else { 0 });
        let mut staked_amount = u64_to_le_bytes(self.staked_amount);
        bytes.append(&mut staked_amount);
        bytes
    }

    /// The record that `bytes` hold, if they are the bytes of one: exactly
    /// as many as the five fields take, with 0 or 1 for the flag.
    pub fn from_bytes(bytes: &[u8]) -> (found: Option<Task>)
        ensures
            match found {
                Some(task) => task.payload() == bytes@,
                None => forall|task: Task| task.payload() != bytes@,
            },
    {
        proof {
            lemma_auto_spec_u64_to_from_le_bytes();
        }
        if bytes.len() != Task::PAYLOAD_LEN {
            assert forall|task: Task| task.payload() != bytes@ by {
                assert(task.payload().len() == 57);
            }
            return None;
        }
        let flag = bytes[48];
        if flag > 1 {
            assert forall|task: Task| task.payload() != bytes@ by {
                assert(task.payload()[48] == flag_byte(task.completed));
            }
            return None;
        }
        let mut user = [0u8;32];
        let mut i: usize = 0;
        while i < 32
            invariant
                i <= 32,
                bytes@.len() == 57,
                forall|j: int| 0 <= j < i ==> user@[j] == bytes@[j],
            decreases 32 - i,
        {
            user[i] = bytes[i];
            i += 1;
        }
        let task_id = u64_from_le_bytes(slice_subrange(bytes, 32, 40));
        let deadline = u64_from_le_bytes(slice_subrange(bytes, 40, 48));
        let staked_amount = u64_from_le_bytes(slice_subrange(bytes, 49, 57));
        let task = Task {
            user: Pubkey::new(user),
            task_id,
            deadline: deadline as i64,
            completed: flag == 1,
            staked_amount,
        };
        proof {
            assert((deadline as i64) as u64 == deadline) by (bit_vector);
            assert(task.user.bytes@ =~= bytes@.subrange(0, 32));
            assert(seq![flag_byte(task.completed)] =~= bytes@.subrange(48, 49));
            assert(task.payload() =~= bytes@);
        }
        Some(task)
    }

    /// A record is told by its bytes: two records with the same bytes are
    /// the same record.
    pub proof fn lemma_payload_tells(self, other: Task)
        requires
            self.payload() == other.payload(),
        ensures
            self == other,
    {
        lemma_auto_spec_u64_to_from_le_bytes();
        let a = self.payload();
        let b = other.payload();
        assert(self.user.bytes@ =~= a.subrange(0, 32));
        assert(other.user.bytes@ =~= b.subrange(0, 32));
        assert(self.user.bytes =~= other.user.bytes);
        assert(spec_u64_to_le_bytes(self.task_id) =~= a.subrange(32, 40));
        assert(spec_u64_to_le_bytes(other.task_id) =~= b.subrange(32, 40));
        assert(spec_u64_to_le_bytes(self.deadline as u64) =~= a.subrange(40, 48));
        assert(spec_u64_to_le_bytes(other.deadline as u64) =~= b.subrange(40, 48));
        assert(a[48] == flag_byte(self.completed));
        assert(b[48] == flag_byte(other.completed));
        assert(spec_u64_to_le_bytes(self.staked_amount) =~= a.subrange(49, 57));
        assert(spec_u64_to_le_bytes(other.staked_amount) =~= b.subrange(49, 57));
        assert(self.task_id == spec_u64_from_le_bytes(spec_u64_to_le_bytes(self.task_id)));
        assert(other.task_id == spec_u64_from_le_bytes(spec_u64_to_le_bytes(other.task_id)));
        assert(self.staked_amount == spec_u64_from_le_bytes(
            spec_u64_to_le_bytes(self.staked_amount),
        ));
        assert(other.staked_amount == spec_u64_from_le_bytes(
            spec_u64_to_le_bytes(other.staked_amount),
        ));
        let x = self.deadline as u64;
        let y = other.deadline as u64;
        assert(x == spec_u64_from_le_bytes(spec_u64_to_le_bytes(x)));
        assert(y == spec_u64_from_le_bytes(spec_u64_to_le_bytes(y)));
        let d1 = self.deadline;
        let d2 = other.deadline;
        assert((d1 as u64) == (d2 as u64) ==> d1 == d2) by (bit_vector);
    }
}

} // verus!
