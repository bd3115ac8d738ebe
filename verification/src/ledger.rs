//! The ledger: the free balance of every party, the active escrows with
//! what they hold, and the opening and closing of an escrow, which move
//! value between the two.

use vstd::prelude::*;
use crate::error::CustomError;
use crate::pubkey::Pubkey;
use crate::state::{EscrowAccount, LedgerState};
use crate::task::Task;
use crate::total::{
    lemma_total_bounds,
    lemma_total_push,
    lemma_total_remove,
    lemma_total_update,
    total,
};

verus! {

/// The free balance of one party.
struct Wallet {
    owner: Pubkey,
    balance: u64,
}

/// A ledger of free balances and active escrows. It holds at most one
/// wallet for a party and at most one escrow for an owner and a task.
pub struct Ledger {
    rent: u64,
    supply: u64,
    wallets: Vec<Wallet>,
    escrows: Vec<EscrowAccount>,
}

/// What a wallet counts for in the supply.
spec fn wallet_value() -> spec_fn(Wallet) -> nat {
    |w: Wallet| w.balance as nat
}

/// What an escrow counts for in the supply.
spec fn escrow_value() -> spec_fn(EscrowAccount) -> nat {
    |e: EscrowAccount| e.balance as nat
}

/// Whether the wallet of `who` is the one at `i`.
spec fn wallet_at(ws: Seq<Wallet>, who: Pubkey, i: int) -> bool {
    0 <= i < ws.len() && ws[i].owner == who
}

/// Whether no two wallets have one owner.
spec fn one_wallet_each(ws: Seq<Wallet>) -> bool {
    forall|i: int, j: int| 0 <= i < j < ws.len() ==> (#[trigger] ws[i]).owner != (#[trigger] ws[j]).owner
}

/// What `who` holds in `ws`.
spec fn funds(ws: Seq<Wallet>, who: Pubkey) -> nat {
    if exists|i: int| wallet_at(ws, who, i) {
        ws[choose|i: int| wallet_at(ws, who, i)].balance as nat
    } else {
        0
    }
}

/// Whether the escrow under `key` is the one at `i`.
spec fn escrow_at(es: Seq<EscrowAccount>, key: (Pubkey, u64), i: int) -> bool {
    0 <= i < es.len() && es[i].task.user == key.0 && es[i].task.task_id == key.1
}

/// Whether no two escrows have one owner and one task.
spec fn one_escrow_each(es: Seq<EscrowAccount>) -> bool {
    forall|i: int, j: int|
        0 <= i < j < es.len() ==> !((#[trigger] es[i]).task.user == (#[trigger] es[j]).task.user
            && es[i].task.task_id == es[j].task.task_id)
}

/// Whether `es` has an escrow under `key`.
spec fn held(es: Seq<EscrowAccount>, key: (Pubkey, u64)) -> bool {
    exists|i: int| escrow_at(es, key, i)
}

/// The escrow that `es` has under `key`.
spec fn escrow_of(es: Seq<EscrowAccount>, key: (Pubkey, u64)) -> EscrowAccount {
    es[choose|i: int| escrow_at(es, key, i)]
}

/// With one wallet each, a party holds what its wallet says.
proof fn lemma_funds_at(ws: Seq<Wallet>, who: Pubkey, i: int)
    requires
        one_wallet_each(ws),
        wallet_at(ws, who, i),
    ensures
        funds(ws, who) == ws[i].balance,
{
    let j = choose|j: int| wallet_at(ws, who, j);
    assert(wallet_at(ws, who, j));
    assert(ws[i].owner == ws[j].owner);
}

/// With one escrow each, the escrow under a key is the one found there.
proof fn lemma_escrow_at(es: Seq<EscrowAccount>, key: (Pubkey, u64), i: int)
    requires
        one_escrow_each(es),
        escrow_at(es, key, i),
    ensures
        held(es, key),
        escrow_of(es, key) == es[i],
{
    let j = choose|j: int| escrow_at(es, key, j);
    assert(escrow_at(es, key, j));
    assert(es[i].task.user == es[j].task.user);
}

/// A wallet that changes its balance changes what its owner holds, and
/// nothing else.
proof fn lemma_wallet_updated(ws: Seq<Wallet>, i: int, balance: u64)
    requires
        one_wallet_each(ws),
        0 <= i < ws.len(),
    ensures
        one_wallet_each(ws.update(i, Wallet { owner: ws[i].owner, balance })),
        forall|x: Pubkey| #[trigger]
            funds(ws.update(i, Wallet { owner: ws[i].owner, balance }), x) == if x == ws[i].owner {
                balance as nat
            } else {
                funds(ws, x)
            },
{
    let after = ws.update(i, Wallet { owner: ws[i].owner, balance });
    assert forall|x: Pubkey| #[trigger]
        funds(after, x) == if x == ws[i].owner {
            balance as nat
        } else {
            funds(ws, x)
        } by {
        assert(wallet_at(ws, ws[i].owner, i));
        if exists|j: int| wallet_at(ws, x, j) {
            let j = choose|j: int| wallet_at(ws, x, j);
            assert(wallet_at(after, x, j));
            lemma_funds_at(ws, x, j);
            lemma_funds_at(after, x, j);
            if x == ws[i].owner {
                lemma_funds_at(after, x, i);
            }
        } else if exists|j: int| wallet_at(after, x, j) {
            let j = choose|j: int| wallet_at(after, x, j);
            assert(wallet_at(ws, x, j));
        }
    }
}

/// A wallet for a party that had none gives that party its balance, and
/// changes nothing else.
proof fn lemma_wallet_added(ws: Seq<Wallet>, wallet: Wallet)
    requires
        one_wallet_each(ws),
        forall|j: int| !wallet_at(ws, wallet.owner, j),
    ensures
        one_wallet_each(ws.push(wallet)),
        funds(ws, wallet.owner) == 0,
        forall|x: Pubkey| #[trigger]
            funds(ws.push(wallet), x) == if x == wallet.owner {
                wallet.balance as nat
            } else {
                funds(ws, x)
            },
{
    let after = ws.push(wallet);
    assert forall|i: int, j: int| 0 <= i < j < after.len() implies (#[trigger] after[i]).owner != (
    #[trigger] after[j]).owner by {
        if j == ws.len() {
            assert(!wallet_at(ws, wallet.owner, i));
        }
    }
    assert forall|x: Pubkey| #[trigger]
        funds(after, x) == if x == wallet.owner {
            wallet.balance as nat
        } else {
            funds(ws, x)
        } by {
        if x == wallet.owner {
            assert(wallet_at(after, x, ws.len() as int));
            lemma_funds_at(after, x, ws.len() as int);
        } else if exists|j: int| wallet_at(ws, x, j) {
            let j = choose|j: int| wallet_at(ws, x, j);
            assert(wallet_at(after, x, j));
            lemma_funds_at(ws, x, j);
            lemma_funds_at(after, x, j);
        } else if exists|j: int| wallet_at(after, x, j) {
            let j = choose|j: int| wallet_at(after, x, j);
            assert(wallet_at(ws, x, j));
        }
    }
}

/// An escrow under a key that held none is then held under that key, and
/// the others stay.
proof fn lemma_escrow_added(es: Seq<EscrowAccount>, escrow: EscrowAccount)
    requires
        one_escrow_each(es),
        forall|j: int| !escrow_at(es, (escrow.task.user, escrow.task.task_id), j),
    ensures
        one_escrow_each(es.push(escrow)),
        forall|key: (Pubkey, u64)| #[trigger]
            held(es.push(escrow), key) == (key == (escrow.task.user, escrow.task.task_id) || held(
                es,
                key,
            )),
        forall|key: (Pubkey, u64)| #[trigger]
            held(es.push(escrow), key) ==> escrow_of(es.push(escrow), key) == if key == (
                escrow.task.user,
                escrow.task.task_id,
            ) {
                escrow
            } else {
                escrow_of(es, key)
            },
{
    let after = es.push(escrow);
    let new_key = (escrow.task.user, escrow.task.task_id);
    assert forall|i: int, j: int| 0 <= i < j < after.len() implies !((#[trigger] after[i]).task.user
        == (#[trigger] after[j]).task.user && after[i].task.task_id == after[j].task.task_id) by {
        if j == es.len() {
            assert(!escrow_at(es, new_key, i));
        }
    }
    assert(escrow_at(after, new_key, es.len() as int));
    assert forall|key: (Pubkey, u64)| #[trigger]
        held(after, key) == (key == new_key || held(es, key)) by {
        if held(es, key) {
            let j = choose|j: int| escrow_at(es, key, j);
            assert(escrow_at(after, key, j));
        }
        if held(after, key) && key != new_key {
            let j = choose|j: int| escrow_at(after, key, j);
            assert(escrow_at(es, key, j));
        }
    }
    assert forall|key: (Pubkey, u64)| #[trigger] held(after, key) implies escrow_of(after, key)
        == if key == new_key {
        escrow
    } else {
        escrow_of(es, key)
    } by {
        if key == new_key {
            lemma_escrow_at(after, key, es.len() as int);
        } else {
            let j = choose|j: int| escrow_at(es, key, j);
            assert(escrow_at(after, key, j));
            lemma_escrow_at(es, key, j);
            lemma_escrow_at(after, key, j);
        }
    }
}

/// An escrow taken out is held no more, and the others stay.
proof fn lemma_escrow_removed(es: Seq<EscrowAccount>, i: int)
    requires
        one_escrow_each(es),
        0 <= i < es.len(),
    ensures
        one_escrow_each(es.remove(i)),
        forall|key: (Pubkey, u64)| #[trigger]
            held(es.remove(i), key) == (key != (es[i].task.user, es[i].task.task_id) && held(
                es,
                key,
            )),
        forall|key: (Pubkey, u64)| #[trigger]
            held(es.remove(i), key) ==> escrow_of(es.remove(i), key) == escrow_of(es, key),
{
    let after = es.remove(i);
    let old_key = (es[i].task.user, es[i].task.task_id);
    assert forall|a: int, b: int| 0 <= a < b < after.len() implies !((#[trigger] after[a]).task.user
        == (#[trigger] after[b]).task.user && after[a].task.task_id == after[b].task.task_id) by {
        let a0 = if a < i { a } else { a + 1 };
        let b0 = if b < i { b } else { b + 1 };
        assert(after[a] == es[a0]);
        assert(after[b] == es[b0]);
    }
    assert forall|key: (Pubkey, u64)| #[trigger]
        held(after, key) == (key != old_key && held(es, key)) by {
        if held(after, key) {
            let j = choose|j: int| escrow_at(after, key, j);
            let j0 = if j < i { j } else { j + 1 };
            assert(after[j] == es[j0]);
            assert(escrow_at(es, key, j0));
            if key == old_key {
                assert(es[i].task.user == es[j0].task.user);
                assert(false);
            }
        }
        if held(es, key) && key != old_key {
            let j = choose|j: int| escrow_at(es, key, j);
            let j1 = if j < i { j } else { j - 1 };
            assert(after[j1] == es[j]);
            assert(escrow_at(after, key, j1));
        }
    }
    assert forall|key: (Pubkey, u64)| #[trigger] held(after, key) implies escrow_of(after, key)
        == escrow_of(es, key) by {
        let j = choose|j: int| escrow_at(after, key, j);
        let j0 = if j < i { j } else { j + 1 };
        assert(after[j] == es[j0]);
        assert(escrow_at(es, key, j0));
        lemma_escrow_at(es, key, j0);
    }
}

impl View for Ledger {
    type V = LedgerState;

    closed spec fn view(&self) -> LedgerState {
        LedgerState {
            rent: self.rent as nat,
            supply: self.supply as nat,
            balances: Map::total(|who: Pubkey| funds(self.wallets@, who)),
            escrows: Map::new(
                |key: (Pubkey, u64)| held(self.escrows@, key),
                |key: (Pubkey, u64)| escrow_of(self.escrows@, key),
            ),
        }
    }
}

impl Ledger {
    /// Whether the ledger is in order: it holds one wallet for a party and
    /// one escrow for an owner and a task, no escrow is completed, each
    /// holds its rent and its stake, and the supply is all that the wallets
    /// and the escrows hold.
    pub closed spec fn wf(&self) -> bool {
        &&& one_wallet_each(self.wallets@)
        &&& one_escrow_each(self.escrows@)
        &&& forall|i: int|
            0 <= i < self.escrows@.len() ==> {
                &&& !(#[trigger] self.escrows@[i]).task.completed
                &&& self.escrows@[i].balance == self.rent + self.escrows@[i].task.staked_amount
            }
        &&& self.supply == total(self.wallets@, wallet_value()) + total(
            self.escrows@,
            escrow_value(),
        )
    }

    /// A ledger in order is in a valid state.
    pub proof fn lemma_wf_valid(&self)
        requires
            self.wf(),
        ensures
            self@.valid(),
    {
        let s = self@;
        assert forall|who: Pubkey| #[trigger]
            s.balances.contains_key(who) && s.balances[who] <= s.supply by {
            if exists|i: int| wallet_at(self.wallets@, who, i) {
                let i = choose|i: int| wallet_at(self.wallets@, who, i);
                lemma_total_bounds(self.wallets@, wallet_value(), i);
            }
        }
        assert forall|key: (Pubkey, u64)| #[trigger] s.escrows.contains_key(key) implies {
            let escrow = s.escrows[key];
            &&& escrow.task.user == key.0
            &&& escrow.task.task_id == key.1
            &&& !escrow.task.completed
            &&& escrow.balance == s.rent + escrow.task.staked_amount
            &&& escrow.balance <= s.supply
        } by {
            let i = choose|i: int| escrow_at(self.escrows@, key, i);
            assert(escrow_at(self.escrows@, key, i));
            lemma_total_bounds(self.escrows@, escrow_value(), i);
        }
    }

    /// A ledger that holds nothing and charges `rent` for the storage of
    /// one escrow record.
    pub fn new(rent: u64) -> (ledger: Ledger)
        ensures
            ledger.wf(),
            ledger@ == LedgerState::empty(rent),
    {
        let ledger = Ledger { rent, supply: 0, wallets: Vec::new(), escrows: Vec::new() };
        assert(ledger@.balances =~= LedgerState::empty(rent).balances);
        assert(ledger@.escrows =~= LedgerState::empty(rent).escrows);
        ledger
    }

    /// Where the wallet of `who` is, if there is one.
    fn find_wallet(&self, who: &Pubkey) -> (found: Option<usize>)
        ensures
            match found {
                Some(i) => wallet_at(self.wallets@, *who, i as int),
                None => forall|i: int| !wallet_at(self.wallets@, *who, i),
            },
    {
        let mut i: usize = 0;
        while i < self.wallets.len()
            invariant
                i <= self.wallets@.len(),
                forall|j: int| 0 <= j < i ==> !wallet_at(self.wallets@, *who, j),
            decreases self.wallets@.len() - i,
        {
            if self.wallets[i].owner == *who {
                return Some(i);
            }
            i += 1;
        }
        None
    }

    /// Where the escrow of `owner` for `task_id` is, if there is one.
    fn find_escrow(&self, owner: &Pubkey, task_id: u64) -> (found: Option<usize>)
        ensures
            match found {
                Some(i) => escrow_at(self.escrows@, (*owner, task_id), i as int),
                None => forall|i: int| !escrow_at(self.escrows@, (*owner, task_id), i),
            },
    {
        let mut i: usize = 0;
        while i < self.escrows.len()
            invariant
                i <= self.escrows@.len(),
                forall|j: int| 0 <= j < i ==> !escrow_at(self.escrows@, (*owner, task_id), j),
            decreases self.escrows@.len() - i,
        {
            if self.escrows[i].task.task_id == task_id && self.escrows[i].task.user == *owner {
                return Some(i);
            }
            i += 1;
        }
        None
    }

    /// Adds `amount` to the wallet of `who`, which is made if there is none.
    fn credit(&mut self, who: Pubkey, amount: u64)
        requires
            one_wallet_each(old(self).wallets@),
            total(old(self).wallets@, wallet_value()) + amount <= u64::MAX,
        ensures
            final(self).rent == old(self).rent,
            final(self).supply == old(self).supply,
            final(self).escrows == old(self).escrows,
            one_wallet_each(final(self).wallets@),
            total(final(self).wallets@, wallet_value()) == total(
                old(self).wallets@,
                wallet_value(),
            ) + amount,
            forall|x: Pubkey| #[trigger]
                funds(final(self).wallets@, x) == if x == who {
                    funds(old(self).wallets@, x) + amount
                } else {
                    funds(old(self).wallets@, x) as int
                },
    {
        match self.find_wallet(&who) {
            Some(i) => {
                let held: u64 = self.wallets[i].balance;
                proof {
                    lemma_total_bounds(self.wallets@, wallet_value(), i as int);
                    lemma_funds_at(self.wallets@, who, i as int);
                    lemma_wallet_updated(self.wallets@, i as int, (held + amount) as u64);
                    lemma_total_update(
                        self.wallets@,
                        wallet_value(),
                        i as int,
                        Wallet { owner: who, balance: (held + amount) as u64 },
                    );
                }
                self.wallets[i] = Wallet { owner: who, balance: held + amount };
            },
            None => {
                proof {
                    lemma_wallet_added(self.wallets@, Wallet { owner: who, balance: amount });
                    lemma_total_push(
                        self.wallets@,
                        wallet_value(),
                        Wallet { owner: who, balance: amount },
                    );
                }
                self.wallets.push(Wallet { owner: who, balance: amount });
            },
        }
    }

    /// Takes `amount` from the wallet of `who`.
    fn debit(&mut self, who: Pubkey, amount: u64)
        requires
            one_wallet_each(old(self).wallets@),
            amount <= funds(old(self).wallets@, who),
        ensures
            final(self).rent == old(self).rent,
            final(self).supply == old(self).supply,
            final(self).escrows == old(self).escrows,
            one_wallet_each(final(self).wallets@),
            total(final(self).wallets@, wallet_value()) + amount == total(
                old(self).wallets@,
                wallet_value(),
            ),
            forall|x: Pubkey| #[trigger]
                funds(final(self).wallets@, x) == if x == who {
                    funds(old(self).wallets@, x) - amount
                } else {
                    funds(old(self).wallets@, x) as int
                },
    {
        match self.find_wallet(&who) {
            Some(i) => {
                let held: u64 = self.wallets[i].balance;
                proof {
                    lemma_funds_at(self.wallets@, who, i as int);
                    lemma_wallet_updated(self.wallets@, i as int, (held - amount) as u64);
                    lemma_total_update(
                        self.wallets@,
                        wallet_value(),
                        i as int,
                        Wallet { owner: who, balance: (held - amount) as u64 },
                    );
                }
                self.wallets[i] = Wallet { owner: who, balance: held - amount };
            },
            None => {},
        }
    }

    /// Puts `amount` of new value into the free balance of `who`, unless
    /// the ledger would then hold more than 64 bits can count. Says whether
    /// it did.
    pub fn deposit(&mut self, who: Pubkey, amount: u64) -> (done: bool)
        requires
            old(self).wf(),
        ensures
            final(self).wf(),
            done == (old(self)@.supply + amount <= u64::MAX),
            done ==> final(self)@ == old(self)@.deposit(who, amount),
            !done ==> final(self)@ == old(self)@,
    {
        let supply = match self.supply.checked_add(amount) {
            Some(supply) => supply,
            None => {
                return false;
            },
        };
        self.credit(who, amount);
        self.supply = supply;
        proof {
            assert(final(self)@.balances =~= old(self)@.deposit(who, amount).balances);
        }
        true
    }

    /// Opens the escrow of `task`: the rent and the amount staked leave the
    /// free balance of the owner for the custody of the escrow.
    pub(crate) fn open(&mut self, task: Task)
        requires
            old(self).wf(),
            !task.completed,
            !old(self)@.is_active(task.user, task.task_id),
            old(self)@.cost(task.staked_amount) <= old(self)@.balances[task.user],
        ensures
            final(self).wf(),
            old(self)@.stake(task.user, task.task_id, task.deadline, task.staked_amount) == Ok::<
                LedgerState,
                CustomError,
            >(final(self)@),
    {
        proof {
            self.lemma_wf_valid();
            assert forall|j: int| !escrow_at(self.escrows@, (task.user, task.task_id), j) by {
                if escrow_at(self.escrows@, (task.user, task.task_id), j) {
                    lemma_escrow_at(self.escrows@, (task.user, task.task_id), j);
                }
            }
        }
        let cost: u64 = self.rent + task.staked_amount;
        let escrow = EscrowAccount { task, balance: cost };
        self.debit(task.user, cost);
        proof {
            lemma_escrow_added(self.escrows@, escrow);
            lemma_total_push(self.escrows@, escrow_value(), escrow);
        }
        self.escrows.push(escrow);
        proof {
            let want = old(self)@.stake(
                task.user,
                task.task_id,
                task.deadline,
                task.staked_amount,
            )->Ok_0;
            assert(final(self)@.balances =~= want.balances);
            assert(final(self)@.escrows =~= want.escrows);
        }
    }

    /// Closes the escrow of `owner` for `task_id`: it is active no more, and
    /// all that it held is back in the free balance of its owner.
    pub(crate) fn close(&mut self, owner: &Pubkey, task_id: u64)
        requires
            old(self).wf(),
            old(self)@.is_active(*owner, task_id),
        ensures
            final(self).wf(),
            final(self)@ == (LedgerState {
                balances: old(self)@.balances.insert(
                    *owner,
                    old(self)@.balances[*owner] + old(self)@.escrows[(*owner, task_id)].balance as nat,
                ),
                escrows: old(self)@.escrows.remove((*owner, task_id)),
                ..old(self)@
            }),
    {
        if let Some(i) = self.find_escrow(owner, task_id) {
            proof {
                lemma_escrow_at(self.escrows@, (*owner, task_id), i as int);
                lemma_escrow_removed(self.escrows@, i as int);
                lemma_total_remove(self.escrows@, escrow_value(), i as int);
            }
            let closed = self.escrows.remove(i);
            self.credit(closed.task.user, closed.balance);
        }
        proof {
            assert(final(self)@.balances =~= old(self)@.balances.insert(
                *owner,
                old(self)@.balances[*owner] + old(self)@.escrows[(*owner, task_id)].balance as nat,
            ));
            assert(final(self)@.escrows =~= old(self)@.escrows.remove((*owner, task_id)));
        }
    }

    /// What the storage of one escrow record costs.
    pub fn rent(&self) -> (rent: u64)
        ensures
            rent == self@.rent,
    {
        self.rent
    }

    /// All the value that the ledger holds.
    pub fn supply(&self) -> (supply: u64)
        ensures
            supply == self@.supply,
    {
        self.supply
    }

    /// The free balance of `who`.
    pub fn balance(&self, who: &Pubkey) -> (balance: u64)
        requires
            self.wf(),
        ensures
            balance == self@.balances[*who],
    {
        match self.find_wallet(who) {
            Some(i) => {
                proof {
                    lemma_funds_at(self.wallets@, *who, i as int);
                }
                self.wallets[i].balance
            },
            None => 0,
        }
    }

    /// The active escrow of `owner` for `task_id`, if there is one.
    pub fn escrow(&self, owner: &Pubkey, task_id: u64) -> (found: Option<EscrowAccount>)
        requires
            self.wf(),
        ensures
            found is Some == self@.is_active(*owner, task_id),
            found is Some ==> found->Some_0 == self@.escrows[(*owner, task_id)],
    {
        match self.find_escrow(owner, task_id) {
            Some(i) => {
                proof {
                    lemma_escrow_at(self.escrows@, (*owner, task_id), i as int);
                }
                Some(self.escrows[i])
            },
            None => None,
        }
    }
}

} // verus!
