use stake::goal_tracker::{complete_task, stake_task};
use stake::{CompleteTask, CustomError, EscrowAccount, Ledger, Pubkey, StakeTask, Task};

fn party(tag: u8) -> Pubkey {
    Pubkey::new([tag; 32])
}

fn stake(
    ledger: &mut Ledger,
    owner: Pubkey,
    task_id: u64,
    deadline: i64,
    stake_amount: u64,
) -> Result<(), CustomError> {
    stake_task(ledger, &StakeTask { user: owner }, task_id, deadline, stake_amount)
}

fn complete(
    ledger: &mut Ledger,
    caller: Pubkey,
    owner: Pubkey,
    task_id: u64,
    now: i64,
) -> Result<(), CustomError> {
    complete_task(ledger, &CompleteTask { owner, task_id, user: caller }, now)
}

fn funded(rent: u64, who: Pubkey, amount: u64) -> Ledger {
    let mut ledger = Ledger::new(rent);
    assert!(ledger.deposit(who, amount));
    ledger
}

#[test]
fn new_ledger_holds_nothing() {
    let ledger = Ledger::new(7);
    assert_eq!(ledger.rent(), 7);
    assert_eq!(ledger.supply(), 0);
    assert_eq!(ledger.balance(&party(1)), 0);
    assert_eq!(ledger.escrow(&party(1), 1), None);
}

#[test]
fn deposit_adds_to_balance_and_supply() {
    let a = party(1);
    let b = party(2);
    let mut ledger = Ledger::new(0);
    assert!(ledger.deposit(a, 40));
    assert!(ledger.deposit(b, 2));
    assert!(ledger.deposit(a, 60));
    assert_eq!(ledger.balance(&a), 100);
    assert_eq!(ledger.balance(&b), 2);
    assert_eq!(ledger.supply(), 102);
}

#[test]
fn deposit_beyond_sixty_four_bits_is_refused() {
    let a = party(1);
    let b = party(2);
    let mut ledger = Ledger::new(0);
    assert!(ledger.deposit(a, u64::MAX - 1));
    assert!(!ledger.deposit(b, 2));
    assert_eq!(ledger.balance(&a), u64::MAX - 1);
    assert_eq!(ledger.balance(&b), 0);
    assert_eq!(ledger.supply(), u64::MAX - 1);
    assert!(ledger.deposit(b, 1));
    assert_eq!(ledger.supply(), u64::MAX);
}

#[test]
fn stake_records_the_escrow_as_given() {
    let a = party(1);
    let mut ledger = funded(10, a, 1000);
    let want = Task { user: a, task_id: 7, deadline: -5, completed: false, staked_amount: 300 };
    assert_eq!(stake(&mut ledger, a, 7, -5, 300), Ok(()));
    assert_eq!(ledger.escrow(&a, 7), Some(EscrowAccount { task: want, balance: 310 }));
    assert_eq!(ledger.balance(&a), 690);
    assert_eq!(ledger.supply(), 1000);
}

#[test]
fn stake_then_complete_gives_everything_back() {
    let a = party(1);
    let mut ledger = funded(25, a, 800);
    assert!(stake(&mut ledger, a, 9, 5000, 700).is_ok());
    assert_eq!(ledger.balance(&a), 75);
    assert_eq!(complete(&mut ledger, a, a, 9, 4000), Ok(()));
    assert_eq!(ledger.escrow(&a, 9), None);
    assert_eq!(ledger.balance(&a), 800);
    assert_eq!(ledger.supply(), 800);
}

#[test]
fn scenario_in_time_and_too_late() {
    let a = party(0xA);
    let mut ledger = funded(0, a, 1000);

    assert!(stake(&mut ledger, a, 1, 1000, 500).is_ok());
    assert_eq!(ledger.balance(&a), 500);
    assert_eq!(complete(&mut ledger, a, a, 1, 999), Ok(()));
    assert_eq!(ledger.escrow(&a, 1), None);
    assert_eq!(ledger.balance(&a), 1000);

    assert!(stake(&mut ledger, a, 2, 1000, 500).is_ok());
    assert_eq!(complete(&mut ledger, a, a, 2, 1001), Err(CustomError::DeadlinePassed));
    let left = ledger.escrow(&a, 2).unwrap();
    assert!(!left.task.completed);
    assert_eq!(left.task, Task { user: a, task_id: 2, deadline: 1000, completed: false, staked_amount: 500 });
    assert_eq!(left.balance, 500);
    assert_eq!(ledger.balance(&a), 500);
}

#[test]
fn completion_at_the_deadline_succeeds() {
    let a = party(1);
    let mut ledger = funded(3, a, 100);
    assert!(stake(&mut ledger, a, 1, 1000, 50).is_ok());
    assert_eq!(complete(&mut ledger, a, a, 1, 1000), Ok(()));
    assert_eq!(ledger.escrow(&a, 1), None);
    assert_eq!(ledger.balance(&a), 100);
}

#[test]
fn completion_one_second_late_fails_and_keeps_failing() {
    let a = party(1);
    let mut ledger = funded(3, a, 100);
    assert!(stake(&mut ledger, a, 1, 1000, 50).is_ok());
    let before = ledger.escrow(&a, 1);
    assert_eq!(complete(&mut ledger, a, a, 1, 1001), Err(CustomError::DeadlinePassed));
    assert_eq!(complete(&mut ledger, a, a, 1, 2000), Err(CustomError::DeadlinePassed));
    assert_eq!(complete(&mut ledger, a, a, 1, i64::MAX), Err(CustomError::DeadlinePassed));
    assert_eq!(ledger.escrow(&a, 1), before);
    assert_eq!(ledger.balance(&a), 47);
    assert_eq!(ledger.supply(), 100);
}

#[test]
fn second_stake_on_one_task_is_refused() {
    let a = party(1);
    let mut ledger = funded(1, a, 100);
    assert!(stake(&mut ledger, a, 4, 10, 20).is_ok());
    let first = ledger.escrow(&a, 4);
    assert_eq!(stake(&mut ledger, a, 4, 10, 20), Err(CustomError::DuplicateEscrow));
    assert_eq!(stake(&mut ledger, a, 4, 99, 1), Err(CustomError::DuplicateEscrow));
    assert_eq!(ledger.escrow(&a, 4), first);
    assert_eq!(ledger.balance(&a), 79);
}

#[test]
fn duplicate_is_told_before_missing_funds() {
    let a = party(1);
    let mut ledger = funded(0, a, 10);
    assert!(stake(&mut ledger, a, 4, 10, 10).is_ok());
    assert_eq!(ledger.balance(&a), 0);
    assert_eq!(stake(&mut ledger, a, 4, 10, 10), Err(CustomError::DuplicateEscrow));
    assert_eq!(stake(&mut ledger, a, 5, 10, 10), Err(CustomError::InsufficientFunds));
}

#[test]
fn stranger_cannot_complete() {
    let a = party(1);
    let b = party(2);
    let mut ledger = funded(2, a, 100);
    assert!(ledger.deposit(b, 5));
    assert!(stake(&mut ledger, a, 1, 1000, 50).is_ok());
    let before = ledger.escrow(&a, 1);
    assert_eq!(complete(&mut ledger, b, a, 1, 10), Err(CustomError::NotOwner));
    assert_eq!(complete(&mut ledger, b, a, 1, 1000), Err(CustomError::NotOwner));
    assert_eq!(complete(&mut ledger, b, a, 1, 1001), Err(CustomError::NotOwner));
    assert_eq!(ledger.escrow(&a, 1), before);
    assert_eq!(ledger.balance(&a), 48);
    assert_eq!(ledger.balance(&b), 5);
    assert_eq!(complete(&mut ledger, a, a, 1, 10), Ok(()));
    assert_eq!(ledger.balance(&a), 100);
    assert_eq!(ledger.balance(&b), 5);
}

#[test]
fn completion_of_nothing_is_not_found() {
    let a = party(1);
    let b = party(2);
    let mut ledger = funded(0, a, 100);
    assert_eq!(complete(&mut ledger, a, a, 1, 0), Err(CustomError::NotFound));
    assert!(stake(&mut ledger, a, 1, 10, 5).is_ok());
    assert_eq!(complete(&mut ledger, a, a, 2, 0), Err(CustomError::NotFound));
    assert_eq!(complete(&mut ledger, b, b, 1, 0), Err(CustomError::NotFound));
    assert_eq!(complete(&mut ledger, a, a, 1, 0), Ok(()));
    assert_eq!(complete(&mut ledger, a, a, 1, 0), Err(CustomError::NotFound));
}

#[test]
fn stake_needs_rent_and_amount() {
    let a = party(1);
    let mut ledger = funded(10, a, 109);
    assert_eq!(stake(&mut ledger, a, 1, 0, 100), Err(CustomError::InsufficientFunds));
    assert_eq!(ledger.escrow(&a, 1), None);
    assert_eq!(ledger.balance(&a), 109);
    assert!(ledger.deposit(a, 1));
    assert!(stake(&mut ledger, a, 1, 0, 100).is_ok());
    assert_eq!(ledger.balance(&a), 0);
    assert_eq!(ledger.escrow(&a, 1).unwrap().balance, 110);
}

#[test]
fn stake_whose_cost_no_one_can_hold_is_refused() {
    let a = party(1);
    let mut ledger = funded(1, a, u64::MAX);
    assert_eq!(stake(&mut ledger, a, 1, 0, u64::MAX), Err(CustomError::InsufficientFunds));
    assert_eq!(ledger.balance(&a), u64::MAX);
    assert!(stake(&mut ledger, a, 1, 0, u64::MAX - 1).is_ok());
    assert_eq!(ledger.balance(&a), 0);
}

#[test]
fn stake_without_funds_is_refused() {
    let a = party(1);
    let mut ledger = Ledger::new(0);
    assert_eq!(stake(&mut ledger, a, 1, 0, 1), Err(CustomError::InsufficientFunds));
    assert!(stake(&mut ledger, a, 1, 0, 0).is_ok());
    assert_eq!(ledger.escrow(&a, 1).unwrap().balance, 0);
    assert_eq!(complete(&mut ledger, a, a, 1, 0), Ok(()));
    assert_eq!(ledger.balance(&a), 0);
}

#[test]
fn escrow_made_after_its_deadline_stays_for_good() {
    let a = party(1);
    let mut ledger = funded(0, a, 100);
    assert!(stake(&mut ledger, a, 1, -1, 60).is_ok());
    assert_eq!(complete(&mut ledger, a, a, 1, 0), Err(CustomError::DeadlinePassed));
    assert_eq!(ledger.escrow(&a, 1).unwrap().balance, 60);
    assert_eq!(ledger.balance(&a), 40);
}

#[test]
fn one_owner_holds_an_escrow_for_each_task() {
    let a = party(1);
    let b = party(2);
    let mut ledger = funded(1, a, 100);
    assert!(ledger.deposit(b, 100));
    assert!(stake(&mut ledger, a, 1, 10, 10).is_ok());
    assert!(stake(&mut ledger, a, 2, 20, 20).is_ok());
    assert!(stake(&mut ledger, b, 1, 30, 30).is_ok());
    assert_eq!(ledger.balance(&a), 68);
    assert_eq!(ledger.balance(&b), 69);
    assert_eq!(complete(&mut ledger, a, a, 1, 10), Ok(()));
    assert_eq!(ledger.escrow(&a, 1), None);
    assert_eq!(ledger.escrow(&a, 2).unwrap().task.deadline, 20);
    assert_eq!(ledger.escrow(&b, 1).unwrap().task.staked_amount, 30);
    assert_eq!(ledger.balance(&a), 79);
    assert_eq!(complete(&mut ledger, b, b, 1, 30), Ok(()));
    assert_eq!(ledger.balance(&b), 100);
    assert_eq!(complete(&mut ledger, a, a, 2, 21), Err(CustomError::DeadlinePassed));
    assert_eq!(ledger.supply(), 200);
}

#[test]
fn a_closed_task_can_be_staked_again() {
    let a = party(1);
    let mut ledger = funded(0, a, 10);
    assert!(stake(&mut ledger, a, 1, 10, 10).is_ok());
    assert_eq!(complete(&mut ledger, a, a, 1, 5), Ok(()));
    assert!(stake(&mut ledger, a, 1, 20, 4).is_ok());
    assert_eq!(ledger.escrow(&a, 1).unwrap().task.deadline, 20);
    assert_eq!(ledger.balance(&a), 6);
}

#[test]
fn deadlines_at_the_ends_of_time() {
    let a = party(1);
    let mut ledger = funded(0, a, 10);
    assert!(stake(&mut ledger, a, 1, i64::MAX, 1).is_ok());
    assert!(stake(&mut ledger, a, 2, i64::MIN, 1).is_ok());
    assert_eq!(complete(&mut ledger, a, a, 2, i64::MIN + 1), Err(CustomError::DeadlinePassed));
    assert_eq!(complete(&mut ledger, a, a, 2, i64::MIN), Ok(()));
    assert_eq!(complete(&mut ledger, a, a, 1, i64::MAX), Ok(()));
    assert_eq!(ledger.balance(&a), 10);
}
