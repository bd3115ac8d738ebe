use stake::{CustomError, Pubkey, Task};

fn party(tag: u8) -> Pubkey {
    Pubkey::new([tag; 32])
}

fn sample() -> Task {
    let mut user = [0u8; 32];
    for (i, byte) in user.iter_mut().enumerate() {
        *byte = i as u8;
    }
    Task {
        user: Pubkey::new(user),
        task_id: 0x0102030405060708,
        deadline: -2,
        completed: true,
        staked_amount: 500,
    }
}

#[test]
fn record_takes_sixty_five_bytes() {
    assert_eq!(Task::LEN, 65);
    assert_eq!(Task::PAYLOAD_LEN, 57);
}

#[test]
fn identities_are_the_same_when_all_bytes_agree() {
    let mut bytes = [3u8; 32];
    assert_eq!(Pubkey::new(bytes), party(3));
    assert_eq!(party(3).to_bytes(), bytes);
    bytes[31] = 4;
    assert_ne!(Pubkey::new(bytes), party(3));
    bytes[31] = 3;
    bytes[0] = 0;
    assert_ne!(Pubkey::new(bytes), party(3));
}

#[test]
fn new_record_holds_what_was_given() {
    assert_eq!(
        Task::new(party(9), 3, 77, 12),
        Task { user: party(9), task_id: 3, deadline: 77, completed: false, staked_amount: 12 }
    );
    assert_eq!(
        Task::new(party(0), u64::MAX, i64::MIN, u64::MAX),
        Task {
            user: party(0),
            task_id: u64::MAX,
            deadline: i64::MIN,
            completed: false,
            staked_amount: u64::MAX
        }
    );
}

#[test]
fn record_is_marked_when_completed_in_time() {
    let fresh = Task::new(party(1), 1, 100, 5);
    let mut task = fresh;
    assert_eq!(task.complete(&party(1), 99), Ok(()));
    assert_eq!(task, Task { completed: true, ..fresh });
    let mut task = fresh;
    assert_eq!(task.complete(&party(1), 100), Ok(()));
    assert!(task.completed);
}

#[test]
fn record_stays_when_completed_late_or_by_another() {
    let fresh = Task::new(party(1), 1, 100, 5);
    let mut task = fresh;
    assert_eq!(task.complete(&party(1), 101), Err(CustomError::DeadlinePassed));
    assert_eq!(task, fresh);
    assert_eq!(task.complete(&party(2), 50), Err(CustomError::NotOwner));
    assert_eq!(task, fresh);
    assert_eq!(task.complete(&party(2), 101), Err(CustomError::NotOwner));
    assert_eq!(task, fresh);
}

#[test]
fn record_bytes_are_laid_out_field_by_field() {
    let bytes = sample().to_bytes();
    assert_eq!(bytes.len(), 57);
    let mut want: Vec<u8> = (0u8..32).collect();
    want.extend_from_slice(&[8, 7, 6, 5, 4, 3, 2, 1]);
    want.extend_from_slice(&[0xfe, 0xff, 0xff, 0xff, 0xff, 0xff, 0xff, 0xff]);
    want.push(1);
    want.extend_from_slice(&[0xf4, 0x01, 0, 0, 0, 0, 0, 0]);
    assert_eq!(bytes, want);
}

#[test]
fn record_comes_back_from_its_bytes() {
    let task = sample();
    assert_eq!(Task::from_bytes(&task.to_bytes()), Some(task));
    let other = Task {
        user: party(0xff),
        task_id: u64::MAX,
        deadline: i64::MIN,
        completed: false,
        staked_amount: 0,
    };
    assert_eq!(Task::from_bytes(&other.to_bytes()), Some(other));
}

#[test]
fn bytes_of_the_wrong_length_are_no_record() {
    let mut bytes = sample().to_bytes();
    bytes.push(0);
    assert_eq!(Task::from_bytes(&bytes), None);
    bytes.truncate(56);
    assert_eq!(Task::from_bytes(&bytes), None);
    assert_eq!(Task::from_bytes(&[]), None);
}

#[test]
fn a_flag_that_is_neither_zero_nor_one_is_no_record() {
    let mut bytes = sample().to_bytes();
    bytes[48] = 2;
    assert_eq!(Task::from_bytes(&bytes), None);
    bytes[48] = 0;
    assert_eq!(Task::from_bytes(&bytes), Some(Task { completed: false, ..sample() }));
}

#[test]
fn every_error_has_its_message() {
    assert_eq!(CustomError::DeadlinePassed.message(), "Task deadline has passed");
    assert_eq!(CustomError::NotOwner.message(), "Caller does not own the task");
    assert_eq!(CustomError::NotFound.message(), "Task not found");
    assert_eq!(CustomError::DuplicateEscrow.message(), "Task already staked");
    assert_eq!(CustomError::InsufficientFunds.message(), "Insufficient funds for the stake");
}
