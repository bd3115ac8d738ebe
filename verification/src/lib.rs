//! A deadline-gated escrow: value is locked against a task and a deadline,
//! and returns to its owner only when the task is confirmed in time.

pub mod context;
pub mod error;
pub mod goal_tracker;
pub mod laws;
pub mod ledger;
pub mod pubkey;
pub mod state;
pub mod task;
mod total;

pub use crate::context::{CompleteTask, StakeTask};
pub use crate::error::CustomError;
pub use crate::ledger::Ledger;
pub use crate::pubkey::Pubkey;
pub use crate::state::{EscrowAccount, LedgerState};
pub use crate::task::Task;
