//! A custodial escrow with batch payouts, verified with Verus.
//!
//! Employers deposit a fungible asset into the escrow, which keeps books of
//! what each of them has available. An employer pays a list of workers out of
//! its balance in one batch; an admin can do so on an employer's behalf, move
//! an employer's balance out in an emergency, change the tracked asset and
//! hand its role on.
//!
//! The asset itself lives in a contract outside this library. Every call to
//! it goes through a gateway that the caller supplies, and nothing is assumed
//! of its answers: each operation says what it does for every answer that
//! can come back, and which calls it makes.
//!
//! - [`identity`] and [`amount`]: account identifiers and 256-bit quantities.
//! - [`ledger`]: the books, and what a credit and a debit do to them.
//! - [`gateway`]: the calls to asset contracts, and the record of them.
//! - [`deposit`]: how a deposit is taken into the books.
//! - [`state`]: the escrow as a mathematical value, and what each operation
//!   makes of it.
//! - [`pool`]: the escrow itself, with its access control, payouts and
//!   withdrawals.
//! - [`solvency`]: what holds of the books over whole runs of operations.
//! - [`trivia`]: a prize pool that splits a host's deposit among winners.
//! - [`counter`]: a counter that charges for counting up.
//! - [`wire`]: the bytes of requests to, and answers from, asset contracts.

pub mod amount;
pub mod counter;
pub mod deposit;
pub mod gateway;
pub mod identity;
pub mod ledger;
pub mod pool;
pub mod solvency;
pub mod state;
pub mod trivia;
pub mod wire;
