//! A fixed-supply fungible token ledger: balances per account, a total supply
//! that equals their sum in every reachable state, and a transfer that moves
//! value between accounts and records a notification for each movement.
pub mod storage;
pub mod sum;
pub mod token;

pub use storage::Balance;
pub use token::{Token, Transfer};
