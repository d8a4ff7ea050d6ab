//! A reputation-gated micro-lending protocol as three verified state machines:
//! a ledger pool of deposits, a reputation registry of scores, and a loan
//! gatekeeper that reads and feeds the registry.
//!
//! The host platform is kept at the edge: the caller passes the identities that
//! authorized an invocation, the pool's token balance and the current time, and
//! performs the token transfers and publishes the events that come back.
pub mod types;
pub mod lending_pool;
pub mod remittance_nft;
pub mod loan_manager;

pub use types::{Address, Error, Event, Transfer, has_signed};
pub use lending_pool::LendingPool;
pub use remittance_nft::{RemittanceNFT, RemittanceMetadata};
pub use loan_manager::LoanManager;
