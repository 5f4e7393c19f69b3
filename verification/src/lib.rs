//! Balance reporting for wallets on the Solana chain: the configuration, the
//! decoding of addresses, the choice of the token accounts that count, the
//! order in which a run asks a node for balances, and the layout of the
//! report.

pub mod accounts;
pub mod address;
pub mod config;
pub mod fetch;
pub mod ledger;
pub mod report;
