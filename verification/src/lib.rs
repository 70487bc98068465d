//! Wallet-side logic of the Paqus command line wallet: amounts, command
//! lines, menus, node responses, QCash files, nonces and pool payouts.

pub mod chars;
pub mod decimal;
pub mod amount;
pub mod names;
pub mod http;
pub mod tally;
pub mod stats;
pub mod json;
pub mod qcash;
pub mod nonce;
pub mod pool;
pub mod text;
pub mod cli;
pub mod commands;
pub mod menus;
pub mod keys;
pub mod laws;
pub mod payout;
pub mod routing;

