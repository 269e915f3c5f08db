//! Landing-time benchmark for Solana transaction senders.
//!
//! One signed transaction is sent through every configured endpoint in each round, all of them
//! spending the same durable nonce, so that at most one lands. The library holds the rules of
//! the benchmark; connecting, sending, sleeping and printing are left to its caller.

pub mod book;
pub mod chain;
pub mod cli;
pub mod codec;
pub mod config;
pub mod keys;
pub mod listener;
pub mod nonce;
pub mod payload;
pub mod report;
pub mod run;
pub mod send;
pub mod soyas;
pub mod stats;
pub mod table;
pub mod text;

