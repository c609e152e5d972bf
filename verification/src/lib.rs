//! A multi-chain gateway core: a registry of EVM chain configurations and the
//! pipeline that turns a transfer request into a signed, broadcast transaction.

pub mod address;
pub mod agent;
pub mod balance;
pub mod client;
pub mod config;
pub mod registry;
pub mod transfer;
pub mod types;
